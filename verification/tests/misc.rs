use std::collections::HashMap;

use rustoki::startup::ready_plan;
use rustoki::avatar::{avatar_png_url, me_avatar_url, update_avatar_size};
use rustoki::pixels::{average_center_color, load_rgb, RgbPixels};
use rustoki::quoted::parse_quoted;
use rustoki::trap::{
    check_trap_channel, has_trap, hit_trap, remove_trap, set_trap, set_trap_if_absent, trap_list_text, trap_note_text, ChannelLookup,
    TrapChannel, TrapNote, TrapTable,
};

fn tokens(s: &str) -> Vec<Vec<char>> {
    s.split_whitespace().map(|w| w.chars().collect()).collect()
}

#[test]
fn traps_hit_only_their_channel() {
    let mut t: TrapTable = HashMap::new();
    assert_eq!(hit_trap(&t, 1, 10), None);
    set_trap(&mut t, 1, 10, Some(99));
    set_trap(&mut t, 2, 20, None);
    assert!(has_trap(&t, 1));
    assert_eq!(hit_trap(&t, 1, 10), Some(Some(99)));
    assert_eq!(hit_trap(&t, 1, 11), None);
    assert_eq!(hit_trap(&t, 2, 20), Some(None));
    remove_trap(&mut t, 1);
    assert!(!has_trap(&t, 1));
    assert_eq!(hit_trap(&t, 1, 10), None);
    assert_eq!(hit_trap(&t, 2, 20), Some(None));
}

#[test]
fn trap_list() {
    let rule = "+------------------+------------------+------------------+\n";
    let list = trap_list_text(&vec![(1, (22, Some(333))), (4, (55, None))]);
    let row1 = format!("| {:<16} | {:<16} | {:<16} |\n", 1, 22, 333);
    let row2 = format!("| {:<16} | {:<16} | {:<16} |\n", 4, 55, "None");
    let expected = format!(
        "```\n{rule}| guild_id         | channel_id       | log_id           |\n{rule}{row1}{row2}{rule}```"
    );
    assert_eq!(list, expected);
    let wide = trap_list_text(&vec![(u64::MAX, (1, None))]);
    assert!(wide.contains(&format!("| {} | 1                | None             |\n", u64::MAX)));
}

#[test]
fn avatar_sizes() {
    let default = "https://cdn.discordapp.com/embed/avatars/3.png?size=64";
    assert_eq!(update_avatar_size(default), default);
    assert_eq!(
        update_avatar_size("https://cdn.discordapp.com/avatars/1/a.png?size=128"),
        "https://cdn.discordapp.com/avatars/1/a.png?size=4096"
    );
    assert_eq!(update_avatar_size("x?size=1?size=2"), "x?size=4096");
    assert_eq!(update_avatar_size("https://x/a.png"), "https://x/a.png?size=4096");
    assert_eq!(update_avatar_size("No avatar"), "No avatar?size=4096");
}

#[test]
fn avatar_urls() {
    assert_eq!(avatar_png_url(5, "h"), "https://cdn.discordapp.com/avatars/5/h.png");
    assert_eq!(me_avatar_url(5, Some("h"), "d"), "https://cdn.discordapp.com/avatars/5/h.png");
    assert_eq!(me_avatar_url(5, None, "d"), "d");
}

#[test]
fn quoted_arguments() {
    let t = tokens("\"hello big world\" next");
    let (r, next) = parse_quoted(&t, 0, "--title", 256);
    assert_eq!(r, Ok("hello big world".to_string()));
    assert_eq!(next, 3);
    let (r, next) = parse_quoted(&t, 4, "--title", 256);
    assert_eq!(r, Err("--title null".to_string()));
    assert_eq!(next, 4);
    let (r, next) = parse_quoted(&tokens("\"\"\"x\"\" y"), 0, "--d", 256);
    assert_eq!(r, Ok("x".to_string()));
    assert_eq!(next, 1);
    let (r, _) = parse_quoted(&tokens("\"é\""), 0, "--d", 1);
    assert_eq!(r, Err("--d length must be <= 1".to_string()));
    let (r, next) = parse_quoted(&tokens("\"open and never closed"), 0, "--d", 256);
    assert_eq!(r, Err("--d missing closing quote (\")".to_string()));
    assert_eq!(next, 4);
}

fn png_of(img: &image::RgbImage) -> Vec<u8> {
    let mut out = std::io::Cursor::new(Vec::new());
    img.write_to(&mut out, image::ImageFormat::Png).unwrap();
    out.into_inner()
}

#[test]
fn images_are_decoded() {
    let mut img = image::RgbImage::new(4, 3);
    img.put_pixel(1, 2, image::Rgb([9, 8, 7]));
    let px = load_rgb(&png_of(&img)).expect("a PNG");
    assert_eq!((px.width, px.height), (4, 3));
    assert_eq!(px.data.len(), 36);
    assert_eq!(&px.data[(2 * 4 + 1) * 3..(2 * 4 + 1) * 3 + 3], &[9, 8, 7]);
    assert!(load_rgb(b"not an image").is_none());
}

#[test]
fn centre_colour_is_the_floor_of_the_average() {
    let mut img = image::RgbImage::from_pixel(4, 4, image::Rgb([10, 20, 30]));
    img.put_pixel(3, 3, image::Rgb([255, 255, 255]));
    let px = load_rgb(&png_of(&img)).unwrap();
    // a side of 3 starts at (0, 0) and leaves the last row and column out
    assert_eq!(average_center_color(&px, 3), (10, 20, 30));
    // the whole image: (15 * 10 + 255) / 16, (15 * 20 + 255) / 16, (15 * 30 + 255) / 16
    assert_eq!(average_center_color(&px, 4), (25, 34, 44));
    let mut img = image::RgbImage::new(5, 5);
    img.put_pixel(1, 1, image::Rgb([10, 0, 0]));
    let px = RgbPixels { width: 5, height: 5, data: img.into_raw() };
    // side 3 starts at (1, 1): 10 / 9 rounds down to 1
    assert_eq!(average_center_color(&px, 3), (1, 0, 0));
    assert_eq!(average_center_color(&px, 1), (0, 0, 0));
}

#[test]
fn trap_channels_must_be_text_channels_of_the_server() {
    let ok = ChannelLookup::ServerChannel { guild: 7, is_text: true };
    assert_eq!(check_trap_channel(TrapChannel::Trigger, ok, 7), None);
    assert_eq!(check_trap_channel(TrapChannel::Log, ok, 7), None);
    assert_eq!(check_trap_channel(TrapChannel::Trigger, ok, 8), Some(TrapNote::TriggerOtherServer));
    assert_eq!(
        check_trap_channel(TrapChannel::Log, ChannelLookup::ServerChannel { guild: 7, is_text: false }, 7),
        Some(TrapNote::LogNotText)
    );
    assert_eq!(check_trap_channel(TrapChannel::Log, ChannelLookup::Missing, 7), Some(TrapNote::LogMissing));
    assert_eq!(
        check_trap_channel(TrapChannel::Trigger, ChannelLookup::NotServerChannel, 7),
        Some(TrapNote::TriggerNotServer)
    );
    assert_eq!(trap_note_text(TrapNote::TrapSet, false), "Trap has been set");
    assert_eq!(trap_note_text(TrapNote::TrapSet, true), "함정이 설정되었어");
    assert_eq!(
        trap_note_text(TrapNote::CannotSendLogs, false),
        "I don't have permission to send messages from the log server"
    );
    assert_eq!(trap_note_text(TrapNote::NotSet, true), "함정이 설정되어 있지 않아");
}

#[test]
fn resizing_an_avatar_twice_changes_nothing_more() {
    let urls = [
        "https://cdn.discordapp.com/avatars/1/abc.png",
        "https://cdn.discordapp.com/avatars/1/abc.png?size=128",
        "https://cdn.discordapp.com/avatars/1/abc.webp?size=1024&x=1",
        "https://cdn.discordapp.com/embed/avatars/0.png",
        "https://cdn.discordapp.com/embed/avatars/0.png?size=64",
        "",
        "?size=",
    ];
    for url in urls {
        let once = update_avatar_size(url);
        let twice = update_avatar_size(&once);
        assert_eq!(twice, once, "{}", url);
    }
}

#[test]
fn ready_on_first_start_registers_and_starts_tasks() {
    let plan = ready_plan(false, "Rustoki", 42, 42);
    assert_eq!(plan.log_line, "Rustoki !!");
    assert!(plan.proceed);
    assert!(plan.first_start);
    assert_eq!(plan.banner, "ON");
}

#[test]
fn ready_on_reconnection_only_reports() {
    let plan = ready_plan(true, "Rustoki", 42, 42);
    assert_eq!(plan.log_line, "Rustoki !Reconnected");
    assert!(plan.proceed);
    assert!(!plan.first_start);
    assert_eq!(plan.banner, "RECONNECTED");
}

#[test]
fn ready_for_another_account_goes_no_further() {
    let plan = ready_plan(false, "Someone", 7, 42);
    assert_eq!(plan.log_line, "Someone !!");
    assert!(!plan.proceed);
    assert!(!plan.first_start);
}

#[test]
fn a_trap_is_set_only_where_none_is() {
    let mut t: HashMap<u64, (u64, Option<u64>)> = HashMap::new();
    set_trap(&mut t, 2, 20, None);
    let before = t.clone();
    assert!(set_trap_if_absent(&mut t, 1, 10, Some(99)));
    assert_eq!(hit_trap(&t, 1, 10), Some(Some(99)));
    assert!(!set_trap_if_absent(&mut t, 1, 11, None));
    assert_eq!(hit_trap(&t, 1, 10), Some(Some(99)));
    assert_eq!(hit_trap(&t, 1, 11), None);
    remove_trap(&mut t, 1);
    assert_eq!(t, before);
}
