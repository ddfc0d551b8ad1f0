use rustoki::upboard::{
    build_pin_embed, get_pin_icon_url, is_image_attachment, is_upvote_emoji, next_count, pin_action_on_add,
    pin_action_on_remove, tally_upvotes, AttachmentInfo, PinAction, PinSource, ReactionCount, PIN_THRESHOLD,
};

fn reaction(emoji: Option<&str>, count: u64) -> ReactionCount {
    ReactionCount { unicode: emoji.map(String::from), count }
}

fn attachment(kind: Option<&str>, url: &str) -> AttachmentInfo {
    AttachmentInfo { content_type: kind.map(String::from), url: url.to_string() }
}

#[test]
fn upvote_emoji_is_the_arrow_with_variation_selector() {
    assert!(is_upvote_emoji("⬆️"));
    assert!(!is_upvote_emoji("⬆"));
    assert!(!is_upvote_emoji("🔼"));
    assert!(!is_upvote_emoji(""));
}

#[test]
fn count_steps_saturate() {
    assert_eq!(next_count(4, true), 5);
    assert_eq!(next_count(4, false), 3);
    assert_eq!(next_count(0, false), 0);
    assert_eq!(next_count(u16::MAX, true), u16::MAX);
}

#[test]
fn add_then_remove_gives_the_count_back() {
    for c in [0u16, 1, 2, 3, 100, u16::MAX - 1] {
        assert_eq!(next_count(next_count(c, true), false), c);
    }
    for c in [1u16, 2, 3, 100, u16::MAX] {
        assert_eq!(next_count(next_count(c, false), true), c);
    }
    // the edge on which the first law fails: the count is stuck at the top
    assert_eq!(next_count(next_count(u16::MAX, true), false), u16::MAX - 1);
}

#[test]
fn tally_counts_only_upvotes() {
    let rs = vec![
        reaction(Some("⬆️"), 2),
        reaction(Some("👍"), 7),
        reaction(None, 9),
        reaction(Some("⬆️"), 3),
    ];
    assert_eq!(tally_upvotes(&rs), 5);
    assert_eq!(tally_upvotes(&[]), 0);
}

#[test]
fn tally_keeps_the_low_sixteen_bits_and_saturates() {
    let rs = vec![reaction(Some("⬆️"), 65536 + 4)];
    assert_eq!(tally_upvotes(&rs), 4);
    let rs = vec![reaction(Some("⬆️"), 60000), reaction(Some("⬆️"), 60000)];
    assert_eq!(tally_upvotes(&rs), u16::MAX);
}

#[test]
fn pin_actions_follow_the_threshold() {
    assert_eq!(PIN_THRESHOLD, 3);
    assert_eq!(pin_action_on_add(2, 0), PinAction::Nothing);
    assert_eq!(pin_action_on_add(3, 0), PinAction::Create);
    assert_eq!(pin_action_on_add(3, 77), PinAction::Edit(77));
    assert_eq!(pin_action_on_remove(5, 0), PinAction::Nothing);
    assert_eq!(pin_action_on_remove(2, 77), PinAction::Delete(77));
    assert_eq!(pin_action_on_remove(3, 77), PinAction::Edit(77));
}

#[test]
fn pin_icon_urls() {
    let base = "https://raw.githubusercontent.com/twitter/twemoji/refs/heads/master/assets/72x72/";
    assert_eq!(get_pin_icon_url(0), format!("{}2b06.png", base));
    assert_eq!(get_pin_icon_url(1), format!("{}1f53c.png", base));
    assert_eq!(get_pin_icon_url(2), format!("{}23eb.png", base));
    assert_eq!(get_pin_icon_url(3), format!("{}1f4c8.png", base));
}

#[test]
fn image_attachments_are_told_by_content_type() {
    assert!(is_image_attachment(&attachment(Some("image/png"), "a")));
    assert!(!is_image_attachment(&attachment(Some("video/mp4"), "a")));
    assert!(!is_image_attachment(&attachment(None, "a")));
}

fn source(attachments: Vec<AttachmentInfo>) -> PinSource {
    PinSource {
        content: "hello board".to_string(),
        guild: Some(1),
        channel: 2,
        message: 3,
        author_name: "kkitut".to_string(),
        avatar_url: None,
        default_avatar_url: "https://cdn.discordapp.com/embed/avatars/0.png".to_string(),
        attachments,
    }
}

#[test]
fn pin_embed_tiers() {
    let e = build_pin_embed(&source(vec![]), 3);
    assert_eq!(e.title, "PIN");
    assert_eq!(e.image, None);
    assert_eq!(e.author_text, "3");
    assert_eq!(e.color, 0x05B5FA);
    assert_eq!(e.icon_url, get_pin_icon_url(0));
    let e = build_pin_embed(&source(vec![]), 5);
    assert_eq!(e.color, 0x1105FA);
    assert_eq!(e.icon_url, get_pin_icon_url(1));
    let e = build_pin_embed(&source(vec![]), 8);
    assert_eq!(e.color, 0xA805FA);
    assert_eq!(e.icon_url, get_pin_icon_url(2));
    let e = build_pin_embed(&source(vec![]), 12);
    assert_eq!(e.color, 0xFA05C1);
    assert_eq!(e.icon_url, get_pin_icon_url(3));
    assert_eq!(e.author_text, "12");
}

#[test]
fn pin_embed_images() {
    let one = vec![attachment(Some("text/plain"), "t"), attachment(Some("image/png"), "first")];
    let e = build_pin_embed(&source(one), 4);
    assert_eq!(e.title, "PIN");
    assert_eq!(e.image, Some("first".to_string()));
    let two = vec![
        attachment(Some("image/jpeg"), "first"),
        attachment(None, "x"),
        attachment(Some("image/gif"), "second"),
    ];
    let e = build_pin_embed(&source(two), 4);
    assert_eq!(e.title, "PIN_IMAGE+");
    assert_eq!(e.image, Some("first".to_string()));
}

#[test]
fn board_keeps_pins_only_on_messages_with_enough_upvotes() {
    // A run of up-votes added (true) and taken back (false), with the pin
    // actions carried out as the bot does.
    let events = [true, true, true, true, false, false, true, false, false, false, true, true, true];
    let mut count: u16 = 0;
    let mut pin_id: u64 = 0;
    let mut next_pin: u64 = 1000;
    let mut pins_created = 0;
    let mut pins_deleted = 0;
    for up in events {
        count = next_count(count, up);
        let action = if up { pin_action_on_add(count, pin_id) } else { pin_action_on_remove(count, pin_id) };
        match action {
            PinAction::Create => {
                pin_id = next_pin;
                next_pin += 1;
                pins_created += 1;
            }
            PinAction::Delete(id) => {
                assert_eq!(id, pin_id);
                pin_id = 0;
                pins_deleted += 1;
            }
            PinAction::Edit(id) => assert_eq!(id, pin_id),
            PinAction::Nothing => {}
        }
        assert!(pin_id == 0 || count >= PIN_THRESHOLD, "count {} pin {}", count, pin_id);
    }
    assert_eq!(count, 3);
    assert_eq!(pin_id, 1002);
    assert_eq!(pins_created, 3);
    assert_eq!(pins_deleted, 2);
}

#[test]
fn pin_embed_carries_the_message() {
    let e = build_pin_embed(&source(vec![]), 3);
    assert_eq!(e.description, "hello board");
    assert_eq!(e.url, "https://discord.com/channels/1/2/3");
    assert_eq!(e.footer_text, "kkitut");
    assert_eq!(e.footer_icon, "https://cdn.discordapp.com/embed/avatars/0.png");
    let mut dm = source(vec![]);
    dm.guild = None;
    dm.avatar_url = Some("https://cdn.discordapp.com/avatars/9/abc.webp?size=1024".to_string());
    let e = build_pin_embed(&dm, 3);
    assert_eq!(e.url, "https://discord.com/channels/@me/2/3");
    assert_eq!(e.footer_icon, "https://cdn.discordapp.com/avatars/9/abc.webp?size=1024");
}
