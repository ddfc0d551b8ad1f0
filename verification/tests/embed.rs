use rustoki::embed_cmd::{embed_command, Caller, EmbedCommand, EmbedSpec};
use rustoki::timestamps::EmbedTime;

fn me() -> Caller {
    Caller {
        name: "kkitut".to_string(),
        avatar: "https://cdn.discordapp.com/avatars/1/abc.png".to_string(),
        face: "https://cdn.discordapp.com/avatars/1/abc.webp?size=1024".to_string(),
    }
}

fn sent(rest: &str) -> (u64, EmbedSpec) {
    match embed_command(rest, &me()) {
        EmbedCommand::Send(ch, e) => (ch, e),
        EmbedCommand::Reply(r) => panic!("expected an embed, got the reply {:?}", r),
        EmbedCommand::Usage => panic!("expected an embed, got the usage"),
    }
}

fn replied(rest: &str) -> String {
    match embed_command(rest, &me()) {
        EmbedCommand::Reply(r) => r,
        EmbedCommand::Send(..) => panic!("expected a reply, got an embed"),
        EmbedCommand::Usage => panic!("expected a reply, got the usage"),
    }
}

fn one_error(e: &str) -> String {
    format!("```\n!! 1 error occurred:\n{}\n```", e)
}

#[test]
fn empty_command_shows_usage() {
    assert!(matches!(embed_command("", &me()), EmbedCommand::Usage));
    assert!(matches!(embed_command("   ", &me()), EmbedCommand::Usage));
}

#[test]
fn channel_must_be_an_integer() {
    assert_eq!(replied(" abc --title \"x\""), "ChannelId must be a u64 integer");
    assert_eq!(replied(" -5"), "ChannelId must be a u64 integer");
}

#[test]
fn title_and_color() {
    let (ch, e) = sent(" 123 --title \"Hello there\" --color FFAA00");
    assert_eq!(ch, 123);
    assert_eq!(e.title, Some("Hello there".to_string()));
    assert_eq!(e.color, Some(0xFFAA00));
    assert!(e.author.is_none());
    assert!(e.footer.is_none());
    assert!(e.fields.is_empty());
    assert_eq!(e.timestamp, None);
}

#[test]
fn color_errors() {
    assert_eq!(replied(" 1 --color FFF"), one_error("color value must be 6 digit RRGGBB Hex"));
    let std_err = u32::from_str_radix("GG0000", 16).unwrap_err();
    assert_eq!(replied(" 1 -c GG0000"), one_error(&format!("Invalid color value: {:?}", std_err)));
    assert_eq!(replied(" 1 -c"), one_error("--color null"));
}

#[test]
fn me_values() {
    let (_, e) = sent(" 9 -at ME -aa me -tn me -fi Me -ft me");
    let author = e.author.expect("author");
    assert_eq!(author.name, "kkitut");
    assert_eq!(author.icon_url, Some(me().avatar));
    assert_eq!(author.url, None);
    assert_eq!(e.thumbnail, Some(me().face));
    let footer = e.footer.expect("footer");
    assert_eq!(footer.text, "kkitut");
    assert_eq!(footer.icon_url, Some(me().avatar));
}

#[test]
fn author_url_without_author_text_is_dropped() {
    let (_, e) = sent(" 9 -au https://example.com -aa https://example.com/a.png");
    assert!(e.author.is_none());
}

#[test]
fn footer_text_reads_the_quoted_text_after_the_flag() {
    let (_, e) = sent(" 123 -ft \"hello\"");
    assert_eq!(e.footer.expect("footer").text, "hello");
    let (_, e) = sent(" 9 --footertext \"foot note\"");
    assert_eq!(e.footer.expect("footer").text, "foot note");
    assert_eq!(replied(" 9 -ft plain"), one_error("--footertext must start with a quote (\")"));
}

#[test]
fn quoted_values() {
    let (_, e) = sent(" 9 -d \"a  b\"   -t \"one\"");
    assert_eq!(e.description, Some("a b".to_string()));
    assert_eq!(e.title, Some("one".to_string()));
    assert_eq!(replied(" 9 -t abc"), one_error("--title must start with a quote (\")"));
    assert_eq!(replied(" 9 -t \"abc"), one_error("--title missing closing quote (\")"));
    assert_eq!(replied(" 9 -t"), one_error("--title null"));
    let long = format!(" 9 -t \"{}\"", "x".repeat(257));
    assert_eq!(replied(&long), one_error("--title length must be <= 256"));
    let (_, e) = sent(&format!(" 9 -t \"{}\"", "x".repeat(256)));
    assert_eq!(e.title.map(|t| t.len()), Some(256));
}

#[test]
fn fields() {
    let (_, e) = sent(" 9 -f \"name\" \"some value\" TRUE --field \"n2\" \"v2\" false");
    assert_eq!(e.fields.len(), 2);
    assert_eq!(e.fields[0].name, "name");
    assert_eq!(e.fields[0].value, "some value");
    assert!(e.fields[0].inline);
    assert!(!e.fields[1].inline);
    assert_eq!(replied(" 9 -f \"n\" \"v\" maybe"), one_error("--field inline value must be true/false"));
    assert_eq!(replied(" 9 -f \"n\" \"v\""), one_error("--field inline null"));
}

#[test]
fn too_many_fields_are_reported() {
    let mut cmd = String::from(" 9");
    for _ in 0..26 {
        cmd.push_str(" -f \"n\" \"v\" true");
    }
    assert_eq!(replied(&cmd), one_error("field count must be less than 25"));
}

#[test]
fn timestamps() {
    let (_, e) = sent(" 9 -ts now");
    assert_eq!(e.timestamp, Some(EmbedTime::Now));
    let (_, e) = sent(" 9 -ts utc");
    assert_eq!(e.timestamp, Some(EmbedTime::Now));
    let (_, e) = sent(" 9 -ts 2024-01-02T03:04:05Z");
    assert_eq!(e.timestamp, Some(EmbedTime::At(1704164645, 0)));
    let (_, e) = sent(" 9 -ts 2024-01-02T03:04:05.5+01:00");
    assert_eq!(e.timestamp, Some(EmbedTime::At(1704164645 - 3600, 500_000_000)));
    let (_, e) = sent(" 9 --timestamp 1700000000");
    assert_eq!(e.timestamp, Some(EmbedTime::At(1700000000, 0)));
    assert_eq!(replied(" 9 -ts soon"), one_error("Invalid timestamp value"));
    assert_eq!(replied(" 9 -ts 99999999999999999"), one_error("Invalid timestamp value"));
    let (_, e) = sent(" 9 -ts 8210266876799");
    assert_eq!(e.timestamp, Some(EmbedTime::At(8210266876799, 0)));
    assert_eq!(replied(" 9 -ts 8210266876800"), one_error("Invalid timestamp value"));
    let (_, e) = sent(" 9 -ts -8334601228800");
    assert_eq!(e.timestamp, Some(EmbedTime::At(-8334601228800, 0)));
    assert_eq!(replied(" 9 -ts -8334601228801"), one_error("Invalid timestamp value"));
}

#[test]
fn unknown_flags_and_error_counts() {
    assert_eq!(replied(" 9 --bogus"), one_error("Unknown args: --bogus"));
    assert_eq!(
        replied(" 9 --bogus -c 12"),
        "```\n!! 2 errors occurred:\nUnknown args: --bogus\ncolor value must be 6 digit RRGGBB Hex\n```"
    );
}

#[test]
fn plain_values() {
    let (_, e) = sent(" 77 -i https://i.example/a.png -tn https://i.example/t.png -u https://x.example");
    assert_eq!(e.image, Some("https://i.example/a.png".to_string()));
    assert_eq!(e.thumbnail, Some("https://i.example/t.png".to_string()));
    assert_eq!(e.url, Some("https://x.example".to_string()));
}

#[test]
fn sent_embeds_keep_the_length_limits() {
    let q = |s: String| format!("\"{}\"", s);
    let x = |n: usize| "x".repeat(n);
    assert_eq!(replied(&format!(" 9 -d {}", q(x(4097)))), one_error("--description length must be <= 4096"));
    assert_eq!(replied(&format!(" 9 -ft {}", q(x(2049)))), one_error("--footertext length must be <= 2048"));
    assert_eq!(replied(&format!(" 9 -at {}", q(x(257)))), one_error("--authortext length must be <= 256"));
    assert_eq!(replied(&format!(" 9 -f {}", q(x(257)))), one_error("--field name length must be <= 256"));
    assert_eq!(replied(&format!(" 9 -f \"n\" {}", q(x(1025)))), one_error("--field value length must be <= 1024"));
    // The limit counts bytes: 129 two-byte letters are 258 bytes.
    assert_eq!(replied(&format!(" 9 -t {}", q("é".repeat(129)))), one_error("--title length must be <= 256"));
    let (_, e) = sent(&format!(
        " 9 -d {} -ft {} -at {} -f {} {} false",
        q(x(4096)),
        q(x(2048)),
        q(x(256)),
        q(x(256)),
        q(x(1024))
    ));
    assert_eq!(e.description.map(|d| d.len()), Some(4096));
    assert_eq!(e.footer.map(|f| f.text.len()), Some(2048));
    assert_eq!(e.author.map(|a| a.name.len()), Some(256));
    assert_eq!(e.fields[0].name.len(), 256);
    assert_eq!(e.fields[0].value.len(), 1024);
    // The caller's own name is taken as it is.
    let long_me = Caller { name: x(300), avatar: String::new(), face: String::new() };
    match embed_command(" 9 -at me -ft me", &long_me) {
        EmbedCommand::Send(_, e) => {
            assert_eq!(e.author.map(|a| a.name.len()), Some(300));
            assert_eq!(e.footer.map(|f| f.text.len()), Some(300));
        }
        _ => panic!("expected an embed"),
    }
}
