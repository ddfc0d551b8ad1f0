use rustoki::commands::{
    allow_chat, chat_note_text, dont_chat_setting, ChatNote, ChatSetting, block_chat, is_blacklisted, lng_trs, name_only_text, profile_description_text, profile_thumbnail_url,
    refused_text, refuses_command, spy_report_text, spy_text, user_info_from_fields, user_info_of, SpyTarget,
    DEVELOPER_ID,
};
use rustoki::rainbow::{rainbow_step, RAINBOW_STEPS};

fn pretty_of(body: &[u8]) -> String {
    let v: serde_json::Value = serde_json::from_slice(body).unwrap();
    serde_json::to_string_pretty(&v).unwrap()
}

#[test]
fn language_choice() {
    assert_eq!(lng_trs(false, "en", "ko"), "en");
    assert_eq!(lng_trs(true, "en", "ko"), "ko");
    assert_eq!(lng_trs(true, 1, 2), 2);
}

#[test]
fn developer_only_commands() {
    assert!(refuses_command("z_trap_set", 1));
    assert!(!refuses_command("z_trap_set", DEVELOPER_ID));
    assert!(!refuses_command("spy_data", 1));
    assert!(!refuses_command("z", 1));
    assert_eq!(refused_text(false), "Only the person who developed me can handle this command");
    assert_eq!(refused_text(true), "나를 개발하는 사람만 이 명령어를 다룰 수 있어");
}

#[test]
fn spy_reports_of_json() {
    assert_eq!(spy_text(SpyTarget::Message, false, b"[1]"), "```json\n[\n  1\n]```");
    let body = br#"{"b":1,"a":"x@y`z"}"#;
    let expected = format!("```json\n{}```", pretty_of(body).replace('`', "\\`").replace('@', "＠"));
    assert_eq!(spy_text(SpyTarget::Channel, false, body), expected);
    assert!(expected.contains("x＠y\\`z"));
    assert!(!spy_text(SpyTarget::Message, false, body).contains('@'));
}

#[test]
fn spy_reports_that_do_not_fit() {
    let body = format!("\"{}\"", "a".repeat(5000));
    assert_eq!(spy_text(SpyTarget::Message, false, body.as_bytes()), "Message is too long: (5013)");
    assert_eq!(spy_text(SpyTarget::Channel, false, body.as_bytes()), "Data is too long: (5013)");
    assert_eq!(spy_text(SpyTarget::Channel, true, body.as_bytes()), "데이터가 너무 길어: (5013)");
    let huge = format!("\"{}\"", "@`".repeat(100_000));
    let report = spy_text(SpyTarget::Message, true, huge.as_bytes());
    assert!(report.len() <= 4096);
    assert!(!report.contains('@'));
    // the limit is on bytes: 4085 bytes of JSON text fit exactly
    let fits = "a".repeat(4085);
    assert_eq!(spy_report_text(SpyTarget::Message, false, &fits).len(), 4096);
    let over = "a".repeat(4086);
    assert_eq!(spy_report_text(SpyTarget::Message, false, &over), "Message is too long: (4097)");
}

#[test]
fn spy_reports_of_no_json() {
    assert_eq!(spy_text(SpyTarget::Message, false, b"nope"), "Failed to parse JSON");
    assert_eq!(spy_text(SpyTarget::Message, true, b"{"), "JSON 파싱에 실패했어");
}

#[test]
fn profiles() {
    assert_eq!(profile_description_text(false, "kk", None, None), "**Name:** `kk`\n**Global Name:** `kk`");
    assert_eq!(
        profile_description_text(false, "kk", Some("Kay"), Some("nick")),
        "**Name:** `kk`\n**Global Name:** `Kay`\n**Server Name:** `nick`"
    );
    assert_eq!(
        profile_description_text(true, "kk", Some("Kay"), None),
        "**이름:** `kk`\n**전역 이름:** `Kay`"
    );
    assert_eq!(name_only_text(false, "kk"), "**Name:** `kk`");
}

#[test]
fn profile_thumbnails() {
    let face = "https://cdn.discordapp.com/avatars/1/a.webp?size=1024";
    let guild = "https://cdn.discordapp.com/guilds/2/users/1/avatars/b.png";
    assert_eq!(profile_thumbnail_url(face, Some(guild), Some(true)), format!("{}?size=4096", guild));
    assert_eq!(
        profile_thumbnail_url(face, Some(guild), Some(false)),
        "https://cdn.discordapp.com/avatars/1/a.webp?size=4096"
    );
    assert_eq!(
        profile_thumbnail_url(face, Some(guild), None),
        "https://cdn.discordapp.com/avatars/1/a.webp?size=4096"
    );
    assert_eq!(profile_thumbnail_url(face, None, Some(true)), "https://cdn.discordapp.com/avatars/1/a.webp?size=4096");
}

#[test]
fn user_infos() {
    assert_eq!(
        user_info_of(42, br#"{"username":"kk","avatar":"abc"}"#),
        Some(("kk".to_string(), "https://cdn.discordapp.com/avatars/42/abc.png".to_string()))
    );
    assert_eq!(
        user_info_of(42, br#"{"avatar":null}"#),
        Some(("Unknown".to_string(), "No avatar".to_string()))
    );
    assert_eq!(user_info_of(42, b"[1]"), Some(("Unknown".to_string(), "No avatar".to_string())));
    assert_eq!(user_info_of(42, b"nope"), None);
    assert_eq!(
        user_info_from_fields(7, Some("x"), None),
        ("x".to_string(), "No avatar".to_string())
    );
}

#[test]
fn chat_blocking() {
    let mut list = vec![5u64];
    assert!(!is_blacklisted(&list, 9));
    block_chat(&mut list, 9);
    assert!(is_blacklisted(&list, 9));
    block_chat(&mut list, 9);
    assert_eq!(list, vec![5, 9, 9]);
    allow_chat(&mut list, 9);
    assert!(!is_blacklisted(&list, 9));
    assert!(is_blacklisted(&list, 5));
    assert_eq!(list, vec![5]);
    allow_chat(&mut list, 77);
    assert_eq!(list, vec![5]);
}

#[test]
fn rainbow_wheel() {
    assert_eq!(RAINBOW_STEPS, 12);
    assert_eq!(rainbow_step(0), (0xFF0000, 1));
    assert_eq!(rainbow_step(3), (0x80FF00, 4));
    assert_eq!(rainbow_step(11), (0xFF0080, 0));
    let mut seen = Vec::new();
    let mut i = 5usize;
    for _ in 0..RAINBOW_STEPS {
        let (c, next) = rainbow_step(i);
        assert!(!seen.contains(&c));
        seen.push(c);
        i = next;
    }
    assert_eq!(i, 5);
}

#[test]
fn chat_settings() {
    assert_eq!(dont_chat_setting(false, Some(true), Some(Some(true))), ChatSetting::Refused(ChatNote::NoGuild));
    assert_eq!(dont_chat_setting(true, None, Some(Some(true))), ChatSetting::Refused(ChatNote::NoMember));
    assert_eq!(dont_chat_setting(true, Some(false), Some(Some(true))), ChatSetting::Refused(ChatNote::NotAdmin));
    assert_eq!(dont_chat_setting(true, Some(true), None), ChatSetting::Refused(ChatNote::OptionMissing));
    assert_eq!(dont_chat_setting(true, Some(true), Some(None)), ChatSetting::Refused(ChatNote::OptionInvalid));
    assert_eq!(dont_chat_setting(true, Some(true), Some(Some(true))), ChatSetting::Allow);
    assert_eq!(dont_chat_setting(true, Some(true), Some(Some(false))), ChatSetting::Block);
    assert_eq!(chat_note_text(ChatNote::NotAdmin, false), "You are not an admin.");
    assert_eq!(chat_note_text(ChatNote::Blocked, true), "이제 대화할 수 없어");
}
