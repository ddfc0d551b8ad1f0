use rustoki::call::{call_query_of, self_key_text, unknown_self_text, CallQuery};
use rustoki::resp::{
    action_name_text, frame_reply, resp_command_checked, resp_done_text, resp_failed_text, resp_table_text, RespCommand,
};
use rustoki::shell::{deunicode_command, is_shell_line, is_shell_user, shell_route, ShellRoute};

fn resp(c: &str) -> RespCommand {
    resp_command_checked(c).expect("the command can be read")
}

fn invalid(c: &str) -> String {
    match resp(c) {
        RespCommand::Invalid(e) => e,
        other => panic!("expected an error, got {:?}", other),
    }
}

#[test]
fn shell_users_and_lines() {
    assert!(is_shell_user(700176751422341201));
    assert!(is_shell_user(682792713485418497));
    assert!(!is_shell_user(1));
    assert!(is_shell_line("<! resp"));
    assert!(is_shell_line("  <!"));
    assert!(!is_shell_line("< ! resp"));
}

#[test]
fn shell_routes() {
    assert!(matches!(shell_route("<!"), ShellRoute::Help));
    assert!(matches!(shell_route("<!<!   "), ShellRoute::Help));
    assert!(matches!(shell_route("<! memory now"), ShellRoute::Memory));
    match shell_route("<! embed 12 -t \"x\"") {
        ShellRoute::Embed(rest) => assert_eq!(rest, " 12 -t \"x\""),
        other => panic!("{:?}", other),
    }
    match shell_route("<!deunicode  héllo") {
        ShellRoute::Deunicode(rest) => assert_eq!(rest, "  héllo"),
        other => panic!("{:?}", other),
    }
    match shell_route("<! resp update") {
        ShellRoute::Resp(c) => assert_eq!(c, "resp update"),
        other => panic!("{:?}", other),
    }
    assert!(matches!(shell_route("<! trap"), ShellRoute::Ignored));
}

#[test]
fn deunicode_transliterates() {
    assert_eq!(deunicode_command("   "), None);
    assert_eq!(deunicode_command(" Æneid café"), Some("AEneid cafe".to_string()));
    assert_eq!(deunicode_command(" -u café au lait"), Some("CAFE AU LAIT".to_string()));
    assert_eq!(deunicode_command(" -q a b"), Some("\"a\" \"b\"".to_string()));
    assert_eq!(deunicode_command(" -c -q a b"), Some("\"a\", \"b\"".to_string()));
    assert_eq!(deunicode_command(" --comma x   y z"), Some("x, y, z".to_string()));
}

#[test]
fn deunicode_agrees_with_the_crate() {
    for s in ["北京", "Ελλάδα", "naïve ☃", "plain", "a\u{7f}b"] {
        assert_eq!(deunicode_command(&format!(" {}", s)), Some(deunicode::deunicode(s)));
    }
}

#[test]
fn resp_help_and_update() {
    assert!(matches!(resp("resp"), RespCommand::Help));
    assert!(matches!(resp("resp    "), RespCommand::Help));
    assert!(matches!(resp("resp update"), RespCommand::Update));
    assert_eq!(invalid("resp update now"), "[ERR] Invalid arguments for 'update'");
    assert_eq!(invalid("resp frobnicate"), "[ERR] Unknown resp command");
}

#[test]
fn resp_new_key() {
    match resp("resp new_key HELLO") {
        RespCommand::NewKey(k) => assert_eq!(k, "HELLO"),
        other => panic!("{:?}", other),
    }
    match resp("resp new_key \"good morning\" -a") {
        RespCommand::NewKey(k) => assert_eq!(k, "GOODMORNING"),
        other => panic!("{:?}", other),
    }
    assert_eq!(
        invalid("resp new_key hello"),
        "[ERR] 'new_key' must be uppercase and contain no spaces (use -a to auto-fix)"
    );
    assert_eq!(invalid("resp new_key"), "[ERR] Missing argument for 'new_key'");
    assert_eq!(invalid("resp new_key \"open"), "[ERR] Missing argument for 'new_key'");
}

#[test]
fn resp_add_key() {
    match resp("resp add_key HELLO GREET") {
        RespCommand::AddKey(a, b) => assert_eq!((a.as_str(), b.as_str()), ("HELLO", "GREET")),
        other => panic!("{:?}", other),
    }
    match resp("resp add_key hello greet -a") {
        RespCommand::AddKey(a, b) => assert_eq!((a.as_str(), b.as_str()), ("HELLO", "GREET")),
        other => panic!("{:?}", other),
    }
    match resp("resp add_key [HELLO] [\"GREET\", \"WELCOME\"]") {
        RespCommand::AddKeyBulk(a, ks) => {
            assert_eq!(a, "[HELLO");
            assert_eq!(ks, vec!["GREET".to_string(), "WELCOME".to_string()]);
        },
        other => panic!("{:?}", other),
    }
    let json_err = serde_json::from_str::<Vec<String>>("[\"GREET\"").unwrap_err();
    assert_eq!(
        invalid("resp add_key [HELLO] [\"GREET\""),
        format!("[ERR] Invalid JSON format for 'add_key': {:?}", json_err)
    );
    assert_eq!(
        invalid("resp add_key [HELLO] [\"greet\"]"),
        "[ERR] 'add_key' second keys must be uppercase and contain no spaces (use -a to auto-fix)"
    );
    assert_eq!(invalid("resp add_key ONLY"), "[ERR] Invalid arguments for 'add_key'");
    assert_eq!(
        invalid("resp add_key HELLO greet"),
        "[ERR] 'add_key' keys must be uppercase and contain no spaces (use -a to auto-fix)"
    );
}

#[test]
fn resp_add() {
    match resp("resp add hello \"hi there\"") {
        RespCommand::Add(k, v) => assert_eq!((k.as_str(), v.as_str()), ("HELLO", "hi there")),
        other => panic!("{:?}", other),
    }
    match resp("resp add hello [\"hi\", \"hey\"]") {
        RespCommand::AddBulk(k, vs) => {
            assert_eq!(k, "HELLO");
            assert_eq!(vs, vec!["hi".to_string(), "hey".to_string()]);
        },
        other => panic!("{:?}", other),
    }
    assert_eq!(invalid("resp add hello hi"), "[ERR] Value must be quoted for single add");
    assert_eq!(invalid("resp add hello"), "[ERR] Invalid arguments for 'add'");
    let json_err = serde_json::from_str::<Vec<String>>("[1]").unwrap_err();
    assert_eq!(invalid("resp add K [1]"), format!("[ERR] Invalid JSON array for 'add': {:?}", json_err));
}

#[test]
fn resp_value_that_cannot_be_cut_is_refused() {
    // the key shrinks when upper-cased (the ligature ﬀ becomes FF), so the value
    // would be cut inside a character: the shell stops there
    assert!(resp_command_checked("resp add ﬀ \"x\"").is_none());
    match resp("resp add ßé \"x\"") {
        RespCommand::Add(k, v) => assert_eq!((k.as_str(), v.as_str()), ("SSÉ", "x")),
        other => panic!("{:?}", other),
    }
    assert!(resp_command_checked("resp remove K \"").is_none());
}

#[test]
fn resp_tables() {
    match resp("resp get_table hello") {
        RespCommand::GetTable(k) => assert_eq!(k, "HELLO"),
        other => panic!("{:?}", other),
    }
    assert_eq!(invalid("resp get_table a b"), "[ERR] Invalid arguments for 'get_table'");
    match resp("resp remove_table \"hello\" DOUBLECHECK -f") {
        RespCommand::RemoveTable(k, force) => {
            assert_eq!(k, "hello");
            assert!(force);
        },
        other => panic!("{:?}", other),
    }
    assert_eq!(invalid("resp remove_table hello"), "[ERR] remove_all requires DOUBLECHECK confirmation");
    assert_eq!(invalid("resp remove_table"), "[ERR] Invalid arguments for 'remove_all'");
}

#[test]
fn resp_remove() {
    match resp("resp remove hello \"hi there\" -m") {
        RespCommand::Remove(k, t, multi) => {
            assert_eq!((k.as_str(), t.as_str()), ("HELLO", "hi there"));
            assert!(multi);
        },
        other => panic!("{:?}", other),
    }
    match resp("resp remove hello \"hi\"") {
        RespCommand::Remove(_, _, multi) => assert!(!multi),
        other => panic!("{:?}", other),
    }
    assert_eq!(invalid("resp remove hello"), "[ERR] Invalid arguments for 'remove'");
    assert_eq!(invalid("resp remove hello hi"), "[ERR] Target must be quoted with double quotes (\")");
}

#[test]
fn resp_reports() {
    let c = resp("resp new_key HELLO");
    assert_eq!(action_name_text(&c), "new_key");
    assert_eq!(resp_done_text(&c), "new_key completed");
    assert_eq!(resp_failed_text(&c, "RowNotFound"), "[ERR] new_key failed: RowNotFound");
    assert_eq!(resp_done_text(&resp("resp update")), "resp updated");
    assert_eq!(resp_table_text("HELLO", "[\"hi\"]"), "Responses for key 'HELLO':\n[\"hi\"]");
    assert_eq!(frame_reply("ok"), "```\nok\n```");
    assert_eq!(frame_reply(&"x".repeat(1993)), "[ERR] Response too long to send");
    assert_eq!(frame_reply(&"x".repeat(1992)).len(), 2000);
}

#[test]
fn calls() {
    assert!(matches!(call_query_of("hello"), Some(CallQuery::NotACall)));
    assert!(matches!(call_query_of("러스토키 나"), Some(CallQuery::Me)));
    assert!(matches!(call_query_of("<\" me"), Some(CallQuery::Me)));
    assert!(matches!(call_query_of("<\"    "), Some(CallQuery::Empty)));
    match call_query_of("러스토키 안녕 hi") {
        Some(CallQuery::Ask(q)) => assert_eq!(q, "안녕 HI"),
        other => panic!("{:?}", other),
    }
    assert_eq!(self_key_text(42), "<@42>");
    assert_eq!(unknown_self_text("kkitut"), "kkitut은/는 DB에 없어");
}
