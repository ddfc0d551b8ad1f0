use rustoki::dm::{
    answered_title_text, counterpart_message, defuse_mentions, failure_note_text, failure_title_text, find_link,
    grouped_button_ids, is_quiet_reply, other_side, parse_table_name, register_link, relay_body_of,
    relay_table_name, single_button_ids, RelayBody, RelayFailure, RelayParts, Side,
};

#[test]
fn links_are_found_by_side() {
    let links = vec![(10u64, 20u64), (30, 10), (10, 40)];
    assert_eq!(find_link(&links, 10, Side::Server), Some((10, 20)));
    assert_eq!(find_link(&links, 10, Side::User), Some((30, 10)));
    assert_eq!(find_link(&links, 40, Side::Either), Some((10, 40)));
    assert_eq!(find_link(&links, 10, Side::Either), Some((10, 20)));
    assert_eq!(find_link(&links, 99, Side::Either), None);
    assert_eq!(find_link(&vec![], 1, Side::Server), None);
}

#[test]
fn table_names_round_trip() {
    assert_eq!(relay_table_name(123, 456), "c123u456");
    for (s, u) in [(0u64, 0u64), (123, 456), (u64::MAX, 7), (1, u64::MAX)] {
        let name = relay_table_name(s, u);
        assert_eq!(parse_table_name(&name), (Some(s), Some(u)));
    }
}

#[test]
fn table_names_that_do_not_read() {
    assert_eq!(parse_table_name("c12"), (None, None));
    assert_eq!(parse_table_name("cxu5"), (None, Some(5)));
    assert_eq!(parse_table_name("c5u"), (Some(5), None));
    assert_eq!(parse_table_name("c5u6u7"), (Some(5), None));
}

#[test]
fn counterparts() {
    assert_eq!(counterpart_message(2, 1, 2), 1);
    assert_eq!(counterpart_message(1, 1, 2), 2);
    for m in [1u64, 2] {
        assert_eq!(counterpart_message(counterpart_message(m, 1, 2), 1, 2), m);
    }
    assert_eq!(other_side(5, (5, 6)), 6);
    assert_eq!(other_side(6, (5, 6)), 5);
}

#[test]
fn mentions_are_defused() {
    assert_eq!(defuse_mentions("hi @everyone and @here"), "hi ＠everyone and ＠here");
    assert!(!defuse_mentions("@@@").contains('@'));
    assert_eq!(defuse_mentions("plain"), "plain");
}

#[test]
fn relay_texts() {
    assert_eq!(answered_title_text("ok"), "[SYS] >> ok");
    assert_eq!(failure_title_text(RelayFailure::Unsendable), "Unsendable message");
    assert_eq!(failure_title_text(RelayFailure::SendFailed), "An internal error occurred");
    assert_eq!(failure_note_text(RelayFailure::Unsendable, 77), "-# *[SYS] >> Unsendable message: 77 *");
}

#[test]
fn quiet_replies() {
    assert!(is_quiet_reply(&vec![3, 4], 1, 2));
    assert!(!is_quiet_reply(&vec![3, 1], 1, 2));
    assert!(!is_quiet_reply(&vec![2], 1, 2));
    assert!(is_quiet_reply(&vec![], 1, 2));
}

#[test]
fn button_ids() {
    let rows = vec![vec![true, false, true], vec![false], vec![true]];
    let g = grouped_button_ids(&rows);
    assert_eq!(g, vec![vec!["_0".to_string(), "_1".to_string()], vec!["_2".to_string()]]);
    let s = single_button_ids(&rows);
    assert_eq!(s, vec![vec!["_0".to_string()], vec!["_1".to_string()], vec!["_2".to_string()]]);
    assert!(grouped_button_ids(&vec![]).is_empty());
}

fn parts(text: bool, interaction: bool) -> RelayParts {
    RelayParts {
        has_text: text,
        has_files: false,
        has_stickers: false,
        has_embeds: false,
        has_buttons: false,
        from_interaction: interaction,
    }
}

#[test]
fn relay_bodies() {
    assert_eq!(relay_body_of(&parts(true, true)), RelayBody::AsIs);
    assert_eq!(relay_body_of(&parts(false, true)), RelayBody::AwaitingApp);
    assert_eq!(relay_body_of(&parts(false, false)), RelayBody::Unsendable);
    let mut p = parts(false, false);
    p.has_stickers = true;
    assert_eq!(relay_body_of(&p), RelayBody::AsIs);
}

#[test]
fn links_are_registered_at_the_end() {
    let mut links = vec![(1u64, 2u64)];
    register_link(&mut links, 3, 4);
    assert_eq!(links, vec![(1, 2), (3, 4)]);
    assert_eq!(find_link(&links, 4, Side::User), Some((3, 4)));
}
