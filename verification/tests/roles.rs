use rustoki::roles::{
    color_role_name_text, color_roles_to_remove, find_color_role, gc_report_text, hex_color_text,
    is_color_role_name, member_update_action, new_role_position_of, role_color_matches, unheld_color_roles,
    MemberUpdate,
};

fn s(x: &str) -> String {
    x.to_string()
}

#[test]
fn member_updates() {
    assert_eq!(member_update_action(None, true, None), MemberUpdate::Recolor);
    assert_eq!(member_update_action(None, false, Some(s("a"))), MemberUpdate::Nothing);
    assert_eq!(member_update_action(Some((false, None)), true, None), MemberUpdate::Recolor);
    assert_eq!(member_update_action(Some((true, Some(s("a")))), true, Some(s("b"))), MemberUpdate::Recolor);
    assert_eq!(member_update_action(Some((true, Some(s("a")))), false, Some(s("a"))), MemberUpdate::StripColorRoles);
    assert_eq!(member_update_action(Some((false, None)), false, Some(s("b"))), MemberUpdate::Nothing);
}

#[test]
fn unchanged_members_are_left_alone() {
    for had in [true, false] {
        for avatar in [None, Some(s("x"))] {
            assert_eq!(member_update_action(Some((had, avatar.clone())), had, avatar), MemberUpdate::Nothing);
        }
    }
}

#[test]
fn colour_names() {
    assert_eq!(hex_color_text(255, 170, 0), "ffaa00");
    assert_eq!(hex_color_text(1, 2, 3), format!("{:02x}{:02x}{:02x}", 1, 2, 3));
    assert_eq!(color_role_name_text("ffaa00"), ":ffaa00");
    assert!(is_color_role_name(":ffaa00"));
    assert!(!is_color_role_name("mod"));
}

#[test]
fn colour_roles_are_matched_on_their_last_six_bytes() {
    assert_eq!(role_color_matches(":FFAA00", "ffaa00"), Some(true));
    assert_eq!(role_color_matches("x:ffaa00", "ffaa00"), Some(true));
    assert_eq!(role_color_matches(":ffaa01", "ffaa00"), Some(false));
    assert_eq!(role_color_matches("ab", "ffaa00"), Some(false));
    // the sixth byte from the end falls inside a character
    assert_eq!(role_color_matches("가나ab", "ffaa00"), None);
    let names = vec![s("Admin"), s(":ffaa00"), s(":FFAA00")];
    assert_eq!(find_color_role(&names, "ffaa00"), Some(Some(1)));
    assert_eq!(find_color_role(&names, "000000"), Some(None));
    assert_eq!(find_color_role(&vec![s("가나ab"), s(":ffaa00")], "ffaa00"), None);
}

#[test]
fn roles_to_remove() {
    let held = vec![(1u64, Some(s(":ff0000"))), (2, Some(s("mod"))), (3, None), (4, Some(s(":00ff00")))];
    assert_eq!(color_roles_to_remove(&held), vec![1, 4]);
}

#[test]
fn new_role_positions() {
    let roles = vec![(10u64, 3u16), (20, 7)];
    assert_eq!(new_role_position_of(&roles, 20), 8);
    assert_eq!(new_role_position_of(&roles, 99), 0);
}

#[test]
fn unheld_roles() {
    let roles = vec![(1u64, s(":ff0000")), (2, s("mod")), (3, s(":00ff00")), (4, s(":0000ff"))];
    let members = vec![vec![2u64, 3], vec![9]];
    let r = unheld_color_roles(&roles, &members);
    assert_eq!(r, vec![(1, s(":ff0000")), (4, s(":0000ff"))]);
    for (id, name) in &r {
        assert!(name.starts_with(':'));
        assert!(members.iter().all(|m| !m.contains(id)));
    }
}

#[test]
fn reports() {
    assert_eq!(gc_report_text(&vec![], &vec![]), "```No roles deleted or failed```");
    assert_eq!(gc_report_text(&vec![s(":a"), s(":b")], &vec![]), "```[Deleted roles]\n  :a\n  :b\n```");
    assert_eq!(gc_report_text(&vec![], &vec![s(":c")]), "```[Failed roles]\n  :c\n```");
    assert_eq!(
        gc_report_text(&vec![s(":a")], &vec![s(":c")]),
        "```[Deleted roles]\n  :a\n\n[Failed roles]\n  :c\n```"
    );
}
