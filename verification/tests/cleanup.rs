use rustoki::cleanup::{
    absorb_page, check_pick_gate, delete_batches, new_scan, scan_page, ScanNext, check_run, check_run_gate, clear_range, gate_refusal_text, is_pick_forbidden,
    message_link_text, pick, pick_reply_text, run_refusal_text, run_report_text, should_fetch_more, GateRefusal, Pick,
    RunCheck, Selection,
};

fn at(message: u64, guild: u64, channel: u64) -> Pick {
    Pick { message, guild, channel }
}

const NOW: (i64, u32) = (1_700_000_000, 7);

#[test]
fn picks_open_and_fill_a_range() {
    let mut s: Vec<Selection> = Vec::new();
    assert!(!pick(&mut s, 1, true, at(100, 5, 6), NOW));
    assert_eq!(s.len(), 1);
    assert_eq!(s[0].first, at(100, 5, 6));
    assert_eq!(s[0].end, at(0, 0, 0));
    assert_eq!((s[0].at_secs, s[0].at_nanos), NOW);
    assert!(!pick(&mut s, 1, false, at(200, 5, 6), (NOW.0 + 1, 0)));
    assert_eq!(s.len(), 1);
    assert_eq!(s[0].end, at(200, 5, 6));
    assert_eq!(s[0].at_secs, NOW.0 + 1);
}

#[test]
fn duplicate_picks_are_refused() {
    let mut s: Vec<Selection> = Vec::new();
    pick(&mut s, 1, true, at(100, 5, 6), NOW);
    let before = s.clone();
    assert!(pick(&mut s, 1, false, at(100, 5, 6), (NOW.0 + 9, 0)));
    assert_eq!(s, before);
}

#[test]
fn one_range_per_moderator() {
    let mut s: Vec<Selection> = Vec::new();
    pick(&mut s, 1, true, at(100, 5, 6), NOW);
    pick(&mut s, 2, false, at(300, 5, 6), NOW);
    pick(&mut s, 1, true, at(150, 5, 6), NOW);
    pick(&mut s, 2, true, at(250, 5, 6), NOW);
    assert_eq!(s.len(), 2);
    assert_eq!(s[0].first.message, 150);
    assert_eq!(s[1].first.message, 250);
    assert_eq!(s[1].end.message, 300);
}

#[test]
fn forbidden_channels() {
    let relays = vec![(10u64, 20u64), (11, 21)];
    assert!(is_pick_forbidden(1, 11, 1, &relays));
    assert!(!is_pick_forbidden(2, 11, 1, &relays));
    assert!(!is_pick_forbidden(1, 21, 1, &relays));
}

#[test]
fn run_checks() {
    let mut s: Vec<Selection> = Vec::new();
    assert_eq!(check_run(&s, 1), RunCheck::NotSelected);
    pick(&mut s, 1, false, at(300, 5, 6), NOW);
    assert_eq!(check_run(&s, 1), RunCheck::NoFirst);
    let mut s2: Vec<Selection> = Vec::new();
    pick(&mut s2, 1, true, at(300, 5, 6), NOW);
    assert_eq!(check_run(&s2, 1), RunCheck::NoEnd);
    pick(&mut s2, 1, false, at(100, 9, 6), NOW);
    assert_eq!(check_run(&s2, 1), RunCheck::OtherGuild);
    pick(&mut s2, 1, false, at(100, 5, 7), NOW);
    assert_eq!(check_run(&s2, 1), RunCheck::OtherChannel);
    pick(&mut s2, 1, false, at(100, 5, 6), NOW);
    // the ends are put in order
    assert_eq!(check_run(&s2, 1), RunCheck::Go { channel: 6, start: 100, end: 300 });
}

#[test]
fn pages_are_absorbed_up_to_the_end() {
    let mut d = vec![100u64];
    let last = absorb_page(&mut d, 100, &vec![110, 130, 120, 190, 250], 200);
    assert_eq!(d, vec![100, 110, 130, 120, 190]);
    assert_eq!(last, 250);
    assert!(d.iter().all(|&m| m <= 200));
    assert!(!should_fetch_more(5, 250, 200));
    assert!(should_fetch_more(5, 190, 200));
    assert!(!should_fetch_more(0, 190, 200));
}

#[test]
fn cleared_ranges_are_gone() {
    let mut s: Vec<Selection> = Vec::new();
    pick(&mut s, 1, true, at(100, 5, 6), NOW);
    pick(&mut s, 2, true, at(100, 5, 6), NOW);
    clear_range(&mut s, 1);
    assert_eq!(s.len(), 1);
    assert_eq!(s[0].user, 2);
    assert_eq!(check_run(&s, 1), RunCheck::NotSelected);
}

#[test]
fn texts() {
    assert_eq!(message_link_text(1, 2, 3), "https://discord.com/channels/1/2/3");
    assert_eq!(
        pick_reply_text(false, true, at(3, 1, 2), false),
        "First Message Selected\nID: https://discord.com/channels/1/2/3"
    );
    assert_eq!(
        pick_reply_text(false, false, at(3, 1, 2), true),
        "마지막 메시지를 선택했어\nID: https://discord.com/channels/1/2/3"
    );
    assert_eq!(pick_reply_text(true, false, at(3, 1, 2), false), "Value is duplicated");
    assert_eq!(run_refusal_text(RunCheck::NoEnd, false), Some("End message not selected".to_string()));
    assert_eq!(run_refusal_text(RunCheck::Go { channel: 1, start: 1, end: 2 }, false), None);
    assert_eq!(run_report_text(5, false, false), "5 messages deleted");
    assert_eq!(run_report_text(5, false, true), "5 개의 메시지가 삭제되었어");
    assert_eq!(run_report_text(1001, true, true), "삭제할 메시지가 너무 많아. (1000 초과) 더 작은 범위를 선택해줘");
    assert_eq!(run_report_text(0, false, false), "No messages to delete");
    assert_eq!(
        run_report_text(0, true, false),
        "Too many messages to delete. (over) Please select a smaller range"
    );
}

#[test]
fn gates_before_picks_and_runs() {
    assert_eq!(check_pick_gate(false, true, Some(true), false), Some(GateRefusal::NoMessage));
    assert_eq!(check_pick_gate(true, false, Some(true), false), Some(GateRefusal::NotInGuild));
    assert_eq!(check_pick_gate(true, true, None, false), Some(GateRefusal::NoMember));
    assert_eq!(check_pick_gate(true, true, Some(false), true), Some(GateRefusal::CannotManage));
    assert_eq!(check_pick_gate(true, true, Some(true), true), Some(GateRefusal::RelayChannel));
    assert_eq!(check_pick_gate(true, true, Some(true), false), None);
    assert_eq!(check_run_gate(None, Some(true)), Some(GateRefusal::NoMember));
    assert_eq!(check_run_gate(Some(false), Some(true)), Some(GateRefusal::CannotManage));
    assert_eq!(check_run_gate(Some(true), None), Some(GateRefusal::NoBotPermissions));
    assert_eq!(check_run_gate(Some(true), Some(false)), Some(GateRefusal::BotCannotManage));
    assert_eq!(check_run_gate(Some(true), Some(true)), None);
    assert_eq!(gate_refusal_text(GateRefusal::RelayChannel, false), "Cannot use in admin DM channel");
    assert_eq!(gate_refusal_text(GateRefusal::BotCannotManage, true), "메시지 관리 권한이 없어");
}

#[test]
fn deletions_go_in_batches_of_fifty() {
    let sizes = |n: u64| -> Vec<usize> {
        let ids: Vec<u64> = (1..=n).collect();
        let batches = delete_batches(&ids);
        let flat: Vec<u64> = batches.iter().flatten().copied().collect();
        assert_eq!(flat, ids);
        batches.iter().map(|b| b.len()).collect()
    };
    assert_eq!(sizes(0), Vec::<usize>::new());
    assert_eq!(sizes(1), vec![1]);
    assert_eq!(sizes(50), vec![50]);
    assert_eq!(sizes(51), vec![50, 1]);
    assert_eq!(sizes(120), vec![50, 50, 20]);
}

#[test]
fn a_run_deletes_a_complete_range() {
    let mut s = new_scan(100, 260);
    match scan_page(&mut s, &vec![110, 120, 130]) {
        ScanNext::Fetch(after) => assert_eq!(after, 130),
        _ => panic!("expected another page"),
    }
    match scan_page(&mut s, &vec![250, 260, 270]) {
        ScanNext::Delete(b) => assert_eq!(b, vec![vec![100, 110, 120, 130, 250, 260]]),
        _ => panic!("expected the deletion"),
    }
    assert_eq!(s.pages, 2);
    // an empty page ends the range too
    let mut s = new_scan(5, 1000);
    assert!(matches!(scan_page(&mut s, &vec![]), ScanNext::Delete(b) if b == vec![vec![5]]));
}

#[test]
fn a_run_over_the_page_limit_is_refused() {
    let mut s = new_scan(1, u64::MAX);
    let mut next_id = 2;
    let mut outcome = None;
    while s.pages < 20 {
        let page: Vec<u64> = (next_id..next_id + 50).collect();
        next_id += 50;
        match scan_page(&mut s, &page) {
            ScanNext::Fetch(after) => assert_eq!(after, next_id - 1),
            other => {
                outcome = Some(other);
                break;
            }
        }
    }
    assert!(matches!(outcome, Some(ScanNext::TooMany)));
    assert_eq!(s.pages, 20);
    assert_eq!(s.to_delete.len(), 1001);
}
