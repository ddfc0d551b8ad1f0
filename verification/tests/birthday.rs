use rustoki::birthday::{
    birthday_message_text, birthday_reply_text, birthday_set_answer, button_action_of, daily_plan, days_between,
    is_maintenance, is_set_long_ago, leap_button_id, should_forget_member, today_mmdd, BirthdayRow, BirthdaySet,
    ButtonAction, Leap, Record,
};

const DAY: i64 = 86400;

#[test]
fn set_answers() {
    assert_eq!(birthday_set_answer(1231, Record::Missing), BirthdaySet::Store { mmdd: 1231, update: false });
    assert_eq!(birthday_set_answer(101, Record::Old), BirthdaySet::Store { mmdd: 101, update: true });
    assert_eq!(birthday_set_answer(1231, Record::Recent), BirthdaySet::OncePerYear);
    assert_eq!(birthday_set_answer(1332, Record::Missing), BirthdaySet::InvalidDate);
    assert_eq!(birthday_set_answer(1200, Record::Missing), BirthdaySet::InvalidDay);
    assert_eq!(birthday_set_answer(1301, Record::Missing), BirthdaySet::InvalidMonth);
    assert_eq!(birthday_set_answer(230, Record::Missing), BirthdaySet::FebruaryTooLong);
    assert_eq!(birthday_set_answer(229, Record::Old), BirthdaySet::AskLeap { update: true });
    assert_eq!(birthday_set_answer(-101, Record::Missing), BirthdaySet::InvalidDate);
    assert_eq!(birthday_set_answer(0, Record::Missing), BirthdaySet::InvalidDate);
}

#[test]
fn stored_birthdays_are_real_days() {
    for v in -500i64..1500 {
        for rec in [Record::Missing, Record::Old] {
            if let BirthdaySet::Store { mmdd, .. } = birthday_set_answer(v, rec) {
                let (m, d) = (mmdd / 100, mmdd % 100);
                assert!((1..=12).contains(&m) && (1..=31).contains(&d));
                assert!(m != 2 || d <= 28);
            }
        }
    }
}

#[test]
fn only_a_recent_record_blocks() {
    for v in [101i64, 229, 9999] {
        assert_eq!(birthday_set_answer(v, Record::Recent), BirthdaySet::OncePerYear);
        assert_ne!(birthday_set_answer(v, Record::Old), BirthdaySet::OncePerYear);
        assert_ne!(birthday_set_answer(v, Record::Missing), BirthdaySet::OncePerYear);
    }
}

#[test]
fn replies() {
    assert_eq!(birthday_reply_text(BirthdaySet::InvalidDay, false), Some("Invalid day".to_string()));
    assert_eq!(birthday_reply_text(BirthdaySet::InvalidDay, true), Some("잘못된 일자야".to_string()));
    assert_eq!(birthday_reply_text(BirthdaySet::AskLeap { update: false }, false), None);
    assert_eq!(
        birthday_reply_text(BirthdaySet::Store { mmdd: 101, update: true }, false),
        Some("Birthday is updated".to_string())
    );
    assert_eq!(
        birthday_reply_text(BirthdaySet::Store { mmdd: 101, update: false }, true),
        Some("생일이 설정되었어".to_string())
    );
}

#[test]
fn record_age() {
    let now = (1_700_000_000i64, 5u32);
    assert!(is_set_long_ago((now.0 - 364 * DAY - 1, 0), now));
    assert!(is_set_long_ago((now.0 - 364 * DAY, 4), now));
    assert!(!is_set_long_ago((now.0 - 364 * DAY, 5), now));
    assert!(!is_set_long_ago((now.0 - DAY, 0), now));
}

#[test]
fn whole_days_round_toward_zero() {
    assert_eq!(days_between((0, 0), (DAY * 3 - 1, 0)), 2);
    assert_eq!(days_between((0, 0), (DAY * 3, 0)), 3);
    assert_eq!(days_between((DAY * 3, 0), (0, 1)), -2);
    assert_eq!(days_between((0, 500), (DAY, 499)), 0);
}

#[test]
fn maintenance_window() {
    assert!(is_maintenance(23, 59));
    assert!(is_maintenance(0, 0));
    assert!(!is_maintenance(0, 1));
    assert!(!is_maintenance(23, 58));
    assert!(!is_maintenance(12, 0));
}

#[test]
fn leap_buttons() {
    assert_eq!(leap_button_id(Leap::Forward, false, 42), "birthday_leap_forward:42");
    assert_eq!(leap_button_id(Leap::Keep, true, 42), "birthday_leap_keep_update:42");
    assert_eq!(leap_button_id(Leap::Backward, false, 7), "birthday_leap_backward:7");
}

#[test]
fn button_actions() {
    // the button's name picks the day its label shows
    assert_eq!(
        button_action_of(&leap_button_id(Leap::Forward, false, 42), 42),
        ButtonAction::StoreLeap { mmdd: 228, updated: false }
    );
    assert_eq!(
        button_action_of(&leap_button_id(Leap::Keep, true, 42), 42),
        ButtonAction::StoreLeap { mmdd: 229, updated: true }
    );
    assert_eq!(
        button_action_of(&leap_button_id(Leap::Keep, false, 42), 42),
        ButtonAction::StoreLeap { mmdd: 229, updated: false }
    );
    assert_eq!(
        button_action_of(&leap_button_id(Leap::Backward, true, 42), 42),
        ButtonAction::StoreLeap { mmdd: 301, updated: true }
    );
    assert_eq!(
        button_action_of(&leap_button_id(Leap::Forward, true, 42), 42),
        ButtonAction::StoreLeap { mmdd: 228, updated: true }
    );
    assert_eq!(
        button_action_of(&leap_button_id(Leap::Backward, false, 42), 42),
        ButtonAction::StoreLeap { mmdd: 301, updated: false }
    );
    assert_eq!(button_action_of(&leap_button_id(Leap::Keep, false, 42), 43), ButtonAction::Ignore);
    assert_eq!(button_action_of("other:42", 42), ButtonAction::Ignore);
    assert_eq!(button_action_of("timeout_835743162131546132", 1), ButtonAction::Timeout);
    assert_eq!(button_action_of("_3", 1), ButtonAction::Dummy);
    assert_eq!(button_action_of("what", 1), ButtonAction::Unknown);
    assert_eq!(button_action_of("a:b:c", 1), ButtonAction::Unknown);
}

#[test]
fn today() {
    assert_eq!(today_mmdd(1, 1), 101);
    assert_eq!(today_mmdd(12, 31), 1231);
}

#[test]
fn daily_plans() {
    let now = (400 * DAY, 0u32);
    let rows = vec![
        BirthdayRow { id: 1, set_at: Some((399 * DAY, 0)), unused: Some(0) },
        BirthdayRow { id: 2, set_at: Some((10 * DAY, 0)), unused: Some(1) },
        BirthdayRow { id: 3, set_at: None, unused: Some(0) },
        BirthdayRow { id: 4, set_at: Some((0, 0)), unused: Some(0) },
        BirthdayRow { id: 5, set_at: Some((36 * DAY, 0)), unused: None },
    ];
    let (today, old) = daily_plan(&rows, now);
    assert_eq!(today, vec![1, 4]);
    assert_eq!(old, vec![2, 4]);
}

#[test]
fn members_to_forget() {
    assert!(should_forget_member(None));
    assert!(should_forget_member(Some(404)));
    assert!(!should_forget_member(Some(500)));
    assert!(!should_forget_member(Some(503)));
    assert!(!should_forget_member(Some(429)));
}

#[test]
fn congratulations() {
    assert_eq!(
        birthday_message_text(&vec![1, 22]),
        "<@&1299153941623341056>\n🎉 (2)\n- <@1>\n- <@22>\n"
    );
    let many: Vec<u64> = (0..200).map(|i| 100_000_000_000_000_000 + i).collect();
    assert!(birthday_message_text(&many).len() <= 2000);
    assert_eq!(
        birthday_message_text(&many),
        "<@&1299153941623341056>\n🎉 (200)\n(Too many people's birthdays!)"
    );
}
