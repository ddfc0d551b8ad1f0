use rustoki::json::strings_json;
use rustoki::resp::resp_table_reply;
use rustoki::routing::{
    next_for_message, route_message_delete, route_message_update, route_reaction_add, route_reaction_remove,
    route_typing, start_message, CallResult, MessageNext, MessageStart, Route,
};

const BOT: u64 = 1;
const HOME: u64 = 100;
const LINK: (u64, u64) = (500, 900);

fn relay(target: u64) -> Route {
    Route::Relay { target, server: LINK.0, user: LINK.1 }
}

#[test]
fn reactions_are_mirrored_or_counted() {
    assert_eq!(route_reaction_add(7, BOT, Some(HOME), HOME, Some(LINK), None), relay(900));
    assert_eq!(route_reaction_add(7, BOT, Some(HOME), HOME, None, None), Route::Upboard);
    assert_eq!(route_reaction_add(7, BOT, None, HOME, None, Some(LINK)), relay(500));
    assert_eq!(route_reaction_add(7, BOT, None, HOME, None, None), Route::Ignore);
    assert_eq!(route_reaction_add(7, BOT, Some(200), HOME, Some(LINK), None), Route::Ignore);
    assert_eq!(route_reaction_add(BOT, BOT, Some(HOME), HOME, None, None), Route::Ignore);

    assert_eq!(route_reaction_remove(7, BOT, Some(HOME), HOME, 500, Some(LINK)), relay(900));
    assert_eq!(route_reaction_remove(7, BOT, None, HOME, 900, Some(LINK)), relay(500));
    assert_eq!(route_reaction_remove(7, BOT, Some(HOME), HOME, 3, None), Route::Upboard);
    assert_eq!(route_reaction_remove(7, BOT, Some(200), HOME, 3, None), Route::Ignore);
    assert_eq!(route_reaction_remove(BOT, BOT, Some(HOME), HOME, 500, Some(LINK)), Route::Ignore);
}

#[test]
fn edits_deletions_and_typing_follow_the_pair() {
    assert_eq!(route_message_delete(Some(HOME), HOME, Some(LINK)), relay(900));
    assert_eq!(route_message_delete(None, HOME, Some(LINK)), relay(500));
    assert_eq!(route_message_delete(Some(200), HOME, Some(LINK)), Route::Ignore);
    assert_eq!(route_message_delete(Some(HOME), HOME, None), Route::Ignore);

    assert_eq!(route_message_update(Some(7), BOT, Some(HOME), HOME, Some(LINK)), relay(900));
    assert_eq!(route_message_update(None, BOT, None, HOME, Some(LINK)), relay(500));
    assert_eq!(route_message_update(Some(BOT), BOT, None, HOME, Some(LINK)), Route::Ignore);
    assert_eq!(route_message_update(Some(7), BOT, Some(200), HOME, Some(LINK)), Route::Ignore);
    assert_eq!(route_message_update(Some(7), BOT, None, HOME, None), Route::Ignore);

    assert_eq!(route_typing(7, BOT, Some(HOME), HOME, Some(LINK), None), relay(900));
    assert_eq!(route_typing(7, BOT, None, HOME, None, Some(LINK)), relay(500));
    assert_eq!(route_typing(7, BOT, Some(HOME), HOME, None, None), Route::Ignore);
    assert_eq!(route_typing(BOT, BOT, None, HOME, None, Some(LINK)), Route::Ignore);
}

#[test]
fn a_new_message_meets_traps_first() {
    assert_eq!(start_message(BOT, BOT, Some(HOME), Some(Some(3)), false), MessageStart::Ignore);
    assert_eq!(start_message(7, BOT, Some(HOME), Some(Some(3)), false), MessageStart::SpringTrap(Some(3)));
    assert_eq!(start_message(7, BOT, Some(HOME), Some(None), true), MessageStart::SpringTrap(None));
    assert_eq!(start_message(7, BOT, Some(HOME), None, true), MessageStart::SkipCall);
    assert_eq!(start_message(7, BOT, Some(HOME), None, false), MessageStart::AskCall);
    assert_eq!(start_message(7, BOT, None, None, true), MessageStart::AskCall);
}

#[test]
fn after_the_answers_a_message_goes_on() {
    assert_eq!(next_for_message(true, CallResult::Stop, "hi", true, false), MessageNext::Stop);
    assert_eq!(next_for_message(true, CallResult::NotACall, "<?", true, false), MessageNext::Help);
    assert_eq!(next_for_message(true, CallResult::Skipped, "<?", true, false), MessageNext::RelayToUser);
    assert_eq!(next_for_message(true, CallResult::Answered, "  <! ping", false, false), MessageNext::Shell);
    assert_eq!(next_for_message(true, CallResult::NotACall, "<& bye", true, true), MessageNext::ShutDown);
    assert_eq!(next_for_message(true, CallResult::NotACall, "<& bye", true, false), MessageNext::RelayToUser);
    assert_eq!(next_for_message(true, CallResult::NotACall, "<& bye", false, true), MessageNext::Stop);
    assert_eq!(next_for_message(false, CallResult::Answered, "<?", false, false), MessageNext::RelayToServer);
    assert_eq!(next_for_message(false, CallResult::Stop, "x", false, false), MessageNext::Stop);
}

#[test]
fn answer_tables_are_written_as_json() {
    let answers = vec!["hi".to_string(), "say \"yo\"".to_string()];
    assert_eq!(strings_json(&answers), r#"["hi","say \"yo\""]"#);
    assert_eq!(strings_json(&vec![]), "[]");
    assert_eq!(resp_table_reply("HELLO", &answers), "Responses for key 'HELLO':\n[\"hi\",\"say \\\"yo\\\"\"]");
}
