//! What the bot does when the gateway says it is ready: on the first start it
//! registers its commands and starts its background tasks; on a reconnection it
//! only says so.
use vstd::prelude::*;
use crate::text::push_str;

verus! {

/// The console line that greets a ready event.
pub open spec fn ready_log(already_ready: bool, name: Seq<char>) -> Seq<char> {
    name + (if already_ready { " !Reconnected"@ } else { " !!"@ })
}

/// The ready event goes on only for the bot's own account.
pub open spec fn ready_proceeds(user_id: u64, bot_id: u64) -> bool {
    user_id == bot_id
}

/// Commands are registered and tasks started on the first ready event only.
pub open spec fn first_start(already_ready: bool, user_id: u64, bot_id: u64) -> bool {
    ready_proceeds(user_id, bot_id) && !already_ready
}

/// The title of the status message posted to the log channel.
pub open spec fn ready_banner(already_ready: bool) -> Seq<char> {
    if already_ready { "RECONNECTED"@ } else { "ON"@ }
}

/// What to do on a ready event.
pub struct ReadyPlan {
    pub log_line: String,
    /// The account is the bot's own; otherwise nothing more is done.
    pub proceed: bool,
    /// Register the slash commands, start the background tasks and remember
    /// that the bot is ready.
    pub first_start: bool,
    pub banner: String,
}

pub fn ready_plan(already_ready: bool, name: &str, user_id: u64, bot_id: u64) -> (r: ReadyPlan)
    ensures
        r.log_line@ == ready_log(already_ready, name@),
        r.proceed == ready_proceeds(user_id, bot_id),
        r.first_start == first_start(already_ready, user_id, bot_id),
        r.banner@ == ready_banner(already_ready),
{
    let mut log_line = String::from_str(name);
    if already_ready {
        push_str(&mut log_line, " !Reconnected");
    } else {
        push_str(&mut log_line, " !!");
    }
    ReadyPlan {
        log_line,
        proceed: user_id == bot_id,
        first_start: user_id == bot_id && !already_ready,
        banner: if already_ready { String::from_str("RECONNECTED") } else { String::from_str("ON") },
    }
}

/// Law: the background tasks start at most once, since after the first start
/// the bot is marked ready and every later ready event is a reconnection.
pub proof fn law_tasks_start_once(user_id: u64, bot_id: u64)
    ensures
        !first_start(true, user_id, bot_id),
        first_start(false, user_id, bot_id) == (user_id == bot_id),
{
}

} // verus!
