//! Which events the bot acts on, and how: the checks that come before any
//! relaying, up-board counting, trap or shell command. The caller looks the
//! relay pairs up with `dm::find_link` and hands in what it found.
use vstd::prelude::*;
use crate::dm::other_channel;
use crate::shell::{is_shell, is_shell_line};
use crate::text::{chars_eq, chars_of, is_ws, starts_with, starts_with_chars, trim_start};

verus! {

/// Where an event leads.
#[derive(PartialEq, Eq, Structural, Debug, Clone, Copy)]
pub enum Route {
    /// Nothing is done.
    Ignore,
    /// Mirror the event in `target`, the other side of the relay pair of the
    /// server channel `server` and the user's DM channel `user`.
    Relay { target: u64, server: u64, user: u64 },
    /// Count the up-votes of the message on the home server.
    Upboard,
}

/// A reaction added by `user`. On the home server: mirrored into the user's
/// DM when the channel relays one, otherwise counted for the up-board; in a
/// DM: mirrored into the server channel. The bot's own reactions and other
/// servers are left alone.
pub open spec fn reaction_add_route(
    user: u64,
    bot: u64,
    guild: Option<u64>,
    home: u64,
    server_link: Option<(u64, u64)>,
    user_link: Option<(u64, u64)>,
) -> Route {
    if user == bot {
        Route::Ignore
    } else {
        match guild {
            Some(g) => if g != home {
                Route::Ignore
            } else {
                match server_link {
                    Some(l) => Route::Relay { target: l.1, server: l.0, user: l.1 },
                    None => Route::Upboard,
                }
            },
            None => match user_link {
                Some(l) => Route::Relay { target: l.0, server: l.0, user: l.1 },
                None => Route::Ignore,
            },
        }
    }
}

/// `server_link` and `user_link` are what `find_link` gives for the channel
/// on the server side and on the user side.
pub fn route_reaction_add(
    user: u64,
    bot: u64,
    guild: Option<u64>,
    home: u64,
    server_link: Option<(u64, u64)>,
    user_link: Option<(u64, u64)>,
) -> (r: Route)
    ensures
        r == reaction_add_route(user, bot, guild, home, server_link, user_link),
{
    if user == bot {
        return Route::Ignore;
    }
    match guild {
        Some(g) => {
            if g != home {
                Route::Ignore
            } else {
                match server_link {
                    Some(l) => Route::Relay { target: l.1, server: l.0, user: l.1 },
                    None => Route::Upboard,
                }
            }
        },
        None => match user_link {
            Some(l) => Route::Relay { target: l.0, server: l.0, user: l.1 },
            None => Route::Ignore,
        },
    }
}

/// A reaction taken back by `user` in `channel`: on a relayed channel, the
/// bot's copy on the other side is taken back; otherwise, on the home server,
/// the up-votes are counted again.
pub open spec fn reaction_remove_route(
    user: u64,
    bot: u64,
    guild: Option<u64>,
    home: u64,
    channel: u64,
    link: Option<(u64, u64)>,
) -> Route {
    if user == bot {
        Route::Ignore
    } else {
        match link {
            Some(l) => Route::Relay { target: other_channel(channel, l), server: l.0, user: l.1 },
            None => if guild == Some(home) {
                Route::Upboard
            } else {
                Route::Ignore
            },
        }
    }
}

/// `link` is what `find_link` gives for the channel on either side.
pub fn route_reaction_remove(
    user: u64,
    bot: u64,
    guild: Option<u64>,
    home: u64,
    channel: u64,
    link: Option<(u64, u64)>,
) -> (r: Route)
    ensures
        r == reaction_remove_route(user, bot, guild, home, channel, link),
{
    if user == bot {
        return Route::Ignore;
    }
    match link {
        Some(l) => {
            let target = if channel == l.0 { l.1 } else { l.0 };
            Route::Relay { target, server: l.0, user: l.1 }
        },
        None => match guild {
            Some(g) => if g == home {
                Route::Upboard
            } else {
                Route::Ignore
            },
            None => Route::Ignore,
        },
    }
}

/// A deleted message of a relayed channel: on the home server its copy in the
/// user's DM goes too; in a DM the server copy is marked as removed. Other
/// servers and channels that relay nothing are left alone.
pub open spec fn message_delete_route(guild: Option<u64>, home: u64, link: Option<(u64, u64)>) -> Route {
    match link {
        None => Route::Ignore,
        Some(l) => match guild {
            Some(g) => if g != home {
                Route::Ignore
            } else {
                Route::Relay { target: l.1, server: l.0, user: l.1 }
            },
            None => Route::Relay { target: l.0, server: l.0, user: l.1 },
        },
    }
}

pub fn route_message_delete(guild: Option<u64>, home: u64, link: Option<(u64, u64)>) -> (r: Route)
    ensures
        r == message_delete_route(guild, home, link),
{
    match link {
        None => Route::Ignore,
        Some(l) => match guild {
            Some(g) => if g != home {
                Route::Ignore
            } else {
                Route::Relay { target: l.1, server: l.0, user: l.1 }
            },
            None => Route::Relay { target: l.0, server: l.0, user: l.1 },
        },
    }
}

/// An edited message of a relayed channel (its author, when known): the copy on
/// the other side is edited, unless the bot wrote it or it is on another server.
pub open spec fn message_update_route(
    author: Option<u64>,
    bot: u64,
    guild: Option<u64>,
    home: u64,
    link: Option<(u64, u64)>,
) -> Route {
    if author == Some(bot) {
        Route::Ignore
    } else {
        match guild {
            Some(g) => if g != home {
                Route::Ignore
            } else {
                match link {
                    Some(l) => Route::Relay { target: l.1, server: l.0, user: l.1 },
                    None => Route::Ignore,
                }
            },
            None => match link {
                Some(l) => Route::Relay { target: l.0, server: l.0, user: l.1 },
                None => Route::Ignore,
            },
        }
    }
}

pub fn route_message_update(
    author: Option<u64>,
    bot: u64,
    guild: Option<u64>,
    home: u64,
    link: Option<(u64, u64)>,
) -> (r: Route)
    ensures
        r == message_update_route(author, bot, guild, home, link),
{
    if let Some(a) = author {
        if a == bot {
            return Route::Ignore;
        }
    }
    match guild {
        Some(g) => if g != home {
            Route::Ignore
        } else {
            match link {
                Some(l) => Route::Relay { target: l.1, server: l.0, user: l.1 },
                None => Route::Ignore,
            }
        },
        None => match link {
            Some(l) => Route::Relay { target: l.0, server: l.0, user: l.1 },
            None => Route::Ignore,
        },
    }
}

/// Someone typing in a relayed channel is shown on the other side, as a
/// reaction is.
pub open spec fn typing_route(
    user: u64,
    bot: u64,
    guild: Option<u64>,
    home: u64,
    server_link: Option<(u64, u64)>,
    user_link: Option<(u64, u64)>,
) -> Route {
    match reaction_add_route(user, bot, guild, home, server_link, user_link) {
        Route::Upboard => Route::Ignore,
        r => r,
    }
}

pub fn route_typing(
    user: u64,
    bot: u64,
    guild: Option<u64>,
    home: u64,
    server_link: Option<(u64, u64)>,
    user_link: Option<(u64, u64)>,
) -> (r: Route)
    ensures
        r == typing_route(user, bot, guild, home, server_link, user_link),
{
    match route_reaction_add(user, bot, guild, home, server_link, user_link) {
        Route::Upboard => Route::Ignore,
        r => r,
    }
}

/// The first decision on a new message.
#[derive(PartialEq, Eq, Structural, Debug, Clone, Copy)]
pub enum MessageStart {
    /// The bot's own message.
    Ignore,
    /// The message fell into a trap: ban its author, log to this channel.
    SpringTrap(Option<u64>),
    /// Ask whether the message calls for a stored answer, then decide.
    AskCall,
    /// A server that opted out of answers: decide without asking.
    SkipCall,
}

/// The bot ignores itself; on a server, a trap comes first, then the stored
/// answers unless the server opted out of them; a DM is always asked.
pub open spec fn message_start(
    author: u64,
    bot: u64,
    guild: Option<u64>,
    trap: Option<Option<u64>>,
    blacklisted: bool,
) -> MessageStart {
    if author == bot {
        MessageStart::Ignore
    } else if guild is None {
        MessageStart::AskCall
    } else if trap is Some {
        MessageStart::SpringTrap(trap->0)
    } else if blacklisted {
        MessageStart::SkipCall
    } else {
        MessageStart::AskCall
    }
}

/// `trap` is what `trap::hit_trap` gives for the message's channel and
/// `blacklisted` whether the server opted out of answers.
pub fn start_message(author: u64, bot: u64, guild: Option<u64>, trap: Option<Option<u64>>, blacklisted: bool) -> (r:
    MessageStart)
    ensures
        r == message_start(author, bot, guild, trap, blacklisted),
{
    if author == bot {
        MessageStart::Ignore
    } else if guild.is_none() {
        MessageStart::AskCall
    } else {
        match trap {
            Some(log) => MessageStart::SpringTrap(log),
            None => if blacklisted {
                MessageStart::SkipCall
            } else {
                MessageStart::AskCall
            },
        }
    }
}

/// What the stored answers made of a message.
#[derive(PartialEq, Eq, Structural, Debug, Clone, Copy)]
pub enum CallResult {
    /// The message was handled; nothing more is done.
    Stop,
    /// An answer was given.
    Answered,
    /// No answer applies.
    NotACall,
    /// The server opted out of answers; none was asked for.
    Skipped,
}

/// The rest of a message's handling.
#[derive(PartialEq, Eq, Structural, Debug, Clone, Copy)]
pub enum MessageNext {
    Stop,
    /// Answer `<?` with the help note.
    Help,
    /// Run the admin shell line.
    Shell,
    /// The owner's `<&` on the home server: shut the bot down.
    ShutDown,
    /// Send the message to the user whose DM the channel mirrors.
    RelayToUser,
    /// Copy the user's DM into its server channel.
    RelayToServer,
}

/// On a server: `<?` without an answer gets the help note, a shell line is run,
/// and on the home server the owner's `<&` shuts the bot down while any other
/// message is relayed to the user. A DM is relayed to the server unless the
/// answers stopped it.
pub open spec fn message_next(
    in_guild: bool,
    call: CallResult,
    content: Seq<char>,
    home_server: bool,
    by_owner: bool,
) -> MessageNext {
    if call == CallResult::Stop {
        MessageNext::Stop
    } else if !in_guild {
        MessageNext::RelayToServer
    } else if call == CallResult::NotACall && content == "<?"@ {
        MessageNext::Help
    } else if is_shell(content) {
        MessageNext::Shell
    } else if !home_server {
        MessageNext::Stop
    } else if starts_with(content, "<&"@) && by_owner {
        MessageNext::ShutDown
    } else {
        MessageNext::RelayToUser
    }
}

pub fn next_for_message(in_guild: bool, call: CallResult, content: &str, home_server: bool, by_owner: bool) -> (r:
    MessageNext)
    ensures
        r == message_next(in_guild, call, content@, home_server, by_owner),
{
    if call == CallResult::Stop {
        return MessageNext::Stop;
    }
    if !in_guild {
        return MessageNext::RelayToServer;
    }
    let v = chars_of(content);
    let help = chars_of("<?");
    if call == CallResult::NotACall && chars_eq(&v, &help) {
        return MessageNext::Help;
    }
    if is_shell_line(content) {
        return MessageNext::Shell;
    }
    if !home_server {
        return MessageNext::Stop;
    }
    let quit = chars_of("<&");
    if starts_with_chars(&v, &quit) && by_owner {
        MessageNext::ShutDown
    } else {
        MessageNext::RelayToUser
    }
}

/// Law: a message shuts the bot down exactly when the owner writes `<&...` on
/// the home server, outside a trap channel, and the stored answers did not stop
/// it; the bot's own messages never do.
pub proof fn law_shutdown_only_by_owner(
    author: u64,
    bot: u64,
    owner: u64,
    guild: Option<u64>,
    home: u64,
    trap: Option<Option<u64>>,
    blacklisted: bool,
    call: CallResult,
    content: Seq<char>,
)
    ensures
        ({
            let start = message_start(author, bot, guild, trap, blacklisted);
            (start == MessageStart::AskCall || start == MessageStart::SkipCall)
                && message_next(guild is Some, call, content, guild == Some(home), author == owner)
                == MessageNext::ShutDown
        }) <==> (guild == Some(home) && author == owner && author != bot && trap is None && call != CallResult::Stop
            && starts_with(content, "<&"@)),
{
    reveal_strlit("<&");
    reveal_strlit("<?");
    reveal_strlit("<!");
    if starts_with(content, "<&"@) {
        assert("<&"@[0] == '<' && "<&"@[1] == '&');
        assert(content.take(2)[0] == content[0] && content.take(2)[1] == content[1]);
        assert(content[0] == '<' && content[1] == '&');
        assert(!is_ws(content[0]));
        assert(trim_start(content) == content);
        assert(trim_start(content).take(2)[1] != "<!"@[1]);
        assert(content != "<?"@) by {
            assert("<?"@[1] == '?');
        }
    }
}

/// Law: the bot never acts on its own messages, reactions or edits.
pub proof fn law_bot_ignores_itself(
    bot: u64,
    guild: Option<u64>,
    home: u64,
    channel: u64,
    trap: Option<Option<u64>>,
    blacklisted: bool,
    server_link: Option<(u64, u64)>,
    user_link: Option<(u64, u64)>,
    link: Option<(u64, u64)>,
)
    ensures
        message_start(bot, bot, guild, trap, blacklisted) == MessageStart::Ignore,
        reaction_add_route(bot, bot, guild, home, server_link, user_link) == Route::Ignore,
        reaction_remove_route(bot, bot, guild, home, channel, link) == Route::Ignore,
        message_update_route(Some(bot), bot, guild, home, link) == Route::Ignore,
        typing_route(bot, bot, guild, home, server_link, user_link) == Route::Ignore,
{
}

/// Law: on a server other than the home server, nothing is relayed or counted
/// (only a trap there is sprung, by `message_start`).
pub proof fn law_foreign_servers_left_alone(
    user: u64,
    bot: u64,
    g: u64,
    home: u64,
    server_link: Option<(u64, u64)>,
    user_link: Option<(u64, u64)>,
    link: Option<(u64, u64)>,
    author: Option<u64>,
)
    requires
        g != home,
    ensures
        reaction_add_route(user, bot, Some(g), home, server_link, user_link) == Route::Ignore,
        message_delete_route(Some(g), home, link) == Route::Ignore,
        message_update_route(author, bot, Some(g), home, link) == Route::Ignore,
        typing_route(user, bot, Some(g), home, server_link, user_link) == Route::Ignore,
{
}

} // verus!
