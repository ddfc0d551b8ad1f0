//! Spam traps: a server may name a channel in which any message gets its
//! author banned, and a channel where the bans are logged.
use vstd::prelude::*;
use std::collections::HashMap;
use crate::commands::{lng, lng_trs};
use crate::text::{decimal, push_decimal, push_str};

verus! {

broadcast use {
    vstd::std_specs::hash::group_hash_axioms,
};

/// The traps of all servers: server id to trap channel and log channel.
pub type TrapTable = HashMap<u64, (u64, Option<u64>)>;

/// The log channel of the trap hit by a message in `channel` of server
/// `guild`: `None` when the channel is no trap, `Some(log)` when it is.
pub open spec fn trap_hit(t: Map<u64, (u64, Option<u64>)>, guild: u64, channel: u64) -> Option<Option<u64>> {
    if t.contains_key(guild) && t[guild].0 == channel {
        Some(t[guild].1)
    } else {
        None
    }
}

pub fn hit_trap(t: &TrapTable, guild: u64, channel: u64) -> (r: Option<Option<u64>>)
    ensures
        r == trap_hit(t@, guild, channel),
{
    match t.get(&guild) {
        Some(entry) => {
            if entry.0 == channel {
                Some(entry.1)
            } else {
                None
            }
        },
        None => None,
    }
}

pub fn has_trap(t: &TrapTable, guild: u64) -> (r: bool)
    ensures
        r == t@.contains_key(guild),
{
    t.contains_key(&guild)
}

/// Sets the trap of a server (after it was stored).
pub fn set_trap(t: &mut TrapTable, guild: u64, channel: u64, log: Option<u64>)
    ensures
        final(t)@ == old(t)@.insert(guild, (channel, log)),
{
    t.insert(guild, (channel, log));
}

/// Sets the trap of a server that has none; a server's existing trap is never
/// replaced. Says whether the trap was set.
pub fn set_trap_if_absent(t: &mut TrapTable, guild: u64, channel: u64, log: Option<u64>) -> (set: bool)
    ensures
        set == !old(t)@.contains_key(guild),
        set ==> final(t)@ == old(t)@.insert(guild, (channel, log)),
        !set ==> final(t)@ == old(t)@,
{
    if t.contains_key(&guild) {
        false
    } else {
        t.insert(guild, (channel, log));
        true
    }
}

/// Removes the trap of a server (after it was deleted from storage).
pub fn remove_trap(t: &mut TrapTable, guild: u64)
    ensures
        final(t)@ == old(t)@.remove(guild),
{
    t.remove(&guild);
}

/// Law: right after a trap is set, a message in its channel hits it and is logged
/// where the trap says; messages in other channels of the server do not.
pub proof fn law_set_then_hit(t: Map<u64, (u64, Option<u64>)>, guild: u64, channel: u64, log: Option<u64>, other: u64)
    requires
        other != channel,
    ensures
        trap_hit(t.insert(guild, (channel, log)), guild, channel) == Some(log),
        trap_hit(t.insert(guild, (channel, log)), guild, other) is None,
{
}

/// Law: after a trap is removed, no message of that server hits a trap, and the
/// traps of other servers are unchanged.
pub proof fn law_remove_then_miss(t: Map<u64, (u64, Option<u64>)>, guild: u64, g2: u64, channel: u64)
    ensures
        trap_hit(t.remove(guild), guild, channel) is None,
        g2 != guild ==> trap_hit(t.remove(guild), g2, channel) == trap_hit(t, g2, channel),
{
}

/// Law: on a server without a trap, setting one and removing it again gives the
/// table back as it was; the traps of other servers are never touched.
pub proof fn law_set_then_remove_restores(t: Map<u64, (u64, Option<u64>)>, guild: u64, channel: u64, log: Option<u64>)
    requires
        !t.contains_key(guild),
    ensures
        t.insert(guild, (channel, log)).remove(guild) == t,
        forall|g: u64| g != guild ==> #[trigger] trap_hit(t.insert(guild, (channel, log)), g, channel) == trap_hit(t, g, channel),
{
    assert(t.insert(guild, (channel, log)).remove(guild) =~= t);
}

/// `s` left-aligned in a field of 16 characters (`{:<16}`).
pub open spec fn pad16(s: Seq<char>) -> Seq<char> {
    if s.len() >= 16 {
        s
    } else {
        s + Seq::new((16 - s.len()) as nat, |i: int| ' ')
    }
}

/// A log channel as the list shows it.
pub open spec fn log_text(log: Option<u64>) -> Seq<char> {
    match log {
        Some(v) => decimal(v as nat),
        None => "None"@,
    }
}

/// One row of the trap list.
pub open spec fn trap_row(guild: u64, channel: u64, log: Option<u64>) -> Seq<char> {
    "| "@ + pad16(decimal(guild as nat)) + " | "@ + pad16(decimal(channel as nat)) + " | "@ + pad16(log_text(log)) + " |\n"@
}

pub open spec fn rule() -> Seq<char> {
    "+------------------+------------------+------------------+\n"@
}

pub open spec fn trap_rows(entries: Seq<(u64, (u64, Option<u64>))>) -> Seq<char>
    decreases entries.len(),
{
    if entries.len() == 0 {
        seq![]
    } else {
        let e = entries.last();
        trap_rows(entries.drop_last()) + trap_row(e.0, e.1.0, e.1.1)
    }
}

/// The trap list: a table in a code block, rows in the order given.
pub open spec fn trap_list(entries: Seq<(u64, (u64, Option<u64>))>) -> Seq<char> {
    "```\n"@ + rule() + "| guild_id         | channel_id       | log_id           |\n"@ + rule() + trap_rows(entries)
        + "+------------------+------------------+------------------+\n```"@
}

fn push_pad16(s: &mut String, field: &String)
    ensures
        final(s)@ == old(s)@ + pad16(field@),
{
    let ghost s0 = s@;
    push_str(s, field.as_str());
    let n = crate::text::chars_of(field.as_str()).len();
    let mut k = n;
    while k < 16
        invariant
            n == field@.len(),
            n <= k <= 16 || (n > 16 && k == n),
            s@ == s0 + field@ + Seq::new((k - n) as nat, |i: int| ' '),
        decreases 16 - k,
    {
        s.push(' ');
        assert(s@ =~= s0 + field@ + Seq::new((k + 1 - n) as nat, |i: int| ' '));
        k = k + 1;
    }
    if n >= 16 {
        assert(s@ =~= s0 + field@);
    } else {
        assert(s@ =~= s0 + (field@ + Seq::new((16 - n) as nat, |i: int| ' ')));
    }
}

fn decimal_text(v: u64) -> (s: String)
    ensures
        s@ == decimal(v as nat),
{
    let mut s = String::new();
    push_decimal(&mut s, v);
    s
}

#[verifier::spinoff_prover]
#[verifier::rlimit(30)]
pub fn trap_list_text(entries: &Vec<(u64, (u64, Option<u64>))>) -> (r: String)
    ensures
        r@ == trap_list(entries@),
{
    let mut s = String::from_str("```\n");
    push_str(&mut s, "+------------------+------------------+------------------+\n");
    push_str(&mut s, "| guild_id         | channel_id       | log_id           |\n");
    push_str(&mut s, "+------------------+------------------+------------------+\n");
    let ghost head = s@;
    let mut i: usize = 0;
    while i < entries.len()
        invariant
            i <= entries.len(),
            s@ == head + trap_rows(entries@.take(i as int)),
        decreases entries.len() - i,
    {
        assert(entries@.take(i + 1).drop_last() =~= entries@.take(i as int));
        let (g, (c, l)) = entries[i];
        let log = match l {
            Some(v) => decimal_text(v),
            None => String::from_str("None"),
        };
        push_str(&mut s, "| ");
        push_pad16(&mut s, &decimal_text(g));
        push_str(&mut s, " | ");
        push_pad16(&mut s, &decimal_text(c));
        push_str(&mut s, " | ");
        push_pad16(&mut s, &log);
        push_str(&mut s, " |\n");
        assert(s@ =~= head + trap_rows(entries@.take(i + 1)));
        i = i + 1;
    }
    assert(entries@.take(entries.len() as int) =~= entries@);
    push_str(&mut s, "+------------------+------------------+------------------+\n```");
    s
}

/// The answers of `z_trap_set` and `z_trap_remove`.
#[derive(PartialEq, Eq, Structural, Debug, Clone, Copy)]
pub enum TrapNote {
    NoGuild,
    TriggerEmpty,
    TriggerInvalid,
    TriggerMissing,
    TriggerNotServer,
    TriggerOtherServer,
    TriggerNotText,
    LogInvalid,
    LogMissing,
    LogNotServer,
    LogOtherServer,
    LogNotText,
    NoBotPermissions,
    CannotBan,
    ServerInfoFailed,
    MemberInfoFailed,
    CannotSendLogs,
    AlreadySet,
    SaveAccessFailed,
    SaveFailed,
    TrapSet,
    NotSet,
    DeleteAccessFailed,
    DeleteFailed,
    Deleted,
}

/// The English and Korean text of an answer.
pub open spec fn note_texts(n: TrapNote) -> (Seq<char>, Seq<char>) {
    match n {
        TrapNote::NoGuild => ("There isn't a guild"@, "여긴 서버가 아니야"@),
        TrapNote::TriggerEmpty => ("Trigger channel is empty"@, "발동 채널이 비었어"@),
        TrapNote::TriggerInvalid => ("Trigger channel is invalid"@, "발동 채널이 잘못되었어"@),
        TrapNote::TriggerMissing => ("Trigger channel is missing"@, "발동 채널을 찾을 수 없어"@),
        TrapNote::TriggerNotServer => ("Trigger channel is not a server channel"@, "발동 채널이 서버 체널이 아니야"@),
        TrapNote::TriggerOtherServer => ("Trigger channel is not a channel of this server"@, "발동 채널이 이 서버의 체널이 아니야"@),
        TrapNote::TriggerNotText => ("Trigger channel type is not a text channel"@, "발동 체널의 타입이 텍스트 체널이 아니야"@),
        TrapNote::LogInvalid => ("Log channel is invalid"@, "로그 채널이 잘못되었어"@),
        TrapNote::LogMissing => ("Log channel is missing"@, "로그 채널을 찾을 수 없어"@),
        TrapNote::LogNotServer => ("Log channel is not a server channel"@, "로그 채널이 서버 체널이 아니야"@),
        TrapNote::LogOtherServer => ("Log channel is not a channel of this server"@, "로그 채널이 이 서버의 체널이 아니야"@),
        TrapNote::LogNotText => ("Log channel type is not a text channel"@, "로그 체널의 타입이 텍스트 체널이 아니야"@),
        TrapNote::NoBotPermissions => ("Unable to check bot permissions"@, "내 권한을 확인할 수 없었어"@),
        TrapNote::CannotBan => ("I do not have permission to ban members"@, "유저를 밴할 수 있는 권한이 없어"@),
        TrapNote::ServerInfoFailed => ("Failed to retrieve server information to view my permissions"@, "내 권한을 보기 위한 서버 정보를 불러오는데 실패했어"@),
        TrapNote::MemberInfoFailed => ("Failed to retrieve member information to view my permissions"@, "내 권한을 보기 위한 맴버 정보를 불러오는데 실패했어"@),
        TrapNote::CannotSendLogs => ("I don't have permission to send messages from the log server"@, "로그 서버에서 메시지를 전송할 권한이 없어"@),
        TrapNote::AlreadySet => ("Trap has already been set"@, "함정이 이미 설정되어있어"@),
        TrapNote::SaveAccessFailed => ("Failed to access DB for saving"@, "저장을 위한 DB 접근에 실패했어"@),
        TrapNote::SaveFailed => ("An error occurred while saving to the database"@, "DB에 저장하던 중에 오류가 발생했어"@),
        TrapNote::TrapSet => ("Trap has been set"@, "함정이 설정되었어"@),
        TrapNote::NotSet => ("No trap set"@, "함정이 설정되어 있지 않아"@),
        TrapNote::DeleteAccessFailed => ("Failed to access DB for deletion"@, "삭제를 위한 DB 접근에 실패했어"@),
        TrapNote::DeleteFailed => ("An error occurred while deleting from the DB"@, "DB에서 삭제하던 중에 오류가 발생했어"@),
        TrapNote::Deleted => ("Trap has been deleted"@, "함정이 삭제되었어"@),
    }
}

fn note_strs(n: TrapNote) -> (r: (&'static str, &'static str))
    ensures
        (r.0@, r.1@) == note_texts(n),
{
    match n {
        TrapNote::NoGuild => ("There isn't a guild", "여긴 서버가 아니야"),
        TrapNote::TriggerEmpty => ("Trigger channel is empty", "발동 채널이 비었어"),
        TrapNote::TriggerInvalid => ("Trigger channel is invalid", "발동 채널이 잘못되었어"),
        TrapNote::TriggerMissing => ("Trigger channel is missing", "발동 채널을 찾을 수 없어"),
        TrapNote::TriggerNotServer => ("Trigger channel is not a server channel", "발동 채널이 서버 체널이 아니야"),
        TrapNote::TriggerOtherServer => ("Trigger channel is not a channel of this server", "발동 채널이 이 서버의 체널이 아니야"),
        TrapNote::TriggerNotText => ("Trigger channel type is not a text channel", "발동 체널의 타입이 텍스트 체널이 아니야"),
        TrapNote::LogInvalid => ("Log channel is invalid", "로그 채널이 잘못되었어"),
        TrapNote::LogMissing => ("Log channel is missing", "로그 채널을 찾을 수 없어"),
        TrapNote::LogNotServer => ("Log channel is not a server channel", "로그 채널이 서버 체널이 아니야"),
        TrapNote::LogOtherServer => ("Log channel is not a channel of this server", "로그 채널이 이 서버의 체널이 아니야"),
        TrapNote::LogNotText => ("Log channel type is not a text channel", "로그 체널의 타입이 텍스트 체널이 아니야"),
        TrapNote::NoBotPermissions => ("Unable to check bot permissions", "내 권한을 확인할 수 없었어"),
        TrapNote::CannotBan => ("I do not have permission to ban members", "유저를 밴할 수 있는 권한이 없어"),
        TrapNote::ServerInfoFailed => ("Failed to retrieve server information to view my permissions", "내 권한을 보기 위한 서버 정보를 불러오는데 실패했어"),
        TrapNote::MemberInfoFailed => ("Failed to retrieve member information to view my permissions", "내 권한을 보기 위한 맴버 정보를 불러오는데 실패했어"),
        TrapNote::CannotSendLogs => ("I don't have permission to send messages from the log server", "로그 서버에서 메시지를 전송할 권한이 없어"),
        TrapNote::AlreadySet => ("Trap has already been set", "함정이 이미 설정되어있어"),
        TrapNote::SaveAccessFailed => ("Failed to access DB for saving", "저장을 위한 DB 접근에 실패했어"),
        TrapNote::SaveFailed => ("An error occurred while saving to the database", "DB에 저장하던 중에 오류가 발생했어"),
        TrapNote::TrapSet => ("Trap has been set", "함정이 설정되었어"),
        TrapNote::NotSet => ("No trap set", "함정이 설정되어 있지 않아"),
        TrapNote::DeleteAccessFailed => ("Failed to access DB for deletion", "삭제를 위한 DB 접근에 실패했어"),
        TrapNote::DeleteFailed => ("An error occurred while deleting from the DB", "DB에서 삭제하던 중에 오류가 발생했어"),
        TrapNote::Deleted => ("Trap has been deleted", "함정이 삭제되었어"),
    }
}

/// An answer in the caller's language.
pub fn trap_note_text(n: TrapNote, is_korean: bool) -> (r: String)
    ensures
        r@ == lng(is_korean, note_texts(n).0, note_texts(n).1),
{
    let (en, ko) = note_strs(n);
    String::from_str(lng_trs(is_korean, en, ko))
}

/// What the server says of a channel named in `z_trap_set`.
#[derive(PartialEq, Eq, Structural, Debug, Clone, Copy)]
pub enum ChannelLookup {
    /// The channel could not be fetched.
    Missing,
    /// A channel outside any server.
    NotServerChannel,
    /// A channel of the server `guild`.
    ServerChannel { guild: u64, is_text: bool },
}

/// Which channel of a trap is checked.
#[derive(PartialEq, Eq, Structural, Debug, Clone, Copy)]
pub enum TrapChannel {
    Trigger,
    Log,
}

/// Why a channel cannot serve a trap of the server `guild`: it must be a text
/// channel of that server; `None` when it can.
pub open spec fn channel_refusal(which: TrapChannel, l: ChannelLookup, guild: u64) -> Option<TrapNote> {
    let trigger = which == TrapChannel::Trigger;
    match l {
        ChannelLookup::Missing => Some(if trigger { TrapNote::TriggerMissing } else { TrapNote::LogMissing }),
        ChannelLookup::NotServerChannel => Some(if trigger { TrapNote::TriggerNotServer } else { TrapNote::LogNotServer }),
        ChannelLookup::ServerChannel { guild: g, is_text } => if g != guild {
            Some(if trigger { TrapNote::TriggerOtherServer } else { TrapNote::LogOtherServer })
        } else if !is_text {
            Some(if trigger { TrapNote::TriggerNotText } else { TrapNote::LogNotText })
        } else {
            None
        },
    }
}

pub fn check_trap_channel(which: TrapChannel, l: ChannelLookup, guild: u64) -> (r: Option<TrapNote>)
    ensures
        r == channel_refusal(which, l, guild),
{
    let trigger = which == TrapChannel::Trigger;
    match l {
        ChannelLookup::Missing => Some(if trigger { TrapNote::TriggerMissing } else { TrapNote::LogMissing }),
        ChannelLookup::NotServerChannel => Some(if trigger { TrapNote::TriggerNotServer } else { TrapNote::LogNotServer }),
        ChannelLookup::ServerChannel { guild: g, is_text } => if g != guild {
            Some(if trigger { TrapNote::TriggerOtherServer } else { TrapNote::LogOtherServer })
        } else if !is_text {
            Some(if trigger { TrapNote::TriggerNotText } else { TrapNote::LogNotText })
        } else {
            None
        },
    }
}

} // verus!
