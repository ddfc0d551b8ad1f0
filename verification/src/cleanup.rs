//! Bulk deletion of a range of messages: each moderator picks a first and an
//! end message (`delete_f_sel`, `delete_e_sel`), then runs `delete_run`.
use vstd::prelude::*;
use crate::commands::{lng, lng_trs};
use crate::text::{decimal, push_decimal, push_str};

verus! {

/// A picked message and where it lives.
#[derive(PartialEq, Eq, Structural, Debug, Clone, Copy)]
pub struct Pick {
    pub message: u64,
    pub guild: u64,
    pub channel: u64,
}

/// No message picked yet.
pub open spec fn unpicked() -> Pick {
    Pick { message: 0, guild: 0, channel: 0 }
}

/// One moderator's range, with the time of the last pick.
#[derive(PartialEq, Eq, Structural, Debug, Clone, Copy)]
pub struct Selection {
    pub user: u64,
    pub first: Pick,
    pub end: Pick,
    pub at_secs: i64,
    pub at_nanos: u32,
}

/// No two ranges belong to the same moderator.
pub open spec fn one_per_user(s: Seq<Selection>) -> bool {
    forall|i: int, j: int| 0 <= i < s.len() && 0 <= j < s.len() && i != j ==> s[i].user != s[j].user
}

/// Index of the first range of `user` at or after `k`.
pub open spec fn range_from(s: Seq<Selection>, user: u64, k: int) -> Option<int>
    decreases s.len() - k,
{
    if k < 0 || k >= s.len() {
        None
    } else if s[k].user == user {
        Some(k)
    } else {
        range_from(s, user, k + 1)
    }
}

/// Index of the first range of `user`.
pub open spec fn range_of(s: Seq<Selection>, user: u64) -> Option<int> {
    range_from(s, user, 0)
}

pub proof fn lemma_range_from_none(s: Seq<Selection>, user: u64, k: int)
    requires
        0 <= k,
        forall|j: int| 0 <= j < s.len() ==> s[j].user != user,
    ensures
        range_from(s, user, k) is None,
    decreases s.len() - k,
{
    if k < s.len() {
        lemma_range_from_none(s, user, k + 1);
    }
}

pub proof fn lemma_range_from(s: Seq<Selection>, user: u64, k: int)
    requires
        0 <= k,
    ensures
        match range_from(s, user, k) {
            Some(i) => k <= i < s.len() && s[i].user == user && forall|j: int| k <= j < i ==> s[j].user != user,
            None => forall|j: int| k <= j < s.len() ==> s[j].user != user,
        },
    decreases s.len() - k,
{
    if k < s.len() && s[k].user != user {
        lemma_range_from(s, user, k + 1);
    }
}

/// Picking `p` as the first (`is_first`) or the end message of `user`'s range
/// at time `now`: the ranges afterwards, and whether the pick was refused because
/// the other end is the same message.
pub open spec fn picked(s: Seq<Selection>, user: u64, is_first: bool, p: Pick, now: (i64, u32)) -> (Seq<Selection>, bool) {
    match range_of(s, user) {
        Some(i) => {
            let e = s[i];
            if is_first {
                if e.end.message == p.message {
                    (s, true)
                } else {
                    (s.update(i, Selection { first: p, at_secs: now.0, at_nanos: now.1, ..e }), false)
                }
            } else {
                if e.first.message == p.message {
                    (s, true)
                } else {
                    (s.update(i, Selection { end: p, at_secs: now.0, at_nanos: now.1, ..e }), false)
                }
            }
        },
        None => {
            let fresh = if is_first {
                Selection { user, first: p, end: unpicked(), at_secs: now.0, at_nanos: now.1 }
            } else {
                Selection { user, first: unpicked(), end: p, at_secs: now.0, at_nanos: now.1 }
            };
            (s.push(fresh), false)
        },
    }
}

fn find_range(s: &Vec<Selection>, user: u64) -> (r: Option<usize>)
    ensures
        match r {
            Some(i) => range_of(s@, user) == Some(i as int) && i < s@.len(),
            None => range_of(s@, user) is None,
        },
{
    let mut i: usize = 0;
    while i < s.len()
        invariant
            i <= s.len(),
            range_of(s@, user) == range_from(s@, user, i as int),
        decreases s.len() - i,
    {
        if s[i].user == user {
            return Some(i);
        }
        i = i + 1;
    }
    None
}

/// Records a pick; returns whether it was refused as a duplicate.
pub fn pick(s: &mut Vec<Selection>, user: u64, is_first: bool, p: Pick, now: (i64, u32)) -> (dup: bool)
    ensures
        (final(s)@, dup) == picked(old(s)@, user, is_first, p, now),
{
    match find_range(s, user) {
        Some(i) => {
            let e = s[i];
            if is_first {
                if e.end.message == p.message {
                    true
                } else {
                    s.set(i, Selection { first: p, at_secs: now.0, at_nanos: now.1, ..e });
                    false
                }
            } else {
                if e.first.message == p.message {
                    true
                } else {
                    s.set(i, Selection { end: p, at_secs: now.0, at_nanos: now.1, ..e });
                    false
                }
            }
        },
        None => {
            let fresh = if is_first {
                Selection { user, first: p, end: Pick { message: 0, guild: 0, channel: 0 }, at_secs: now.0, at_nanos: now.1 }
            } else {
                Selection { user, first: Pick { message: 0, guild: 0, channel: 0 }, end: p, at_secs: now.0, at_nanos: now.1 }
            };
            s.push(fresh);
            false
        },
    }
}

/// Law: picking keeps one range per moderator.
pub proof fn law_pick_keeps_one_per_user(s: Seq<Selection>, user: u64, is_first: bool, p: Pick, now: (i64, u32))
    requires
        one_per_user(s),
    ensures
        one_per_user(picked(s, user, is_first, p, now).0),
{
    let r = picked(s, user, is_first, p, now).0;
    lemma_range_from(s, user, 0);
    match range_of(s, user) {
        Some(i) => {
            assert forall|a: int, b: int| 0 <= a < r.len() && 0 <= b < r.len() && a != b implies r[a].user
                != r[b].user by {
                assert(r[a].user == s[a].user);
                assert(r[b].user == s[b].user);
            }
        },
        None => {
            assert forall|a: int, b: int| 0 <= a < r.len() && 0 <= b < r.len() && a != b implies r[a].user
                != r[b].user by {
                if a < s.len() && b < s.len() {
                } else if a == s.len() {
                    assert(s[b].user != user);
                } else {
                    assert(s[a].user != user);
                }
            }
        },
    }
}

/// Law: after a pick that is not refused, the moderator's range holds the
/// picked message at the chosen end.
pub proof fn law_pick_is_recorded(s: Seq<Selection>, user: u64, is_first: bool, p: Pick, now: (i64, u32))
    requires
        !picked(s, user, is_first, p, now).1,
    ensures
        ({
            let r = picked(s, user, is_first, p, now).0;
            exists|i: int| 0 <= i < r.len() && r[i].user == user && (if is_first { r[i].first == p } else { r[i].end == p })
        }),
{
    let r = picked(s, user, is_first, p, now).0;
    lemma_range_from(s, user, 0);
    match range_of(s, user) {
        Some(i) => {
            assert(r[i].user == user);
        },
        None => {
            assert(r[s.len() as int].user == user);
        },
    }
}

/// Ranges can't be picked in the server's DM-relay channels.
pub open spec fn pick_forbidden(guild: u64, channel: u64, home: u64, relay_channels: Seq<(u64, u64)>) -> bool {
    guild == home && exists|i: int| 0 <= i < relay_channels.len() && relay_channels[i].0 == channel
}

pub fn is_pick_forbidden(guild: u64, channel: u64, home: u64, relay_channels: &Vec<(u64, u64)>) -> (r: bool)
    ensures
        r == pick_forbidden(guild, channel, home, relay_channels@),
{
    if guild != home {
        return false;
    }
    let mut i: usize = 0;
    while i < relay_channels.len()
        invariant
            guild == home,
            i <= relay_channels.len(),
            forall|j: int| 0 <= j < i ==> relay_channels@[j].0 != channel,
        decreases relay_channels.len() - i,
    {
        if relay_channels[i].0 == channel {
            assert(0 <= i < relay_channels@.len() && relay_channels@[i as int].0 == channel);
            assert(pick_forbidden(guild, channel, home, relay_channels@));
            return true;
        }
        i = i + 1;
    }
    false
}

/// Whether `delete_run` can go ahead with a range.
#[derive(PartialEq, Eq, Structural, Debug, Clone, Copy)]
pub enum RunCheck {
    NotSelected,
    NoFirst,
    NoEnd,
    OtherGuild,
    OtherChannel,
    /// Delete from `start` to `end` (ids in increasing order) in `channel`.
    Go { channel: u64, start: u64, end: u64 },
}

pub open spec fn run_check(s: Seq<Selection>, user: u64) -> RunCheck {
    match range_of(s, user) {
        None => RunCheck::NotSelected,
        Some(i) => {
            let e = s[i];
            if e.first.message == 0 {
                RunCheck::NoFirst
            } else if e.end.message == 0 {
                RunCheck::NoEnd
            } else if e.first.guild != e.end.guild {
                RunCheck::OtherGuild
            } else if e.first.channel != e.end.channel {
                RunCheck::OtherChannel
            } else if e.first.message < e.end.message {
                RunCheck::Go { channel: e.first.channel, start: e.first.message, end: e.end.message }
            } else {
                RunCheck::Go { channel: e.first.channel, start: e.end.message, end: e.first.message }
            }
        },
    }
}

pub fn check_run(s: &Vec<Selection>, user: u64) -> (r: RunCheck)
    ensures
        r == run_check(s@, user),
{
    match find_range(s, user) {
        None => RunCheck::NotSelected,
        Some(i) => {
            let e = s[i];
            if e.first.message == 0 {
                RunCheck::NoFirst
            } else if e.end.message == 0 {
                RunCheck::NoEnd
            } else if e.first.guild != e.end.guild {
                RunCheck::OtherGuild
            } else if e.first.channel != e.end.channel {
                RunCheck::OtherChannel
            } else if e.first.message < e.end.message {
                RunCheck::Go { channel: e.first.channel, start: e.first.message, end: e.end.message }
            } else {
                RunCheck::Go { channel: e.first.channel, start: e.end.message, end: e.first.message }
            }
        },
    }
}

/// Law: a range that may run goes from a smaller id to a larger or equal one.
pub proof fn law_run_range_ordered(s: Seq<Selection>, user: u64)
    ensures
        run_check(s, user) matches RunCheck::Go { channel: _, start, end } ==> start <= end,
{
}

/// Law: a range that may run spans both ends the user picked, in the channel
/// they share: it starts at the smaller of the two message ids and ends at the
/// larger, and only a selection with both ends set in one guild and one channel
/// runs.
pub proof fn law_run_spans_both_picks(s: Seq<Selection>, user: u64)
    ensures
        run_check(s, user) matches RunCheck::Go { channel, start, end } ==> ({
            &&& range_of(s, user) is Some
            &&& {
                let e = s[range_of(s, user)->0];
                &&& e.first.message != 0 && e.end.message != 0
                &&& e.first.guild == e.end.guild
                &&& channel == e.first.channel && channel == e.end.channel
                &&& start == (if e.first.message <= e.end.message { e.first.message } else { e.end.message })
                &&& end == (if e.first.message <= e.end.message { e.end.message } else { e.first.message })
            }
        }),
{
}

/// A run fetches pages of at most `PAGE_SIZE` messages, at most `MAX_PAGES` times.
pub const PAGE_SIZE: u8 = 50;

pub const MAX_PAGES: u32 = 20;

/// Messages are deleted in batches of at most this many.
pub const DELETE_BATCH: usize = 50;

/// The batches of a deletion list: consecutive slices of `DELETE_BATCH`
/// messages, the last one shorter when the list does not divide evenly.
pub open spec fn batches(ids: Seq<u64>) -> Seq<Seq<u64>> {
    Seq::new(
        ((ids.len() + 49) / 50) as nat,
        |k: int| ids.subrange(50 * k, if 50 * k + 50 <= ids.len() { 50 * k + 50 } else { ids.len() as int }),
    )
}

pub fn delete_batches(ids: &Vec<u64>) -> (r: Vec<Vec<u64>>)
    ensures
        r@.len() == batches(ids@).len(),
        forall|k: int| 0 <= k < r@.len() ==> #[trigger] r@[k]@ == batches(ids@)[k],
{
    let mut r: Vec<Vec<u64>> = Vec::new();
    let mut start: usize = 0;
    let n = ids.len();
    while start < n
        invariant
            n == ids.len(),
            start <= n,
            start == (if 50 * r@.len() <= n { (50 * r@.len()) as int } else { n as int }),
            r@.len() * 50 < n + 50,
            forall|k: int| 0 <= k < r@.len() ==> #[trigger] r@[k]@ == batches(ids@)[k],
        decreases n - start,
    {
        let end = if n - start >= DELETE_BATCH { start + DELETE_BATCH } else { n };
        let mut batch: Vec<u64> = Vec::new();
        let mut i = start;
        while i < end
            invariant
                start <= i <= end,
                end <= n,
                n == ids.len(),
                batch@ == ids@.subrange(start as int, i as int),
            decreases end - i,
        {
            batch.push(ids[i]);
            assert(ids@.subrange(start as int, i + 1) =~= ids@.subrange(start as int, i as int).push(ids@[i as int]));
            i = i + 1;
        }
        let ghost k = r@.len() as int;
        assert(start == 50 * k);
        assert(k < (n + 49) / 50) by (nonlinear_arith)
            requires
                50 * k < n,
        ;
        assert(k < batches(ids@).len());
        assert(batches(ids@)[k] == ids@.subrange(start as int, end as int));
        r.push(batch);
        start = end;
    }
    let ghost len = r@.len() as int;
    assert(len == (n + 49) / 50) by (nonlinear_arith)
        requires
            50 * len >= n,
            50 * len < n + 50,
    ;
    r
}

/// One page of messages fetched after `last`: the ids up to `end` are added to
/// the deletion list, in page order, and `last` becomes the largest id seen.
pub open spec fn absorbed(to_delete: Seq<u64>, last: u64, page: Seq<u64>, end: u64) -> (Seq<u64>, u64)
    decreases page.len(),
{
    if page.len() == 0 {
        (to_delete, last)
    } else {
        let (d, l) = absorbed(to_delete, last, page.drop_last(), end);
        let m = page.last();
        (if m <= end { d.push(m) } else { d }, if m > l { m } else { l })
    }
}

pub fn absorb_page(to_delete: &mut Vec<u64>, last: u64, page: &Vec<u64>, end: u64) -> (l: u64)
    ensures
        (final(to_delete)@, l) == absorbed(old(to_delete)@, last, page@, end),
{
    let ghost d0 = to_delete@;
    let mut l = last;
    let mut i: usize = 0;
    while i < page.len()
        invariant
            i <= page.len(),
            (to_delete@, l) == absorbed(d0, last, page@.take(i as int), end),
        decreases page.len() - i,
    {
        assert(page@.take(i + 1).drop_last() =~= page@.take(i as int));
        let m = page[i];
        if m <= end {
            to_delete.push(m);
        }
        if m > l {
            l = m;
        }
        i = i + 1;
    }
    assert(page@.take(page.len() as int) =~= page@);
    l
}

/// Whether to fetch another page after one was absorbed: stop on an empty page
/// or once the end was reached.
pub open spec fn fetch_more(page_len: nat, last: u64, end: u64) -> bool {
    page_len > 0 && last < end
}

pub fn should_fetch_more(page_len: usize, last: u64, end: u64) -> (r: bool)
    ensures
        r == fetch_more(page_len as nat, last, end),
{
    page_len > 0 && last < end
}

/// A run in progress: the messages found so far, the last id seen, the end of
/// the range and the number of pages fetched.
pub struct Scan {
    pub to_delete: Vec<u64>,
    pub last: u64,
    pub end: u64,
    pub pages: u32,
}

/// What a run does after a page.
pub enum ScanNext {
    /// Fetch the next page, of the messages after this id.
    Fetch(u64),
    /// The range is complete: delete these batches.
    Delete(Vec<Vec<u64>>),
    /// The last allowed page still fell short of the end: the range is refused
    /// and nothing is deleted.
    TooMany,
}

/// A run starts with the first message of the range.
pub fn new_scan(first: u64, end: u64) -> (s: Scan)
    ensures
        s.to_delete@ == seq![first],
        s.last == first,
        s.end == end,
        s.pages == 0,
{
    let mut to_delete: Vec<u64> = Vec::new();
    to_delete.push(first);
    Scan { to_delete, last: first, end, pages: 0 }
}

/// Takes in one fetched page and says what comes next: another page while the
/// range goes on and fewer than `MAX_PAGES` were fetched, the refusal when the
/// limit is reached first, otherwise the deletion of all that was found.
pub fn scan_page(s: &mut Scan, page: &Vec<u64>) -> (n: ScanNext)
    requires
        old(s).pages < MAX_PAGES,
    ensures
        (final(s).to_delete@, final(s).last) == absorbed(old(s).to_delete@, old(s).last, page@, old(s).end),
        final(s).end == old(s).end,
        final(s).pages == old(s).pages + 1,
        match n {
            ScanNext::Fetch(after) => fetch_more(page@.len(), final(s).last, final(s).end)
                && final(s).pages < MAX_PAGES && after == final(s).last,
            ScanNext::TooMany => fetch_more(page@.len(), final(s).last, final(s).end) && final(s).pages >= MAX_PAGES,
            ScanNext::Delete(b) => !fetch_more(page@.len(), final(s).last, final(s).end)
                && b@.len() == batches(final(s).to_delete@).len()
                && forall|k: int| 0 <= k < b@.len() ==> #[trigger] b@[k]@ == batches(final(s).to_delete@)[k],
        },
{
    let l = absorb_page(&mut s.to_delete, s.last, page, s.end);
    s.last = l;
    s.pages = s.pages + 1;
    if should_fetch_more(page.len(), s.last, s.end) {
        if s.pages < MAX_PAGES {
            ScanNext::Fetch(s.last)
        } else {
            ScanNext::TooMany
        }
    } else {
        ScanNext::Delete(delete_batches(&s.to_delete))
    }
}

/// Law: every message put on the deletion list is at or before the end of the range.
pub proof fn law_absorbed_within_range(to_delete: Seq<u64>, last: u64, page: Seq<u64>, end: u64)
    requires
        forall|i: int| 0 <= i < to_delete.len() ==> to_delete[i] <= end,
    ensures
        forall|i: int| 0 <= i < absorbed(to_delete, last, page, end).0.len() ==> #[trigger] absorbed(
            to_delete,
            last,
            page,
            end,
        ).0[i] <= end,
    decreases page.len(),
{
    if page.len() > 0 {
        law_absorbed_within_range(to_delete, last, page.drop_last(), end);
        let d = absorbed(to_delete, last, page.drop_last(), end).0;
        let r = absorbed(to_delete, last, page, end).0;
        assert forall|i: int| 0 <= i < r.len() implies #[trigger] r[i] <= end by {
            if i < d.len() {
                assert(d[i] <= end);
            }
        }
    }
}

pub open spec fn not_user(user: u64) -> spec_fn(Selection) -> bool {
    |e: Selection| e.user != user
}

/// Removes the range of `user` once it was carried out.
pub open spec fn cleared(s: Seq<Selection>, user: u64) -> Seq<Selection> {
    s.filter(not_user(user))
}

pub fn clear_range(s: &mut Vec<Selection>, user: u64)
    ensures
        final(s)@ == cleared(old(s)@, user),
{
    let ghost s0 = s@;
    let mut kept: Vec<Selection> = Vec::new();
    let mut i: usize = 0;
    while i < s.len()
        invariant
            s@ == s0,
            i <= s.len(),
            kept@ == s0.take(i as int).filter(not_user(user)),
        decreases s.len() - i,
    {
        assert(s0.take(i as int).push(s0[i as int]) =~= s0.take(i + 1));
        proof {
            s0.take(i as int).lemma_filter_push(s0[i as int], not_user(user));
        }
        if s[i].user != user {
            kept.push(s[i]);
        }
        i = i + 1;
    }
    assert(s0.take(s0.len() as int) =~= s0);
    *s = kept;
}

/// Law: after clearing, the moderator has no range left.
pub proof fn law_cleared_has_no_range(s: Seq<Selection>, user: u64)
    ensures
        range_of(cleared(s, user), user) is None,
{
    broadcast use vstd::seq_lib::group_filter_ensures;

    let c = cleared(s, user);
    assert forall|i: int| 0 <= i < c.len() implies c[i].user != user by {
        assert(not_user(user)(c[i]));
    }
    lemma_range_from_none(c, user, 0);
}

/// The link of a message of a server, as `MessageId::link` writes it.
pub open spec fn message_link(guild: u64, channel: u64, message: u64) -> Seq<char> {
    "https://discord.com/channels/"@ + decimal(guild as nat) + "/"@ + decimal(channel as nat) + "/"@
        + decimal(message as nat)
}

pub fn message_link_text(guild: u64, channel: u64, message: u64) -> (r: String)
    ensures
        r@ == message_link(guild, channel, message),
{
    let mut r = String::from_str("https://discord.com/channels/");
    push_decimal(&mut r, guild);
    push_str(&mut r, "/");
    push_decimal(&mut r, channel);
    push_str(&mut r, "/");
    push_decimal(&mut r, message);
    r
}

/// The answer to a pick: refused as a duplicate, or the end picked with its link.
pub open spec fn pick_reply(dup: bool, is_first: bool, p: Pick, is_korean: bool) -> Seq<char> {
    if dup {
        lng(is_korean, "Value is duplicated"@, "값이 중복이야"@)
    } else {
        (if is_first {
            lng(is_korean, "First Message Selected"@, "첫 메시지를 선택했어"@)
        } else {
            lng(is_korean, "End Message Selected"@, "마지막 메시지를 선택했어"@)
        }) + "\nID: "@ + message_link(p.guild, p.channel, p.message)
    }
}

pub fn pick_reply_text(dup: bool, is_first: bool, p: Pick, is_korean: bool) -> (r: String)
    ensures
        r@ == pick_reply(dup, is_first, p, is_korean),
{
    if dup {
        return String::from_str(lng_trs(is_korean, "Value is duplicated", "값이 중복이야"));
    }
    let mut r = if is_first {
        String::from_str(lng_trs(is_korean, "First Message Selected", "첫 메시지를 선택했어"))
    } else {
        String::from_str(lng_trs(is_korean, "End Message Selected", "마지막 메시지를 선택했어"))
    };
    push_str(&mut r, "\nID: ");
    let link = message_link_text(p.guild, p.channel, p.message);
    push_str(&mut r, link.as_str());
    r
}

/// Why `delete_run` refuses a range, in the caller's language; `None` when it runs.
pub open spec fn run_refusal(c: RunCheck, is_korean: bool) -> Option<Seq<char>> {
    match c {
        RunCheck::NotSelected => Some(lng(is_korean, "Not selected"@, "선택되지 않았어"@)),
        RunCheck::NoFirst => Some(lng(is_korean, "First message not selected"@, "첫 메시지가 선택되지 않았어"@)),
        RunCheck::NoEnd => Some(lng(is_korean, "End message not selected"@, "끝 메시지가 선택되지 않았어"@)),
        RunCheck::OtherGuild => Some(lng(is_korean, "Each message has a different guild"@, "각 메시지의 길드가 달라"@)),
        RunCheck::OtherChannel => Some(lng(is_korean, "Each message has a different channel"@, "각 메시지의 채널이 달라"@)),
        RunCheck::Go { .. } => None,
    }
}

pub fn run_refusal_text(c: RunCheck, is_korean: bool) -> (r: Option<String>)
    ensures
        match r {
            Some(t) => run_refusal(c, is_korean) == Some(t@),
            None => run_refusal(c, is_korean) is None,
        },
{
    let t = match c {
        RunCheck::NotSelected => lng_trs(is_korean, "Not selected", "선택되지 않았어"),
        RunCheck::NoFirst => lng_trs(is_korean, "First message not selected", "첫 메시지가 선택되지 않았어"),
        RunCheck::NoEnd => lng_trs(is_korean, "End message not selected", "끝 메시지가 선택되지 않았어"),
        RunCheck::OtherGuild => lng_trs(is_korean, "Each message has a different guild", "각 메시지의 길드가 달라"),
        RunCheck::OtherChannel => lng_trs(is_korean, "Each message has a different channel", "각 메시지의 채널이 달라"),
        RunCheck::Go { .. } => {
            return None;
        },
    };
    Some(String::from_str(t))
}

/// The report of a run: a range that still went on after the last allowed page
/// is refused, and nothing of it is deleted; otherwise the count deleted, or
/// that there was nothing to delete.
pub open spec fn run_report(deleted: nat, reached_max_pages: bool, is_korean: bool) -> Seq<char> {
    if reached_max_pages {
        lng(is_korean, "Too many messages to delete. (over) Please select a smaller range"@,
            "삭제할 메시지가 너무 많아. (1000 초과) 더 작은 범위를 선택해줘"@)
    } else if deleted == 0 {
        lng(is_korean, "No messages to delete"@, "삭제할 메시지가 없어"@)
    } else {
        decimal(deleted) + " "@ + lng(is_korean, "messages deleted"@, "개의 메시지가 삭제되었어"@)
    }
}

pub fn run_report_text(deleted: u64, reached_max_pages: bool, is_korean: bool) -> (r: String)
    ensures
        r@ == run_report(deleted as nat, reached_max_pages, is_korean),
{
    if reached_max_pages {
        String::from_str(lng_trs(is_korean, "Too many messages to delete. (over) Please select a smaller range",
            "삭제할 메시지가 너무 많아. (1000 초과) 더 작은 범위를 선택해줘"))
    } else if deleted == 0 {
        String::from_str(lng_trs(is_korean, "No messages to delete", "삭제할 메시지가 없어"))
    } else {
        let mut r = String::new();
        push_decimal(&mut r, deleted);
        push_str(&mut r, " ");
        push_str(&mut r, lng_trs(is_korean, "messages deleted", "개의 메시지가 삭제되었어"));
        r
    }
}

/// Why a pick or a run is refused before any range is looked at.
#[derive(PartialEq, Eq, Structural, Debug, Clone, Copy)]
pub enum GateRefusal {
    NoMessage,
    NotInGuild,
    NoMember,
    CannotManage,
    RelayChannel,
    NoBotPermissions,
    BotCannotManage,
}

/// The English and Korean text of an answer.
pub open spec fn gate_texts(n: GateRefusal) -> (Seq<char>, Seq<char>) {
    match n {
        GateRefusal::NoMessage => ("Unable to get message ID"@, "메시지 ID를 가져올 수 없었어"@),
        GateRefusal::NotInGuild => ("Only available in guilds"@, "길드에서만 사용 가능해"@),
        GateRefusal::NoMember => ("Unable to get Your member info"@, "너의 맴버 정보를 가져올 수 없었어"@),
        GateRefusal::CannotManage => ("You do not have permission to manage messages"@, "넌 메시지 관리 권한이 없어"@),
        GateRefusal::RelayChannel => ("Cannot use in admin DM channel"@, "관리자 DM 채널에선 사용할 수 없어"@),
        GateRefusal::NoBotPermissions => ("Unable to check bot permissions"@, "내 권한을 확인할 수 없었어"@),
        GateRefusal::BotCannotManage => ("I do not have permission to manage messages"@, "메시지 관리 권한이 없어"@),
    }
}

fn gate_strs(n: GateRefusal) -> (r: (&'static str, &'static str))
    ensures
        (r.0@, r.1@) == gate_texts(n),
{
    match n {
        GateRefusal::NoMessage => ("Unable to get message ID", "메시지 ID를 가져올 수 없었어"),
        GateRefusal::NotInGuild => ("Only available in guilds", "길드에서만 사용 가능해"),
        GateRefusal::NoMember => ("Unable to get Your member info", "너의 맴버 정보를 가져올 수 없었어"),
        GateRefusal::CannotManage => ("You do not have permission to manage messages", "넌 메시지 관리 권한이 없어"),
        GateRefusal::RelayChannel => ("Cannot use in admin DM channel", "관리자 DM 채널에선 사용할 수 없어"),
        GateRefusal::NoBotPermissions => ("Unable to check bot permissions", "내 권한을 확인할 수 없었어"),
        GateRefusal::BotCannotManage => ("I do not have permission to manage messages", "메시지 관리 권한이 없어"),
    }
}

/// A refusal in the caller's language.
pub fn gate_refusal_text(n: GateRefusal, is_korean: bool) -> (r: String)
    ensures
        r@ == lng(is_korean, gate_texts(n).0, gate_texts(n).1),
{
    let (en, ko) = gate_strs(n);
    String::from_str(lng_trs(is_korean, en, ko))
}

/// The checks of `delete_f_sel` and `delete_e_sel`, in order: a target message,
/// a server, the caller's member record and their right to manage messages, and
/// a channel that is not one of the DM relay.
pub open spec fn pick_gate(has_target: bool, in_guild: bool, can_manage: Option<bool>, relay_channel: bool) -> Option<GateRefusal> {
    if !has_target {
        Some(GateRefusal::NoMessage)
    } else if !in_guild {
        Some(GateRefusal::NotInGuild)
    } else {
        match can_manage {
            None => Some(GateRefusal::NoMember),
            Some(false) => Some(GateRefusal::CannotManage),
            Some(true) => if relay_channel { Some(GateRefusal::RelayChannel) } else { None },
        }
    }
}

pub fn check_pick_gate(has_target: bool, in_guild: bool, can_manage: Option<bool>, relay_channel: bool) -> (r: Option<GateRefusal>)
    ensures
        r == pick_gate(has_target, in_guild, can_manage, relay_channel),
{
    if !has_target {
        Some(GateRefusal::NoMessage)
    } else if !in_guild {
        Some(GateRefusal::NotInGuild)
    } else {
        match can_manage {
            None => Some(GateRefusal::NoMember),
            Some(false) => Some(GateRefusal::CannotManage),
            Some(true) => if relay_channel { Some(GateRefusal::RelayChannel) } else { None },
        }
    }
}

/// The checks of `delete_run`, in order: the caller may manage messages, and so
/// may the bot.
pub open spec fn run_gate(can_manage: Option<bool>, bot_can_manage: Option<bool>) -> Option<GateRefusal> {
    match can_manage {
        None => Some(GateRefusal::NoMember),
        Some(false) => Some(GateRefusal::CannotManage),
        Some(true) => match bot_can_manage {
            None => Some(GateRefusal::NoBotPermissions),
            Some(false) => Some(GateRefusal::BotCannotManage),
            Some(true) => None,
        },
    }
}

pub fn check_run_gate(can_manage: Option<bool>, bot_can_manage: Option<bool>) -> (r: Option<GateRefusal>)
    ensures
        r == run_gate(can_manage, bot_can_manage),
{
    match can_manage {
        None => Some(GateRefusal::NoMember),
        Some(false) => Some(GateRefusal::CannotManage),
        Some(true) => match bot_can_manage {
            None => Some(GateRefusal::NoBotPermissions),
            Some(false) => Some(GateRefusal::BotCannotManage),
            Some(true) => None,
        },
    }
}

} // verus!
