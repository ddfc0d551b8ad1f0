//! The DM relay: each user's direct-message channel is mirrored by a text
//! channel of the home server, and messages, edits, reactions and deletions
//! are carried across. This module holds the decisions of the relay; the
//! pairs of channels are `(server channel, user channel)`.
use vstd::prelude::*;
use crate::num::{parse_u64, parse_u64_chars, scan_digits, digit_value, parse_unsigned};
use crate::text::{chars_of, is_ascii_text, decimal, digit, push_decimal, push_str, push_chars, replace_char, replace_char_chars, string_of, sub_chars};

verus! {

/// Which end of a pair a channel must match.
#[derive(PartialEq, Eq, Structural, Debug, Clone, Copy)]
pub enum Side {
    Server,
    User,
    Either,
}

pub open spec fn matches_side(l: (u64, u64), ch: u64, side: Side) -> bool {
    match side {
        Side::Server => l.0 == ch,
        Side::User => l.1 == ch,
        Side::Either => l.0 == ch || l.1 == ch,
    }
}

/// The first pair whose `side` is the channel `ch`.
pub fn find_link(links: &Vec<(u64, u64)>, ch: u64, side: Side) -> (r: Option<(u64, u64)>)
    ensures
        match r {
            Some(l) => exists|i: int|
                0 <= i < links@.len() && links@[i] == l && matches_side(l, ch, side) && forall|j: int|
                    0 <= j < i ==> !matches_side(#[trigger] links@[j], ch, side),
            None => forall|i: int| 0 <= i < links@.len() ==> !matches_side(#[trigger] links@[i], ch, side),
        },
{
    let mut i: usize = 0;
    while i < links.len()
        invariant
            i <= links.len(),
            forall|j: int| 0 <= j < i ==> !matches_side(#[trigger] links@[j], ch, side),
        decreases links.len() - i,
    {
        let l = links[i];
        let m = match side {
            Side::Server => l.0 == ch,
            Side::User => l.1 == ch,
            Side::Either => l.0 == ch || l.1 == ch,
        };
        if m {
            return Some(l);
        }
        i = i + 1;
    }
    None
}

/// Name of the table that pairs the messages of a relay: `c<server channel>u<user channel>`.
pub open spec fn table_name(server: u64, user: u64) -> Seq<char> {
    "c"@ + decimal(server as nat) + "u"@ + decimal(user as nat)
}

pub fn relay_table_name(server: u64, user: u64) -> (s: String)
    ensures
        s@ == table_name(server, user),
{
    let mut s = String::from_str("c");
    push_decimal(&mut s, server);
    push_str(&mut s, "u");
    push_decimal(&mut s, user);
    s
}

/// Index of the first `u` of a table name.
pub open spec fn first_u(s: Seq<char>) -> Option<int> {
    if exists|i: int| 0 <= i < s.len() && s[i] == 'u' {
        Some(choose|i: int| 0 <= i < s.len() && s[i] == 'u' && forall|j: int| 0 <= j < i ==> s[j] != 'u')
    } else {
        None
    }
}

/// The channels written in a table name: the server channel between the first
/// character and the first `u`, the user channel after it.
pub open spec fn table_channels(s: Seq<char>) -> (Option<u64>, Option<u64>) {
    match first_u(s) {
        None => (None, None),
        Some(p) => (parse_u64(s.subrange(1, p)), parse_u64(s.skip(p + 1))),
    }
}

fn find_u(v: &[char]) -> (r: Option<usize>)
    ensures
        match r {
            Some(p) => first_u(v@) == Some(p as int) && p < v@.len() && v@[p as int] == 'u',
            None => first_u(v@) is None,
        },
{
    let mut i: usize = 0;
    while i < v.len()
        invariant
            i <= v.len(),
            forall|j: int| 0 <= j < i ==> v@[j] != 'u',
        decreases v.len() - i,
    {
        if v[i] == 'u' {
            proof {
                let p = i as int;
                assert(exists|k: int| 0 <= k < v@.len() && v@[k] == 'u');
                let q = choose|k: int| 0 <= k < v@.len() && v@[k] == 'u' && forall|j: int| 0 <= j < k ==> v@[j] != 'u';
                assert(0 <= p < v@.len() && v@[p] == 'u' && forall|j: int| 0 <= j < p ==> v@[j] != 'u');
                if q < p {
                } else if q > p {
                    assert(v@[p] != 'u');
                }
            }
            return Some(i);
        }
        i = i + 1;
    }
    None
}

/// Reads the channels back from a table name, which does not start with `u`
/// (the server part would then end before it starts).
pub fn parse_table_name(name: &str) -> (r: (Option<u64>, Option<u64>))
    requires
        !(name@.len() > 0 && name@[0] == 'u'),
    ensures
        r == table_channels(name@),
{
    let v = chars_of(name);
    match find_u(&v) {
        None => (None, None),
        Some(p) => {
            let a = sub_chars(&v, 1, p);
            let b = sub_chars(&v, p + 1, v.len());
            assert(b@ =~= v@.skip(p + 1));
            (parse_u64_chars(&a), parse_u64_chars(&b))
        },
    }
}

/// Reading an unsigned decimal gives back the number written.
pub proof fn lemma_scan_decimal(n: u64)
    ensures
        scan_digits(decimal(n as nat), 10, u64::MAX as nat) == Ok::<nat, crate::num::IntErrorKind>(n as nat),
    decreases n,
{
    let d = decimal(n as nat);
    if n >= 10 {
        lemma_scan_decimal(n / 10);
        assert(d.drop_last() =~= decimal((n / 10) as nat));
        assert(d.last() == digit((n % 10) as int));
        lemma_digit_value((n % 10) as int);
        assert((n / 10) as nat * 10 + (n % 10) as nat == n as nat);
    } else {
        assert(d.drop_last() =~= seq![]);
        assert(d.last() == digit(n as int));
        lemma_digit_value(n as int);
        assert(scan_digits(d.drop_last(), 10, u64::MAX as nat) == Ok::<nat, crate::num::IntErrorKind>(0nat));
    }
}

pub proof fn lemma_digit_value(k: int)
    requires
        0 <= k < 10,
    ensures
        digit_value(digit(k), 10) == Some(k as nat),
{
}

pub proof fn lemma_decimal_shape(n: nat)
    ensures
        decimal(n).len() > 0,
        forall|i: int| 0 <= i < decimal(n).len() ==> '0' <= #[trigger] decimal(n)[i] <= '9',
    decreases n,
{
    if n >= 10 {
        lemma_decimal_shape(n / 10);
    }
}

/// Law: a table name gives back the two channels it was made of.
pub proof fn law_table_name_round_trip(server: u64, user: u64)
    ensures
        table_channels(table_name(server, user)) == (Some(server), Some(user)),
        is_ascii_text(table_name(server, user)),
{
    reveal_strlit("c");
    reveal_strlit("u");
    let ds = decimal(server as nat);
    let du = decimal(user as nat);
    lemma_decimal_shape(server as nat);
    lemma_decimal_shape(user as nat);
    let s = table_name(server, user);
    let p: int = 1 + ds.len() as int;
    assert(s[p] == 'u');
    assert forall|j: int| 0 <= j < p implies s[j] != 'u' by {
        if j > 0 {
            assert(s[j] == ds[j - 1]);
        }
    }
    assert(first_u(s) == Some(p)) by {
        let q = choose|k: int| 0 <= k < s.len() && s[k] == 'u' && forall|j: int| 0 <= j < k ==> s[j] != 'u';
        assert(0 <= p < s.len() && s[p] == 'u' && forall|j: int| 0 <= j < p ==> s[j] != 'u');
        if q < p {
        } else if q > p {
            assert(s[p] != 'u');
        }
    }
    assert(s.subrange(1, p) =~= ds);
    assert(s.skip(p + 1) =~= du);
    lemma_scan_decimal(server);
    lemma_scan_decimal(user);
    assert(ds.len() > 0 && ds[0] != '+' && ds[0] != '-');
    assert(du.len() > 0 && du[0] != '+' && du[0] != '-');
    assert forall|i: int| 0 <= i < s.len() implies (s[i] as u32) < 128 by {
        if i > 0 && i < p {
            assert(s[i] == ds[i - 1]);
        } else if i > p {
            assert(s[i] == du[i - p - 1]);
        }
    }
}

/// The message on the other side of a relayed pair: the copy of a message,
/// or the message a copy was made of.
pub open spec fn counterpart(referenced: u64, server_msg: u64, user_msg: u64) -> u64 {
    if referenced == user_msg { server_msg } else { user_msg }
}

pub fn counterpart_message(referenced: u64, server_msg: u64, user_msg: u64) -> (r: u64)
    ensures
        r == counterpart(referenced, server_msg, user_msg),
{
    if referenced == user_msg { server_msg } else { user_msg }
}

/// Law: going across a relayed pair twice leads back, when the two messages differ.
pub proof fn law_counterpart_involution(server_msg: u64, user_msg: u64, m: u64)
    requires
        server_msg != user_msg,
        m == server_msg || m == user_msg,
    ensures
        counterpart(counterpart(m, server_msg, user_msg), server_msg, user_msg) == m,
{
}

/// The channel on the other side of a pair.
pub open spec fn other_channel(ch: u64, link: (u64, u64)) -> u64 {
    if ch == link.0 { link.1 } else { link.0 }
}

pub fn other_side(ch: u64, link: (u64, u64)) -> (r: u64)
    ensures
        r == other_channel(ch, link),
{
    if ch == link.0 { link.1 } else { link.0 }
}

/// A user's text as copied into the server: `@` replaced by the full-width `＠`
/// so that it mentions nobody.
pub open spec fn defused(content: Seq<char>) -> Seq<char> {
    replace_char(content, '@', '\u{FF20}')
}

pub fn defuse_mentions(content: &str) -> (r: String)
    ensures
        r@ == defused(content@),
{
    let v = chars_of(content);
    string_of(&replace_char_chars(&v, '@', '\u{FF20}'))
}

/// Law: a defused text mentions nobody.
pub proof fn law_defused_has_no_at(content: Seq<char>)
    ensures
        !defused(content).contains('@'),
{
    let d = defused(content);
    assert forall|i: int| 0 <= i < d.len() implies d[i] != '@' by {}
}

/// Title of the embed that shows the bot's answer above a relayed user message.
pub open spec fn answered_title(answer: Seq<char>) -> Seq<char> {
    "[SYS] >> "@ + answer
}

pub fn answered_title_text(answer: &str) -> (r: String)
    ensures
        r@ == answered_title(answer@),
{
    let mut s = String::from_str("[SYS] >> ");
    push_str(&mut s, answer);
    s
}

/// Why a message could not be relayed.
#[derive(PartialEq, Eq, Structural, Debug, Clone, Copy)]
pub enum RelayFailure {
    /// Nothing in the message can be sent.
    Unsendable,
    /// Sending failed.
    SendFailed,
}

pub open spec fn failure_title(f: RelayFailure) -> Seq<char> {
    match f {
        RelayFailure::Unsendable => "Unsendable message"@,
        RelayFailure::SendFailed => "An internal error occurred"@,
    }
}

pub fn failure_title_text(f: RelayFailure) -> (r: String)
    ensures
        r@ == failure_title(f),
{
    match f {
        RelayFailure::Unsendable => String::from_str("Unsendable message"),
        RelayFailure::SendFailed => String::from_str("An internal error occurred"),
    }
}

/// The note left in the server channel when a user's message was not relayed.
pub open spec fn failure_note(f: RelayFailure, message_id: u64) -> Seq<char> {
    "-# *[SYS] >> "@ + failure_title(f) + ": "@ + decimal(message_id as nat) + " *"@
}

pub fn failure_note_text(f: RelayFailure, message_id: u64) -> (r: String)
    ensures
        r@ == failure_note(f, message_id),
{
    let mut s = String::from_str("-# *[SYS] >> ");
    let t = failure_title_text(f);
    push_str(&mut s, t.as_str());
    push_str(&mut s, ": ");
    push_decimal(&mut s, message_id);
    push_str(&mut s, " *");
    s
}

/// A relayed reply pings nobody unless the message mentions the bot or its own author.
pub open spec fn quiet_reply(mentions: Seq<u64>, bot: u64, author: u64) -> bool {
    !(exists|i: int| 0 <= i < mentions.len() && (mentions[i] == bot || mentions[i] == author))
}

pub fn is_quiet_reply(mentions: &Vec<u64>, bot: u64, author: u64) -> (r: bool)
    ensures
        r == quiet_reply(mentions@, bot, author),
{
    let mut i: usize = 0;
    while i < mentions.len()
        invariant
            i <= mentions.len(),
            forall|j: int| 0 <= j < i ==> !(mentions@[j] == bot || mentions@[j] == author),
        decreases mentions.len() - i,
    {
        if mentions[i] == bot || mentions[i] == author {
            return false;
        }
        i = i + 1;
    }
    true
}

/// Custom id of the `k`-th relayed button.
pub open spec fn button_id(k: nat) -> Seq<char> {
    "_"@ + decimal(k)
}

/// Number of buttons in a row of components (`true` for a button).
pub open spec fn buttons_in(row: Seq<bool>) -> nat
    decreases row.len(),
{
    if row.len() == 0 {
        0
    } else {
        buttons_in(row.drop_last()) + if row.last() { 1nat } else { 0nat }
    }
}

/// Number of buttons in all rows.
pub open spec fn buttons_total(rows: Seq<Seq<bool>>) -> nat
    decreases rows.len(),
{
    if rows.len() == 0 {
        0
    } else {
        buttons_total(rows.drop_last()) + buttons_in(rows.last())
    }
}

/// Relayed buttons keep their rows (rows without buttons are dropped) and are
/// numbered `_0`, `_1`, ... in reading order.
pub open spec fn grouped_ids(rows: Seq<Seq<bool>>) -> Seq<Seq<Seq<char>>>
    decreases rows.len(),
{
    if rows.len() == 0 {
        seq![]
    } else {
        let prev = grouped_ids(rows.drop_last());
        let off = buttons_total(rows.drop_last());
        let n = buttons_in(rows.last());
        if n > 0 {
            prev.push(Seq::new(n, |k: int| button_id((off + k) as nat)))
        } else {
            prev
        }
    }
}

pub open spec fn id_views(rows: Seq<Vec<String>>) -> Seq<Seq<Seq<char>>> {
    rows.map_values(|r: Vec<String>| r@.map_values(|s: String| s@))
}

pub open spec fn row_views(rows: Seq<Vec<bool>>) -> Seq<Seq<bool>> {
    rows.map_values(|r: Vec<bool>| r@)
}

/// The ids of the buttons of one row, numbered from `off`.
fn row_button_ids(row: &Vec<bool>, off: usize) -> (r: Vec<String>)
    requires
        off + buttons_in(row@) <= usize::MAX,
    ensures
        r@.len() == buttons_in(row@),
        forall|k: int| 0 <= k < r@.len() ==> #[trigger] r@[k]@ == button_id((off + k) as nat),
{
    let mut r: Vec<String> = Vec::new();
    let mut i: usize = 0;
    while i < row.len()
        invariant
            i <= row.len(),
            off + buttons_in(row@) <= usize::MAX,
            r@.len() == buttons_in(row@.take(i as int)),
            forall|k: int| 0 <= k < r@.len() ==> #[trigger] r@[k]@ == button_id((off + k) as nat),
        decreases row.len() - i,
    {
        assert(row@.take(i + 1).drop_last() =~= row@.take(i as int));
        proof {
            lemma_buttons_in_prefix(row@, i + 1);
        }
        if row[i] {
            let mut s = String::from_str("_");
            push_decimal(&mut s, (off + r.len()) as u64);
            r.push(s);
        }
        i = i + 1;
    }
    assert(row@.take(row.len() as int) =~= row@);
    r
}

/// A prefix of a row holds no more buttons than the row.
pub proof fn lemma_buttons_in_prefix(row: Seq<bool>, k: int)
    requires
        0 <= k <= row.len(),
    ensures
        buttons_in(row.take(k)) <= buttons_in(row),
    decreases row.len() - k,
{
    if k < row.len() {
        lemma_buttons_in_prefix(row, k + 1);
        assert(row.take(k + 1).drop_last() =~= row.take(k));
    } else {
        assert(row.take(k) =~= row);
    }
}

/// Button ids of relayed components, rows kept.
pub fn grouped_button_ids(rows: &Vec<Vec<bool>>) -> (r: Vec<Vec<String>>)
    requires
        buttons_total(row_views(rows@)) + 64 <= usize::MAX,
    ensures
        id_views(r@) == grouped_ids(row_views(rows@)),
{
    let ghost rv = row_views(rows@);
    let mut r: Vec<Vec<String>> = Vec::new();
    let mut off: usize = 0;
    let mut i: usize = 0;
    while i < rows.len()
        invariant
            rv == row_views(rows@),
            i <= rows.len(),
            off == buttons_total(rv.take(i as int)),
            id_views(r@) == grouped_ids(rv.take(i as int)),
            buttons_total(rv) + 64 <= usize::MAX,
        decreases rows.len() - i,
    {
        assert(rv.take(i + 1).drop_last() =~= rv.take(i as int));
        assert(rv.take(i + 1).last() == rows@[i as int]@);
        proof {
            lemma_total_prefix(rv, i + 1);
        }
        let row = &rows[i];
        let ids = row_button_ids(row, off);
        let n = ids.len();
        let ghost prev = r@;
        if n > 0 {
            r.push(ids);
            assert(id_views(r@) =~= id_views(prev).push(ids@.map_values(|s: String| s@)));
            assert(ids@.map_values(|s: String| s@) =~= Seq::new(
                buttons_in(row@),
                |k: int| button_id((off + k) as nat),
            ));
        }
        off = off + n;
        i = i + 1;
    }
    assert(rv.take(rows.len() as int) =~= rv);
    r
}

/// The buttons of a prefix of the rows are no more than those of all rows.
pub proof fn lemma_total_prefix(rows: Seq<Seq<bool>>, k: int)
    requires
        0 <= k <= rows.len(),
    ensures
        buttons_total(rows.take(k)) <= buttons_total(rows),
    decreases rows.len() - k,
{
    if k < rows.len() {
        lemma_total_prefix(rows, k + 1);
        assert(rows.take(k + 1).drop_last() =~= rows.take(k));
    } else {
        assert(rows.take(k) =~= rows);
    }
}


/// Relayed buttons, each in a row of its own, numbered in reading order (the
/// layout used when an edited server message is carried to the user).
pub open spec fn single_ids(rows: Seq<Seq<bool>>) -> Seq<Seq<Seq<char>>> {
    Seq::new(buttons_total(rows), |k: int| seq![button_id(k as nat)])
}

pub fn single_button_ids(rows: &Vec<Vec<bool>>) -> (r: Vec<Vec<String>>)
    requires
        buttons_total(row_views(rows@)) + 64 <= usize::MAX,
    ensures
        id_views(r@) == single_ids(row_views(rows@)),
{
    let ghost rv = row_views(rows@);
    let mut r: Vec<Vec<String>> = Vec::new();
    let mut i: usize = 0;
    while i < rows.len()
        invariant
            rv == row_views(rows@),
            i <= rows.len(),
            id_views(r@) == single_ids(rv.take(i as int)),
            buttons_total(rv) + 64 <= usize::MAX,
        decreases rows.len() - i,
    {
        assert(rv.take(i + 1).drop_last() =~= rv.take(i as int));
        assert(rv.take(i + 1).last() == rows@[i as int]@);
        proof {
            lemma_total_prefix(rv, i + 1);
        }
        let row = &rows[i];
        let ghost base = r@.len();
        assert(id_views(r@).len() == r@.len());
        assert forall|k: int| 0 <= k < r@.len() implies #[trigger] id_views(r@)[k] == seq![button_id(k as nat)] by {
            assert(single_ids(rv.take(i as int))[k] == seq![button_id(k as nat)]);
        }
        let mut j: usize = 0;
        while j < row.len()
            invariant
                rv == row_views(rows@),
                i < rows.len(),
                row@ == rows@[i as int]@,
                j <= row.len(),
                base == buttons_total(rv.take(i as int)),
                buttons_total(rv.take(i as int)) + buttons_in(row@) <= buttons_total(rv),
                buttons_total(rv) + 64 <= usize::MAX,
                r@.len() == base + buttons_in(row@.take(j as int)),
                forall|k: int| 0 <= k < r@.len() ==> #[trigger] id_views(r@)[k] == seq![button_id(k as nat)],
            decreases row.len() - j,
        {
            assert(row@.take(j + 1).drop_last() =~= row@.take(j as int));
            proof {
                lemma_buttons_in_prefix(row@, j + 1);
            }
            if row[j] {
                let mut s = String::from_str("_");
                push_decimal(&mut s, r.len() as u64);
                let mut one: Vec<String> = Vec::new();
                one.push(s);
                let ghost prev = r@;
                assert(one@.map_values(|x: String| x@) =~= seq![button_id(prev.len() as nat)]);
                r.push(one);
                assert(id_views(r@) =~= id_views(prev).push(seq![button_id(prev.len() as nat)]));
            }
            j = j + 1;
        }
        assert(row@.take(row.len() as int) =~= row@);
        assert(id_views(r@) =~= single_ids(rv.take(i + 1)));
        i = i + 1;
    }
    assert(rv.take(rows.len() as int) =~= rv);
    r
}

/// What a relayed message holds.
pub struct RelayParts {
    pub has_text: bool,
    pub has_files: bool,
    pub has_stickers: bool,
    pub has_embeds: bool,
    pub has_buttons: bool,
    /// The message answers an app command of the sender.
    pub from_interaction: bool,
}

/// How a relayed message is sent.
#[derive(PartialEq, Eq, Structural, Debug, Clone, Copy)]
pub enum RelayBody {
    /// Send what the message holds.
    AsIs,
    /// Send only a note that an app's answer is awaited.
    AwaitingApp,
    /// Nothing can be sent.
    Unsendable,
}

pub open spec fn relay_body(p: RelayParts) -> RelayBody {
    if p.has_text || p.has_files || p.has_stickers || p.has_embeds || p.has_buttons {
        RelayBody::AsIs
    } else if p.from_interaction {
        RelayBody::AwaitingApp
    } else {
        RelayBody::Unsendable
    }
}

/// Law: a message holding anything at all (text, a file, a sticker, an embed
/// or a button) is relayed as it is; an empty one waits for the app's answer
/// when it answers an app command, and cannot be sent otherwise.
pub proof fn law_content_is_relayed(p: RelayParts)
    ensures
        p.has_text ==> relay_body(p) == RelayBody::AsIs,
        p.has_files ==> relay_body(p) == RelayBody::AsIs,
        p.has_stickers ==> relay_body(p) == RelayBody::AsIs,
        p.has_embeds ==> relay_body(p) == RelayBody::AsIs,
        p.has_buttons ==> relay_body(p) == RelayBody::AsIs,
        relay_body(p) == RelayBody::AsIs ==> (p.has_text || p.has_files || p.has_stickers || p.has_embeds
            || p.has_buttons),
        relay_body(p) == RelayBody::AwaitingApp ==> p.from_interaction,
{
}

pub fn relay_body_of(p: &RelayParts) -> (b: RelayBody)
    ensures
        b == relay_body(*p),
{
    if p.has_text || p.has_files || p.has_stickers || p.has_embeds || p.has_buttons {
        RelayBody::AsIs
    } else if p.from_interaction {
        RelayBody::AwaitingApp
    } else {
        RelayBody::Unsendable
    }
}

/// The pairs after a user's first direct message opened a server channel:
/// the new pair is added at the end.
pub fn register_link(links: &mut Vec<(u64, u64)>, server: u64, user: u64)
    ensures
        final(links)@ == old(links)@.push((server, user)),
{
    links.push((server, user));
}

/// Opens the relay of a user's direct-message channel `user_channel` through
/// the new server channel `server`: the pair is added at the end, and its
/// table's name is given back. Both name the DM channel, so the user's next
/// message is found by its channel.
pub fn open_link(links: &mut Vec<(u64, u64)>, server: u64, user_channel: u64) -> (table: String)
    ensures
        final(links)@ == old(links)@.push((server, user_channel)),
        table@ == table_name(server, user_channel),
{
    register_link(links, server, user_channel);
    relay_table_name(server, user_channel)
}

/// Law: once the relay of a DM channel is opened, looking that channel up on
/// the user's side finds the new pair, when no pair had it before.
pub proof fn law_opened_link_is_found(links: Seq<(u64, u64)>, server: u64, user_channel: u64)
    requires
        forall|i: int| 0 <= i < links.len() ==> !matches_side(#[trigger] links[i], user_channel, Side::User),
    ensures
        ({
            let after = links.push((server, user_channel));
            &&& matches_side(after[links.len() as int], user_channel, Side::User)
            &&& forall|j: int| 0 <= j < links.len() ==> !matches_side(#[trigger] after[j], user_channel, Side::User)
        }),
{
    let after = links.push((server, user_channel));
    assert forall|j: int| 0 <= j < links.len() implies !matches_side(#[trigger] after[j], user_channel, Side::User) by {
        assert(after[j] == links[j]);
    }
}

} // verus!
