//! Birthdays: the `birthday_set` and `birthday_remove` commands, the leap-day
//! buttons, and the daily task that gives the birthday role.
use vstd::prelude::*;
use crate::commands::{lng, lng_trs};
use crate::num::{parse_u64, parse_u64_chars};
use crate::dm::lemma_decimal_shape;
use crate::text::{is_ascii_text, lemma_ascii_byte_len, lemma_decimal_len, lemma_encode_concat, pow10, ends_with, ends_with_chars, byte_len, chars_of, chars_eq, decimal, join, push_decimal, push_str, split_once, split_once_chars, starts_with, starts_with_chars, string_of};

verus! {

/// Seconds in the 364 days after which a birthday may be set again.
pub open spec fn year_secs() -> int {
    364int * 86400
}

/// Whether the instant `a` is before `b`; instants are Unix seconds and nanoseconds.
pub open spec fn before(a: (i64, u32), b: (i64, u32)) -> bool {
    a.0 < b.0 || (a.0 == b.0 && a.1 < b.1)
}

/// A birthday stored at `set` may be replaced at `now`: it was set more than
/// 364 days before.
pub open spec fn set_long_ago(set: (i64, u32), now: (i64, u32)) -> bool {
    before(set, ((now.0 - year_secs()) as i64, now.1))
}

pub fn is_set_long_ago(set: (i64, u32), now: (i64, u32)) -> (r: bool)
    requires
        now.0 >= i64::MIN + 364 * 86400,
    ensures
        r == set_long_ago(set, now),
{
    let limit = now.0 - 364 * 86400;
    set.0 < limit || (set.0 == limit && set.1 < now.1)
}

/// Whole days from `then` to `now`, rounded toward zero (`TimeDelta::num_days`).
pub open spec fn whole_days(then: (i64, u32), now: (i64, u32)) -> int {
    let d = (now.0 - then.0) * 1_000_000_000 + now.1 - then.1;
    if d >= 0 {
        d / 86_400_000_000_000
    } else {
        -((-d) / 86_400_000_000_000)
    }
}

pub fn days_between(then: (i64, u32), now: (i64, u32)) -> (r: i64)
    ensures
        r == whole_days(then, now),
{
    let d: i128 = (now.0 as i128 - then.0 as i128) * 1_000_000_000 + now.1 as i128 - then.1 as i128;
    if d >= 0 {
        (d / 86_400_000_000_000) as i64
    } else {
        -(((-d) / 86_400_000_000_000) as i64)
    }
}

/// The stored birthday of the caller.
#[derive(PartialEq, Eq, Structural, Debug, Clone, Copy)]
pub enum Record {
    Missing,
    /// Set more than 364 days ago: it may be replaced.
    Old,
    /// Set within the last 364 days.
    Recent,
}

/// Which leap-day button.
#[derive(PartialEq, Eq, Structural, Debug, Clone, Copy)]
pub enum Leap {
    Forward,
    Keep,
    Backward,
}

/// The answer to `birthday_set <MMDD>`.
#[derive(PartialEq, Eq, Structural, Debug, Clone, Copy)]
pub enum BirthdaySet {
    OncePerYear,
    InvalidDate,
    InvalidDay,
    InvalidMonth,
    FebruaryTooLong,
    /// February 29th: let the user choose with buttons; `update` when a record is replaced.
    AskLeap { update: bool },
    /// Store the day as `month * 100 + day`; `update` when a record is replaced.
    Store { mmdd: u16, update: bool },
}

/// Month and day of `MMDD`, as `(mmdd / 100) as u32` and `(mmdd % 100) as u32`
/// read them (Rust division, rounding toward zero, then the low 32 bits).
pub open spec fn month_of(mmdd: i64) -> u32 {
    (if mmdd >= 0 { (mmdd / 100) as int } else { -((-mmdd) / 100) }) as u32
}

pub open spec fn day_of(mmdd: i64) -> u32 {
    (if mmdd >= 0 { (mmdd % 100) as int } else { -((-mmdd) % 100) }) as u32
}

pub open spec fn birthday_set(mmdd: i64, record: Record) -> BirthdaySet {
    if record == Record::Recent {
        BirthdaySet::OncePerYear
    } else {
        let m = month_of(mmdd);
        let d = day_of(mmdd);
        let bad_m = !(1 <= m <= 12);
        let bad_d = !(1 <= d <= 31);
        if bad_m && bad_d {
            BirthdaySet::InvalidDate
        } else if bad_d {
            BirthdaySet::InvalidDay
        } else if bad_m {
            BirthdaySet::InvalidMonth
        } else if m == 2 && d > 29 {
            BirthdaySet::FebruaryTooLong
        } else if m == 2 && d == 29 {
            BirthdaySet::AskLeap { update: record == Record::Old }
        } else {
            BirthdaySet::Store { mmdd: (m * 100 + d) as u16, update: record == Record::Old }
        }
    }
}

pub fn birthday_set_answer(mmdd: i64, record: Record) -> (r: BirthdaySet)
    ensures
        r == birthday_set(mmdd, record),
{
    if record == Record::Recent {
        return BirthdaySet::OncePerYear;
    }
    let q: i64 = if mmdd >= 0 { mmdd / 100 } else { -((-(mmdd as i128)) / 100) as i64 };
    let rm: i64 = if mmdd >= 0 { mmdd % 100 } else { -((-(mmdd as i128)) % 100) as i64 };
    let m = q as u32;
    let d = rm as u32;
    let bad_m = !(1 <= m && m <= 12);
    let bad_d = !(1 <= d && d <= 31);
    if bad_m && bad_d {
        BirthdaySet::InvalidDate
    } else if bad_d {
        BirthdaySet::InvalidDay
    } else if bad_m {
        BirthdaySet::InvalidMonth
    } else if m == 2 && d > 29 {
        BirthdaySet::FebruaryTooLong
    } else if m == 2 && d == 29 {
        BirthdaySet::AskLeap { update: record == Record::Old }
    } else {
        BirthdaySet::Store { mmdd: (m * 100 + d) as u16, update: record == Record::Old }
    }
}

/// The reply to `birthday_set`, in the caller's language; `None` for the leap
/// day, which is answered with buttons.
pub open spec fn birthday_reply(a: BirthdaySet, is_korean: bool) -> Option<Seq<char>> {
    match a {
        BirthdaySet::OncePerYear => Some(lng(is_korean,
            "You can only set your birthday once a year. If a reset is required, please contact the administrator"@,
            "1년에 한번만 생일을 설정할 수 있어. 재설정이 필요하다면 담당자에게 문의해"@)),
        BirthdaySet::InvalidDate => Some(lng(is_korean, "Invalid date"@, "잘못된 날짜야"@)),
        BirthdaySet::InvalidDay => Some(lng(is_korean, "Invalid day"@, "잘못된 일자야"@)),
        BirthdaySet::InvalidMonth => Some(lng(is_korean, "Invalid month"@, "잘못된 월이야"@)),
        BirthdaySet::FebruaryTooLong => Some(lng(is_korean, "February cannot exceed 29 days"@, "2월은 29일을 초과할 수 없어"@)),
        BirthdaySet::AskLeap { .. } => None,
        BirthdaySet::Store { mmdd: _, update } => Some(if update {
            lng(is_korean, "Birthday is updated"@, "생일이 업데이트되었어"@)
        } else {
            lng(is_korean, "Birthday is set"@, "생일이 설정되었어"@)
        }),
    }
}

pub fn birthday_reply_text(a: BirthdaySet, is_korean: bool) -> (r: Option<String>)
    ensures
        match r {
            Some(t) => birthday_reply(a, is_korean) == Some(t@),
            None => birthday_reply(a, is_korean) is None,
        },
{
    let t = match a {
        BirthdaySet::OncePerYear => lng_trs(is_korean,
            "You can only set your birthday once a year. If a reset is required, please contact the administrator",
            "1년에 한번만 생일을 설정할 수 있어. 재설정이 필요하다면 담당자에게 문의해"),
        BirthdaySet::InvalidDate => lng_trs(is_korean, "Invalid date", "잘못된 날짜야"),
        BirthdaySet::InvalidDay => lng_trs(is_korean, "Invalid day", "잘못된 일자야"),
        BirthdaySet::InvalidMonth => lng_trs(is_korean, "Invalid month", "잘못된 월이야"),
        BirthdaySet::FebruaryTooLong => lng_trs(is_korean, "February cannot exceed 29 days", "2월은 29일을 초과할 수 없어"),
        BirthdaySet::AskLeap { .. } => {
            return None;
        },
        BirthdaySet::Store { mmdd: _, update } => if update {
            lng_trs(is_korean, "Birthday is updated", "생일이 업데이트되었어")
        } else {
            lng_trs(is_korean, "Birthday is set", "생일이 설정되었어")
        },
    };
    Some(String::from_str(t))
}

/// Law: a stored birthday is a real month and day of the calendar used here:
/// month 1 to 12, day 1 to 31, and never past February 28th in February.
pub proof fn law_stored_birthday_valid(mmdd: i64, record: Record)
    ensures
        birthday_set(mmdd, record) matches BirthdaySet::Store { mmdd: v, update: _ } ==> {
            &&& 1 <= v / 100 <= 12
            &&& 1 <= v % 100 <= 31
            &&& v / 100 == 2 ==> v % 100 <= 28
        },
{
}

/// Law: only a record set within the last 364 days blocks a new birthday.
pub proof fn law_once_per_year(mmdd: i64, record: Record)
    ensures
        (birthday_set(mmdd, record) == BirthdaySet::OncePerYear) == (record == Record::Recent),
{
}

/// Whether the birthday commands are paused: from 23:59 to 00:00 included.
pub open spec fn maintenance(hour: u32, minute: u32) -> bool {
    (hour == 23 && minute >= 59) || (hour == 0 && minute == 0)
}

pub fn is_maintenance(hour: u32, minute: u32) -> (r: bool)
    ensures
        r == maintenance(hour, minute),
{
    (hour == 23 && minute >= 59) || (hour == 0 && minute == 0)
}

pub open spec fn leap_name(l: Leap) -> Seq<char> {
    match l {
        Leap::Forward => "birthday_leap_forward"@,
        Leap::Keep => "birthday_leap_keep"@,
        Leap::Backward => "birthday_leap_backward"@,
    }
}

/// Custom id of a leap-day button for a user.
pub open spec fn leap_button(l: Leap, update: bool, user_id: u64) -> Seq<char> {
    leap_name(l) + (if update { "_update"@ } else { ""@ }) + ":"@ + decimal(user_id as nat)
}

pub fn leap_button_id(l: Leap, update: bool, user_id: u64) -> (r: String)
    ensures
        r@ == leap_button(l, update, user_id),
{
    let mut s = match l {
        Leap::Forward => String::from_str("birthday_leap_forward"),
        Leap::Keep => String::from_str("birthday_leap_keep"),
        Leap::Backward => String::from_str("birthday_leap_backward"),
    };
    if update {
        push_str(&mut s, "_update");
    } else {
        push_str(&mut s, "");
    }
    push_str(&mut s, ":");
    push_decimal(&mut s, user_id);
    s
}

/// What a pressed button asks.
#[derive(PartialEq, Eq, Structural, Debug, Clone, Copy)]
pub enum ButtonAction {
    /// Store the birthday `mmdd` for the presser: `updated` when a stored
    /// birthday is changed, otherwise the first one is recorded.
    StoreLeap { mmdd: u16, updated: bool },
    /// A button meant for another user, or an unknown name before `:`: nothing.
    Ignore,
    /// The timeout button of a fixed member.
    Timeout,
    /// A relayed copy of a button.
    Dummy,
    /// Any other button.
    Unknown,
}

pub open spec fn is_colon() -> spec_fn(char) -> bool {
    |c: char| c == ':'
}

pub open spec fn colon_count(s: Seq<char>) -> nat {
    s.filter(is_colon()).len()
}

pub open spec fn is_leap_name(n: Seq<char>) -> bool {
    n == "birthday_leap_forward"@ || n == "birthday_leap_keep"@ || n == "birthday_leap_backward"@
        || n == "birthday_leap_forward_update"@ || n == "birthday_leap_keep_update"@
        || n == "birthday_leap_backward_update"@
}

/// A custom id with exactly one `:` names a button and the user it was made
/// for. A leap button's name picks the day, as its label says: `forward` 2/28,
/// `keep` 2/29, `backward` 3/1; a name ending in `_update` changes a stored
/// birthday.
pub open spec fn button_action(custom_id: Seq<char>, presser: u64) -> ButtonAction {
    if colon_count(custom_id) == 1 {
        let (name, owner) = split_once(custom_id, ':').unwrap();
        if parse_u64(owner) == Some(presser) && is_leap_name(name) {
            let mmdd: u16 = if name == "birthday_leap_forward"@ || name == "birthday_leap_forward_update"@ {
                228
            } else if name == "birthday_leap_keep"@ || name == "birthday_leap_keep_update"@ {
                229
            } else {
                301
            };
            ButtonAction::StoreLeap { mmdd, updated: ends_with(name, "_update"@) }
        } else {
            ButtonAction::Ignore
        }
    } else if custom_id == "timeout_835743162131546132"@ {
        ButtonAction::Timeout
    } else if starts_with(custom_id, "_"@) {
        ButtonAction::Dummy
    } else {
        ButtonAction::Unknown
    }
}


/// The texts on which the button handler stops: one `:` with no user id after it.
pub open spec fn button_owner_unreadable(custom_id: Seq<char>) -> bool {
    colon_count(custom_id) == 1 && parse_u64(split_once(custom_id, ':').unwrap().1) is None
}

fn count_colons(v: &[char]) -> (n: usize)
    ensures
        n == colon_count(v@),
{
    let mut n: usize = 0;
    let mut i: usize = 0;
    while i < v.len()
        invariant
            i <= v.len(),
            n == v@.take(i as int).filter(is_colon()).len(),
            n <= i,
        decreases v.len() - i,
    {
        assert(v@.take(i as int).push(v@[i as int]) =~= v@.take(i + 1));
        proof {
            v@.take(i as int).lemma_filter_push(v@[i as int], is_colon());
        }
        if v[i] == ':' {
            n = n + 1;
        }
        i = i + 1;
    }
    assert(v@.take(v.len() as int) =~= v@);
    n
}

fn is_text(v: &[char], lit: &str) -> (b: bool)
    ensures
        b == (v@ == lit@),
{
    let l = chars_of(lit);
    chars_eq(v, &l)
}

pub fn button_action_of(custom_id: &str, presser: u64) -> (r: ButtonAction)
    requires
        !button_owner_unreadable(custom_id@),
    ensures
        r == button_action(custom_id@, presser),
{
    let v = chars_of(custom_id);
    if count_colons(&v) == 1 {
        let (name, owner) = match split_once_chars(&v, ':') {
            Some(p) => p,
            None => {
                proof {
                    lemma_colon_split(v@);
                }
                return ButtonAction::Ignore;
            },
        };
        let owner_id = match parse_u64_chars(&owner) {
            Some(o) => o,
            None => return ButtonAction::Ignore,
        };
        if owner_id == presser && (is_text(&name, "birthday_leap_forward") || is_text(&name, "birthday_leap_keep")
            || is_text(&name, "birthday_leap_backward") || is_text(&name, "birthday_leap_forward_update")
            || is_text(&name, "birthday_leap_keep_update") || is_text(&name, "birthday_leap_backward_update")) {
            let mmdd: u16 = if is_text(&name, "birthday_leap_forward") || is_text(&name, "birthday_leap_forward_update") {
                228
            } else if is_text(&name, "birthday_leap_keep") || is_text(&name, "birthday_leap_keep_update") {
                229
            } else {
                301
            };
            let u = chars_of("_update");
            ButtonAction::StoreLeap { mmdd, updated: ends_with_chars(&name, &u) }
        } else {
            ButtonAction::Ignore
        }
    } else if is_text(&v, "timeout_835743162131546132") {
        ButtonAction::Timeout
    } else {
        let p = chars_of("_");
        if starts_with_chars(&v, &p) {
            ButtonAction::Dummy
        } else {
            ButtonAction::Unknown
        }
    }
}

/// A text holding a `:` splits at it.
pub proof fn lemma_colon_split(s: Seq<char>)
    requires
        colon_count(s) == 1,
    ensures
        split_once(s, ':') is Some,
    decreases s.len(),
{
    if s.len() == 0 {
        assert(s.filter(is_colon()) =~= seq![]);
    } else if s[0] != ':' {
        assert(s =~= seq![s[0]] + s.drop_first());
        Seq::<char>::filter_distributes_over_add(seq![s[0]], s.drop_first(), is_colon());
        assert(seq![s[0]].filter(is_colon()) =~= seq![]) by {
            reveal_with_fuel(Seq::filter, 2);
        }
        lemma_colon_split(s.drop_first());
    }
}

/// Day of the year as stored: `month * 100 + day`.
pub fn today_mmdd(month: u32, day: u32) -> (r: u16)
    requires
        1 <= month <= 12,
        1 <= day <= 31,
    ensures
        r == month * 100 + day,
{
    (month * 100 + day) as u16
}

/// A stored birthday row, as the daily task reads it.
pub struct BirthdayRow {
    pub id: u64,
    /// When it was set, if known.
    pub set_at: Option<(i64, u32)>,
    /// `Some(0)` while in use; `Some(1)` once removed by its user.
    pub unused: Option<i8>,
}

/// What the daily task does with the rows of today's birthdays: the users to
/// congratulate (in use, with a known date), and the rows to delete (with a
/// known date and an `unused` mark, set more than 364 whole days ago).
pub open spec fn celebrate(rows: Seq<BirthdayRow>) -> Seq<u64>
    decreases rows.len(),
{
    if rows.len() == 0 {
        seq![]
    } else {
        let r = rows.last();
        let prev = celebrate(rows.drop_last());
        if r.set_at is Some && r.unused == Some(0i8) { prev.push(r.id) } else { prev }
    }
}

pub open spec fn expired(rows: Seq<BirthdayRow>, now: (i64, u32)) -> Seq<u64>
    decreases rows.len(),
{
    if rows.len() == 0 {
        seq![]
    } else {
        let r = rows.last();
        let prev = expired(rows.drop_last(), now);
        match r.set_at {
            Some(t) => if r.unused is Some && whole_days(t, now) > 364 { prev.push(r.id) } else { prev },
            None => prev,
        }
    }
}

pub fn daily_plan(rows: &Vec<BirthdayRow>, now: (i64, u32)) -> (r: (Vec<u64>, Vec<u64>))
    ensures
        r.0@ == celebrate(rows@),
        r.1@ == expired(rows@, now),
{
    let mut today: Vec<u64> = Vec::new();
    let mut old: Vec<u64> = Vec::new();
    let mut i: usize = 0;
    while i < rows.len()
        invariant
            i <= rows.len(),
            today@ == celebrate(rows@.take(i as int)),
            old@ == expired(rows@.take(i as int), now),
        decreases rows.len() - i,
    {
        assert(rows@.take(i + 1).drop_last() =~= rows@.take(i as int));
        let r = &rows[i];
        match r.set_at {
            Some(t) => {
                if r.unused == Some(0i8) {
                    today.push(r.id);
                }
                if r.unused.is_some() && days_between(t, now) > 364 {
                    old.push(r.id);
                }
            },
            None => {},
        }
        i = i + 1;
    }
    assert(rows@.take(rows.len() as int) =~= rows@);
    (today, old)
}

/// A member who could not be fetched is forgotten, unless the server answered
/// with a status of 500 or more, or 429 (try again later).
pub open spec fn forget_member(status: Option<u16>) -> bool {
    match status {
        Some(s) => !(s >= 500 || s == 429),
        None => true,
    }
}

pub fn should_forget_member(status: Option<u16>) -> (r: bool)
    ensures
        r == forget_member(status),
{
    match status {
        Some(s) => !(s >= 500 || s == 429),
        None => true,
    }
}

/// The congratulation message: the role mention, the count, then one line per
/// user; when that exceeds 2000 bytes, the header and a short note instead.
pub open spec fn mention_lines(ids: Seq<u64>) -> Seq<char>
    decreases ids.len(),
{
    if ids.len() == 0 {
        seq![]
    } else {
        mention_lines(ids.drop_last()) + "- <@"@ + decimal(ids.last() as nat) + ">\n"@
    }
}

pub open spec fn birthday_header(n: nat) -> Seq<char> {
    "<@&1299153941623341056>\n\u{1F389} ("@ + decimal(n) + ")\n"@
}

pub open spec fn birthday_message(ids: Seq<u64>) -> Seq<char> {
    let full = birthday_header(ids.len()) + mention_lines(ids);
    if byte_len(full) > 2000 {
        birthday_header(ids.len()) + "(Too many people's birthdays!)"@
    } else {
        full
    }
}

/// The congratulation always fits in one Discord message: at most 2000 bytes,
/// however many members have their birthday.
pub proof fn law_birthday_message_fits(ids: Seq<u64>)
    requires
        ids.len() <= usize::MAX,
    ensures
        byte_len(birthday_message(ids)) <= 2000,
{
    let n = ids.len();
    let full = birthday_header(n) + mention_lines(ids);
    if byte_len(full) > 2000 {
        reveal_strlit("<@&1299153941623341056>\n\u{1F389} (");
        reveal_strlit(")\n");
        reveal_strlit("(Too many people's birthdays!)");
        let opening = "<@&1299153941623341056>\n\u{1F389} ("@;
        let closing = ")\n"@;
        let note = "(Too many people's birthdays!)"@;
        let before = opening.take(24);
        let party = seq![opening[24]];
        let after = opening.skip(25);
        assert(opening =~= before + party + after);
        assert(is_ascii_text(before));
        assert(is_ascii_text(after));
        assert(is_ascii_text(closing));
        assert(is_ascii_text(note));
        lemma_ascii_byte_len(before);
        lemma_ascii_byte_len(after);
        lemma_ascii_byte_len(closing);
        lemma_ascii_byte_len(note);
        assert(vstd::utf8::encode_utf8(party) =~= vstd::utf8::encode_scalar(opening[24] as u32)
            + vstd::utf8::encode_utf8(party.drop_first()));
        assert(vstd::utf8::encode_utf8(party).len() == 4);
        lemma_encode_concat(before, party);
        lemma_encode_concat(before + party, after);
        let digits = decimal(n);
        assert(pow10(20) == 100_000_000_000_000_000_000nat) by {
            reveal_with_fuel(pow10, 21);
        }
        lemma_decimal_len(n, 20);
        lemma_decimal_shape(n);
        assert(is_ascii_text(digits));
        lemma_ascii_byte_len(digits);
        lemma_encode_concat(opening, digits);
        lemma_encode_concat(opening + digits, closing);
        lemma_encode_concat(opening + digits + closing, note);
        assert(birthday_header(n) + note =~= opening + digits + closing + note);
    }
}

pub fn birthday_message_text(ids: &Vec<u64>) -> (r: String)
    ensures
        r@ == birthday_message(ids@),
{
    let mut header = String::from_str("<@&1299153941623341056>\n\u{1F389} (");
    push_decimal(&mut header, ids.len() as u64);
    push_str(&mut header, ")\n");
    let mut full = header.clone();
    let mut i: usize = 0;
    while i < ids.len()
        invariant
            i <= ids.len(),
            header@ == birthday_header(ids@.len()),
            full@ == header@ + mention_lines(ids@.take(i as int)),
        decreases ids.len() - i,
    {
        assert(ids@.take(i + 1).drop_last() =~= ids@.take(i as int));
        push_str(&mut full, "- <@");
        push_decimal(&mut full, ids[i]);
        push_str(&mut full, ">\n");
        assert(full@ =~= header@ + mention_lines(ids@.take(i + 1)));
        i = i + 1;
    }
    assert(ids@.take(ids.len() as int) =~= ids@);
    if full.as_str().len() > 2000 {
        push_str(&mut header, "(Too many people's birthdays!)");
        header
    } else {
        full
    }
}

} // verus!
