//! Integer parsing with the outcomes of `str::parse` and `from_str_radix`.
use vstd::prelude::*;

verus! {

/// Why a text is not an integer, as `std::num::IntErrorKind` names it.
#[derive(PartialEq, Eq, Structural, Debug, Clone, Copy)]
pub enum IntErrorKind {
    Empty,
    InvalidDigit,
    PosOverflow,
}

/// The value of `c` as a digit of `radix` (10 or 16), as `char::to_digit` gives it.
pub open spec fn digit_value(c: char, radix: u32) -> Option<nat> {
    if '0' <= c && c <= '9' {
        Some((c as u32 - '0' as u32) as nat)
    } else if radix == 16 && 'a' <= c && c <= 'f' {
        Some((c as u32 - 'a' as u32 + 10) as nat)
    } else if radix == 16 && 'A' <= c && c <= 'F' {
        Some((c as u32 - 'A' as u32 + 10) as nat)
    } else {
        None
    }
}

/// Digits read left to right; a character that is no digit stops the reading with
/// `InvalidDigit`, a value above `max` with `PosOverflow`, whichever comes first.
pub open spec fn scan_digits(d: Seq<char>, radix: u32, max: nat) -> Result<nat, IntErrorKind>
    decreases d.len(),
{
    if d.len() == 0 {
        Ok(0)
    } else {
        match scan_digits(d.drop_last(), radix, max) {
            Err(k) => Err(k),
            Ok(v) => match digit_value(d.last(), radix) {
                None => Err(IntErrorKind::InvalidDigit),
                Some(x) => if v * radix + x > max {
                    Err(IntErrorKind::PosOverflow)
                } else {
                    Ok((v * radix + x) as nat)
                },
            },
        }
    }
}

/// An unsigned integer of at most `max` in `radix`, with an optional leading `+`.
pub open spec fn parse_unsigned(s: Seq<char>, radix: u32, max: nat) -> Result<nat, IntErrorKind> {
    if s.len() == 0 {
        Err(IntErrorKind::Empty)
    } else if s.len() == 1 && (s[0] == '+' || s[0] == '-') {
        Err(IntErrorKind::InvalidDigit)
    } else if s[0] == '+' {
        scan_digits(s.drop_first(), radix, max)
    } else {
        scan_digits(s, radix, max)
    }
}

/// `str::parse::<u64>`.
pub open spec fn parse_u64(s: Seq<char>) -> Option<u64> {
    match parse_unsigned(s, 10, u64::MAX as nat) {
        Ok(v) => Some(v as u64),
        Err(_) => None,
    }
}

/// `str::parse::<i64>`.
pub open spec fn parse_i64(s: Seq<char>) -> Option<i64> {
    if s.len() >= 2 && s[0] == '-' {
        match scan_digits(s.drop_first(), 10, 0x8000_0000_0000_0000nat) {
            Ok(v) => Some((-v) as i64),
            Err(_) => None,
        }
    } else {
        match parse_unsigned(s, 10, i64::MAX as nat) {
            Ok(v) => Some(v as i64),
            Err(_) => None,
        }
    }
}

/// `u32::from_str_radix(s, 16)`.
pub open spec fn parse_hex_u32(s: Seq<char>) -> Result<u32, IntErrorKind> {
    match parse_unsigned(s, 16, u32::MAX as nat) {
        Ok(v) => Ok(v as u32),
        Err(k) => Err(k),
    }
}

pub fn digit_of(c: char, radix: u32) -> (r: Option<u32>)
    requires
        radix == 10 || radix == 16,
    ensures
        match r {
            Some(x) => digit_value(c, radix) == Some(x as nat),
            None => digit_value(c, radix) is None,
        },
{
    if '0' <= c && c <= '9' {
        Some(c as u32 - '0' as u32)
    } else if radix == 16 && 'a' <= c && c <= 'f' {
        Some(c as u32 - 'a' as u32 + 10)
    } else if radix == 16 && 'A' <= c && c <= 'F' {
        Some(c as u32 - 'A' as u32 + 10)
    } else {
        None
    }
}

/// `scan_digits` over `d[from..]`.
pub fn scan_digits_exec(d: &[char], from: usize, radix: u32, max: u64) -> (r: Result<u64, IntErrorKind>)
    requires
        from <= d.len(),
        radix == 10 || radix == 16,
    ensures
        match scan_digits(d@.skip(from as int), radix, max as nat) {
            Ok(v) => r == Ok::<u64, IntErrorKind>(v as u64),
            Err(k) => r == Err::<u64, IntErrorKind>(k),
        },
{
    let ghost s = d@.skip(from as int);
    let mut acc: u128 = 0;
    let mut i: usize = from;
    while i < d.len()
        invariant
            from <= i <= d.len(),
            s == d@.skip(from as int),
            radix == 10 || radix == 16,
            scan_digits(s.take(i - from), radix, max as nat) == Ok::<nat, IntErrorKind>(acc as nat),
            acc <= max,
        decreases d.len() - i,
    {
        assert(s.take(i + 1 - from).drop_last() =~= s.take(i - from));
        assert(s.take(i + 1 - from).last() == d@[i as int]);
        match digit_of(d[i], radix) {
            None => {
                proof { lemma_scan_err_extends(s, (i + 1 - from) as int, radix, max as nat); }
                return Err(IntErrorKind::InvalidDigit);
            },
            Some(x) => {
                let next: u128 = acc * (radix as u128) + (x as u128);
                if next > max as u128 {
                    proof { lemma_scan_err_extends(s, (i + 1 - from) as int, radix, max as nat); }
                    return Err(IntErrorKind::PosOverflow);
                }
                acc = next;
            },
        }
        i = i + 1;
    }
    assert(s.take(d.len() - from) =~= s);
    Ok(acc as u64)
}

/// Once a prefix fails, the whole fails the same way.
pub proof fn lemma_scan_err_extends(s: Seq<char>, k: int, radix: u32, max: nat)
    requires
        0 <= k <= s.len(),
        scan_digits(s.take(k), radix, max) is Err,
    ensures
        scan_digits(s, radix, max) == scan_digits(s.take(k), radix, max),
    decreases s.len() - k,
{
    if k < s.len() {
        assert(s.take(k + 1).drop_last() =~= s.take(k));
        lemma_scan_err_extends(s, k + 1, radix, max);
    } else {
        assert(s.take(k) =~= s);
    }
}

pub fn parse_unsigned_exec(s: &[char], radix: u32, max: u64) -> (r: Result<u64, IntErrorKind>)
    requires
        radix == 10 || radix == 16,
    ensures
        match parse_unsigned(s@, radix, max as nat) {
            Ok(v) => r == Ok::<u64, IntErrorKind>(v as u64),
            Err(k) => r == Err::<u64, IntErrorKind>(k),
        },
{
    if s.len() == 0 {
        Err(IntErrorKind::Empty)
    } else if s.len() == 1 && (s[0] == '+' || s[0] == '-') {
        Err(IntErrorKind::InvalidDigit)
    } else if s[0] == '+' {
        assert(s@.skip(1) =~= s@.drop_first());
        scan_digits_exec(s, 1, radix, max)
    } else {
        assert(s@.skip(0) =~= s@);
        scan_digits_exec(s, 0, radix, max)
    }
}

/// `str::parse::<u64>`, on characters.
pub fn parse_u64_chars(s: &[char]) -> (r: Option<u64>)
    ensures
        r == parse_u64(s@),
{
    match parse_unsigned_exec(s, 10, u64::MAX) {
        Ok(v) => Some(v),
        Err(_) => None,
    }
}

/// `str::parse::<i64>`, on characters.
pub fn parse_i64_chars(s: &[char]) -> (r: Option<i64>)
    ensures
        r == parse_i64(s@),
{
    if s.len() >= 2 && s[0] == '-' {
        assert(s@.skip(1) =~= s@.drop_first());
        match scan_digits_exec(s, 1, 10, 0x8000_0000_0000_0000u64) {
            Ok(v) => {
                if v == 0x8000_0000_0000_0000u64 {
                    Some(i64::MIN)
                } else {
                    Some(-(v as i64))
                }
            },
            Err(_) => None,
        }
    } else {
        match parse_unsigned_exec(s, 10, i64::MAX as u64) {
            Ok(v) => Some(v as i64),
            Err(_) => None,
        }
    }
}

/// `u32::from_str_radix(s, 16)`, on characters.
pub fn parse_hex_u32_chars(s: &[char]) -> (r: Result<u32, IntErrorKind>)
    ensures
        r == parse_hex_u32(s@),
{
    match parse_unsigned_exec(s, 16, u32::MAX as u64) {
        Ok(v) => Ok(v as u32),
        Err(k) => Err(k),
    }
}

} // verus!
