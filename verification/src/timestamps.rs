//! Calendar times read from command arguments, through `chrono`.
use vstd::prelude::*;

verus! {

/// A moment given to the embed command: the current time, or seconds and
/// nanoseconds since the Unix epoch (UTC).
#[derive(PartialEq, Eq, Structural, Debug, Clone, Copy)]
pub enum EmbedTime {
    Now,
    At(i64, u32),
}

/// What `"...".parse::<chrono::DateTime<chrono::Utc>>()` reads from a text, as
/// Unix seconds and sub-second nanoseconds.
pub uninterp spec fn rfc3339_utc(s: Seq<char>) -> Option<(i64, u32)>;

/// Whether `chrono::DateTime::<Utc>::from_timestamp(secs, 0)` accepts `secs`:
/// the day must lie in chrono's date range, from -262143-01-01 to 262142-12-31,
/// that is from -8334601228800 to 8210266876799 seconds from the epoch.
pub open spec fn timestamp_in_range(secs: i64) -> bool {
    -8_334_601_228_800 <= secs <= 8_210_266_876_799
}

/// Calls `str::parse::<chrono::DateTime<chrono::Utc>>` (chrono's relaxed RFC 3339
/// reader). Claimed: the result is `rfc3339_utc` of the text, converted to Unix
/// seconds and nanoseconds; nothing is said about which texts it accepts.
#[verifier::external_body]
pub(crate) fn parse_utc_datetime(s: &str) -> (r: Option<(i64, u32)>)
    ensures
        r == rfc3339_utc(s@),
{
    match s.parse::<chrono::DateTime<chrono::Utc>>() {
        Ok(d) => Some((d.timestamp(), d.timestamp_subsec_nanos())),
        Err(_) => None,
    }
}

/// Calls `chrono::DateTime::<Utc>::from_timestamp(secs, 0)`. Claimed: it refuses
/// `secs` exactly when its day falls outside chrono's date range
/// (`timestamp_in_range`), and otherwise gives back the moment `secs` seconds
/// after the epoch with no sub-second part.
#[verifier::external_body]
pub(crate) fn utc_from_timestamp(secs: i64) -> (r: Option<(i64, u32)>)
    ensures
        r == (if timestamp_in_range(secs) { Some((secs, 0u32)) } else { None }),
{
    match chrono::DateTime::<chrono::Utc>::from_timestamp(secs, 0) {
        Some(d) => Some((d.timestamp(), d.timestamp_subsec_nanos())),
        None => None,
    }
}

} // verus!
