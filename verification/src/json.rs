//! JSON texts read and written through `serde_json`.
use vstd::prelude::*;

verus! {

/// What `serde_json::from_str::<Vec<String>>` reads from a text: the strings of a
/// JSON array, or the `Debug` text of the error.
pub uninterp spec fn json_string_array(s: Seq<char>) -> Result<Seq<Seq<char>>, Seq<char>>;

pub open spec fn string_views(v: Seq<String>) -> Seq<Seq<char>> {
    v.map_values(|s: String| s@)
}

/// Calls `serde_json::from_str::<Vec<String>>`. Claimed: the strings read, or the
/// error's `Debug` text, are those named by `json_string_array`; JSON syntax is
/// not stated.
#[verifier::external_body]
pub(crate) fn parse_json_strings(s: &str) -> (r: Result<Vec<String>, String>)
    ensures
        match r {
            Ok(v) => json_string_array(s@) == Ok::<Seq<Seq<char>>, Seq<char>>(string_views(v@)),
            Err(e) => json_string_array(s@) == Err::<Seq<Seq<char>>, Seq<char>>(e@),
        },
{
    match serde_json::from_str::<Vec<String>>(s) {
        Ok(v) => Ok(v),
        Err(e) => Err(format!("{:?}", e)),
    }
}

/// What `serde_json::to_string` writes for a list of strings: a JSON array.
pub uninterp spec fn json_of_strings(items: Seq<Seq<char>>) -> Seq<char>;

/// Calls `serde_json::to_string` on a list of strings. Claimed: it succeeds, as
/// its documentation says it fails only when a `Serialize` impl fails or a map
/// has non-string keys, neither of which a list of strings has; the text is
/// `json_of_strings` of the list. JSON escaping is not stated.
#[verifier::external_body]
pub(crate) fn write_json_strings(items: &Vec<String>) -> (r: Option<String>)
    ensures
        r is Some,
        r matches Some(t) ==> t@ == json_of_strings(string_views(items@)),
{
    serde_json::to_string(items).ok()
}

/// The JSON text of a list of strings (`[]` stands in should it not be written).
pub fn strings_json(items: &Vec<String>) -> (r: String)
    ensures
        r@ == json_of_strings(string_views(items@)),
{
    match write_json_strings(items) {
        Some(t) => t,
        None => String::from_str("[]"),
    }
}

} // verus!
