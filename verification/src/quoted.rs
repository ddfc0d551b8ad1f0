//! Quoted arguments of the `<!` shell commands: `"a few words"` spread over
//! whitespace-separated tokens.
use vstd::prelude::*;
use crate::text::{byte_len, decimal, push_chars, push_decimal, push_str, string_of, sub_chars, views};

verus! {

pub open spec fn quote_char() -> char {
    '"'
}

/// `s.trim_start_matches('"')`.
pub open spec fn strip_leading_quotes(s: Seq<char>) -> Seq<char>
    decreases s.len(),
{
    if s.len() > 0 && s[0] == quote_char() {
        strip_leading_quotes(s.drop_first())
    } else {
        s
    }
}

/// `s.trim_end_matches('"')`.
pub open spec fn strip_trailing_quotes(s: Seq<char>) -> Seq<char>
    decreases s.len(),
{
    if s.len() > 0 && s.last() == quote_char() {
        strip_trailing_quotes(s.drop_last())
    } else {
        s
    }
}

pub open spec fn ends_quote(s: Seq<char>) -> bool {
    s.len() > 0 && s.last() == quote_char()
}

/// Index of the first token at or after `k` that ends with a quote, or the
/// number of tokens when there is none.
pub open spec fn first_close(t: Seq<Seq<char>>, k: int) -> int
    decreases t.len() - k,
{
    if k < 0 || k >= t.len() {
        t.len() as int
    } else if ends_quote(t[k]) {
        k
    } else {
        first_close(t, k + 1)
    }
}

/// The tokens `from..to`, each preceded by a space.
pub open spec fn spaced(t: Seq<Seq<char>>, from: int, to: int) -> Seq<char>
    decreases to - from,
{
    if to <= from {
        seq![]
    } else {
        spaced(t, from, to - 1) + seq![' '] + t[to - 1]
    }
}

/// The length check that ends a quoted argument; the length is counted in UTF-8 bytes.
pub open spec fn checked_len(text: Seq<char>, name: Seq<char>, max: nat) -> Result<Seq<char>, Seq<char>> {
    if byte_len(text) > max {
        Err(name + " length must be <= "@ + decimal(max))
    } else {
        Ok(text)
    }
}

/// A quoted argument named `name` read from token `pos` on: the text or the error
/// message, and the index of the first token not read.
pub open spec fn quoted(t: Seq<Seq<char>>, pos: int, name: Seq<char>, max: nat) -> (Result<Seq<char>, Seq<char>>, int) {
    if pos < 0 || pos >= t.len() {
        (Err(name + " null"@), pos)
    } else if !(t[pos].len() > 0 && t[pos][0] == quote_char()) {
        (Err(name + " must start with a quote (\")"@), pos + 1)
    } else {
        let head = strip_trailing_quotes(strip_leading_quotes(t[pos]));
        if ends_quote(t[pos]) {
            (checked_len(head, name, max), pos + 1)
        } else {
            let k = first_close(t, pos + 1);
            if k >= t.len() {
                (Err(name + " missing closing quote (\")"@), t.len() as int)
            } else {
                (checked_len(head + spaced(t, pos + 1, k) + seq![' '] + t[k].drop_last(), name, max), k + 1)
            }
        }
    }
}

pub open spec fn result_view(r: Result<String, String>) -> Result<Seq<char>, Seq<char>> {
    match r {
        Ok(s) => Ok(s@),
        Err(e) => Err(e@),
    }
}

pub proof fn lemma_first_close_bounds(t: Seq<Seq<char>>, k: int)
    requires
        0 <= k,
    ensures
        k <= first_close(t, k) <= t.len() || (k > t.len() && first_close(t, k) == t.len()),
        first_close(t, k) < t.len() ==> ends_quote(t[first_close(t, k)]),
        forall|j: int| k <= j < first_close(t, k) ==> !ends_quote(#[trigger] t[j]),
    decreases t.len() - k,
{
    if k < t.len() && !ends_quote(t[k]) {
        lemma_first_close_bounds(t, k + 1);
    }
}

/// A quoted argument never reads past the last token and always moves on,
/// except when there is no token left.
pub proof fn lemma_quoted_advances(t: Seq<Seq<char>>, pos: int, name: Seq<char>, max: nat)
    requires
        0 <= pos,
    ensures
        pos < t.len() ==> pos < quoted(t, pos, name, max).1 <= t.len(),
        pos >= t.len() ==> quoted(t, pos, name, max).1 == pos,
{
    if pos < t.len() {
        lemma_first_close_bounds(t, pos + 1);
    }
}

pub fn strip_quotes(v: &[char]) -> (r: Vec<char>)
    ensures
        r@ == strip_trailing_quotes(strip_leading_quotes(v@)),
{
    let mut i: usize = 0;
    assert(v@.skip(0) =~= v@);
    while i < v.len() && v[i] == '"'
        invariant
            i <= v.len(),
            strip_leading_quotes(v@) == strip_leading_quotes(v@.skip(i as int)),
        decreases v.len() - i,
    {
        assert(v@.skip(i as int).drop_first() =~= v@.skip(i + 1));
        i = i + 1;
    }
    let ghost h = v@.skip(i as int);
    assert(strip_leading_quotes(h) == h);
    let mut j: usize = v.len();
    assert(h =~= v@.subrange(i as int, j as int));
    while j > i && v[j - 1] == '"'
        invariant
            i <= j <= v.len(),
            h == v@.skip(i as int),
            strip_trailing_quotes(h) == strip_trailing_quotes(v@.subrange(i as int, j as int)),
        decreases j,
    {
        assert(v@.subrange(i as int, j as int).drop_last() =~= v@.subrange(i as int, j - 1));
        j = j - 1;
    }
    sub_chars(v, i, j)
}

pub fn ends_with_quote(v: &[char]) -> (b: bool)
    ensures
        b == ends_quote(v@),
{
    v.len() > 0 && v[v.len() - 1] == '"'
}

/// The length check, with the message built as the shell prints it.
pub fn check_len(text: String, name: &str, max_len: usize) -> (r: Result<String, String>)
    ensures
        result_view(r) == checked_len(text@, name@, max_len as nat),
{
    if text.as_str().len() > max_len {
        let mut e = String::new();
        push_str(&mut e, name);
        push_str(&mut e, " length must be <= ");
        push_decimal(&mut e, max_len as u64);
        Err(e)
    } else {
        Ok(text)
    }
}

/// Reads the quoted argument `name` from token `pos` on; returns it, or the
/// message that the shell reports, with the index of the next unread token.
pub fn parse_quoted(t: &Vec<Vec<char>>, pos: usize, name: &str, max_len: usize) -> (r: (Result<String, String>, usize))
    ensures
        (result_view(r.0), r.1 as int) == quoted(views(t@), pos as int, name@, max_len as nat),
{
    let ghost tv = views(t@);
    if pos >= t.len() {
        let mut e = String::new();
        push_str(&mut e, name);
        push_str(&mut e, " null");
        return (Err(e), pos);
    }
    let first = &t[pos];
    assert(tv[pos as int] == first@);
    if !(first.len() > 0 && first[0] == '"') {
        let mut e = String::new();
        push_str(&mut e, name);
        push_str(&mut e, " must start with a quote (\")");
        return (Err(e), pos + 1);
    }
    let head = strip_quotes(first);
    let mut text = string_of(&head);
    if ends_with_quote(first) {
        return (check_len(text, name, max_len), pos + 1);
    }
    let mut k: usize = pos + 1;
    proof {
        lemma_first_close_bounds(tv, pos + 1);
    }
    while k < t.len() && !ends_with_quote(&t[k])
        invariant
            tv == views(t@),
            pos < k <= t.len(),
            first_close(tv, pos + 1) == first_close(tv, k as int),
            text@ == head@ + spaced(tv, pos + 1, k as int),
        decreases t.len() - k,
    {
        assert(tv[k as int] == t@[k as int]@);
        text.push(' ');
        push_chars(&mut text, &t[k]);
        assert(text@ =~= head@ + spaced(tv, pos + 1, k + 1));
        k = k + 1;
    }
    if k >= t.len() {
        let mut e = String::new();
        push_str(&mut e, name);
        push_str(&mut e, " missing closing quote (\")");
        return (Err(e), t.len());
    }
    assert(tv[k as int] == t@[k as int]@);
    text.push(' ');
    let last = &t[k];
    let body = sub_chars(last, 0, last.len() - 1);
    assert(body@ =~= last@.drop_last());
    push_chars(&mut text, &body);
    assert(text@ =~= head@ + spaced(tv, pos + 1, k as int) + seq![' '] + tv[k as int].drop_last());
    (check_len(text, name, max_len), k + 1)
}

} // verus!
