//! The `<!` admin shell: who may use it, which command a line names, and the
//! `deunicode` command.
use vstd::prelude::*;
use crate::text::{chars_of, is_ascii_text, is_ws, join, push_chars, push_joined, push_str, split_words, starts_with, starts_with_chars, string_of, sub_chars, trim, trim_chars, trim_start, trim_start_chars, trim_start_matches, trim_start_matches_chars, upper, to_upper, views, words};
use crate::embed_cmd::{is_lit};

verus! {

/// The users who may run shell commands.
pub open spec fn shell_user(id: u64) -> bool {
    id == 700176751422341201 || id == 1202514875797213184 || id == 507523158757212160 || id
        == 412180095827181570 || id == 682792713485418497
}

pub fn is_shell_user(id: u64) -> (b: bool)
    ensures
        b == shell_user(id),
{
    id == 700176751422341201 || id == 1202514875797213184 || id == 507523158757212160 || id
        == 412180095827181570 || id == 682792713485418497
}

/// A message is a shell line when, after leading whitespace, it starts with `<!`.
pub open spec fn is_shell(content: Seq<char>) -> bool {
    starts_with(trim_start(content), "<!"@)
}

pub fn is_shell_line(content: &str) -> (b: bool)
    ensures
        b == is_shell(content@),
{
    let v = chars_of(content);
    let t = trim_start_chars(&v);
    let p = chars_of("<!");
    starts_with_chars(&t, &p)
}

/// The command part of a shell line: every leading `<!` of the message removed,
/// then leading whitespace.
pub open spec fn shell_text(content: Seq<char>) -> Seq<char> {
    trim_start(trim_start_matches(content, "<!"@))
}

/// The command a shell line names.
#[derive(Debug)]
pub enum ShellRoute {
    /// Nothing after `<!`: show the command list.
    Help,
    /// `memory`: report the resident memory of the process.
    Memory,
    /// `embed`, with the text after it.
    Embed(String),
    /// `deunicode`, with the text after it.
    Deunicode(String),
    /// `resp`, with the whole command text.
    Resp(String),
    /// Any other text: the shell does nothing.
    Ignored,
}

pub enum RouteModel {
    Help,
    Memory,
    Embed(Seq<char>),
    Deunicode(Seq<char>),
    Resp(Seq<char>),
    Ignored,
}

pub open spec fn route_view(r: ShellRoute) -> RouteModel {
    match r {
        ShellRoute::Help => RouteModel::Help,
        ShellRoute::Memory => RouteModel::Memory,
        ShellRoute::Embed(s) => RouteModel::Embed(s@),
        ShellRoute::Deunicode(s) => RouteModel::Deunicode(s@),
        ShellRoute::Resp(s) => RouteModel::Resp(s@),
        ShellRoute::Ignored => RouteModel::Ignored,
    }
}

/// Commands are matched by prefix, in this order: `memory`, `embed`,
/// `deunicode`, `resp`.
pub open spec fn route(content: Seq<char>) -> RouteModel {
    let c = shell_text(content);
    if c.len() == 0 {
        RouteModel::Help
    } else if starts_with(c, "memory"@) {
        RouteModel::Memory
    } else if starts_with(c, "embed"@) {
        RouteModel::Embed(c.skip(5))
    } else if starts_with(c, "deunicode"@) {
        RouteModel::Deunicode(c.skip(9))
    } else if starts_with(c, "resp"@) {
        RouteModel::Resp(c)
    } else {
        RouteModel::Ignored
    }
}

fn has_prefix(v: &[char], lit: &str) -> (b: bool)
    ensures
        b == starts_with(v@, lit@),
{
    let p = chars_of(lit);
    starts_with_chars(v, &p)
}

pub fn shell_route(content: &str) -> (r: ShellRoute)
    ensures
        route_view(r) == route(content@),
{
    let v = chars_of(content);
    let p = chars_of("<!");
    let m = trim_start_matches_chars(&v, &p);
    let c = trim_start_chars(&m);
    if c.len() == 0 {
        ShellRoute::Help
    } else if has_prefix(&c, "memory") {
        ShellRoute::Memory
    } else if has_prefix(&c, "embed") {
        proof { reveal_strlit("embed"); }
        ShellRoute::Embed(string_of(&sub_chars(&c, 5, c.len())))
    } else if has_prefix(&c, "deunicode") {
        proof { reveal_strlit("deunicode"); }
        ShellRoute::Deunicode(string_of(&sub_chars(&c, 9, c.len())))
    } else if has_prefix(&c, "resp") {
        ShellRoute::Resp(string_of(&c))
    } else {
        ShellRoute::Ignored
    }
}

/// Every character of the text is below U+007F (DEL).
pub open spec fn below_del(s: Seq<char>) -> bool {
    forall|i: int| 0 <= i < s.len() ==> (s[i] as u32) < 0x7F
}

/// What `deunicode::deunicode` gives for a text.
pub uninterp spec fn transliterated(s: Seq<char>) -> Seq<char>;

/// Calls `deunicode::deunicode`. Claimed: the result is `transliterated` of the
/// text; it is ASCII (its tables and the `[?]` placeholder are ASCII); a text
/// whose characters are all below U+007F comes back unchanged (the crate's fast
/// path). DEL and the control characters reached through the tables may be
/// dropped, so nothing more is said of other ASCII texts. The transliteration
/// tables are not stated.
#[verifier::external_body]
pub(crate) fn deunicode_text(s: &str) -> (r: String)
    ensures
        r@ == transliterated(s@),
        is_ascii_text(r@),
        below_del(s@) ==> r@ == s@,
{
    deunicode::deunicode(s)
}

/// The flags `--upcase`, `--comma`, `--quote` and the other words joined by a
/// space, read from the words of the command.
pub open spec fn deunicode_scan(ws: Seq<Seq<char>>) -> (bool, bool, bool, Seq<char>)
    decreases ws.len(),
{
    if ws.len() == 0 {
        (false, false, false, seq![])
    } else {
        let (u, c, q, t) = deunicode_scan(ws.drop_last());
        let w = ws.last();
        if w == "--upcase"@ || w == "-u"@ {
            (true, c, q, t)
        } else if w == "--comma"@ || w == "-c"@ {
            (u, true, q, t)
        } else if w == "--quote"@ || w == "-q"@ {
            (u, c, true, t)
        } else if t.len() > 0 {
            (u, c, q, t + seq![' '] + w)
        } else {
            (u, c, q, t + w)
        }
    }
}

pub open spec fn quote_word(w: Seq<char>) -> Seq<char> {
    "\""@ + w + "\""@
}

/// The answer of `<! deunicode [--upcase/-u] [--comma/-c] [--quote/-q] <text>`,
/// given the text after `deunicode`; `None` when nothing follows (show usage).
/// The text is transliterated, then upper-cased, then each word quoted, then the
/// words separated by commas, each step only when its flag is given.
pub open spec fn deunicode_answer(rest: Seq<char>) -> Option<Seq<char>> {
    let arg = trim(rest);
    if arg.len() == 0 {
        None
    } else {
        let (u, c, q, t) = deunicode_scan(words(arg));
        let r0 = transliterated(t);
        let r1 = if u { upper(r0) } else { r0 };
        let r2 = if q { join(words(r1).map_values(|w: Seq<char>| quote_word(w)), " "@) } else { r1 };
        let r3 = if c { join(words(r2), ", "@) } else { r2 };
        Some(r3)
    }
}

fn strings_of(ws: &Vec<Vec<char>>, quote: bool) -> (r: Vec<String>)
    ensures
        r@.map_values(|x: String| x@) == (if quote {
            views(ws@).map_values(|w: Seq<char>| quote_word(w))
        } else {
            views(ws@)
        }),
{
    let mut r: Vec<String> = Vec::new();
    let mut i: usize = 0;
    while i < ws.len()
        invariant
            i <= ws.len(),
            r@.map_values(|x: String| x@) == (if quote {
                views(ws@.take(i as int)).map_values(|w: Seq<char>| quote_word(w))
            } else {
                views(ws@.take(i as int))
            }),
        decreases ws.len() - i,
    {
        let mut s = String::new();
        if quote {
            push_str(&mut s, "\"");
            push_chars(&mut s, &ws[i]);
            push_str(&mut s, "\"");
        } else {
            push_chars(&mut s, &ws[i]);
        }
        assert(s@ == (if quote { quote_word(ws@[i as int]@) } else { ws@[i as int]@ }));
        let ghost prev = r@;
        r.push(s);
        assert(r@.map_values(|x: String| x@) =~= prev.map_values(|x: String| x@).push(s@));
        assert(views(ws@.take(i + 1)) =~= views(ws@.take(i as int)).push(ws@[i as int]@));
        assert(r@.map_values(|x: String| x@) =~= (if quote {
            views(ws@.take(i + 1)).map_values(|w: Seq<char>| quote_word(w))
        } else {
            views(ws@.take(i + 1))
        }));
        i = i + 1;
    }
    assert(ws@.take(ws.len() as int) =~= ws@);
    r
}

/// Reads the flags of the deunicode command.
fn deunicode_flags(ws: &Vec<Vec<char>>) -> (r: (bool, bool, bool, Vec<char>))
    ensures
        (r.0, r.1, r.2, r.3@) == deunicode_scan(views(ws@)),
{
    let mut u = false;
    let mut c = false;
    let mut q = false;
    let mut t: Vec<char> = Vec::new();
    let mut i: usize = 0;
    while i < ws.len()
        invariant
            i <= ws.len(),
            (u, c, q, t@) == deunicode_scan(views(ws@.take(i as int))),
        decreases ws.len() - i,
    {
        assert(views(ws@.take(i + 1)).drop_last() =~= views(ws@.take(i as int)));
        assert(views(ws@.take(i + 1)).last() == ws@[i as int]@);
        let w = &ws[i];
        if is_lit(w, "--upcase") || is_lit(w, "-u") {
            u = true;
        } else if is_lit(w, "--comma") || is_lit(w, "-c") {
            c = true;
        } else if is_lit(w, "--quote") || is_lit(w, "-q") {
            q = true;
        } else {
            if t.len() > 0 {
                t.push(' ');
            }
            let ghost t0 = t@;
            let mut k: usize = 0;
            while k < w.len()
                invariant
                    k <= w.len(),
                    t@ == t0 + w@.take(k as int),
                decreases w.len() - k,
            {
                t.push(w[k]);
                assert(t0 + w@.take(k as int).push(w@[k as int]) =~= t0 + w@.take(k + 1));
                k = k + 1;
            }
            assert(w@.take(w.len() as int) =~= w@);
        }
        i = i + 1;
    }
    assert(ws@.take(ws.len() as int) =~= ws@);
    (u, c, q, t)
}

/// The deunicode command, given the text after `deunicode`; `None` asks for the
/// usage line.
pub fn deunicode_command(rest: &str) -> (r: Option<String>)
    ensures
        match r {
            Some(s) => deunicode_answer(rest@) == Some(s@),
            None => deunicode_answer(rest@) is None,
        },
{
    let v = chars_of(rest);
    let arg = trim_chars(&v);
    if arg.len() == 0 {
        return None;
    }
    let ws = split_words(&arg);
    let (u, c, q, t) = deunicode_flags(&ws);
    let ts = string_of(&t);
    let r0 = deunicode_text(ts.as_str());
    let r1 = if u { to_upper(r0.as_str()) } else { r0 };
    let r2 = if q {
        let cs = chars_of(r1.as_str());
        let w = split_words(&cs);
        let list = strings_of(&w, true);
        let mut s = String::new();
        push_joined(&mut s, &list, " ");
        s
    } else {
        r1
    };
    let r3 = if c {
        let cs = chars_of(r2.as_str());
        let w = split_words(&cs);
        let list = strings_of(&w, false);
        let mut s = String::new();
        push_joined(&mut s, &list, ", ");
        s
    } else {
        r2
    };
    Some(r3)
}

} // verus!
