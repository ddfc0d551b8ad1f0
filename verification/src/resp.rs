//! The `<! resp` command, which edits the table of canned answers: its
//! arguments are read into one action on the table, or an error message.
use vstd::prelude::*;
use vstd::utf8::{decode_utf8, encode_utf8, is_char_boundary};
use crate::json::{json_of_strings, json_string_array, parse_json_strings, string_views, strings_json};
use crate::quoted::{strip_leading_quotes, strip_trailing_quotes, strip_quotes};
use crate::text::{byte_len, is_ascii_text, lemma_ascii_byte_len, chars_of, contains_seq, find_chars, push_str, remove_char, remove_char_chars, replace_all, replace_all_chars, split_once, split_once_chars, starts_with, starts_with_chars, string_of, sub_chars, trim, trim_chars, trim_start_matches, trim_start_matches_chars, upper, to_upper, chars_eq};

verus! {

/// What `shell_words::split` reads from a text: its words, or `None` when a quote
/// is left open.
pub uninterp spec fn shell_words_of(s: Seq<char>) -> Option<Seq<Seq<char>>>;

/// Calls `shell_words::split` (POSIX-shell word splitting). Claimed: the words, or
/// the failure, are those named by `shell_words_of`; the quoting rules are not
/// stated.
#[verifier::external_body]
pub(crate) fn shell_split(s: &str) -> (r: Option<Vec<String>>)
    ensures
        match r {
            Some(v) => shell_words_of(s@) == Some(string_views(v@)),
            None => shell_words_of(s@) is None,
        },
{
    shell_words::split(s).ok()
}

/// The words of a text, or none when it cannot be split.
pub open spec fn shell_parts(s: Seq<char>) -> Seq<Seq<char>> {
    match shell_words_of(s) {
        Some(v) => v,
        None => seq![],
    }
}

/// Every key of the list is upper case and holds no space.
pub open spec fn all_keys_ok(ks: Seq<Seq<char>>) -> bool {
    forall|i: int| 0 <= i < ks.len() ==> key_ok(#[trigger] ks[i])
}

/// A key is upper case and holds no space.
pub open spec fn key_ok(k: Seq<char>) -> bool {
    !k.contains(' ') && k == upper(k)
}

/// The `-a` fix of a key: upper case, spaces removed.
pub open spec fn auto_fixed(k: Seq<char>) -> Seq<char> {
    remove_char(upper(k), ' ')
}

/// An action on the answer table, or the reason none is taken.
#[derive(Debug)]
pub enum RespCommand {
    Help,
    Update,
    NewKey(String),
    AddKeyBulk(String, Vec<String>),
    AddKey(String, String),
    AddBulk(String, Vec<String>),
    Add(String, String),
    GetTable(String),
    RemoveTable(String, bool),
    Remove(String, String, bool),
    Invalid(String),
}

pub enum RespPlan {
    Help,
    Update,
    NewKey(Seq<char>),
    AddKeyBulk(Seq<char>, Seq<Seq<char>>),
    AddKey(Seq<char>, Seq<char>),
    AddBulk(Seq<char>, Seq<Seq<char>>),
    Add(Seq<char>, Seq<char>),
    GetTable(Seq<char>),
    RemoveTable(Seq<char>, bool),
    Remove(Seq<char>, Seq<char>, bool),
    Invalid(Seq<char>),
}

pub open spec fn resp_view(c: RespCommand) -> RespPlan {
    match c {
        RespCommand::Help => RespPlan::Help,
        RespCommand::Update => RespPlan::Update,
        RespCommand::NewKey(k) => RespPlan::NewKey(k@),
        RespCommand::AddKeyBulk(k, v) => RespPlan::AddKeyBulk(k@, string_views(v@)),
        RespCommand::AddKey(a, b) => RespPlan::AddKey(a@, b@),
        RespCommand::AddBulk(k, v) => RespPlan::AddBulk(k@, string_views(v@)),
        RespCommand::Add(k, v) => RespPlan::Add(k@, v@),
        RespCommand::GetTable(k) => RespPlan::GetTable(k@),
        RespCommand::RemoveTable(k, f) => RespPlan::RemoveTable(k@, f),
        RespCommand::Remove(k, t, m) => RespPlan::Remove(k@, t@, m),
        RespCommand::Invalid(e) => RespPlan::Invalid(e@),
    }
}

pub open spec fn any_of(parts: Seq<Seq<char>>, a: Seq<char>, b: Seq<char>) -> bool {
    exists|i: int| 0 <= i < parts.len() && (parts[i] == a || parts[i] == b)
}

/// `new_key <key> [-a/--auto]`, given the text after `new_key`.
pub open spec fn new_key_plan(rest: Seq<char>) -> RespPlan {
    let parts = shell_parts(rest);
    if parts.len() == 0 {
        RespPlan::Invalid("[ERR] Missing argument for 'new_key'"@)
    } else {
        let auto = any_of(parts, "-a"@, "--auto"@);
        let key = if auto { auto_fixed(parts[0]) } else { parts[0] };
        if !key_ok(key) {
            RespPlan::Invalid("[ERR] 'new_key' must be uppercase and contain no spaces (use -a to auto-fix)"@)
        } else {
            RespPlan::NewKey(key)
        }
    }
}

/// `add_key <key> <key2>` or `add_key [..] [json array]`, given the text after
/// `add_key`. Any `-a` or `--auto` in it asks for the fix and is removed from it.
pub open spec fn add_key_plan(rest: Seq<char>) -> RespPlan {
    let auto = contains_seq(rest, "-a"@) || contains_seq(rest, "--auto"@);
    let clean = trim(replace_all(replace_all(rest, "-a"@, ""@), "--auto"@, ""@));
    if clean.len() > 0 && clean[0] == '[' {
        match split_once(clean, ']') {
            None => RespPlan::Invalid("[ERR] Invalid arguments for 'add_key'"@),
            Some((a, b)) => {
                let fk0 = strip_trailing_quotes(strip_leading_quotes(trim(a)));
                let fk = if auto { auto_fixed(fk0) } else { fk0 };
                if !key_ok(fk) {
                    RespPlan::Invalid("[ERR] 'add_key' first key must be uppercase and contain no spaces (use -a to auto-fix)"@)
                } else {
                    match json_string_array(trim(b)) {
                        Err(e) => RespPlan::Invalid("[ERR] Invalid JSON format for 'add_key': "@ + e),
                        Ok(ks) => {
                            let ks2 = if auto { ks.map_values(|k: Seq<char>| auto_fixed(k)) } else { ks };
                            if !all_keys_ok(ks2) {
                                RespPlan::Invalid("[ERR] 'add_key' second keys must be uppercase and contain no spaces (use -a to auto-fix)"@)
                            } else {
                                RespPlan::AddKeyBulk(fk, ks2)
                            }
                        },
                    }
                }
            },
        }
    } else {
        match split_once(clean, ' ') {
            None => RespPlan::Invalid("[ERR] Invalid arguments for 'add_key'"@),
            Some((a, b)) => {
                let f = if auto { auto_fixed(a) } else { a };
                let s = if auto { auto_fixed(b) } else { b };
                if !key_ok(f) || !key_ok(s) {
                    RespPlan::Invalid("[ERR] 'add_key' keys must be uppercase and contain no spaces (use -a to auto-fix)"@)
                } else {
                    RespPlan::AddKey(f, s)
                }
            },
        }
    }
}

/// The value text of `add`: what follows, in the text after `add`, as many bytes
/// as the upper-cased key holds, trimmed.
pub open spec fn add_value(rest: Seq<char>, key: Seq<char>) -> Seq<char> {
    trim(decode_utf8(encode_utf8(rest).subrange(byte_len(key) as int, encode_utf8(rest).len() as int)))
}

/// Whether `add` can cut the value out of the text: the key's byte length must
/// fall on a character boundary of the text, and a quoted value must hold more
/// than its opening quote.
pub open spec fn add_cuttable(rest: Seq<char>) -> bool {
    let parts = shell_parts(rest);
    parts.len() >= 2 ==> {
        let key = upper(parts[0]);
        &&& is_char_boundary(encode_utf8(rest), byte_len(key) as int)
        &&& add_value(rest, key) != "\""@
    }
}

/// `add <key> "<answer>"` or `add <key> [json array]`, given the text after `add`.
pub open spec fn add_plan(rest: Seq<char>) -> RespPlan {
    let parts = shell_parts(rest);
    if parts.len() < 2 {
        RespPlan::Invalid("[ERR] Invalid arguments for 'add'"@)
    } else {
        let key = upper(parts[0]);
        let vs = add_value(rest, key);
        if vs.len() > 0 && vs[0] == '[' {
            match json_string_array(vs) {
                Ok(p) => RespPlan::AddBulk(key, p),
                Err(e) => RespPlan::Invalid("[ERR] Invalid JSON array for 'add': "@ + e),
            }
        } else if !(vs.len() > 0 && vs[0] == '"' && vs.last() == '"') {
            RespPlan::Invalid("[ERR] Value must be quoted for single add"@)
        } else {
            RespPlan::Add(key, vs.subrange(1, vs.len() - 1))
        }
    }
}

pub open spec fn get_table_plan(rest: Seq<char>) -> RespPlan {
    let parts = shell_parts(rest);
    if parts.len() == 1 {
        RespPlan::GetTable(upper(parts[0]))
    } else {
        RespPlan::Invalid("[ERR] Invalid arguments for 'get_table'"@)
    }
}

pub open spec fn remove_table_plan(rest: Seq<char>) -> RespPlan {
    let parts = shell_parts(rest);
    if parts.len() == 0 {
        RespPlan::Invalid("[ERR] Invalid arguments for 'remove_all'"@)
    } else if !parts.contains("DOUBLECHECK"@) {
        RespPlan::Invalid("[ERR] remove_all requires DOUBLECHECK confirmation"@)
    } else {
        RespPlan::RemoveTable(parts[0], any_of(parts, "-f"@, "--force"@))
    }
}

/// Law: `remove_table` removes the table named by its first word, and forces
/// the removal exactly when one of its words is `-f` or `--force`.
pub proof fn law_remove_table_force(rest: Seq<char>)
    ensures
        remove_table_plan(rest) matches RespPlan::RemoveTable(k, f) ==> {
            &&& k == shell_parts(rest)[0]
            &&& shell_parts(rest).contains("DOUBLECHECK"@)
            &&& (f <==> (shell_parts(rest).contains("-f"@) || shell_parts(rest).contains("--force"@)))
        },
{
    let parts = shell_parts(rest);
    if any_of(parts, "-f"@, "--force"@) {
        let i = choose|i: int| 0 <= i < parts.len() && (parts[i] == "-f"@ || parts[i] == "--force"@);
        assert(parts[i] == "-f"@ || parts[i] == "--force"@);
    }
    if parts.contains("-f"@) {
        let i = choose|i: int| 0 <= i < parts.len() && parts[i] == "-f"@;
        assert(any_of(parts, "-f"@, "--force"@));
    }
    if parts.contains("--force"@) {
        let i = choose|i: int| 0 <= i < parts.len() && parts[i] == "--force"@;
        assert(any_of(parts, "-f"@, "--force"@));
    }
}

/// Law: a `resp` command line that removes a table forces the removal exactly
/// when a word after `remove_table` is `-f` or `--force`.
pub proof fn law_resp_remove_table_force(c: Seq<char>)
    ensures
        resp_plan(c) matches RespPlan::RemoveTable(_, f) ==> {
            let parts = shell_parts(trim(trim_start_matches(resp_args(c), "remove_table"@)));
            f <==> (parts.contains("-f"@) || parts.contains("--force"@))
        },
{
    law_remove_table_force(trim(trim_start_matches(resp_args(c), "remove_table"@)));
}

/// Key and quoted target of `remove`, after the `-m`/`--multi` flags are removed.
pub open spec fn remove_parts(rest: Seq<char>) -> (Seq<char>, Seq<char>) {
    let clean = trim(replace_all(replace_all(rest, "-m"@, ""@), "--multi"@, ""@));
    match split_once(clean, ' ') {
        Some((a, b)) => (upper(a), trim(b)),
        None => (upper(clean), trim(seq![])),
    }
}

pub open spec fn remove_plan(rest: Seq<char>) -> RespPlan {
    let multi = contains_seq(rest, "-m"@) || contains_seq(rest, "--multi"@);
    let (key, target) = remove_parts(rest);
    if key.len() == 0 || target.len() == 0 {
        RespPlan::Invalid("[ERR] Invalid arguments for 'remove'"@)
    } else if !(target[0] == '"' && target.last() == '"') {
        RespPlan::Invalid("[ERR] Target must be quoted with double quotes (\")"@)
    } else {
        RespPlan::Remove(key, target.subrange(1, target.len() - 1), multi)
    }
}

/// The arguments of `resp`: the command text with its leading `resp` words
/// removed, trimmed.
pub open spec fn resp_args(c: Seq<char>) -> Seq<char> {
    trim(trim_start_matches(c, "resp"@))
}

/// Sub-commands are matched by prefix in this order: `update`, `new_key`,
/// `add_key`, `add`, `get_table`, `remove_table`, `remove`.
pub open spec fn resp_plan(c: Seq<char>) -> RespPlan {
    let arg = resp_args(c);
    if arg.len() == 0 {
        RespPlan::Help
    } else if starts_with(arg, "update"@) {
        if trim(arg) == "update"@ {
            RespPlan::Update
        } else {
            RespPlan::Invalid("[ERR] Invalid arguments for 'update'"@)
        }
    } else if starts_with(arg, "new_key"@) {
        new_key_plan(trim(trim_start_matches(arg, "new_key"@)))
    } else if starts_with(arg, "add_key"@) {
        add_key_plan(trim(trim_start_matches(arg, "add_key"@)))
    } else if starts_with(arg, "add"@) {
        add_plan(trim(trim_start_matches(arg, "add"@)))
    } else if starts_with(arg, "get_table"@) {
        get_table_plan(trim(trim_start_matches(arg, "get_table"@)))
    } else if starts_with(arg, "remove_table"@) {
        remove_table_plan(trim(trim_start_matches(arg, "remove_table"@)))
    } else if starts_with(arg, "remove"@) {
        remove_plan(trim(trim_start_matches(arg, "remove"@)))
    } else {
        RespPlan::Invalid("[ERR] Unknown resp command"@)
    }
}

/// The command texts on which reading the arguments cannot slice the value out
/// (the shell stops on those).
pub open spec fn resp_uncuttable(c: Seq<char>) -> bool {
    let arg = resp_args(c);
    if arg.len() == 0 || starts_with(arg, "update"@) || starts_with(arg, "new_key"@) || starts_with(
        arg,
        "add_key"@,
    ) {
        false
    } else if starts_with(arg, "add"@) {
        !add_cuttable(trim(trim_start_matches(arg, "add"@)))
    } else if starts_with(arg, "get_table"@) || starts_with(arg, "remove_table"@) {
        false
    } else if starts_with(arg, "remove"@) {
        let (key, target) = remove_parts(trim(trim_start_matches(arg, "remove"@)));
        key.len() > 0 && target == "\""@
    } else {
        false
    }
}


fn lit(s: &str) -> (v: Vec<char>)
    ensures
        v@ == s@,
{
    chars_of(s)
}

fn has_prefix(v: &[char], p: &str) -> (b: bool)
    ensures
        b == starts_with(v@, p@),
{
    let pv = lit(p);
    starts_with_chars(v, &pv)
}

fn contains_lit(v: &[char], p: &str) -> (b: bool)
    ensures
        b == contains_seq(v@, p@),
{
    let pv = lit(p);
    find_chars(v, &pv).is_some()
}

fn upper_chars(v: &[char]) -> (r: Vec<char>)
    ensures
        r@ == upper(v@),
{
    let s = string_of(v);
    let u = to_upper(s.as_str());
    chars_of(u.as_str())
}

pub fn key_is_ok(k: &[char]) -> (b: bool)
    ensures
        b == key_ok(k@),
{
    let mut i: usize = 0;
    while i < k.len()
        invariant
            i <= k.len(),
            forall|j: int| 0 <= j < i ==> k@[j] != ' ',
        decreases k.len() - i,
    {
        if k[i] == ' ' {
            assert(k@.contains(' '));
            return false;
        }
        i = i + 1;
    }
    let u = upper_chars(k);
    chars_eq(k, &u)
}

pub fn auto_fix(k: &[char]) -> (r: Vec<char>)
    ensures
        r@ == auto_fixed(k@),
{
    let u = upper_chars(k);
    remove_char_chars(&u, ' ')
}

fn split_parts(v: &[char]) -> (r: Vec<String>)
    ensures
        string_views(r@) == shell_parts(v@),
{
    let s = string_of(v);
    match shell_split(s.as_str()) {
        Some(p) => p,
        None => {
            let e: Vec<String> = Vec::new();
            assert(string_views(e@) =~= seq![]);
            e
        },
    }
}

fn any_of_exec(parts: &Vec<String>, a: &str, b: &str) -> (r: bool)
    ensures
        r == any_of(string_views(parts@), a@, b@),
{
    let mut i: usize = 0;
    while i < parts.len()
        invariant
            i <= parts.len(),
            forall|j: int| 0 <= j < i ==> !(parts@[j]@ == a@ || parts@[j]@ == b@),
        decreases parts.len() - i,
    {
        let w = chars_of(parts[i].as_str());
        let av = lit(a);
        let bv = lit(b);
        if chars_eq(&w, &av) || chars_eq(&w, &bv) {
            assert(string_views(parts@)[i as int] == parts@[i as int]@);
            return true;
        }
        i = i + 1;
    }
    false
}

fn invalid(msg: &str) -> (c: RespCommand)
    ensures
        resp_view(c) == RespPlan::Invalid(msg@),
{
    RespCommand::Invalid(String::from_str(msg))
}

fn new_key_exec(rest: &[char]) -> (c: RespCommand)
    ensures
        resp_view(c) == new_key_plan(rest@),
{
    let parts = split_parts(rest);
    if parts.len() == 0 {
        return invalid("[ERR] Missing argument for 'new_key'");
    }
    assert(string_views(parts@)[0] == parts@[0]@);
    let auto = any_of_exec(&parts, "-a", "--auto");
    let k0 = chars_of(parts[0].as_str());
    let key = if auto { auto_fix(&k0) } else { k0 };
    if !key_is_ok(&key) {
        invalid("[ERR] 'new_key' must be uppercase and contain no spaces (use -a to auto-fix)")
    } else {
        RespCommand::NewKey(string_of(&key))
    }
}

fn fix_all(ks: Vec<String>, auto: bool) -> (r: Vec<String>)
    ensures
        string_views(r@) == (if auto {
            string_views(ks@).map_values(|k: Seq<char>| auto_fixed(k))
        } else {
            string_views(ks@)
        }),
{
    if !auto {
        return ks;
    }
    let mut r: Vec<String> = Vec::new();
    let mut i: usize = 0;
    while i < ks.len()
        invariant
            i <= ks.len(),
            string_views(r@) == string_views(ks@.take(i as int)).map_values(|k: Seq<char>| auto_fixed(k)),
        decreases ks.len() - i,
    {
        let v = chars_of(ks[i].as_str());
        let f = auto_fix(&v);
        let ghost prev = r@;
        r.push(string_of(&f));
        assert(string_views(r@) =~= string_views(prev).push(f@));
        assert(string_views(ks@.take(i + 1)) =~= string_views(ks@.take(i as int)).push(ks@[i as int]@));
        assert(string_views(r@) =~= string_views(ks@.take(i + 1)).map_values(|k: Seq<char>| auto_fixed(k)));
        i = i + 1;
    }
    assert(ks@.take(ks.len() as int) =~= ks@);
    r
}

fn all_keys_ok_exec(ks: &Vec<String>) -> (b: bool)
    ensures
        b == all_keys_ok(string_views(ks@)),
{
    let mut i: usize = 0;
    while i < ks.len()
        invariant
            i <= ks.len(),
            forall|j: int| 0 <= j < i ==> key_ok(#[trigger] string_views(ks@)[j]),
        decreases ks.len() - i,
    {
        let v = chars_of(ks[i].as_str());
        assert(string_views(ks@)[i as int] == ks@[i as int]@);
        if !key_is_ok(&v) {
            return false;
        }
        i = i + 1;
    }
    true
}

fn add_key_exec(rest: &[char]) -> (c: RespCommand)
    ensures
        resp_view(c) == add_key_plan(rest@),
{
    let auto = contains_lit(rest, "-a") || contains_lit(rest, "--auto");
    proof {
        reveal_strlit("-a");
        reveal_strlit("--auto");
    }
    let a_flag = lit("-a");
    let auto_flag = lit("--auto");
    let empty = lit("");
    let r1 = replace_all_chars(rest, &a_flag, &empty);
    let r2 = replace_all_chars(&r1, &auto_flag, &empty);
    let clean = trim_chars(&r2);
    if clean.len() > 0 && clean[0] == '[' {
        match split_once_chars(&clean, ']') {
            None => invalid("[ERR] Invalid arguments for 'add_key'"),
            Some((a, b)) => {
                let ta = trim_chars(&a);
                let fk0 = strip_quotes(&ta);
                let fk = if auto { auto_fix(&fk0) } else { fk0 };
                if !key_is_ok(&fk) {
                    return invalid("[ERR] 'add_key' first key must be uppercase and contain no spaces (use -a to auto-fix)");
                }
                let tb = trim_chars(&b);
                let js = string_of(&tb);
                match parse_json_strings(js.as_str()) {
                    Err(e) => {
                        let mut m = String::from_str("[ERR] Invalid JSON format for 'add_key': ");
                        push_str(&mut m, e.as_str());
                        RespCommand::Invalid(m)
                    },
                    Ok(ks) => {
                        let ks2 = fix_all(ks, auto);
                        if !all_keys_ok_exec(&ks2) {
                            invalid("[ERR] 'add_key' second keys must be uppercase and contain no spaces (use -a to auto-fix)")
                        } else {
                            RespCommand::AddKeyBulk(string_of(&fk), ks2)
                        }
                    },
                }
            },
        }
    } else {
        match split_once_chars(&clean, ' ') {
            None => invalid("[ERR] Invalid arguments for 'add_key'"),
            Some((a, b)) => {
                let f = if auto { auto_fix(&a) } else { a };
                let s = if auto { auto_fix(&b) } else { b };
                if !key_is_ok(&f) || !key_is_ok(&s) {
                    invalid("[ERR] 'add_key' keys must be uppercase and contain no spaces (use -a to auto-fix)")
                } else {
                    RespCommand::AddKey(string_of(&f), string_of(&s))
                }
            },
        }
    }
}

/// The value text of `add`, when it can be cut out.
fn add_value_exec(rest: &[char], key: &[char]) -> (r: Option<Vec<char>>)
    ensures
        match r {
            Some(v) => is_char_boundary(encode_utf8(rest@), byte_len(key@) as int) && v@ == add_value(rest@, key@),
            None => !is_char_boundary(encode_utf8(rest@), byte_len(key@) as int),
        },
{
    let rs = string_of(rest);
    let ks = string_of(key);
    let kb = ks.as_str().len();
    let r = rs.as_str();
    proof {
        vstd::utf8::encode_utf8_valid_utf8(rest@);
    }
    if !r.is_char_boundary(kb) {
        return None;
    }
    let (_, tail) = r.split_at(kb);
    proof {
        vstd::utf8::encode_utf8_decode_utf8(tail@);
    }
    let tv = chars_of(tail);
    Some(trim_chars(&tv))
}

fn add_exec(rest: &[char]) -> (c: Option<RespCommand>)
    ensures
        match c {
            Some(c) => add_cuttable(rest@) && resp_view(c) == add_plan(rest@),
            None => !add_cuttable(rest@),
        },
{
    proof {
        reveal_strlit("\"");
    }
    let parts = split_parts(rest);
    if parts.len() < 2 {
        return Some(invalid("[ERR] Invalid arguments for 'add'"));
    }
    assert(string_views(parts@)[0] == parts@[0]@);
    let p0 = chars_of(parts[0].as_str());
    let key = upper_chars(&p0);
    let vs = match add_value_exec(rest, &key) {
        Some(v) => v,
        None => return None,
    };
    if vs.len() > 0 && vs[0] == '[' {
        let js = string_of(&vs);
        match parse_json_strings(js.as_str()) {
            Ok(p) => Some(RespCommand::AddBulk(string_of(&key), p)),
            Err(e) => {
                let mut m = String::from_str("[ERR] Invalid JSON array for 'add': ");
                push_str(&mut m, e.as_str());
                Some(RespCommand::Invalid(m))
            },
        }
    } else if !(vs.len() > 0 && vs[0] == '"' && vs[vs.len() - 1] == '"') {
        Some(invalid("[ERR] Value must be quoted for single add"))
    } else if vs.len() == 1 {
        proof {
            reveal_strlit("\"");
            assert(vs@ =~= "\""@);
        }
        None
    } else {
        Some(RespCommand::Add(string_of(&key), string_of(&sub_chars(&vs, 1, vs.len() - 1))))
    }
}

fn get_table_exec(rest: &[char]) -> (c: RespCommand)
    ensures
        resp_view(c) == get_table_plan(rest@),
{
    let parts = split_parts(rest);
    if parts.len() == 1 {
        assert(string_views(parts@)[0] == parts@[0]@);
        let p0 = chars_of(parts[0].as_str());
        RespCommand::GetTable(string_of(&upper_chars(&p0)))
    } else {
        invalid("[ERR] Invalid arguments for 'get_table'")
    }
}

fn remove_table_exec(rest: &[char]) -> (c: RespCommand)
    ensures
        resp_view(c) == remove_table_plan(rest@),
{
    let parts = split_parts(rest);
    if parts.len() == 0 {
        return invalid("[ERR] Invalid arguments for 'remove_all'");
    }
    let ghost pv = string_views(parts@);
    assert(pv[0] == parts@[0]@);
    let mut found = false;
    let mut i: usize = 0;
    let dc = lit("DOUBLECHECK");
    while i < parts.len()
        invariant
            i <= parts.len(),
            pv == string_views(parts@),
            dc@ == "DOUBLECHECK"@,
            found == (exists|j: int| 0 <= j < i && pv[j] == "DOUBLECHECK"@),
        decreases parts.len() - i,
    {
        let w = chars_of(parts[i].as_str());
        assert(pv[i as int] == parts@[i as int]@);
        if chars_eq(&w, &dc) {
            found = true;
        }
        i = i + 1;
    }
    if !found {
        assert(!pv.contains("DOUBLECHECK"@));
        return invalid("[ERR] remove_all requires DOUBLECHECK confirmation");
    }
    let force = any_of_exec(&parts, "-f", "--force");
    RespCommand::RemoveTable(parts[0].clone(), force)
}

fn remove_parts_exec(rest: &[char]) -> (r: (Vec<char>, Vec<char>))
    ensures
        (r.0@, r.1@) == remove_parts(rest@),
{
    proof {
        reveal_strlit("-m");
        reveal_strlit("--multi");
    }
    let m_flag = lit("-m");
    let multi_flag = lit("--multi");
    let empty = lit("");
    let r1 = replace_all_chars(rest, &m_flag, &empty);
    let r2 = replace_all_chars(&r1, &multi_flag, &empty);
    let clean = trim_chars(&r2);
    match split_once_chars(&clean, ' ') {
        Some((a, b)) => (upper_chars(&a), trim_chars(&b)),
        None => {
            let e: Vec<char> = Vec::new();
            (upper_chars(&clean), trim_chars(&e))
        },
    }
}

fn remove_exec(rest: &[char]) -> (c: Option<RespCommand>)
    ensures
        match c {
            Some(c) => !(remove_parts(rest@).0.len() > 0 && remove_parts(rest@).1 == "\""@) && resp_view(c)
                == remove_plan(rest@),
            None => remove_parts(rest@).0.len() > 0 && remove_parts(rest@).1 == "\""@,
        },
{
    let multi = contains_lit(rest, "-m") || contains_lit(rest, "--multi");
    let (key, target) = remove_parts_exec(rest);
    proof {
        reveal_strlit("\"");
    }
    if key.len() == 0 || target.len() == 0 {
        Some(invalid("[ERR] Invalid arguments for 'remove'"))
    } else if !(target[0] == '"' && target[target.len() - 1] == '"') {
        Some(invalid("[ERR] Target must be quoted with double quotes (\")"))
    } else if target.len() == 1 {
        assert(target@ =~= "\""@);
        None
    } else {
        assert(target@ != "\""@);
        Some(RespCommand::Remove(string_of(&key), string_of(&sub_chars(&target, 1, target.len() - 1)), multi))
    }
}

/// The `resp` command, given the whole command text; `None` on the texts whose
/// value cannot be cut out of them.
pub fn resp_command_checked(c: &str) -> (r: Option<RespCommand>)
    ensures
        match r {
            Some(cmd) => !resp_uncuttable(c@) && resp_view(cmd) == resp_plan(c@),
            None => resp_uncuttable(c@),
        },
{
    let v = chars_of(c);
    let resp_lit = lit("resp");
    let m = trim_start_matches_chars(&v, &resp_lit);
    let arg = trim_chars(&m);
    if arg.len() == 0 {
        return Some(RespCommand::Help);
    }
    if has_prefix(&arg, "update") {
        let t = trim_chars(&arg);
        let u = lit("update");
        if chars_eq(&t, &u) {
            return Some(RespCommand::Update);
        } else {
            return Some(invalid("[ERR] Invalid arguments for 'update'"));
        }
    }
    if has_prefix(&arg, "new_key") {
        let p = lit("new_key");
        let rest = trim_chars(&trim_start_matches_chars(&arg, &p));
        return Some(new_key_exec(&rest));
    }
    if has_prefix(&arg, "add_key") {
        let p = lit("add_key");
        let rest = trim_chars(&trim_start_matches_chars(&arg, &p));
        return Some(add_key_exec(&rest));
    }
    if has_prefix(&arg, "add") {
        let p = lit("add");
        let rest = trim_chars(&trim_start_matches_chars(&arg, &p));
        return add_exec(&rest);
    }
    if has_prefix(&arg, "get_table") {
        let p = lit("get_table");
        let rest = trim_chars(&trim_start_matches_chars(&arg, &p));
        return Some(get_table_exec(&rest));
    }
    if has_prefix(&arg, "remove_table") {
        let p = lit("remove_table");
        let rest = trim_chars(&trim_start_matches_chars(&arg, &p));
        return Some(remove_table_exec(&rest));
    }
    if has_prefix(&arg, "remove") {
        let p = lit("remove");
        let rest = trim_chars(&trim_start_matches_chars(&arg, &p));
        return remove_exec(&rest);
    }
    Some(invalid("[ERR] Unknown resp command"))
}

/// The reply of the shell to a `resp` command: the text in a code block, or a
/// short error when that would not fit a Discord message (2000 bytes).
pub open spec fn framed_reply(text: Seq<char>) -> Seq<char> {
    let framed = "```\n"@ + text + "\n```"@;
    if byte_len(framed) > 2000 {
        "[ERR] Response too long to send"@
    } else {
        framed
    }
}

/// A shell reply always fits in one Discord message: at most 2000 bytes.
pub proof fn law_framed_reply_fits(text: Seq<char>)
    ensures
        byte_len(framed_reply(text)) <= 2000,
{
    let framed = "```\n"@ + text + "\n```"@;
    if byte_len(framed) > 2000 {
        reveal_strlit("[ERR] Response too long to send");
        let e = "[ERR] Response too long to send"@;
        assert(is_ascii_text(e));
        lemma_ascii_byte_len(e);
    }
}

pub fn frame_reply(text: &str) -> (r: String)
    ensures
        r@ == framed_reply(text@),
{
    let mut f = String::from_str("```\n");
    push_str(&mut f, text);
    push_str(&mut f, "\n```");
    if f.as_str().len() > 2000 {
        String::from_str("[ERR] Response too long to send")
    } else {
        f
    }
}


/// The name under which the shell reports an action.
pub open spec fn action_name(c: RespPlan) -> Seq<char> {
    match c {
        RespPlan::Update => "update"@,
        RespPlan::NewKey(_) => "new_key"@,
        RespPlan::AddKeyBulk(_, _) => "add_key (bulk)"@,
        RespPlan::AddKey(_, _) => "add_key"@,
        RespPlan::AddBulk(_, _) => "add (bulk)"@,
        RespPlan::Add(_, _) => "add"@,
        RespPlan::GetTable(_) => "get_table"@,
        RespPlan::RemoveTable(_, _) => "remove_table"@,
        RespPlan::Remove(_, _, _) => "remove"@,
        _ => ""@,
    }
}

pub fn action_name_text(c: &RespCommand) -> (s: String)
    ensures
        s@ == action_name(resp_view(*c)),
{
    match c {
        RespCommand::Update => String::from_str("update"),
        RespCommand::NewKey(_) => String::from_str("new_key"),
        RespCommand::AddKeyBulk(_, _) => String::from_str("add_key (bulk)"),
        RespCommand::AddKey(_, _) => String::from_str("add_key"),
        RespCommand::AddBulk(_, _) => String::from_str("add (bulk)"),
        RespCommand::Add(_, _) => String::from_str("add"),
        RespCommand::GetTable(_) => String::from_str("get_table"),
        RespCommand::RemoveTable(_, _) => String::from_str("remove_table"),
        RespCommand::Remove(_, _, _) => String::from_str("remove"),
        _ => String::from_str(""),
    }
}

/// The report of an action that the table carried out: `update` reports
/// `resp updated`, the others `<name> completed`.
pub open spec fn done_text(c: RespPlan) -> Seq<char> {
    match c {
        RespPlan::Update => "resp updated"@,
        _ => action_name(c) + " completed"@,
    }
}

/// The report of an action that failed with the error whose `Debug` text is `e`.
pub open spec fn failed_text(c: RespPlan, e: Seq<char>) -> Seq<char> {
    "[ERR] "@ + action_name(c) + " failed: "@ + e
}

pub fn resp_done_text(c: &RespCommand) -> (s: String)
    ensures
        s@ == done_text(resp_view(*c)),
{
    match c {
        RespCommand::Update => String::from_str("resp updated"),
        _ => {
            let mut s = action_name_text(c);
            push_str(&mut s, " completed");
            s
        },
    }
}

pub fn resp_failed_text(c: &RespCommand, error_debug: &str) -> (s: String)
    ensures
        s@ == failed_text(resp_view(*c), error_debug@),
{
    let mut s = String::from_str("[ERR] ");
    let n = action_name_text(c);
    push_str(&mut s, n.as_str());
    push_str(&mut s, " failed: ");
    push_str(&mut s, error_debug);
    s
}

/// The report of `get_table`: the key and the table's answers as JSON.
pub open spec fn table_text(key: Seq<char>, json: Seq<char>) -> Seq<char> {
    "Responses for key '"@ + key + "':\n"@ + json
}

pub fn resp_table_text(key: &str, json: &str) -> (s: String)
    ensures
        s@ == table_text(key@, json@),
{
    let mut s = String::from_str("Responses for key '");
    push_str(&mut s, key);
    push_str(&mut s, "':\n");
    push_str(&mut s, json);
    s
}

/// The report of `get_table` for the answers of `key`, written as JSON.
pub fn resp_table_reply(key: &str, answers: &Vec<String>) -> (s: String)
    ensures
        s@ == table_text(key@, json_of_strings(string_views(answers@))),
{
    let json = strings_json(answers);
    resp_table_text(key, json.as_str())
}

} // verus!
