//! The `<! embed` shell command: builds an embed from flags such as
//! `--title "Hello there" --color FFAA00` and names its target channel.
use vstd::prelude::*;
use crate::num::{IntErrorKind, parse_hex_u32, parse_hex_u32_chars, parse_i64, parse_i64_chars, parse_u64, parse_u64_chars};
use crate::quoted::{quoted, parse_quoted, result_view, lemma_quoted_advances};
use crate::text::{join, push_joined, byte_len, chars_of, chars_eq, decimal, eq_ignore_ascii_case, eq_ignore_ascii_case_chars, push_decimal, push_str, push_chars, split_words, string_of, trim, trim_chars, views, words};
use crate::timestamps::{EmbedTime, parse_utc_datetime, rfc3339_utc, timestamp_in_range, utc_from_timestamp};

verus! {

/// One field of an embed.
pub struct EmbedField {
    pub name: String,
    pub value: String,
    pub inline: bool,
}

/// The flags read so far, and the error messages collected on the way.
pub struct EmbedArgs {
    pub author_text: Option<String>,
    pub author_url: Option<String>,
    pub author_avatar: Option<String>,
    pub color: Option<u32>,
    pub description: Option<String>,
    pub fields: Vec<EmbedField>,
    pub footer_text: Option<String>,
    pub footer_icon: Option<String>,
    pub image: Option<String>,
    pub thumbnail: Option<String>,
    pub timestamp: Option<EmbedTime>,
    pub title: Option<String>,
    pub url: Option<String>,
    pub errors: Vec<String>,
}

pub struct ArgsModel {
    pub author_text: Option<Seq<char>>,
    pub author_url: Option<Seq<char>>,
    pub author_avatar: Option<Seq<char>>,
    pub color: Option<u32>,
    pub description: Option<Seq<char>>,
    pub fields: Seq<(Seq<char>, Seq<char>, bool)>,
    pub footer_text: Option<Seq<char>>,
    pub footer_icon: Option<Seq<char>>,
    pub image: Option<Seq<char>>,
    pub thumbnail: Option<Seq<char>>,
    pub timestamp: Option<EmbedTime>,
    pub title: Option<Seq<char>>,
    pub url: Option<Seq<char>>,
    pub errors: Seq<Seq<char>>,
}

pub open spec fn ov(o: Option<String>) -> Option<Seq<char>> {
    match o {
        Some(s) => Some(s@),
        None => None,
    }
}

pub open spec fn field_view(f: EmbedField) -> (Seq<char>, Seq<char>, bool) {
    (f.name@, f.value@, f.inline)
}

pub open spec fn string_views(v: Seq<String>) -> Seq<Seq<char>> {
    v.map_values(|s: String| s@)
}

impl View for EmbedArgs {
    type V = ArgsModel;

    open spec fn view(&self) -> ArgsModel {
        ArgsModel {
            author_text: ov(self.author_text),
            author_url: ov(self.author_url),
            author_avatar: ov(self.author_avatar),
            color: self.color,
            description: ov(self.description),
            fields: self.fields@.map_values(|f: EmbedField| field_view(f)),
            footer_text: ov(self.footer_text),
            footer_icon: ov(self.footer_icon),
            image: ov(self.image),
            thumbnail: ov(self.thumbnail),
            timestamp: self.timestamp,
            title: ov(self.title),
            url: ov(self.url),
            errors: string_views(self.errors@),
        }
    }
}

pub open spec fn no_args() -> ArgsModel {
    ArgsModel {
        author_text: None,
        author_url: None,
        author_avatar: None,
        color: None,
        description: None,
        fields: seq![],
        footer_text: None,
        footer_icon: None,
        image: None,
        thumbnail: None,
        timestamp: None,
        title: None,
        url: None,
        errors: seq![],
    }
}

pub open spec fn with_error(a: ArgsModel, e: Seq<char>) -> ArgsModel {
    ArgsModel { errors: a.errors.push(e), ..a }
}

/// The `Debug` text of a `ParseIntError` of this kind.
pub open spec fn int_error_debug(k: IntErrorKind) -> Seq<char> {
    match k {
        IntErrorKind::Empty => "ParseIntError { kind: Empty }"@,
        IntErrorKind::InvalidDigit => "ParseIntError { kind: InvalidDigit }"@,
        IntErrorKind::PosOverflow => "ParseIntError { kind: PosOverflow }"@,
    }
}

/// A field is kept even past the limit of 25; the excess is reported as an error.
pub open spec fn add_field(a: ArgsModel, n: Seq<char>, v: Seq<char>, inline: bool) -> ArgsModel {
    let b = if a.fields.len() >= 25 { with_error(a, "field count must be less than 25"@) } else { a };
    ArgsModel { fields: b.fields.push((n, v, inline)), ..b }
}

/// `--field "<name>" "<value>" <true|false>` from token `p` on.
pub open spec fn field_step(t: Seq<Seq<char>>, p: int, a: ArgsModel) -> (int, ArgsModel) {
    let (r1, q1) = quoted(t, p, "--field name"@, 256);
    match r1 {
        Err(e) => (q1, with_error(a, e)),
        Ok(n) => {
            let (r2, q2) = quoted(t, q1, "--field value"@, 1024);
            match r2 {
                Err(e) => (q2, with_error(a, e)),
                Ok(v) => if q2 >= t.len() {
                    (q2, with_error(a, "--field inline null"@))
                } else if eq_ignore_ascii_case(t[q2], "true"@) {
                    (q2 + 1, add_field(a, n, v, true))
                } else if eq_ignore_ascii_case(t[q2], "false"@) {
                    (q2 + 1, add_field(a, n, v, false))
                } else {
                    (q2 + 1, with_error(a, "--field inline value must be true/false"@))
                },
            }
        },
    }
}

/// The value of `--timestamp`: `now`/`utc`, an RFC 3339 time, or Unix seconds.
pub open spec fn timestamp_value(a: ArgsModel, ts: Seq<char>) -> ArgsModel {
    if ts == "now"@ || ts == "utc"@ {
        ArgsModel { timestamp: Some(EmbedTime::Now), ..a }
    } else {
        match rfc3339_utc(ts) {
            Some(d) => ArgsModel { timestamp: Some(EmbedTime::At(d.0, d.1)), ..a },
            None => match parse_i64(ts) {
                Some(u) => if timestamp_in_range(u) {
                    ArgsModel { timestamp: Some(EmbedTime::At(u, 0)), ..a }
                } else {
                    with_error(a, "Invalid timestamp value"@)
                },
                None => with_error(a, "Invalid timestamp value"@),
            },
        }
    }
}

pub open spec fn color_value(a: ArgsModel, hex: Seq<char>) -> ArgsModel {
    match parse_hex_u32(hex) {
        Ok(v) => if byte_len(hex) == 6 {
            ArgsModel { color: Some(v), ..a }
        } else {
            with_error(a, "color value must be 6 digit RRGGBB Hex"@)
        },
        Err(k) => with_error(a, "Invalid color value: "@ + int_error_debug(k)),
    }
}

/// A quoted flag value stored by `set`, or its error.
pub open spec fn quoted_into(
    t: Seq<Seq<char>>,
    p: int,
    name: Seq<char>,
    max: nat,
    a: ArgsModel,
    which: int,
) -> (int, ArgsModel) {
    let (r, q) = quoted(t, p, name, max);
    (q, match r {
        Ok(x) => if which == 0 {
            ArgsModel { author_text: Some(x), ..a }
        } else if which == 1 {
            ArgsModel { description: Some(x), ..a }
        } else if which == 2 {
            ArgsModel { footer_text: Some(x), ..a }
        } else {
            ArgsModel { title: Some(x), ..a }
        },
        Err(e) => with_error(a, e),
    })
}

/// One flag of the embed command, at token `pos`: the index of the next flag and
/// the updated arguments. `me_name` and `me_avatar` stand for the caller's
/// name and avatar URL (the value `me`).
pub open spec fn embed_step(
    t: Seq<Seq<char>>,
    pos: int,
    a: ArgsModel,
    me_name: Seq<char>,
    me_avatar: Seq<char>,
) -> (int, ArgsModel) {
    let flag = t[pos];
    let p = pos + 1;
    let more = p < t.len();
    if flag == "--authortext"@ || flag == "-at"@ {
        if !more {
            (p, with_error(a, "--authortext null"@))
        } else if eq_ignore_ascii_case(t[p], "me"@) {
            (p + 1, ArgsModel { author_text: Some(me_name), ..a })
        } else {
            quoted_into(t, p, "--authortext"@, 256, a, 0)
        }
    } else if flag == "--authorurl"@ || flag == "-au"@ {
        if !more {
            (p, with_error(a, "--authorurl null"@))
        } else {
            (p + 1, ArgsModel { author_url: Some(t[p]), ..a })
        }
    } else if flag == "--authoravatar"@ || flag == "-aa"@ {
        if !more {
            (p, with_error(a, "--authoravatar null"@))
        } else if t[p] == "me"@ {
            (p + 1, ArgsModel { author_avatar: Some(me_avatar), ..a })
        } else {
            (p + 1, ArgsModel { author_avatar: Some(t[p]), ..a })
        }
    } else if flag == "--color"@ || flag == "-c"@ {
        if !more {
            (p, with_error(a, "--color null"@))
        } else {
            (p + 1, color_value(a, t[p]))
        }
    } else if flag == "--description"@ || flag == "-d"@ {
        quoted_into(t, p, "--description"@, 4096, a, 1)
    } else if flag == "--field"@ || flag == "-f"@ {
        field_step(t, p, a)
    } else if flag == "--footertext"@ || flag == "-ft"@ {
        if !more {
            (p, with_error(a, "--footertext null"@))
        } else if eq_ignore_ascii_case(t[p], "me"@) {
            (p + 1, ArgsModel { footer_text: Some(me_name), ..a })
        } else {
            quoted_into(t, p, "--footertext"@, 2048, a, 2)
        }
    } else if flag == "--footericon"@ || flag == "-fi"@ {
        if !more {
            (p, with_error(a, "--footericon null"@))
        } else if eq_ignore_ascii_case(t[p], "me"@) {
            (p + 1, ArgsModel { footer_icon: Some(me_avatar), ..a })
        } else {
            (p + 1, ArgsModel { footer_icon: Some(t[p]), ..a })
        }
    } else if flag == "--image"@ || flag == "-i"@ {
        if !more {
            (p, with_error(a, "--image null"@))
        } else {
            (p + 1, ArgsModel { image: Some(t[p]), ..a })
        }
    } else if flag == "--thumbnail"@ || flag == "-tn"@ {
        if !more {
            (p, with_error(a, "--thumbnail null"@))
        } else {
            (p + 1, ArgsModel { thumbnail: Some(t[p]), ..a })
        }
    } else if flag == "--timestamp"@ || flag == "-ts"@ {
        if !more {
            (p, with_error(a, "--timestamp null"@))
        } else {
            (p + 1, timestamp_value(a, t[p]))
        }
    } else if flag == "--title"@ || flag == "-t"@ {
        quoted_into(t, p, "--title"@, 256, a, 3)
    } else if flag == "--url"@ || flag == "-u"@ {
        if !more {
            (p, with_error(a, "--url null"@))
        } else {
            (p + 1, ArgsModel { url: Some(t[p]), ..a })
        }
    } else {
        (p, with_error(a, "Unknown args: "@ + flag))
    }
}

/// Every flag moves the reading forward and never past the last token.
pub proof fn lemma_step_advances(t: Seq<Seq<char>>, pos: int, a: ArgsModel, mn: Seq<char>, ma: Seq<char>)
    requires
        0 <= pos < t.len(),
    ensures
        pos < embed_step(t, pos, a, mn, ma).0 <= t.len(),
{
    lemma_quoted_advances(t, pos + 1, "--authortext"@, 256);
    lemma_quoted_advances(t, pos + 1, "--description"@, 4096);
    lemma_quoted_advances(t, pos + 1, "--footertext"@, 2048);
    lemma_quoted_advances(t, pos + 1, "--title"@, 256);
    lemma_quoted_advances(t, pos + 1, "--field name"@, 256);
    let q1 = quoted(t, pos + 1, "--field name"@, 256).1;
    lemma_quoted_advances(t, q1, "--field value"@, 1024);
}

/// All flags from token `pos` on.
pub open spec fn embed_run(t: Seq<Seq<char>>, pos: int, a: ArgsModel, mn: Seq<char>, ma: Seq<char>) -> ArgsModel
    decreases t.len() - pos,
{
    if pos < 0 || pos >= t.len() {
        a
    } else {
        let (q, b) = embed_step(t, pos, a, mn, ma);
        if q <= pos || q > t.len() {
            b
        } else {
            embed_run(t, q, b, mn, ma)
        }
    }
}

/// The caller of the command, for the value `me`: name, avatar URL as the shell
/// writes it, and the face URL used for a thumbnail.
pub struct Caller {
    pub name: String,
    pub avatar: String,
    pub face: String,
}

pub fn is_lit(tok: &[char], lit: &str) -> (b: bool)
    ensures
        b == (tok@ == lit@),
{
    let l = chars_of(lit);
    chars_eq(tok, &l)
}

pub fn flag_is(tok: &[char], long: &str, short: &str) -> (b: bool)
    ensures
        b == (tok@ == long@ || tok@ == short@),
{
    is_lit(tok, long) || is_lit(tok, short)
}

pub fn eq_ci(tok: &[char], lit: &str) -> (b: bool)
    ensures
        b == eq_ignore_ascii_case(tok@, lit@),
{
    let l = chars_of(lit);
    eq_ignore_ascii_case_chars(tok, &l)
}

pub fn push_error(a: &mut EmbedArgs, e: String)
    ensures
        final(a)@ == with_error(old(a)@, e@),
{
    a.errors.push(e);
    assert(final(a)@.errors =~= old(a)@.errors.push(e@));
    assert(final(a)@.fields =~= old(a)@.fields);
}

pub fn push_error_str(a: &mut EmbedArgs, e: &str)
    ensures
        final(a)@ == with_error(old(a)@, e@),
{
    push_error(a, String::from_str(e));
}

pub fn int_error_text(k: IntErrorKind) -> (s: String)
    ensures
        s@ == int_error_debug(k),
{
    match k {
        IntErrorKind::Empty => String::from_str("ParseIntError { kind: Empty }"),
        IntErrorKind::InvalidDigit => String::from_str("ParseIntError { kind: InvalidDigit }"),
        IntErrorKind::PosOverflow => String::from_str("ParseIntError { kind: PosOverflow }"),
    }
}

fn set_quoted(t: &Vec<Vec<char>>, p: usize, name: &str, max_len: usize, a: &mut EmbedArgs, which: u8) -> (q: usize)
    ensures
        (q as int, final(a)@) == quoted_into(views(t@), p as int, name@, max_len as nat, old(a)@, which as int),
{
    let (r, q) = parse_quoted(t, p, name, max_len);
    match r {
        Ok(x) => {
            if which == 0 {
                a.author_text = Some(x);
            } else if which == 1 {
                a.description = Some(x);
            } else if which == 2 {
                a.footer_text = Some(x);
            } else {
                a.title = Some(x);
            }
            assert(final(a)@.fields =~= old(a)@.fields);
            assert(final(a)@.errors =~= old(a)@.errors);
        },
        Err(e) => push_error(a, e),
    }
    q
}

fn set_color(a: &mut EmbedArgs, hex: &[char])
    ensures
        final(a)@ == color_value(old(a)@, hex@),
{
    match parse_hex_u32_chars(hex) {
        Ok(v) => {
            let s = string_of(hex);
            if s.as_str().len() == 6 {
                a.color = Some(v);
                assert(final(a)@.fields =~= old(a)@.fields);
                assert(final(a)@.errors =~= old(a)@.errors);
            } else {
                push_error_str(a, "color value must be 6 digit RRGGBB Hex");
            }
        },
        Err(k) => {
            let mut e = String::from_str("Invalid color value: ");
            let d = int_error_text(k);
            push_str(&mut e, d.as_str());
            push_error(a, e);
        },
    }
}

fn set_timestamp(a: &mut EmbedArgs, ts: &[char])
    ensures
        final(a)@ == timestamp_value(old(a)@, ts@),
{
    if is_lit(ts, "now") || is_lit(ts, "utc") {
        a.timestamp = Some(EmbedTime::Now);
    } else {
        let s = string_of(ts);
        match parse_utc_datetime(s.as_str()) {
            Some(d) => {
                a.timestamp = Some(EmbedTime::At(d.0, d.1));
            },
            None => match parse_i64_chars(ts) {
                Some(u) => match utc_from_timestamp(u) {
                    Some(d) => {
                        a.timestamp = Some(EmbedTime::At(d.0, d.1));
                    },
                    None => {
                        push_error_str(a, "Invalid timestamp value");
                        return;
                    },
                },
                None => {
                    push_error_str(a, "Invalid timestamp value");
                    return;
                },
            },
        }
    }
    assert(final(a)@.fields =~= old(a)@.fields);
    assert(final(a)@.errors =~= old(a)@.errors);
}

fn add_field_exec(a: &mut EmbedArgs, name: String, value: String, inline: bool)
    ensures
        final(a)@ == add_field(old(a)@, name@, value@, inline),
{
    if a.fields.len() >= 25 {
        push_error_str(a, "field count must be less than 25");
    }
    let ghost mid = a@;
    a.fields.push(EmbedField { name, value, inline });
    assert(final(a)@.fields =~= mid.fields.push((name@, value@, inline)));
}

fn field_step_exec(t: &Vec<Vec<char>>, p: usize, a: &mut EmbedArgs) -> (q: usize)
    ensures
        (q as int, final(a)@) == field_step(views(t@), p as int, old(a)@),
{
    let ghost tv = views(t@);
    let (r1, q1) = parse_quoted(t, p, "--field name", 256);
    match r1 {
        Err(e) => {
            push_error(a, e);
            q1
        },
        Ok(n) => {
            let (r2, q2) = parse_quoted(t, q1, "--field value", 1024);
            match r2 {
                Err(e) => {
                    push_error(a, e);
                    q2
                },
                Ok(v) => {
                    if q2 >= t.len() {
                        push_error_str(a, "--field inline null");
                        q2
                    } else {
                        assert(tv[q2 as int] == t@[q2 as int]@);
                        if eq_ci(&t[q2], "true") {
                            add_field_exec(a, n, v, true);
                        } else if eq_ci(&t[q2], "false") {
                            add_field_exec(a, n, v, false);
                        } else {
                            push_error_str(a, "--field inline value must be true/false");
                        }
                        q2 + 1
                    }
                },
            }
        },
    }
}

/// Reads the flag at token `pos`; returns the index of the next flag.
pub fn embed_step_exec(t: &Vec<Vec<char>>, pos: usize, a: &mut EmbedArgs, me: &Caller) -> (q: usize)
    requires
        pos < t.len(),
    ensures
        (q as int, final(a)@) == embed_step(views(t@), pos as int, old(a)@, me.name@, me.avatar@),
{
    let ghost tv = views(t@);
    let flag = &t[pos];
    assert(tv[pos as int] == flag@);
    let p = pos + 1;
    let more = p < t.len();
    if more {
        assert(tv[p as int] == t@[p as int]@);
    }
    if flag_is(flag, "--authortext", "-at") {
        if !more {
            push_error_str(a, "--authortext null");
            p
        } else if eq_ci(&t[p], "me") {
            a.author_text = Some(me.name.clone());
            assert(final(a)@.fields =~= old(a)@.fields);
            assert(final(a)@.errors =~= old(a)@.errors);
            p + 1
        } else {
            set_quoted(t, p, "--authortext", 256, a, 0)
        }
    } else if flag_is(flag, "--authorurl", "-au") {
        if !more {
            push_error_str(a, "--authorurl null");
            p
        } else {
            a.author_url = Some(string_of(&t[p]));
            assert(final(a)@.fields =~= old(a)@.fields);
            assert(final(a)@.errors =~= old(a)@.errors);
            p + 1
        }
    } else if flag_is(flag, "--authoravatar", "-aa") {
        if !more {
            push_error_str(a, "--authoravatar null");
            p
        } else {
            if is_lit(&t[p], "me") {
                a.author_avatar = Some(me.avatar.clone());
            } else {
                a.author_avatar = Some(string_of(&t[p]));
            }
            assert(final(a)@.fields =~= old(a)@.fields);
            assert(final(a)@.errors =~= old(a)@.errors);
            p + 1
        }
    } else if flag_is(flag, "--color", "-c") {
        if !more {
            push_error_str(a, "--color null");
            p
        } else {
            set_color(a, &t[p]);
            p + 1
        }
    } else if flag_is(flag, "--description", "-d") {
        set_quoted(t, p, "--description", 4096, a, 1)
    } else if flag_is(flag, "--field", "-f") {
        field_step_exec(t, p, a)
    } else if flag_is(flag, "--footertext", "-ft") {
        if !more {
            push_error_str(a, "--footertext null");
            p
        } else if eq_ci(&t[p], "me") {
            a.footer_text = Some(me.name.clone());
            assert(final(a)@.fields =~= old(a)@.fields);
            assert(final(a)@.errors =~= old(a)@.errors);
            p + 1
        } else {
            set_quoted(t, p, "--footertext", 2048, a, 2)
        }
    } else if flag_is(flag, "--footericon", "-fi") {
        if !more {
            push_error_str(a, "--footericon null");
            p
        } else {
            if eq_ci(&t[p], "me") {
                a.footer_icon = Some(me.avatar.clone());
            } else {
                a.footer_icon = Some(string_of(&t[p]));
            }
            assert(final(a)@.fields =~= old(a)@.fields);
            assert(final(a)@.errors =~= old(a)@.errors);
            p + 1
        }
    } else if flag_is(flag, "--image", "-i") {
        if !more {
            push_error_str(a, "--image null");
            p
        } else {
            a.image = Some(string_of(&t[p]));
            assert(final(a)@.fields =~= old(a)@.fields);
            assert(final(a)@.errors =~= old(a)@.errors);
            p + 1
        }
    } else if flag_is(flag, "--thumbnail", "-tn") {
        if !more {
            push_error_str(a, "--thumbnail null");
            p
        } else {
            a.thumbnail = Some(string_of(&t[p]));
            assert(final(a)@.fields =~= old(a)@.fields);
            assert(final(a)@.errors =~= old(a)@.errors);
            p + 1
        }
    } else if flag_is(flag, "--timestamp", "-ts") {
        if !more {
            push_error_str(a, "--timestamp null");
            p
        } else {
            set_timestamp(a, &t[p]);
            p + 1
        }
    } else if flag_is(flag, "--title", "-t") {
        set_quoted(t, p, "--title", 256, a, 3)
    } else if flag_is(flag, "--url", "-u") {
        if !more {
            push_error_str(a, "--url null");
            p
        } else {
            a.url = Some(string_of(&t[p]));
            assert(final(a)@.fields =~= old(a)@.fields);
            assert(final(a)@.errors =~= old(a)@.errors);
            p + 1
        }
    } else {
        let mut e = String::from_str("Unknown args: ");
        push_chars(&mut e, flag);
        push_error(a, e);
        p
    }
}


/// The author block of an embed.
pub struct EmbedAuthor {
    pub name: String,
    pub url: Option<String>,
    pub icon_url: Option<String>,
}

/// The footer block of an embed.
pub struct EmbedFooter {
    pub text: String,
    pub icon_url: Option<String>,
}

/// The embed that the command sends.
pub struct EmbedSpec {
    pub author: Option<EmbedAuthor>,
    pub color: Option<u32>,
    pub description: Option<String>,
    pub fields: Vec<EmbedField>,
    pub footer: Option<EmbedFooter>,
    pub image: Option<String>,
    pub thumbnail: Option<String>,
    pub timestamp: Option<EmbedTime>,
    pub title: Option<String>,
    pub url: Option<String>,
}

pub struct EmbedModel {
    pub author: Option<(Seq<char>, Option<Seq<char>>, Option<Seq<char>>)>,
    pub color: Option<u32>,
    pub description: Option<Seq<char>>,
    pub fields: Seq<(Seq<char>, Seq<char>, bool)>,
    pub footer: Option<(Seq<char>, Option<Seq<char>>)>,
    pub image: Option<Seq<char>>,
    pub thumbnail: Option<Seq<char>>,
    pub timestamp: Option<EmbedTime>,
    pub title: Option<Seq<char>>,
    pub url: Option<Seq<char>>,
}

impl View for EmbedSpec {
    type V = EmbedModel;

    open spec fn view(&self) -> EmbedModel {
        EmbedModel {
            author: match self.author {
                Some(au) => Some((au.name@, ov(au.url), ov(au.icon_url))),
                None => None,
            },
            color: self.color,
            description: ov(self.description),
            fields: self.fields@.map_values(|f: EmbedField| field_view(f)),
            footer: match self.footer {
                Some(fo) => Some((fo.text@, ov(fo.icon_url))),
                None => None,
            },
            image: ov(self.image),
            thumbnail: ov(self.thumbnail),
            timestamp: self.timestamp,
            title: ov(self.title),
            url: ov(self.url),
        }
    }
}

/// The embed made of the flags: author URL and icon only with an author text,
/// footer icon only with a footer text, thumbnail `me` for the caller's face.
pub open spec fn built(a: ArgsModel, face: Seq<char>) -> EmbedModel {
    EmbedModel {
        author: match a.author_text {
            Some(n) => Some((n, a.author_url, a.author_avatar)),
            None => None,
        },
        color: a.color,
        description: a.description,
        fields: a.fields,
        footer: match a.footer_text {
            Some(x) => Some((x, a.footer_icon)),
            None => None,
        },
        image: a.image,
        thumbnail: match a.thumbnail {
            Some(x) => if x == "me"@ { Some(face) } else { Some(x) },
            None => None,
        },
        timestamp: a.timestamp,
        title: a.title,
        url: a.url,
    }
}

/// The reply listing the errors of a command line.
pub open spec fn error_report(errors: Seq<Seq<char>>) -> Seq<char> {
    "```\n!! "@ + decimal(errors.len()) + " error"@ + (if errors.len() > 1 { "s"@ } else { ""@ })
        + " occurred:\n"@ + join(errors, "\n"@) + "\n```"@
}

/// What the command does.
pub enum EmbedCommand {
    /// Show how to use the command.
    Usage,
    /// Answer the caller with this text.
    Reply(String),
    /// Send the embed to the channel.
    Send(u64, EmbedSpec),
}

pub enum EmbedPlan {
    Usage,
    Reply(Seq<char>),
    Send(u64, EmbedModel),
}

pub open spec fn command_view(c: EmbedCommand) -> EmbedPlan {
    match c {
        EmbedCommand::Usage => EmbedPlan::Usage,
        EmbedCommand::Reply(s) => EmbedPlan::Reply(s@),
        EmbedCommand::Send(ch, e) => EmbedPlan::Send(ch, e@),
    }
}

/// `<! embed <channel id> [flags]`, given the text after `embed`.
pub open spec fn embed_plan(rest: Seq<char>, me_name: Seq<char>, me_avatar: Seq<char>, face: Seq<char>) -> EmbedPlan {
    let arg = trim(rest);
    if arg.len() == 0 {
        EmbedPlan::Usage
    } else {
        let t = words(arg);
        if t.len() == 0 {
            EmbedPlan::Reply("ChannelId null"@)
        } else {
            match parse_u64(t[0]) {
                None => EmbedPlan::Reply("ChannelId must be a u64 integer"@),
                Some(ch) => {
                    let a = embed_run(t, 1, no_args(), me_name, me_avatar);
                    if a.errors.len() > 0 {
                        EmbedPlan::Reply(error_report(a.errors))
                    } else {
                        EmbedPlan::Send(ch, built(a, face))
                    }
                },
            }
        }
    }
}

/// Law: in a sent embed the author block carries the author text, URL and
/// avatar read from the flags, and the footer the footer text and icon; each
/// block is there exactly when its text was given.
pub proof fn law_sent_embed_blocks(rest: Seq<char>, me_name: Seq<char>, me_avatar: Seq<char>, face: Seq<char>)
    ensures
        embed_plan(rest, me_name, me_avatar, face) matches EmbedPlan::Send(_, e) ==> {
            let a = embed_run(words(trim(rest)), 1, no_args(), me_name, me_avatar);
            &&& (e.author is Some <==> a.author_text is Some)
            &&& (e.author matches Some(au) ==> au == (a.author_text->0, a.author_url, a.author_avatar))
            &&& (e.footer is Some <==> a.footer_text is Some)
            &&& (e.footer matches Some(fo) ==> fo == (a.footer_text->0, a.footer_icon))
        },
{
}

/// Law: `--authoravatar`/`-aa` sets the author's icon to the next word (the
/// caller's avatar for `me`) and leaves the footer icon alone.
pub proof fn law_author_avatar_flag(t: Seq<Seq<char>>, pos: int, a: ArgsModel, mn: Seq<char>, ma: Seq<char>)
    requires
        0 <= pos,
        pos + 1 < t.len(),
        t[pos] == "--authoravatar"@ || t[pos] == "-aa"@,
    ensures
        embed_step(t, pos, a, mn, ma).1.author_avatar == Some(if t[pos + 1] == "me"@ { ma } else { t[pos + 1] }),
        embed_step(t, pos, a, mn, ma).1.footer_icon == a.footer_icon,
        embed_step(t, pos, a, mn, ma).0 == pos + 2,
{
    reveal_strlit("--authoravatar");
    reveal_strlit("-aa");
    reveal_strlit("--authortext");
    reveal_strlit("-at");
    reveal_strlit("--authorurl");
    reveal_strlit("-au");
    let f = t[pos];
    assert(f != "--authortext"@ && f != "-at"@ && f != "--authorurl"@ && f != "-au"@) by {
        if f == "-aa"@ {
            assert(f[2] != "-at"@[2] && f[2] != "-au"@[2]);
        } else {
            assert(f[8] != "--authortext"@[8] && f.len() != "--authorurl"@.len());
        }
    }
}

/// Law: `--footericon`/`-fi` sets the footer's icon to the next word (the
/// caller's avatar for `me`, in any case) and leaves the author's icon alone.
pub proof fn law_footer_icon_flag(t: Seq<Seq<char>>, pos: int, a: ArgsModel, mn: Seq<char>, ma: Seq<char>)
    requires
        0 <= pos,
        pos + 1 < t.len(),
        t[pos] == "--footericon"@ || t[pos] == "-fi"@,
    ensures
        embed_step(t, pos, a, mn, ma).1.footer_icon == Some(
            if eq_ignore_ascii_case(t[pos + 1], "me"@) { ma } else { t[pos + 1] },
        ),
        embed_step(t, pos, a, mn, ma).1.author_avatar == a.author_avatar,
        embed_step(t, pos, a, mn, ma).0 == pos + 2,
{
    reveal_strlit("--footericon");
    reveal_strlit("-fi");
    reveal_strlit("--authortext");
    reveal_strlit("-at");
    reveal_strlit("--authorurl");
    reveal_strlit("-au");
    reveal_strlit("--authoravatar");
    reveal_strlit("-aa");
    reveal_strlit("--color");
    reveal_strlit("-c");
    reveal_strlit("--description");
    reveal_strlit("-d");
    reveal_strlit("--field");
    reveal_strlit("-f");
    reveal_strlit("--footertext");
    reveal_strlit("-ft");
    let f = t[pos];
    assert(f != "--authortext"@ && f != "-at"@ && f != "--authorurl"@ && f != "-au"@ && f != "--authoravatar"@
        && f != "-aa"@ && f != "--color"@ && f != "-c"@ && f != "--description"@ && f != "-d"@ && f != "--field"@
        && f != "-f"@ && f != "--footertext"@ && f != "-ft"@) by {
        if f == "-fi"@ {
            assert(f[1] != "-at"@[1] && f[1] != "-au"@[1] && f[1] != "-aa"@[1] && f[2] != "-ft"@[2]);
        } else {
            assert(f[2] != "--authortext"@[2] && f[8] != "--footertext"@[8]);
        }
    }
}

/// The limits that the command holds its texts to: a title or a field name of
/// at most 256 bytes, a description of at most 4096, a field value of at most
/// 1024, an author text of at most 256 and a footer text of at most 2048 unless
/// it is the caller's name `me_name`, and at most 25 fields.
pub open spec fn texts_within_limits(a: ArgsModel, me_name: Seq<char>) -> bool {
    &&& (a.title matches Some(x) ==> byte_len(x) <= 256)
    &&& (a.description matches Some(x) ==> byte_len(x) <= 4096)
    &&& (a.author_text matches Some(x) ==> x == me_name || byte_len(x) <= 256)
    &&& (a.footer_text matches Some(x) ==> x == me_name || byte_len(x) <= 2048)
    &&& forall|i: int| 0 <= i < a.fields.len() ==> byte_len(#[trigger] a.fields[i].0) <= 256 && byte_len(a.fields[i].1) <= 1024
    &&& (a.fields.len() > 25 ==> a.errors.len() > 0)
}

/// An embed within the limits above.
pub open spec fn embed_within_limits(e: EmbedModel, me_name: Seq<char>) -> bool {
    &&& (e.title matches Some(x) ==> byte_len(x) <= 256)
    &&& (e.description matches Some(x) ==> byte_len(x) <= 4096)
    &&& (e.author matches Some(au) ==> au.0 == me_name || byte_len(au.0) <= 256)
    &&& (e.footer matches Some(fo) ==> fo.0 == me_name || byte_len(fo.0) <= 2048)
    &&& e.fields.len() <= 25
    &&& forall|i: int| 0 <= i < e.fields.len() ==> byte_len(#[trigger] e.fields[i].0) <= 256 && byte_len(e.fields[i].1) <= 1024
}

proof fn lemma_quoted_within(t: Seq<Seq<char>>, pos: int, name: Seq<char>, max: nat)
    ensures
        quoted(t, pos, name, max).0 matches Ok(x) ==> byte_len(x) <= max,
{
}

proof fn lemma_field_step_within(t: Seq<Seq<char>>, p: int, a: ArgsModel, mn: Seq<char>)
    requires
        texts_within_limits(a, mn),
    ensures
        texts_within_limits(field_step(t, p, a).1, mn),
{
    lemma_quoted_within(t, p, "--field name"@, 256);
    let q1 = quoted(t, p, "--field name"@, 256).1;
    lemma_quoted_within(t, q1, "--field value"@, 1024);
    let b = field_step(t, p, a).1;
    assert forall|i: int| 0 <= i < b.fields.len() implies byte_len(#[trigger] b.fields[i].0) <= 256 && byte_len(b.fields[i].1) <= 1024 by {
        if i < a.fields.len() {
            assert(b.fields[i] == a.fields[i]);
        }
    }
}

proof fn lemma_quoted_into_within(t: Seq<Seq<char>>, p: int, name: Seq<char>, max: nat, a: ArgsModel, which: int, mn: Seq<char>)
    requires
        texts_within_limits(a, mn),
        which == 0 ==> max <= 256,
        which == 1 ==> max <= 4096,
        which == 2 ==> max <= 2048,
        0 <= which <= 3,
        which == 3 ==> max <= 256,
    ensures
        texts_within_limits(quoted_into(t, p, name, max, a, which).1, mn),
{
    lemma_quoted_within(t, p, name, max);
    let b = quoted_into(t, p, name, max, a, which).1;
    assert(b.fields == a.fields);
}

#[verifier::spinoff_prover]
#[verifier::rlimit(60)]
proof fn lemma_step_within(t: Seq<Seq<char>>, pos: int, a: ArgsModel, mn: Seq<char>, ma: Seq<char>)
    requires
        0 <= pos < t.len(),
        texts_within_limits(a, mn),
    ensures
        texts_within_limits(embed_step(t, pos, a, mn, ma).1, mn),
{
    let flag = t[pos];
    let p = pos + 1;
    let b = embed_step(t, pos, a, mn, ma).1;
    if flag == "--authortext"@ || flag == "-at"@ {
        lemma_quoted_into_within(t, p, "--authortext"@, 256, a, 0, mn);
    } else if flag == "--description"@ || flag == "-d"@ {
        lemma_quoted_into_within(t, p, "--description"@, 4096, a, 1, mn);
    } else if flag == "--field"@ || flag == "-f"@ {
        lemma_field_step_within(t, p, a, mn);
    } else if flag == "--footertext"@ || flag == "-ft"@ {
        lemma_quoted_into_within(t, p, "--footertext"@, 2048, a, 2, mn);
    } else if flag == "--title"@ || flag == "-t"@ {
        lemma_quoted_into_within(t, p, "--title"@, 256, a, 3, mn);
    } else {
        assert(b.fields == a.fields);
        assert(b.title == a.title && b.description == a.description);
        assert(b.author_text == a.author_text && b.footer_text == a.footer_text);
    }
}

proof fn lemma_run_within(t: Seq<Seq<char>>, pos: int, a: ArgsModel, mn: Seq<char>, ma: Seq<char>)
    requires
        texts_within_limits(a, mn),
    ensures
        texts_within_limits(embed_run(t, pos, a, mn, ma), mn),
    decreases t.len() - pos,
{
    if 0 <= pos < t.len() {
        lemma_step_within(t, pos, a, mn, ma);
        let (q, b) = embed_step(t, pos, a, mn, ma);
        if pos < q <= t.len() {
            lemma_run_within(t, q, b, mn, ma);
        }
    }
}

/// Law: an embed that the command sends keeps the limits: every quoted text
/// within its length, at most 25 fields; only the value `me` for the author or
/// footer text stands for the caller's name, which is not measured.
pub proof fn law_sent_embed_within_limits(rest: Seq<char>, me_name: Seq<char>, me_avatar: Seq<char>, face: Seq<char>)
    ensures
        embed_plan(rest, me_name, me_avatar, face) matches EmbedPlan::Send(_, e) ==> embed_within_limits(e, me_name),
{
    let t = words(trim(rest));
    lemma_run_within(t, 1, no_args(), me_name, me_avatar);
}

pub fn empty_args() -> (a: EmbedArgs)
    ensures
        a@ == no_args(),
{
    let a = EmbedArgs {
        author_text: None,
        author_url: None,
        author_avatar: None,
        color: None,
        description: None,
        fields: Vec::new(),
        footer_text: None,
        footer_icon: None,
        image: None,
        thumbnail: None,
        timestamp: None,
        title: None,
        url: None,
        errors: Vec::new(),
    };
    assert(a@.fields =~= no_args().fields);
    assert(a@.errors =~= no_args().errors);
    a
}

/// All flags from token `from` on.
pub fn embed_run_exec(t: &Vec<Vec<char>>, from: usize, me: &Caller) -> (a: EmbedArgs)
    requires
        from <= t.len(),
    ensures
        a@ == embed_run(views(t@), from as int, no_args(), me.name@, me.avatar@),
{
    let ghost tv = views(t@);
    let mut a = empty_args();
    let mut pos = from;
    while pos < t.len()
        invariant
            tv == views(t@),
            from <= pos <= t.len(),
            embed_run(tv, from as int, no_args(), me.name@, me.avatar@) == embed_run(
                tv,
                pos as int,
                a@,
                me.name@,
                me.avatar@,
            ),
        decreases t.len() - pos,
    {
        proof {
            lemma_step_advances(tv, pos as int, a@, me.name@, me.avatar@);
        }
        pos = embed_step_exec(t, pos, &mut a, me);
    }
    a
}

pub fn error_report_text(errors: &Vec<String>) -> (s: String)
    ensures
        s@ == error_report(string_views(errors@)),
{
    let mut s = String::from_str("```\n!! ");
    push_decimal(&mut s, errors.len() as u64);
    push_str(&mut s, " error");
    if errors.len() > 1 {
        push_str(&mut s, "s");
    } else {
        push_str(&mut s, "");
    }
    push_str(&mut s, " occurred:\n");
    push_joined(&mut s, errors, "\n");
    push_str(&mut s, "\n```");
    s
}

pub fn build_embed(a: EmbedArgs, face: &str) -> (e: EmbedSpec)
    ensures
        e@ == built(a@, face@),
{
    let author = match a.author_text {
        Some(n) => Some(EmbedAuthor { name: n, url: a.author_url, icon_url: a.author_avatar }),
        None => None,
    };
    let footer = match a.footer_text {
        Some(x) => Some(EmbedFooter { text: x, icon_url: a.footer_icon }),
        None => None,
    };
    let thumbnail = match a.thumbnail {
        Some(x) => {
            let v = chars_of(x.as_str());
            if is_lit(&v, "me") {
                Some(String::from_str(face))
            } else {
                Some(x)
            }
        },
        None => None,
    };
    EmbedSpec {
        author,
        color: a.color,
        description: a.description,
        fields: a.fields,
        footer,
        image: a.image,
        thumbnail,
        timestamp: a.timestamp,
        title: a.title,
        url: a.url,
    }
}

/// The `<! embed` command, given the text after `embed` and the caller.
pub fn embed_command(rest: &str, me: &Caller) -> (c: EmbedCommand)
    ensures
        command_view(c) == embed_plan(rest@, me.name@, me.avatar@, me.face@),
{
    let chars = chars_of(rest);
    let arg = trim_chars(&chars);
    if arg.len() == 0 {
        return EmbedCommand::Usage;
    }
    let t = split_words(&arg);
    if t.len() == 0 {
        return EmbedCommand::Reply(String::from_str("ChannelId null"));
    }
    let ghost tv = views(t@);
    assert(tv[0] == t@[0]@);
    match parse_u64_chars(&t[0]) {
        None => EmbedCommand::Reply(String::from_str("ChannelId must be a u64 integer")),
        Some(ch) => {
            let a = embed_run_exec(&t, 1, me);
            if a.errors.len() > 0 {
                EmbedCommand::Reply(error_report_text(&a.errors))
            } else {
                EmbedCommand::Send(ch, build_embed(a, me.face.as_str()))
            }
        },
    }
}

} // verus!
