//! Calls of the bot in chat: `러스토키 <words>` or `<" <words>`.
use vstd::prelude::*;
use vstd::utf8::{decode_utf8, encode_utf8, is_char_boundary};
use vstd::string::StringSliceAdditionalSpecFns;
use crate::text::{chars_of, chars_eq, decimal, push_decimal, starts_with, starts_with_chars, to_upper, trim, trim_chars, upper};

verus! {

/// The name of the bot, followed by a space.
pub open spec fn bot_name_prefix() -> Seq<char> {
    "\u{B7EC}\u{C2A4}\u{D1A0}\u{D0A4} "@
}

/// What a message asks the bot.
#[derive(Debug)]
pub enum CallQuery {
    /// The message is no call.
    NotACall,
    /// A call with nothing after it: the bot stops handling the message.
    Empty,
    /// `나` or `ME`: the caller asks about themself.
    Me,
    /// Any other words, upper-cased and trimmed.
    Ask(String),
}

pub enum QueryModel {
    NotACall,
    Empty,
    Me,
    Ask(Seq<char>),
}

pub open spec fn query_view(q: CallQuery) -> QueryModel {
    match q {
        CallQuery::NotACall => QueryModel::NotACall,
        CallQuery::Empty => QueryModel::Empty,
        CallQuery::Me => QueryModel::Me,
        CallQuery::Ask(s) => QueryModel::Ask(s@),
    }
}

/// The upper-cased message from byte `k` on, trimmed.
pub open spec fn upper_after(content: Seq<char>, k: int) -> Seq<char> {
    let b = encode_utf8(upper(content));
    trim(decode_utf8(b.subrange(k, b.len() as int)))
}

/// Whether the words can be cut out of the upper-cased message at the byte
/// where the call prefix ends (the bot stops otherwise).
pub open spec fn call_cuttable(content: Seq<char>) -> bool {
    let b = encode_utf8(upper(content));
    &&& starts_with(upper(content), bot_name_prefix()) ==> is_char_boundary(b, 13)
    &&& starts_with(content, "<\" "@) ==> is_char_boundary(b, 3)
}

/// A call starts with the bot's name (in the upper-cased message, 13 bytes) or
/// with `<" ` (3 bytes); the words after the name win over those after `<" `.
pub open spec fn call_query(content: Seq<char>) -> QueryModel {
    let up = upper(content);
    let by_name = starts_with(up, bot_name_prefix());
    let by_quote = starts_with(content, "<\" "@);
    if !by_name && !by_quote {
        QueryModel::NotACall
    } else {
        let a = if by_name { upper_after(content, 13) } else { seq![] };
        let b = if by_quote { upper_after(content, 3) } else { seq![] };
        let m = if a.len() > 0 { a } else { b };
        if m.len() == 0 {
            QueryModel::Empty
        } else if m == "\u{B098}"@ || m == "ME"@ {
            QueryModel::Me
        } else {
            QueryModel::Ask(m)
        }
    }
}

fn words_after(up: &str, k: usize) -> (r: Option<Vec<char>>)
    ensures
        match r {
            Some(v) => is_char_boundary(encode_utf8(up@), k as int) && v@ == trim(
                decode_utf8(encode_utf8(up@).subrange(k as int, encode_utf8(up@).len() as int)),
            ),
            None => !is_char_boundary(encode_utf8(up@), k as int),
        },
{
    proof {
        vstd::utf8::encode_utf8_valid_utf8(up@);
        assert(up.spec_bytes() == encode_utf8(up@));
    }
    if !up.is_char_boundary(k) {
        return None;
    }
    let (_, tail) = up.split_at(k);
    proof {
        vstd::utf8::encode_utf8_decode_utf8(tail@);
    }
    let tv = chars_of(tail);
    Some(trim_chars(&tv))
}

/// Law: a message starting with `<" ` is always a call. When the bot's name
/// gives no words, the words after `<" `, upper-cased and trimmed, are asked,
/// unless they are empty or `나`/`ME`.
pub proof fn law_quote_call_asks_its_words(content: Seq<char>)
    ensures
        starts_with(content, "<\" "@) ==> !(call_query(content) is NotACall),
        ({
            let m = upper_after(content, 3);
            let named = starts_with(upper(content), bot_name_prefix()) && upper_after(content, 13).len() > 0;
            (starts_with(content, "<\" "@) && !named && m.len() > 0 && m != "\u{B098}"@ && m != "ME"@)
                ==> call_query(content) == QueryModel::Ask(m)
        }),
        starts_with(upper(content), bot_name_prefix()) && upper_after(content, 13).len() > 0 && upper_after(content, 13)
            != "\u{B098}"@ && upper_after(content, 13) != "ME"@ ==> call_query(content) == QueryModel::Ask(
            upper_after(content, 13),
        ),
{
}

/// Reads a call; `None` where the words cannot be cut out.
pub fn call_query_of(content: &str) -> (r: Option<CallQuery>)
    ensures
        match r {
            Some(q) => call_cuttable(content@) && query_view(q) == call_query(content@),
            None => !call_cuttable(content@),
        },
{
    let upper_text = to_upper(content);
    let up = upper_text.as_str();
    let upv = chars_of(up);
    let cv = chars_of(content);
    let name = chars_of("\u{B7EC}\u{C2A4}\u{D1A0}\u{D0A4} ");
    let quote = chars_of("<\" ");
    let by_name = starts_with_chars(&upv, &name);
    let by_quote = starts_with_chars(&cv, &quote);
    if !by_name && !by_quote {
        return Some(CallQuery::NotACall);
    }
    let a = if by_name {
        match words_after(up, 13) {
            Some(v) => v,
            None => return None,
        }
    } else {
        Vec::new()
    };
    let b = if by_quote {
        match words_after(up, 3) {
            Some(v) => v,
            None => return None,
        }
    } else {
        Vec::new()
    };
    let m = if a.len() > 0 { a } else { b };
    if m.len() == 0 {
        return Some(CallQuery::Empty);
    }
    let me_kr = chars_of("\u{B098}");
    let me_en = chars_of("ME");
    if chars_eq(&m, &me_kr) || chars_eq(&m, &me_en) {
        Some(CallQuery::Me)
    } else {
        Some(CallQuery::Ask(crate::text::string_of(&m)))
    }
}

/// The key of the answers about a user: their mention `<@id>`.
pub open spec fn self_key(user: u64) -> Seq<char> {
    "<@"@ + decimal(user as nat) + ">"@
}

pub fn self_key_text(user: u64) -> (s: String)
    ensures
        s@ == self_key(user),
{
    let mut s = String::from_str("<@");
    push_decimal(&mut s, user);
    crate::text::push_str(&mut s, ">");
    s
}

/// The answer when a user asks about themself and nothing is stored.
pub open spec fn unknown_self(name: Seq<char>) -> Seq<char> {
    name + "\u{C740}/\u{B294} DB\u{C5D0} \u{C5C6}\u{C5B4}"@
}

pub fn unknown_self_text(name: &str) -> (s: String)
    ensures
        s@ == unknown_self(name@),
{
    let mut s = String::from_str(name);
    crate::text::push_str(&mut s, "\u{C740}/\u{B294} DB\u{C5D0} \u{C5C6}\u{C5B4}");
    s
}

} // verus!
