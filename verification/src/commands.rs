//! Answers of the slash commands: the caller's language, the developer-only
//! commands, inspecting a message or a profile, and whether the bot may chat in a
//! server.
use vstd::prelude::*;
use crate::avatar::{avatar_png, avatar_png_url, resized_avatar, update_avatar_size};
use crate::dm::lemma_decimal_shape;
use crate::text::{byte_len, chars_of, decimal, lemma_absent_concat, lemma_byte_len_bound, lemma_decimal_len, pow10, lemma_replace_removes, push_chars, push_decimal, push_str, replace_all, replace_all_chars, starts_with, starts_with_chars};

verus! {

/// The developer's user id: the only caller of the `z_` commands.
pub const DEVELOPER_ID: u64 = 700176751422341201;

/// Picks the text for the caller's language: Korean when the locale is `ko`.
pub fn lng_trs<T>(is_korean: bool, en: T, ko: T) -> (r: T)
    ensures
        r == (if is_korean { ko } else { en }),
{
    if is_korean {
        ko
    } else {
        en
    }
}

pub open spec fn lng(is_korean: bool, en: Seq<char>, ko: Seq<char>) -> Seq<char> {
    if is_korean { ko } else { en }
}

/// Whether a command is refused to its caller: the commands whose name starts
/// with `z_` belong to the developer alone.
pub fn refuses_command(name: &str, user_id: u64) -> (b: bool)
    ensures
        b == (starts_with(name@, seq!['z', '_']) && user_id != DEVELOPER_ID),
{
    let v = chars_of(name);
    let p = vec!['z', '_'];
    starts_with_chars(&v, &p) && user_id != DEVELOPER_ID
}

/// The answer to a refused `z_` command.
pub fn refused_text(is_korean: bool) -> (r: String)
    ensures
        r@ == lng(is_korean, "Only the person who developed me can handle this command"@, "나를 개발하는 사람만 이 명령어를 다룰 수 있어"@),
{
    String::from_str(lng_trs(is_korean, "Only the person who developed me can handle this command", "나를 개발하는 사람만 이 명령어를 다룰 수 있어"))
}

// ---------------------------------------------------------------------------
// spy_data: the raw JSON of a message

/// What `serde_json::to_string_pretty` prints for the JSON document read by
/// `serde_json::from_slice::<serde_json::Value>` from the bytes, or `None` when
/// they are no JSON document.
pub uninterp spec fn pretty_json(bytes: Seq<u8>) -> Option<Seq<char>>;

/// Calls `serde_json::from_slice::<serde_json::Value>` and
/// `serde_json::to_string_pretty` (empty text on its error, which a `Value` does
/// not raise). Claimed: the result is `pretty_json` of the bytes; the JSON
/// grammar and the printer's layout are not stated.
#[verifier::external_body]
fn pretty_json_of(bytes: &[u8]) -> (r: Option<String>)
    ensures
        match r {
            Some(t) => pretty_json(bytes@) == Some(t@),
            None => pretty_json(bytes@) is None,
        },
{
    match serde_json::from_slice::<serde_json::Value>(bytes) {
        Ok(v) => Some(serde_json::to_string_pretty(&v).unwrap_or_default()),
        Err(_) => None,
    }
}

/// The JSON with its backticks escaped and its `@` replaced by a full-width one,
/// so that it neither closes the code block nor mentions anybody.
pub open spec fn defused_json(text: Seq<char>) -> Seq<char> {
    replace_all(replace_all(text, seq!['`'], seq!['\\', '`']), seq!['@'], seq!['\u{FF20}'])
}

/// What is inspected: a message (`spy_data`) or a channel (`spy_channel`).
#[derive(Clone, Copy, PartialEq, Eq, Structural, Debug)]
pub enum SpyTarget {
    Message,
    Channel,
}

pub open spec fn too_long_label(target: SpyTarget, is_korean: bool) -> Seq<char> {
    match target {
        SpyTarget::Message => lng(is_korean, "Message is too long"@, "메시지가 너무 길어"@),
        SpyTarget::Channel => lng(is_korean, "Data is too long"@, "데이터가 너무 길어"@),
    }
}

/// The report of an inspection: the JSON in a code block, or, when that exceeds
/// the 4096 bytes of an embed description, a note with its length in bytes.
pub open spec fn spy_report(target: SpyTarget, is_korean: bool, pretty: Seq<char>) -> Seq<char> {
    let txt = "```json\n"@ + defused_json(pretty) + "```"@;
    if byte_len(txt) > 4096 {
        too_long_label(target, is_korean) + ": ("@ + decimal(byte_len(txt) as nat) + ")"@
    } else {
        txt
    }
}

fn too_long_text(target: SpyTarget, is_korean: bool) -> (r: &'static str)
    ensures
        r@ == too_long_label(target, is_korean),
{
    match target {
        SpyTarget::Message => lng_trs(is_korean, "Message is too long", "메시지가 너무 길어"),
        SpyTarget::Channel => lng_trs(is_korean, "Data is too long", "데이터가 너무 길어"),
    }
}

/// An inspection report mentions nobody: it holds no `@`, whatever the JSON held.
pub proof fn law_spy_report_mentions_nobody(target: SpyTarget, is_korean: bool, pretty: Seq<char>)
    ensures
        !spy_report(target, is_korean, pretty).contains('@'),
{
    let escaped = replace_all(pretty, seq!['`'], seq!['\\', '`']);
    lemma_replace_removes(escaped, '@', seq!['\u{FF20}']);
    let d = defused_json(pretty);
    reveal_strlit("```json\n");
    reveal_strlit("```");
    let head = "```json\n"@;
    let tail = "```"@;
    assert(!head.contains('@'));
    assert(!tail.contains('@'));
    lemma_absent_concat(head, d, '@');
    lemma_absent_concat(head + d, tail, '@');
    let txt = head + d + tail;
    if byte_len(txt) > 4096 {
        reveal_strlit("Message is too long");
        reveal_strlit("메시지가 너무 길어");
        reveal_strlit("Data is too long");
        reveal_strlit("데이터가 너무 길어");
        reveal_strlit(": (");
        reveal_strlit(")");
        let label = too_long_label(target, is_korean);
        assert(!label.contains('@'));
        let n = decimal(byte_len(txt) as nat);
        lemma_decimal_shape(byte_len(txt) as nat);
        assert(!n.contains('@'));
        assert(!": ("@.contains('@'));
        assert(!")"@.contains('@'));
        lemma_absent_concat(label, ": ("@, '@');
        lemma_absent_concat(label + ": ("@, n, '@');
        lemma_absent_concat(label + ": ("@ + n, ")"@, '@');
    }
}

/// An inspection report always fits in an embed description: at most 4096 bytes.
pub proof fn law_spy_report_fits(target: SpyTarget, is_korean: bool, pretty: Seq<char>)
    ensures
        byte_len(spy_report(target, is_korean, pretty)) <= 4096,
{
    let txt = "```json\n"@ + defused_json(pretty) + "```"@;
    if byte_len(txt) > 4096 {
        reveal_strlit("Message is too long");
        reveal_strlit("메시지가 너무 길어");
        reveal_strlit("Data is too long");
        reveal_strlit("데이터가 너무 길어");
        reveal_strlit(": (");
        reveal_strlit(")");
        let label = too_long_label(target, is_korean);
        assert(label.len() <= 19);
        let m = byte_len(txt) as nat;
        assert(pow10(20) == 100_000_000_000_000_000_000nat) by {
            reveal_with_fuel(pow10, 21);
        }
        lemma_decimal_len(m, 20);
        let note = label + ": ("@ + decimal(m) + ")"@;
        lemma_byte_len_bound(note);
    }
}

/// The report of an inspection for the pretty-printed JSON fetched.
pub fn spy_report_text(target: SpyTarget, is_korean: bool, pretty: &str) -> (r: String)
    ensures
        r@ == spy_report(target, is_korean, pretty@),
{
    let v = chars_of(pretty);
    let tick = vec!['`'];
    let escaped_tick = vec!['\\', '`'];
    let at = vec!['@'];
    let wide_at = vec!['\u{FF20}'];
    assert(tick@ =~= seq!['`']);
    assert(escaped_tick@ =~= seq!['\\', '`']);
    assert(at@ =~= seq!['@']);
    assert(wide_at@ =~= seq!['\u{FF20}']);
    let a = replace_all_chars(&v, &tick, &escaped_tick);
    let b = replace_all_chars(&a, &at, &wide_at);
    assert(b@ == defused_json(pretty@));
    let mut txt = String::from_str("```json\n");
    push_chars(&mut txt, &b);
    push_str(&mut txt, "```");
    let n = txt.as_str().len();
    if n > 4096 {
        let mut r = String::from_str(too_long_text(target, is_korean));
        push_str(&mut r, ": (");
        push_decimal(&mut r, n as u64);
        push_str(&mut r, ")");
        r
    } else {
        txt
    }
}

/// The answer of `spy_data` or `spy_channel` for the body fetched: its report, or
/// a note when the body is no JSON.
pub fn spy_text(target: SpyTarget, is_korean: bool, body: &[u8]) -> (r: String)
    ensures
        r@ == match pretty_json(body@) {
            Some(p) => spy_report(target, is_korean, p),
            None => lng(is_korean, "Failed to parse JSON"@, "JSON 파싱에 실패했어"@),
        },
{
    match pretty_json_of(body) {
        Some(p) => spy_report_text(target, is_korean, p.as_str()),
        None => String::from_str(lng_trs(is_korean, "Failed to parse JSON", "JSON 파싱에 실패했어")),
    }
}

// ---------------------------------------------------------------------------
// spy_profile: names and avatar of a user

/// One bold label with its value in code.
pub open spec fn field_line(label: Seq<char>, value: Seq<char>) -> Seq<char> {
    "**"@ + label + ":** `"@ + value + "`"@
}

pub open spec fn name_label(is_korean: bool) -> Seq<char> {
    lng(is_korean, "Name"@, "이름"@)
}

pub open spec fn global_label(is_korean: bool) -> Seq<char> {
    lng(is_korean, "Global Name"@, "전역 이름"@)
}

pub open spec fn server_label(is_korean: bool) -> Seq<char> {
    lng(is_korean, "Server Name"@, "서버 이름"@)
}

pub open spec fn opt_view(o: Option<&str>) -> Option<Seq<char>> {
    match o {
        Some(s) => Some(s@),
        None => None,
    }
}

/// The profile of a member: name, global name (the name when there is none) and,
/// when the member has one, the name in this server.
pub open spec fn profile_description(is_korean: bool, name: Seq<char>, global: Option<Seq<char>>, nick: Option<Seq<char>>) -> Seq<char> {
    let g = match global {
        Some(g) => g,
        None => name,
    };
    let base = field_line(name_label(is_korean), name) + "\n"@ + field_line(global_label(is_korean), g);
    match nick {
        Some(n) => base + "\n"@ + field_line(server_label(is_korean), n),
        None => base,
    }
}

fn push_field(s: &mut String, label: &str, value: &str)
    ensures
        final(s)@ == old(s)@ + field_line(label@, value@),
{
    push_str(s, "**");
    push_str(s, label);
    push_str(s, ":** `");
    push_str(s, value);
    push_str(s, "`");
}

pub fn profile_description_text(is_korean: bool, name: &str, global: Option<&str>, nick: Option<&str>) -> (r: String)
    ensures
        r@ == profile_description(is_korean, name@, opt_view(global), opt_view(nick)),
{
    let g = match global {
        Some(g) => g,
        None => name,
    };
    let mut r = String::new();
    push_field(&mut r, lng_trs(is_korean, "Name", "이름"), name);
    push_str(&mut r, "\n");
    push_field(&mut r, lng_trs(is_korean, "Global Name", "전역 이름"), g);
    match nick {
        Some(n) => {
            push_str(&mut r, "\n");
            push_field(&mut r, lng_trs(is_korean, "Server Name", "서버 이름"), n);
        },
        None => {},
    }
    r
}

/// The profile of a user who is no member here: the name alone.
pub fn name_only_text(is_korean: bool, name: &str) -> (r: String)
    ensures
        r@ == field_line(name_label(is_korean), name@),
{
    let mut r = String::new();
    push_field(&mut r, lng_trs(is_korean, "Name", "이름"), name);
    r
}

/// The thumbnail of a member's profile, in the largest size: the avatar set for
/// this server when the member has one and the command asked for it, else the
/// user's own avatar.
pub open spec fn profile_thumbnail(face: Seq<char>, guild_avatar: Option<Seq<char>>, want_server: Option<bool>, r: Seq<char>) -> bool {
    match (guild_avatar, want_server) {
        (Some(g), Some(true)) => resized_avatar(g, r),
        _ => resized_avatar(face, r),
    }
}

pub fn profile_thumbnail_url(face: &str, guild_avatar: Option<&str>, want_server: Option<bool>) -> (r: String)
    ensures
        profile_thumbnail(face@, opt_view(guild_avatar), want_server, r@),
{
    match (guild_avatar, want_server) {
        (Some(g), Some(true)) => update_avatar_size(g),
        _ => update_avatar_size(face),
    }
}

/// What the user endpoint's JSON body holds: its `username` and `avatar` when they
/// are strings, or `None` when the body is no JSON document.
pub uninterp spec fn user_json_fields(bytes: Seq<u8>) -> Option<(Option<Seq<char>>, Option<Seq<char>>)>;

pub open spec fn opt_string_view(o: Option<String>) -> Option<Seq<char>> {
    match o {
        Some(s) => Some(s@),
        None => None,
    }
}

/// Calls `serde_json::from_slice::<serde_json::Value>` and reads the fields
/// `username` and `avatar` with `Value::as_str`. Claimed: the result is
/// `user_json_fields` of the bytes; the JSON grammar is not stated.
#[verifier::external_body]
fn read_user_json(bytes: &[u8]) -> (r: Option<(Option<String>, Option<String>)>)
    ensures
        match r {
            Some((n, a)) => user_json_fields(bytes@) == Some((opt_string_view(n), opt_string_view(a))),
            None => user_json_fields(bytes@) is None,
        },
{
    match serde_json::from_slice::<serde_json::Value>(bytes) {
        Ok(v) => Some((v["username"].as_str().map(String::from), v["avatar"].as_str().map(String::from))),
        Err(_) => None,
    }
}

/// Name and avatar URL of a user from the fields read: `Unknown` without a name,
/// `No avatar` without an avatar hash.
pub open spec fn user_info(user_id: u64, name: Option<Seq<char>>, avatar: Option<Seq<char>>) -> (Seq<char>, Seq<char>) {
    (
        match name {
            Some(n) => n,
            None => "Unknown"@,
        },
        match avatar {
            Some(h) => avatar_png(user_id, h),
            None => "No avatar"@,
        },
    )
}

pub fn user_info_from_fields(user_id: u64, name: Option<&str>, avatar: Option<&str>) -> (r: (String, String))
    ensures
        (r.0@, r.1@) == user_info(user_id, opt_view(name), opt_view(avatar)),
{
    let n = match name {
        Some(n) => String::from_str(n),
        None => String::from_str("Unknown"),
    };
    let a = match avatar {
        Some(h) => avatar_png_url(user_id, h),
        None => String::from_str("No avatar"),
    };
    (n, a)
}

/// Name and avatar URL of a user from the body of the user endpoint, or `None`
/// when the body is no JSON.
pub fn user_info_of(user_id: u64, body: &[u8]) -> (r: Option<(String, String)>)
    ensures
        match user_json_fields(body@) {
            Some((n, a)) => match r {
                Some((name, url)) => (name@, url@) == user_info(user_id, n, a),
                None => false,
            },
            None => r is None,
        },
{
    match read_user_json(body) {
        Some((n, a)) => {
            let nr: Option<&str> = match &n {
                Some(s) => Some(s.as_str()),
                None => None,
            };
            let ar: Option<&str> = match &a {
                Some(s) => Some(s.as_str()),
                None => None,
            };
            Some(user_info_from_fields(user_id, nr, ar))
        },
        None => None,
    }
}

// ---------------------------------------------------------------------------
// dont_chat: servers where the bot keeps silent

/// The answers of `dont_chat`.
#[derive(PartialEq, Eq, Structural, Debug, Clone, Copy)]
pub enum ChatNote {
    NoGuild,
    NoMember,
    NotAdmin,
    OptionMissing,
    OptionInvalid,
    Allowed,
    AllowFailed,
    Blocked,
    BlockFailed,
}

/// The English and Korean text of an answer.
pub open spec fn chat_texts(n: ChatNote) -> (Seq<char>, Seq<char>) {
    match n {
        ChatNote::NoGuild => ("There isn't a guild"@, "여긴 서버가 아니야"@),
        ChatNote::NoMember => ("Unable to get Your member info"@, "너의 맴버 정보를 가져올 수 없었어"@),
        ChatNote::NotAdmin => ("You are not an admin."@, "넌 관리자가 아니야"@),
        ChatNote::OptionMissing => ("Option value missing"@, "옵션 값이 없어"@),
        ChatNote::OptionInvalid => ("Option value invalid"@, "옵션 값이 잘못되었어"@),
        ChatNote::Allowed => ("I can now chat"@, "이제 대화할 수 있어"@),
        ChatNote::AllowFailed => ("Failed to allow chatting due to DB error"@, "대화 허용을 위한 DB 접근에 실패했어"@),
        ChatNote::Blocked => ("I can no longer chat"@, "이제 대화할 수 없어"@),
        ChatNote::BlockFailed => ("Failed to block chatting due to DB error"@, "대화 차단을 위한 DB 접근에 실패했어"@),
    }
}

fn chat_strs(n: ChatNote) -> (r: (&'static str, &'static str))
    ensures
        (r.0@, r.1@) == chat_texts(n),
{
    match n {
        ChatNote::NoGuild => ("There isn't a guild", "여긴 서버가 아니야"),
        ChatNote::NoMember => ("Unable to get Your member info", "너의 맴버 정보를 가져올 수 없었어"),
        ChatNote::NotAdmin => ("You are not an admin.", "넌 관리자가 아니야"),
        ChatNote::OptionMissing => ("Option value missing", "옵션 값이 없어"),
        ChatNote::OptionInvalid => ("Option value invalid", "옵션 값이 잘못되었어"),
        ChatNote::Allowed => ("I can now chat", "이제 대화할 수 있어"),
        ChatNote::AllowFailed => ("Failed to allow chatting due to DB error", "대화 허용을 위한 DB 접근에 실패했어"),
        ChatNote::Blocked => ("I can no longer chat", "이제 대화할 수 없어"),
        ChatNote::BlockFailed => ("Failed to block chatting due to DB error", "대화 차단을 위한 DB 접근에 실패했어"),
    }
}

/// An answer in the caller's language.
pub fn chat_note_text(n: ChatNote, is_korean: bool) -> (r: String)
    ensures
        r@ == lng(is_korean, chat_texts(n).0, chat_texts(n).1),
{
    let (en, ko) = chat_strs(n);
    String::from_str(lng_trs(is_korean, en, ko))
}

/// What `dont_chat` asks.
#[derive(PartialEq, Eq, Structural, Debug, Clone, Copy)]
pub enum ChatSetting {
    /// Let the bot speak in the server again.
    Allow,
    /// Keep the bot silent in the server.
    Block,
    /// Nothing to do; answer this.
    Refused(ChatNote),
}

/// `dont_chat`: in a server, by an administrator, with a boolean option
/// (`true` lets the bot speak). `admin` is `None` when the caller's member record
/// is missing; `option` is `None` without an option, `Some(None)` when it is no
/// boolean.
pub open spec fn chat_setting(in_guild: bool, admin: Option<bool>, option: Option<Option<bool>>) -> ChatSetting {
    if !in_guild {
        ChatSetting::Refused(ChatNote::NoGuild)
    } else {
        match admin {
            None => ChatSetting::Refused(ChatNote::NoMember),
            Some(false) => ChatSetting::Refused(ChatNote::NotAdmin),
            Some(true) => match option {
                None => ChatSetting::Refused(ChatNote::OptionMissing),
                Some(None) => ChatSetting::Refused(ChatNote::OptionInvalid),
                Some(Some(true)) => ChatSetting::Allow,
                Some(Some(false)) => ChatSetting::Block,
            },
        }
    }
}

pub fn dont_chat_setting(in_guild: bool, admin: Option<bool>, option: Option<Option<bool>>) -> (r: ChatSetting)
    ensures
        r == chat_setting(in_guild, admin, option),
{
    if !in_guild {
        ChatSetting::Refused(ChatNote::NoGuild)
    } else {
        match admin {
            None => ChatSetting::Refused(ChatNote::NoMember),
            Some(false) => ChatSetting::Refused(ChatNote::NotAdmin),
            Some(true) => match option {
                None => ChatSetting::Refused(ChatNote::OptionMissing),
                Some(None) => ChatSetting::Refused(ChatNote::OptionInvalid),
                Some(Some(true)) => ChatSetting::Allow,
                Some(Some(false)) => ChatSetting::Block,
            },
        }
    }
}

pub open spec fn other_guild(guild: u64) -> spec_fn(u64) -> bool {
    |x: u64| x != guild
}

/// Whether the bot keeps silent in a server.
pub fn is_blacklisted(list: &Vec<u64>, guild: u64) -> (b: bool)
    ensures
        b == list@.contains(guild),
{
    let mut i: usize = 0;
    while i < list.len()
        invariant
            i <= list.len(),
            forall|k: int| 0 <= k < i ==> list@[k] != guild,
        decreases list.len() - i,
    {
        if list[i] == guild {
            return true;
        }
        i = i + 1;
    }
    false
}

/// `dont_chat` set to allow: every entry of the server leaves the list, the others
/// stay in their order.
pub fn allow_chat(list: &mut Vec<u64>, guild: u64)
    ensures
        final(list)@ == old(list)@.filter(other_guild(guild)),
{
    let ghost before = list@;
    let mut kept: Vec<u64> = Vec::new();
    let mut i: usize = 0;
    while i < list.len()
        invariant
            i <= list.len(),
            list@ == before,
            kept@ == before.take(i as int).filter(other_guild(guild)),
        decreases list.len() - i,
    {
        assert(before.take(i as int).push(before[i as int]) =~= before.take(i + 1));
        proof {
            before.take(i as int).lemma_filter_push(before[i as int], other_guild(guild));
        }
        if list[i] != guild {
            kept.push(list[i]);
        }
        i = i + 1;
    }
    assert(before.take(before.len() as int) =~= before);
    *list = kept;
}

/// `dont_chat` set to block: the server is appended to the list (as the database
/// row, it is written whether or not it was there).
pub fn block_chat(list: &mut Vec<u64>, guild: u64)
    ensures
        final(list)@ == old(list)@.push(guild),
{
    list.push(guild);
}

/// After `dont_chat` blocks a server the bot keeps silent there.
pub proof fn law_block_silences(list: Seq<u64>, guild: u64)
    ensures
        list.push(guild).contains(guild),
{
    assert(list.push(guild)[list.len() as int] == guild);
}

/// After `dont_chat` allows a server the bot speaks there again, and whether it
/// keeps silent in any other server is unchanged.
pub proof fn law_allow_frees_only_that_server(list: Seq<u64>, guild: u64, other: u64)
    requires
        other != guild,
    ensures
        !list.filter(other_guild(guild)).contains(guild),
        list.filter(other_guild(guild)).contains(other) == list.contains(other),
{
    let f = list.filter(other_guild(guild));
    if f.contains(guild) {
        let k = choose|k: int| 0 <= k < f.len() && f[k] == guild;
        list.lemma_filter_pred(other_guild(guild), k);
    }
    if list.contains(other) {
        let k = choose|k: int| 0 <= k < list.len() && list[k] == other;
        list.lemma_filter_contains(other_guild(guild), k);
    }
    if f.contains(other) {
        list.lemma_filter_contains_rev(other_guild(guild), other);
    }
}

} // verus!
