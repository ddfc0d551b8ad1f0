//! Avatar URLs of Discord users.
use vstd::prelude::*;
use crate::text::{chars_of, contains_seq, decimal, find_chars, occurs_at, push_chars, push_decimal, push_str, string_of, sub_chars};

verus! {

pub open spec fn default_avatar_path() -> Seq<char> {
    "cdn.discordapp.com/embed/avatars/"@
}

pub open spec fn size_query() -> Seq<char> {
    "?size="@
}

/// `url` asking for the largest size: default avatars are kept as they are; an
/// existing `?size=` query and what follows it are replaced by `?size=4096`;
/// otherwise `?size=4096` is appended.
pub open spec fn resized_avatar(url: Seq<char>, r: Seq<char>) -> bool {
    if contains_seq(url, default_avatar_path()) {
        r == url
    } else if contains_seq(url, size_query()) {
        exists|i: int|
            occurs_at(url, size_query(), i) && (forall|j: int| 0 <= j < i ==> !occurs_at(url, size_query(), j))
                && r == url.take(i) + "?size=4096"@
    } else {
        r == url + "?size=4096"@
    }
}

pub fn update_avatar_size(url: &str) -> (r: String)
    ensures
        resized_avatar(url@, r@),
{
    let v = chars_of(url);
    let def = chars_of("cdn.discordapp.com/embed/avatars/");
    if let Some(_) = find_chars(&v, &def) {
        return String::from_str(url);
    }
    let q = chars_of("?size=");
    match find_chars(&v, &q) {
        Some(i) => {
            let head = sub_chars(&v, 0, i);
            let mut r = string_of(&head);
            push_str(&mut r, "?size=4096");
            assert(v@.subrange(0, i as int) =~= v@.take(i as int));
            r
        },
        None => {
            let mut r = String::from_str(url);
            push_str(&mut r, "?size=4096");
            r
        },
    }
}

pub open spec fn size_4096() -> Seq<char> {
    "?size=4096"@
}

/// An occurrence of `p` in `a + b` that starts in `a` and ends in `b` lines up
/// the first character of `b` with a character of `p` after its first.
proof fn lemma_straddle(a: Seq<char>, b: Seq<char>, p: Seq<char>, j: int)
    requires
        occurs_at(a + b, p, j),
        j < a.len(),
        j + p.len() > a.len(),
    ensures
        p[a.len() - j] == b[0],
        a.len() - j >= 1,
{
    assert((a + b).subrange(j, j + p.len())[a.len() - j] == (a + b)[a.len() as int]);
}

/// An occurrence of `p` in `a + b` that ends within `a` is an occurrence in `a`.
proof fn lemma_inside(a: Seq<char>, b: Seq<char>, p: Seq<char>, j: int)
    requires
        occurs_at(a + b, p, j),
        j + p.len() <= a.len(),
    ensures
        occurs_at(a, p, j),
{
    assert((a + b).subrange(j, j + p.len()) =~= a.subrange(j, j + p.len()));
}

/// Appending `?size=4096` adds no default-avatar path.
proof fn lemma_no_default_after(a: Seq<char>)
    requires
        !contains_seq(a, default_avatar_path()),
    ensures
        !contains_seq(a + size_4096(), default_avatar_path()),
{
    reveal_strlit("cdn.discordapp.com/embed/avatars/");
    reveal_strlit("?size=4096");
    let d = default_avatar_path();
    let q = size_4096();
    if contains_seq(a + q, d) {
        let j = choose|j: int| occurs_at(a + q, d, j);
        if j + d.len() <= a.len() {
            lemma_inside(a, q, d, j);
        } else if j < a.len() {
            lemma_straddle(a, q, d, j);
            assert(d[a.len() - j] != '?');
        } else {
            assert(j + d.len() > (a + q).len());
        }
    }
}

/// Appending `?size=4096` to a text without `?size=` puts the first `?size=`
/// right after the text.
proof fn lemma_first_query_after(a: Seq<char>)
    requires
        !contains_seq(a, size_query()),
    ensures
        occurs_at(a + size_4096(), size_query(), a.len() as int),
        forall|j: int| 0 <= j < a.len() ==> !occurs_at(a + size_4096(), size_query(), j),
{
    reveal_strlit("?size=");
    reveal_strlit("?size=4096");
    let s = size_query();
    let q = size_4096();
    assert((a + q).subrange(a.len() as int, (a.len() + s.len()) as int) =~= s);
    assert forall|j: int| 0 <= j < a.len() implies !occurs_at(a + q, s, j) by {
        if occurs_at(a + q, s, j) {
            if j + s.len() <= a.len() {
                lemma_inside(a, q, s, j);
            } else {
                lemma_straddle(a, q, s, j);
                assert(s[a.len() - j] != '?');
            }
        }
    }
}

/// Resizing `a + ?size=4096`, where `a` holds neither the default-avatar path nor
/// `?size=`, gives it back.
proof fn lemma_resized_fixed(a: Seq<char>, r: Seq<char>)
    requires
        !contains_seq(a, default_avatar_path()),
        !contains_seq(a, size_query()),
        resized_avatar(a + size_4096(), r),
    ensures
        r == a + size_4096(),
{
    let u = a + size_4096();
    lemma_no_default_after(a);
    lemma_first_query_after(a);
    assert(contains_seq(u, size_query()));
    let i = choose|i: int|
        occurs_at(u, size_query(), i) && (forall|j: int| 0 <= j < i ==> !occurs_at(u, size_query(), j))
            && r == u.take(i) + "?size=4096"@;
    if i < a.len() {
    } else if i > a.len() {
        assert(!occurs_at(u, size_query(), a.len() as int));
    }
    assert(u.take(a.len() as int) =~= a);
}

/// Law: resizing an avatar URL twice gives the same URL as resizing it once.
pub proof fn law_resize_idempotent(url: Seq<char>, once: Seq<char>, twice: Seq<char>)
    requires
        resized_avatar(url, once),
        resized_avatar(once, twice),
    ensures
        twice == once,
{
    reveal_strlit("?size=");
    if contains_seq(url, default_avatar_path()) {
    } else if contains_seq(url, size_query()) {
        let i = choose|i: int|
            occurs_at(url, size_query(), i) && (forall|j: int| 0 <= j < i ==> !occurs_at(url, size_query(), j))
                && once == url.take(i) + "?size=4096"@;
        let a = url.take(i);
        assert(a + size_4096() == once);
        if contains_seq(a, default_avatar_path()) {
            let j = choose|j: int| occurs_at(a, default_avatar_path(), j);
            assert(a.subrange(j, j + default_avatar_path().len()) =~= url.subrange(j, j + default_avatar_path().len()));
            assert(occurs_at(url, default_avatar_path(), j));
        }
        if contains_seq(a, size_query()) {
            let j = choose|j: int| occurs_at(a, size_query(), j);
            assert(a.len() == i);
            assert(a.subrange(j, j + size_query().len()) =~= url.subrange(j, j + size_query().len()));
            assert(occurs_at(url, size_query(), j));
            assert(j < i);
        }
        lemma_resized_fixed(a, twice);
    } else {
        assert(url + size_4096() == once);
        lemma_resized_fixed(url, twice);
    }
}

/// The PNG URL of a custom avatar.
pub open spec fn avatar_png(user_id: u64, hash: Seq<char>) -> Seq<char> {
    "https://cdn.discordapp.com/avatars/"@ + decimal(user_id as nat) + "/"@ + hash + ".png"@
}

pub fn avatar_png_url(user_id: u64, hash: &str) -> (r: String)
    ensures
        r@ == avatar_png(user_id, hash@),
{
    let mut r = String::from_str("https://cdn.discordapp.com/avatars/");
    push_decimal(&mut r, user_id);
    push_str(&mut r, "/");
    push_str(&mut r, hash);
    push_str(&mut r, ".png");
    r
}

/// The avatar of a user for the value `me`: the custom avatar as PNG, or the
/// default avatar URL when the user has none.
pub fn me_avatar_url(user_id: u64, hash: Option<&str>, default_url: &str) -> (r: String)
    ensures
        r@ == match hash {
            Some(h) => avatar_png(user_id, h@),
            None => default_url@,
        },
{
    match hash {
        Some(h) => avatar_png_url(user_id, h),
        None => String::from_str(default_url),
    }
}

} // verus!
