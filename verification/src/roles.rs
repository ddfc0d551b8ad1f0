//! Colour roles: a member holding the auto-colour role gets a role named
//! `:rrggbb` after the average colour of their avatar, and a weekly task
//! deletes the colour roles nobody holds.
use vstd::prelude::*;
use vstd::utf8::{decode_utf8, encode_utf8, is_char_boundary};
use vstd::string::StringSliceAdditionalSpecFns;
use crate::text::{byte_len, chars_of, hex_digit, hex_digit_char, join, push_str, starts_with, starts_with_chars, string_of};

verus! {

/// What to do when a member is updated.
#[derive(PartialEq, Eq, Structural, Debug, Clone, Copy)]
pub enum MemberUpdate {
    Nothing,
    /// The member lost the auto-colour role: remove their colour roles.
    StripColorRoles,
    /// Give the member the colour role of their avatar.
    Recolor,
}

/// `before` is the member as cached (`None` when not cached): whether they held
/// the auto-colour role, and their avatar; `has_role` and `avatar` are as updated.
pub open spec fn member_update(before: Option<(bool, Option<Seq<char>>)>, has_role: bool, avatar: Option<Seq<char>>) -> MemberUpdate {
    match before {
        None => if has_role { MemberUpdate::Recolor } else { MemberUpdate::Nothing },
        Some((had, old_avatar)) => if !had && has_role {
            MemberUpdate::Recolor
        } else if had && has_role {
            if old_avatar != avatar { MemberUpdate::Recolor } else { MemberUpdate::Nothing }
        } else if had && !has_role {
            MemberUpdate::StripColorRoles
        } else {
            MemberUpdate::Nothing
        },
    }
}

pub open spec fn opt_view(o: Option<String>) -> Option<Seq<char>> {
    match o {
        Some(s) => Some(s@),
        None => None,
    }
}

fn same_opt(a: &Option<String>, b: &Option<String>) -> (r: bool)
    ensures
        r == (opt_view(*a) == opt_view(*b)),
{
    match (a, b) {
        (Some(x), Some(y)) => {
            let xv = chars_of(x.as_str());
            let yv = chars_of(y.as_str());
            crate::text::chars_eq(&xv, &yv)
        },
        (None, None) => true,
        _ => false,
    }
}

pub fn member_update_action(before: Option<(bool, Option<String>)>, has_role: bool, avatar: Option<String>) -> (r: MemberUpdate)
    ensures
        r == member_update(
            match before {
                Some((h, a)) => Some((h, opt_view(a))),
                None => None,
            },
            has_role,
            opt_view(avatar),
        ),
{
    match before {
        None => if has_role { MemberUpdate::Recolor } else { MemberUpdate::Nothing },
        Some((had, old_avatar)) => {
            if !had && has_role {
                MemberUpdate::Recolor
            } else if had && has_role {
                if !same_opt(&old_avatar, &avatar) { MemberUpdate::Recolor } else { MemberUpdate::Nothing }
            } else if had && !has_role {
                MemberUpdate::StripColorRoles
            } else {
                MemberUpdate::Nothing
            }
        },
    }
}

/// Law: a member whose avatar and auto-colour role did not change is left alone.
pub proof fn law_unchanged_member_left_alone(had: bool, avatar: Option<Seq<char>>)
    ensures
        member_update(Some((had, avatar)), had, avatar) == MemberUpdate::Nothing,
{
}

/// A byte as two lower-case hexadecimal digits (`{:02x}`).
pub open spec fn hex2(b: u8) -> Seq<char> {
    seq![hex_digit((b / 16) as int), hex_digit((b % 16) as int)]
}

/// The colour `rrggbb` in lower-case hexadecimal.
pub open spec fn hex_color(r: u8, g: u8, b: u8) -> Seq<char> {
    hex2(r) + hex2(g) + hex2(b)
}

pub fn hex_color_text(r: u8, g: u8, b: u8) -> (s: String)
    ensures
        s@ == hex_color(r, g, b),
{
    let mut s = String::new();
    s.push(hex_digit_char(r / 16));
    s.push(hex_digit_char(r % 16));
    s.push(hex_digit_char(g / 16));
    s.push(hex_digit_char(g % 16));
    s.push(hex_digit_char(b / 16));
    s.push(hex_digit_char(b % 16));
    assert(s@ =~= hex_color(r, g, b));
    s
}

/// Name of a new colour role.
pub open spec fn color_role_name(hex: Seq<char>) -> Seq<char> {
    ":"@ + hex
}

pub fn color_role_name_text(hex: &str) -> (s: String)
    ensures
        s@ == color_role_name(hex@),
{
    let mut s = String::from_str(":");
    push_str(&mut s, hex);
    s
}

/// What `str::to_lowercase` gives for a text.
pub uninterp spec fn lower(s: Seq<char>) -> Seq<char>;

/// Calls `str::to_lowercase`. Claimed: the result is `lower` of the text; the
/// Unicode case tables are not stated.
#[verifier::external_body]
pub(crate) fn to_lower(s: &str) -> (r: String)
    ensures
        r@ == lower(s@),
{
    s.to_lowercase()
}

/// The last six bytes of the lower-cased role name can be cut out (the
/// comparison of a colour role stops otherwise).
pub open spec fn tail_cuttable(name: Seq<char>) -> bool {
    let b = encode_utf8(lower(name));
    b.len() >= 6 ==> is_char_boundary(b, b.len() - 6)
}

/// A role is the colour role of `hex` when its lower-cased name ends with
/// `hex` in its last six bytes.
pub open spec fn role_has_color(name: Seq<char>, hex: Seq<char>) -> bool {
    let b = encode_utf8(lower(name));
    b.len() >= 6 && decode_utf8(b.subrange(b.len() - 6, b.len() as int)) == hex
}

/// Whether a role is the colour role of `hex`; `None` where its name cannot be cut.
pub fn role_color_matches(name: &str, hex: &str) -> (r: Option<bool>)
    ensures
        match r {
            Some(m) => tail_cuttable(name@) && m == role_has_color(name@, hex@),
            None => !tail_cuttable(name@),
        },
{
    let l = to_lower(name);
    let ls = l.as_str();
    let n = ls.as_bytes().len();
    proof {
        vstd::utf8::encode_utf8_valid_utf8(l@);
        assert(ls.spec_bytes() == encode_utf8(l@));
    }
    if n < 6 {
        return Some(false);
    }
    if !ls.is_char_boundary(n - 6) {
        return None;
    }
    let (_, tail) = ls.split_at(n - 6);
    proof {
        vstd::utf8::encode_utf8_decode_utf8(tail@);
    }
    let tv = chars_of(tail);
    let hv = chars_of(hex);
    Some(crate::text::chars_eq(&tv, &hv))
}


pub open spec fn names_view(v: Seq<String>) -> Seq<Seq<char>> {
    v.map_values(|s: String| s@)
}

/// The first of the roles (in the order given) that is the colour role of `hex`.
pub open spec fn first_color_role(names: Seq<Seq<char>>, hex: Seq<char>, k: int) -> Option<int>
    decreases names.len() - k,
{
    if k < 0 || k >= names.len() {
        None
    } else if role_has_color(names[k], hex) {
        Some(k)
    } else {
        first_color_role(names, hex, k + 1)
    }
}

/// Every role up to and including the first colour role of `hex` can be cut.
pub open spec fn search_cuttable(names: Seq<Seq<char>>, hex: Seq<char>, k: int) -> bool
    decreases names.len() - k,
{
    if k < 0 || k >= names.len() {
        true
    } else {
        tail_cuttable(names[k]) && (role_has_color(names[k], hex) || search_cuttable(names, hex, k + 1))
    }
}

/// Index of the existing colour role of `hex`; `None` inside when there is none;
/// `None` outside when a role's name on the way cannot be cut.
pub fn find_color_role(names: &Vec<String>, hex: &str) -> (r: Option<Option<usize>>)
    ensures
        match r {
            Some(found) => search_cuttable(names_view(names@), hex@, 0) && match found {
                Some(i) => first_color_role(names_view(names@), hex@, 0) == Some(i as int),
                None => first_color_role(names_view(names@), hex@, 0) is None,
            },
            None => !search_cuttable(names_view(names@), hex@, 0),
        },
{
    let ghost nv = names_view(names@);
    let mut i: usize = 0;
    while i < names.len()
        invariant
            nv == names_view(names@),
            i <= names.len(),
            first_color_role(nv, hex@, 0) == first_color_role(nv, hex@, i as int),
            search_cuttable(nv, hex@, 0) == search_cuttable(nv, hex@, i as int),
        decreases names.len() - i,
    {
        assert(nv[i as int] == names@[i as int]@);
        match role_color_matches(names[i].as_str(), hex) {
            None => return None,
            Some(true) => return Some(Some(i)),
            Some(false) => {},
        }
        i = i + 1;
    }
    Some(None)
}

/// A colour role is one whose name starts with `:`.
pub open spec fn is_color_role(name: Seq<char>) -> bool {
    starts_with(name, ":"@)
}

pub fn is_color_role_name(name: &str) -> (b: bool)
    ensures
        b == is_color_role(name@),
{
    let v = chars_of(name);
    let p = chars_of(":");
    starts_with_chars(&v, &p)
}

/// The member's roles to remove before a new colour: those known to the server
/// (`Some` name) that are colour roles, in the member's order.
pub open spec fn color_roles_held(held: Seq<(u64, Option<Seq<char>>)>) -> Seq<u64>
    decreases held.len(),
{
    if held.len() == 0 {
        seq![]
    } else {
        let prev = color_roles_held(held.drop_last());
        match held.last().1 {
            Some(n) => if is_color_role(n) { prev.push(held.last().0) } else { prev },
            None => prev,
        }
    }
}

pub open spec fn held_view(v: Seq<(u64, Option<String>)>) -> Seq<(u64, Option<Seq<char>>)> {
    v.map_values(|p: (u64, Option<String>)| (p.0, opt_view(p.1)))
}

pub fn color_roles_to_remove(held: &Vec<(u64, Option<String>)>) -> (r: Vec<u64>)
    ensures
        r@ == color_roles_held(held_view(held@)),
{
    let ghost hv = held_view(held@);
    let mut r: Vec<u64> = Vec::new();
    let mut i: usize = 0;
    while i < held.len()
        invariant
            hv == held_view(held@),
            i <= held.len(),
            r@ == color_roles_held(hv.take(i as int)),
        decreases held.len() - i,
    {
        assert(hv.take(i + 1).drop_last() =~= hv.take(i as int));
        assert(hv.take(i + 1).last() == (held@[i as int].0, opt_view(held@[i as int].1)));
        match &held[i].1 {
            Some(n) => {
                if is_color_role_name(n.as_str()) {
                    r.push(held[i].0);
                }
            },
            None => {},
        }
        i = i + 1;
    }
    assert(hv.take(held.len() as int) =~= hv);
    r
}

/// Position of a new colour role: just above the anchor role, or at the bottom
/// when the server has no such role.
pub open spec fn new_role_position(roles: Seq<(u64, u16)>, anchor: u64) -> int {
    if exists|i: int| 0 <= i < roles.len() && roles[i].0 == anchor {
        roles[choose|i: int| 0 <= i < roles.len() && roles[i].0 == anchor].1 + 1
    } else {
        0
    }
}

pub fn new_role_position_of(roles: &Vec<(u64, u16)>, anchor: u64) -> (p: u16)
    requires
        forall|i: int, j: int| 0 <= i < roles@.len() && 0 <= j < roles@.len() && roles@[i].0 == roles@[j].0 ==> i == j,
        forall|i: int| 0 <= i < roles@.len() && roles@[i].0 == anchor ==> roles@[i].1 < u16::MAX,
    ensures
        p == new_role_position(roles@, anchor),
{
    let mut i: usize = 0;
    while i < roles.len()
        invariant
            i <= roles.len(),
            forall|j: int| 0 <= j < i ==> roles@[j].0 != anchor,
            forall|a: int, b: int| 0 <= a < roles@.len() && 0 <= b < roles@.len() && roles@[a].0 == roles@[b].0 ==> a == b,
            forall|a: int| 0 <= a < roles@.len() && roles@[a].0 == anchor ==> roles@[a].1 < u16::MAX,
        decreases roles.len() - i,
    {
        if roles[i].0 == anchor {
            assert(roles@[i as int].0 == anchor);
            let ghost c = choose|k: int| 0 <= k < roles@.len() && roles@[k].0 == anchor;
            assert(c == i);
            return roles[i].1 + 1;
        }
        i = i + 1;
    }
    0
}

/// Colour roles (in the server's order) that no member holds.
pub open spec fn unheld(roles: Seq<(u64, Seq<char>)>, members: Seq<Seq<u64>>) -> Seq<(u64, Seq<char>)>
    decreases roles.len(),
{
    if roles.len() == 0 {
        seq![]
    } else {
        let prev = unheld(roles.drop_last(), members);
        let r = roles.last();
        if is_color_role(r.1) && !(exists|m: int| 0 <= m < members.len() && members[m].contains(r.0)) {
            prev.push(r)
        } else {
            prev
        }
    }
}

pub open spec fn roles_view(v: Seq<(u64, String)>) -> Seq<(u64, Seq<char>)> {
    v.map_values(|p: (u64, String)| (p.0, p.1@))
}

pub open spec fn members_view(v: Seq<Vec<u64>>) -> Seq<Seq<u64>> {
    v.map_values(|m: Vec<u64>| m@)
}

fn held_by_someone(members: &Vec<Vec<u64>>, role: u64) -> (b: bool)
    ensures
        b == exists|m: int| 0 <= m < members@.len() && members_view(members@)[m].contains(role),
{
    let mut m: usize = 0;
    while m < members.len()
        invariant
            m <= members.len(),
            forall|k: int| 0 <= k < m ==> !members_view(members@)[k].contains(role),
        decreases members.len() - m,
    {
        let roles = &members[m];
        assert(members_view(members@)[m as int] == roles@);
        let mut j: usize = 0;
        while j < roles.len()
            invariant
                m < members.len(),
                members_view(members@)[m as int] == roles@,
                j <= roles.len(),
                forall|k: int| 0 <= k < j ==> roles@[k] != role,
            decreases roles.len() - j,
        {
            if roles[j] == role {
                assert(roles@[j as int] == role);
                assert(roles@.contains(role));
                assert(members_view(members@)[m as int].contains(role));
                return true;
            }
            j = j + 1;
        }
        assert(!roles@.contains(role));
        m = m + 1;
    }
    false
}

/// The colour roles the weekly task deletes.
pub fn unheld_color_roles(roles: &Vec<(u64, String)>, members: &Vec<Vec<u64>>) -> (r: Vec<(u64, String)>)
    ensures
        roles_view(r@) == unheld(roles_view(roles@), members_view(members@)),
{
    let ghost rv = roles_view(roles@);
    let ghost mv = members_view(members@);
    let mut r: Vec<(u64, String)> = Vec::new();
    let mut i: usize = 0;
    while i < roles.len()
        invariant
            rv == roles_view(roles@),
            mv == members_view(members@),
            i <= roles.len(),
            roles_view(r@) == unheld(rv.take(i as int), mv),
        decreases roles.len() - i,
    {
        assert(rv.take(i + 1).drop_last() =~= rv.take(i as int));
        assert(rv.take(i + 1).last() == (roles@[i as int].0, roles@[i as int].1@));
        let (id, name) = (roles[i].0, &roles[i].1);
        if is_color_role_name(name.as_str()) && !held_by_someone(members, id) {
            let ghost prev = r@;
            r.push((id, name.clone()));
            assert(roles_view(r@) =~= roles_view(prev).push((id, name@)));
        }
        i = i + 1;
    }
    assert(rv.take(roles.len() as int) =~= rv);
    r
}

/// Law: the weekly task deletes only colour roles, and none that a member holds.
pub proof fn law_unheld_are_free(roles: Seq<(u64, Seq<char>)>, members: Seq<Seq<u64>>)
    ensures
        forall|i: int| 0 <= i < unheld(roles, members).len() ==> {
            let r = #[trigger] unheld(roles, members)[i];
            is_color_role(r.1) && forall|m: int| 0 <= m < members.len() ==> !members[m].contains(r.0)
        },
    decreases roles.len(),
{
    if roles.len() > 0 {
        law_unheld_are_free(roles.drop_last(), members);
        let prev = unheld(roles.drop_last(), members);
        let u = unheld(roles, members);
        assert forall|i: int| 0 <= i < u.len() implies {
            let r = #[trigger] u[i];
            is_color_role(r.1) && forall|m: int| 0 <= m < members.len() ==> !members[m].contains(r.0)
        } by {
            if i < prev.len() {
                assert(u[i] == prev[i]);
            }
        }
    }
}

/// The lines of a report: each name indented by two spaces.
pub open spec fn indented(names: Seq<Seq<char>>) -> Seq<char> {
    join(names.map_values(|n: Seq<char>| "  "@ + n), "\n"@)
}

/// The report of the weekly task.
pub open spec fn gc_report(deleted: Seq<Seq<char>>, failed: Seq<Seq<char>>) -> Seq<char> {
    if deleted.len() == 0 && failed.len() == 0 {
        "```No roles deleted or failed```"@
    } else if failed.len() == 0 {
        "```[Deleted roles]\n"@ + indented(deleted) + "\n```"@
    } else if deleted.len() == 0 {
        "```[Failed roles]\n"@ + indented(failed) + "\n```"@
    } else {
        "```[Deleted roles]\n"@ + indented(deleted) + "\n\n[Failed roles]\n"@ + indented(failed) + "\n```"@
    }
}

fn push_indented(s: &mut String, names: &Vec<String>)
    ensures
        final(s)@ == old(s)@ + indented(names_view(names@)),
{
    let mut lines: Vec<String> = Vec::new();
    let mut i: usize = 0;
    while i < names.len()
        invariant
            i <= names.len(),
            names_view(lines@) == names_view(names@.take(i as int)).map_values(|n: Seq<char>| "  "@ + n),
        decreases names.len() - i,
    {
        let mut l = String::from_str("  ");
        push_str(&mut l, names[i].as_str());
        let ghost prev = lines@;
        lines.push(l);
        assert(names_view(lines@) =~= names_view(prev).push(l@));
        assert(names_view(names@.take(i + 1)) =~= names_view(names@.take(i as int)).push(names@[i as int]@));
        assert(names_view(lines@) =~= names_view(names@.take(i + 1)).map_values(|n: Seq<char>| "  "@ + n));
        i = i + 1;
    }
    assert(names@.take(names.len() as int) =~= names@);
    crate::text::push_joined(s, &lines, "\n");
}

pub fn gc_report_text(deleted: &Vec<String>, failed: &Vec<String>) -> (r: String)
    ensures
        r@ == gc_report(names_view(deleted@), names_view(failed@)),
{
    if deleted.len() == 0 && failed.len() == 0 {
        String::from_str("```No roles deleted or failed```")
    } else if failed.len() == 0 {
        let mut s = String::from_str("```[Deleted roles]\n");
        push_indented(&mut s, deleted);
        push_str(&mut s, "\n```");
        s
    } else if deleted.len() == 0 {
        let mut s = String::from_str("```[Failed roles]\n");
        push_indented(&mut s, failed);
        push_str(&mut s, "\n```");
        s
    } else {
        let mut s = String::from_str("```[Deleted roles]\n");
        push_indented(&mut s, deleted);
        push_str(&mut s, "\n\n[Failed roles]\n");
        push_indented(&mut s, failed);
        push_str(&mut s, "\n```");
        s
    }
}

} // verus!
