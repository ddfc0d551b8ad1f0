//! The up-vote board: counting "⬆️" reactions and deciding what happens to a
//! message's copy in the pin channel.
use vstd::prelude::*;
use crate::text::{chars_of, chars_eq, starts_with, starts_with_chars, push_decimal, push_str, decimal};

verus! {

/// Number of up-votes from which a message gets a copy in the pin channel.
pub const PIN_THRESHOLD: u16 = 3;

/// The reaction that counts as an up-vote: U+2B06 U+FE0F.
pub open spec fn upvote_emoji() -> Seq<char> {
    seq!['\u{2B06}', '\u{FE0F}']
}

/// Whether a Unicode reaction is the up-vote emoji.
pub fn is_upvote_emoji(emoji: &str) -> (b: bool)
    ensures
        b == (emoji@ == upvote_emoji()),
{
    let v = chars_of(emoji);
    let up: Vec<char> = vec!['\u{2B06}', '\u{FE0F}'];
    assert(up@ =~= upvote_emoji());
    chars_eq(&v, &up)
}

/// A stored count moved by one reaction, saturating at both ends of `u16`.
pub open spec fn stepped_count(current: u16, increase: bool) -> u16 {
    if increase {
        if current == u16::MAX { current } else { (current + 1) as u16 }
    } else {
        if current == 0 { 0 } else { (current - 1) as u16 }
    }
}

/// The count after one reaction was added (`increase`) or removed.
pub fn next_count(current: u16, increase: bool) -> (r: u16)
    ensures
        r == stepped_count(current, increase),
{
    if increase {
        current.saturating_add(1)
    } else {
        current.saturating_sub(1)
    }
}

/// One reaction on a message: its Unicode emoji (`None` for a custom emoji) and
/// how many users chose it.
pub struct ReactionCount {
    pub unicode: Option<String>,
    pub count: u64,
}

pub open spec fn is_upvote_reaction(r: ReactionCount) -> bool {
    r.unicode matches Some(s) && s@ == upvote_emoji()
}

/// `a.saturating_add(b)` on `u16`.
pub open spec fn sat_add(a: u16, b: u16) -> u16 {
    if a + b > u16::MAX { u16::MAX } else { (a + b) as u16 }
}

/// A reaction count as `u16`: the low sixteen bits, as `as u16` keeps them.
pub open spec fn low16(n: u64) -> u16 {
    (n % 65536) as u16
}

/// The up-votes among `rs`: each one's count cut to `u16`, summed with saturation.
pub open spec fn tally(rs: Seq<ReactionCount>) -> u16
    decreases rs.len(),
{
    if rs.len() == 0 {
        0
    } else if is_upvote_reaction(rs.last()) {
        sat_add(tally(rs.drop_last()), low16(rs.last().count))
    } else {
        tally(rs.drop_last())
    }
}

/// The count a message starts with on the board: its up-vote reactions.
pub fn tally_upvotes(rs: &[ReactionCount]) -> (r: u16)
    ensures
        r == tally(rs@),
{
    let mut count: u16 = 0;
    let mut i: usize = 0;
    while i < rs.len()
        invariant
            i <= rs.len(),
            count == tally(rs@.take(i as int)),
        decreases rs.len() - i,
    {
        assert(rs@.take(i + 1).drop_last() =~= rs@.take(i as int));
        let r = &rs[i];
        match &r.unicode {
            Some(s) => {
                if is_upvote_emoji(s.as_str()) {
                    let low = (r.count % 65536) as u16;
                    count = count.saturating_add(low);
                }
            },
            None => {},
        }
        i = i + 1;
    }
    assert(rs@.take(rs.len() as int) =~= rs@);
    count
}

/// What to do with the copy of a message in the pin channel.
#[derive(PartialEq, Eq, Structural, Debug, Clone, Copy)]
pub enum PinAction {
    Nothing,
    Create,
    Edit(u64),
    Delete(u64),
}

/// After an up-vote was added: a message at the threshold or above gets a copy,
/// or its copy (`pin_id`, 0 for none) is refreshed.
/// After an up-vote: below the threshold nothing; at or above it the pin is
/// created, or edited when there is one.
pub open spec fn pin_on_add(count: u16, pin_id: u64) -> PinAction {
    if count < PIN_THRESHOLD {
        PinAction::Nothing
    } else if pin_id == 0 {
        PinAction::Create
    } else {
        PinAction::Edit(pin_id)
    }
}

/// After an up-vote is taken back: without a pin nothing; below the threshold
/// the pin is deleted, else edited.
pub open spec fn pin_on_remove(count: u16, pin_id: u64) -> PinAction {
    if pin_id == 0 {
        PinAction::Nothing
    } else if count < PIN_THRESHOLD {
        PinAction::Delete(pin_id)
    } else {
        PinAction::Edit(pin_id)
    }
}

pub fn pin_action_on_add(count: u16, pin_id: u64) -> (a: PinAction)
    ensures
        a == pin_on_add(count, pin_id),
{
    if count >= PIN_THRESHOLD {
        if pin_id == 0 {
            PinAction::Create
        } else {
            PinAction::Edit(pin_id)
        }
    } else {
        PinAction::Nothing
    }
}

/// After an up-vote was removed: an existing copy (`pin_id` not 0) is deleted
/// below the threshold and refreshed otherwise.
pub fn pin_action_on_remove(count: u16, pin_id: u64) -> (a: PinAction)
    ensures
        a == pin_on_remove(count, pin_id),
{
    if pin_id != 0 {
        if count < PIN_THRESHOLD {
            PinAction::Delete(pin_id)
        } else {
            PinAction::Edit(pin_id)
        }
    } else {
        PinAction::Nothing
    }
}

/// Adding an up-vote and taking it back leaves the count as it was, unless it
/// stood at the top of `u16`.
pub proof fn law_add_then_remove(c: u16)
    requires
        c < u16::MAX,
    ensures
        stepped_count(stepped_count(c, true), false) == c,
{
}

/// Removing an up-vote and adding it back leaves the count as it was, unless
/// it stood at zero.
pub proof fn law_remove_then_add(c: u16)
    requires
        c > 0,
    ensures
        stepped_count(stepped_count(c, false), true) == c,
{
}

/// Twemoji code of the icon for each tier of the board.
/// A message's row on the board: its up-vote count and its pin message (0 for none).
pub struct BoardRow {
    pub count: u16,
    pub pin_id: u64,
}

/// The board's invariant: only a message with enough up-votes has a pin.
pub open spec fn board_ok(r: BoardRow) -> bool {
    r.pin_id != 0 ==> r.count >= PIN_THRESHOLD
}

/// The pin after an action; `created` is the id of a pin message just sent.
pub open spec fn pin_after(pin_id: u64, a: PinAction, created: u64) -> u64 {
    match a {
        PinAction::Create => created,
        PinAction::Delete(_) => 0,
        _ => pin_id,
    }
}

/// The row after an up-vote is added (`up`) or taken back, and the pin action
/// carried out; a new pin message gets the id `created`.
pub open spec fn board_step(r: BoardRow, up: bool, created: u64) -> BoardRow {
    let c = stepped_count(r.count, up);
    let a = if up { pin_on_add(c, r.pin_id) } else { pin_on_remove(c, r.pin_id) };
    BoardRow { count: c, pin_id: pin_after(r.pin_id, a, created) }
}

/// The row after a run of up-votes added (`true`) and taken back (`false`);
/// the `k`-th event may create a pin with the id `created[k]`.
pub open spec fn board_run(r: BoardRow, events: Seq<bool>, created: Seq<u64>) -> BoardRow
    decreases events.len(),
{
    if events.len() == 0 {
        r
    } else {
        board_step(board_run(r, events.drop_last(), created), events.last(), created[events.len() - 1])
    }
}

/// Law: adding or taking back one up-vote keeps the board's invariant: a pin
/// exists only while the message has at least three up-votes.
pub proof fn law_board_step_keeps_invariant(r: BoardRow, up: bool, created: u64)
    requires
        board_ok(r),
    ensures
        board_ok(board_step(r, up, created)),
{
}

/// Law: the invariant holds after any run of up-votes added and taken back.
pub proof fn law_board_run_keeps_invariant(r: BoardRow, events: Seq<bool>, created: Seq<u64>)
    requires
        board_ok(r),
        created.len() >= events.len(),
    ensures
        board_ok(board_run(r, events, created)),
    decreases events.len(),
{
    if events.len() > 0 {
        law_board_run_keeps_invariant(r, events.drop_last(), created);
        law_board_step_keeps_invariant(board_run(r, events.drop_last(), created), events.last(), created[events.len() - 1]);
    }
}

/// Law: a message seen for the first time starts with no pin, so its row keeps
/// the invariant whatever its tally.
pub proof fn law_new_row_ok(count: u16)
    ensures
        board_ok(BoardRow { count, pin_id: 0 }),
{
}

pub open spec fn pin_icon_code(index: int) -> Seq<char> {
    if index == 0 {
        "2b06"@
    } else if index == 1 {
        "1f53c"@
    } else if index == 2 {
        "23eb"@
    } else {
        "1f4c8"@
    }
}

pub open spec fn pin_icon_base() -> Seq<char> {
    "https://raw.githubusercontent.com/twitter/twemoji/refs/heads/master/assets/72x72/"@
}

/// The icon URL of a board tier.
pub fn get_pin_icon_url(index: usize) -> (url: String)
    requires
        index < 4,
    ensures
        url@ == pin_icon_base() + pin_icon_code(index as int) + ".png"@,
{
    let mut url = String::new();
    push_str(&mut url, "https://raw.githubusercontent.com/twitter/twemoji/refs/heads/master/assets/72x72/");
    let code = if index == 0 {
        "2b06"
    } else if index == 1 {
        "1f53c"
    } else if index == 2 {
        "23eb"
    } else {
        "1f4c8"
    };
    push_str(&mut url, code);
    push_str(&mut url, ".png");
    url
}

/// Tier of a board entry: 0 below 5 votes, 1 from 5, 2 from 8, 3 from 10.
pub open spec fn pin_tier(count: u16) -> int {
    if count >= 10 {
        3
    } else if count >= 8 {
        2
    } else if count >= 5 {
        1
    } else {
        0
    }
}

/// Embed colour of each tier.
pub open spec fn tier_color(tier: int) -> u32 {
    if tier == 3 {
        0xFA05C1
    } else if tier == 2 {
        0xA805FA
    } else if tier == 1 {
        0x1105FA
    } else {
        0x05B5FA
    }
}

/// A file attached to a message: its MIME type, when known, and its URL.
pub struct AttachmentInfo {
    pub content_type: Option<String>,
    pub url: String,
}

pub open spec fn is_image(a: AttachmentInfo) -> bool {
    a.content_type matches Some(t) && starts_with(t@, "image/"@)
}

/// How many of the attachments are images.
pub open spec fn image_count(s: Seq<AttachmentInfo>) -> nat
    decreases s.len(),
{
    if s.len() == 0 {
        0
    } else {
        image_count(s.drop_last()) + if is_image(s.last()) { 1nat } else { 0nat }
    }
}

/// URL of the first image among the attachments.
pub open spec fn first_image(s: Seq<AttachmentInfo>) -> Option<Seq<char>>
    decreases s.len(),
{
    if s.len() == 0 {
        None
    } else if first_image(s.drop_last()) is Some {
        first_image(s.drop_last())
    } else if is_image(s.last()) {
        Some(s.last().url@)
    } else {
        None
    }
}

pub proof fn lemma_first_image_count(s: Seq<AttachmentInfo>)
    ensures
        (first_image(s) is Some) == (image_count(s) > 0),
    decreases s.len(),
{
    if s.len() > 0 {
        lemma_first_image_count(s.drop_last());
    }
}

/// The message that the board shows, as plain values: its text, where it is,
/// its author's name and avatar (`avatar_url`, or the default avatar when the
/// author has none) and its attachments.
pub struct PinSource {
    pub content: String,
    /// The server, `None` for a direct message.
    pub guild: Option<u64>,
    pub channel: u64,
    pub message: u64,
    pub author_name: String,
    pub avatar_url: Option<String>,
    pub default_avatar_url: String,
    pub attachments: Vec<AttachmentInfo>,
}

/// The link of a message, as `MessageId::link` writes it: `@me` in place of the
/// server for a direct message.
pub open spec fn message_url(guild: Option<u64>, channel: u64, message: u64) -> Seq<char> {
    "https://discord.com/channels/"@ + (match guild {
        Some(g) => decimal(g as nat),
        None => "@me"@,
    }) + "/"@ + decimal(channel as nat) + "/"@ + decimal(message as nat)
}

pub fn message_url_text(guild: Option<u64>, channel: u64, message: u64) -> (r: String)
    ensures
        r@ == message_url(guild, channel, message),
{
    let mut r = String::from_str("https://discord.com/channels/");
    match guild {
        Some(g) => push_decimal(&mut r, g),
        None => push_str(&mut r, "@me"),
    }
    push_str(&mut r, "/");
    push_decimal(&mut r, channel);
    push_str(&mut r, "/");
    push_decimal(&mut r, message);
    r
}

/// The board's copy of a message.
pub struct PinEmbed {
    /// "PIN", or "PIN_IMAGE+" when the message holds more than one image.
    pub title: String,
    /// The message's text.
    pub description: String,
    /// The link to the message.
    pub url: String,
    /// The first image attached to the message.
    pub image: Option<String>,
    /// The vote count, in decimal.
    pub author_text: String,
    pub icon_url: String,
    pub color: u32,
    /// The message author's name and avatar.
    pub footer_text: String,
    pub footer_icon: String,
}

pub fn is_image_attachment(a: &AttachmentInfo) -> (b: bool)
    ensures
        b == is_image(*a),
{
    match &a.content_type {
        Some(t) => {
            let v = chars_of(t.as_str());
            let p: Vec<char> = vec!['i', 'm', 'a', 'g', 'e', '/'];
            proof { reveal_strlit("image/"); }
            assert(p@ =~= "image/"@);
            starts_with_chars(&v, &p)
        },
        None => false,
    }
}

/// The board entry for a message with `count` votes.
pub fn build_pin_embed(m: &PinSource, count: u16) -> (e: PinEmbed)
    ensures
        e.description@ == m.content@,
        e.url@ == message_url(m.guild, m.channel, m.message),
        e.footer_text@ == m.author_name@,
        e.footer_icon@ == (match m.avatar_url {
            Some(a) => a@,
            None => m.default_avatar_url@,
        }),
        e.title@ == (if image_count(m.attachments@) > 1 { "PIN_IMAGE+"@ } else { "PIN"@ }),
        match e.image {
            Some(u) => first_image(m.attachments@) == Some(u@),
            None => first_image(m.attachments@) is None,
        },
        e.author_text@ == decimal(count as nat),
        e.icon_url@ == pin_icon_base() + pin_icon_code(pin_tier(count)) + ".png"@,
        e.color == tier_color(pin_tier(count)),
{
    let attachments = m.attachments.as_slice();
    let mut image: Option<String> = None;
    let mut more_image = false;
    let mut i: usize = 0;
    assert(attachments@.take(attachments.len() as int) =~= attachments@);
    while i < attachments.len()
        invariant_except_break
            i <= attachments.len(),
            attachments@.take(attachments.len() as int) == attachments@,
            !more_image,
            image_count(attachments@.take(i as int)) <= 1,
            match image {
                Some(u) => first_image(attachments@.take(i as int)) == Some(u@),
                None => first_image(attachments@.take(i as int)) is None,
            },
        ensures
            more_image == (image_count(attachments@) > 1),
            match image {
                Some(u) => first_image(attachments@) == Some(u@),
                None => first_image(attachments@) is None,
            },
        decreases attachments.len() - i,
    {
        proof {
            lemma_first_image_count(attachments@.take(i as int));
        }
        assert(attachments@.take(i + 1).drop_last() =~= attachments@.take(i as int));
        if is_image_attachment(&attachments[i]) {
            if image.is_none() {
                image = Some(attachments[i].url.clone());
            } else {
                more_image = true;
                proof {
                    lemma_image_count_prefix(attachments@, i + 1);
                    lemma_first_image_prefix(attachments@, i + 1);
                }
                break;
            }
        }
        i = i + 1;
    }
    let title = if more_image {
        String::from_str("PIN_IMAGE+")
    } else {
        String::from_str("PIN")
    };
    let mut author_text = String::new();
    push_decimal(&mut author_text, count as u64);
    let tier: usize = if count >= 10 {
        3
    } else if count >= 8 {
        2
    } else if count >= 5 {
        1
    } else {
        0
    };
    let color: u32 = if tier == 3 {
        0xFA05C1
    } else if tier == 2 {
        0xA805FA
    } else if tier == 1 {
        0x1105FA
    } else {
        0x05B5FA
    };
    let footer_icon = match &m.avatar_url {
        Some(a) => a.clone(),
        None => m.default_avatar_url.clone(),
    };
    PinEmbed {
        title,
        description: m.content.clone(),
        url: message_url_text(m.guild, m.channel, m.message),
        image,
        author_text,
        icon_url: get_pin_icon_url(tier),
        color,
        footer_text: m.author_name.clone(),
        footer_icon,
    }
}

/// A prefix never holds more images than the whole.
pub proof fn lemma_image_count_prefix(s: Seq<AttachmentInfo>, k: int)
    requires
        0 <= k <= s.len(),
    ensures
        image_count(s.take(k)) <= image_count(s),
    decreases s.len() - k,
{
    if k < s.len() {
        lemma_image_count_prefix(s, k + 1);
        assert(s.take(k + 1).drop_last() =~= s.take(k));
    } else {
        assert(s.take(k) =~= s);
    }
}

/// Once a prefix holds an image, the first image of the whole is that one.
pub proof fn lemma_first_image_prefix(s: Seq<AttachmentInfo>, k: int)
    requires
        0 <= k <= s.len(),
        first_image(s.take(k)) is Some,
    ensures
        first_image(s) == first_image(s.take(k)),
    decreases s.len() - k,
{
    if k < s.len() {
        assert(s.take(k + 1).drop_last() =~= s.take(k));
        lemma_first_image_prefix(s, k + 1);
    } else {
        assert(s.take(k) =~= s);
    }
}

} // verus!
