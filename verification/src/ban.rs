//! The joke `ban` commands: who gets "banned", by whom and why, the fake ban report,
//! and keeping the Wick webhook looking like Wick.
use vstd::prelude::*;

use crate::text::{decimal, push_str, push_u64};

verus! {

/// The user whose `ban` is always turned back on them.
pub open spec fn banned_banner() -> u64 {
    497014954935713802
}

/// The user who cannot be banned, and who is named moderator when a ban is turned back.
pub open spec fn unbannable() -> u64 {
    966519580266737715
}

/// A fake ban to post: who is banned, who is named moderator, and why.
#[derive(Debug, PartialEq, Eq)]
pub struct JokeBan {
    /// Whether the one banned is the one who asked.
    pub ban_author: bool,
    pub moderator_id: u64,
    pub reason: String,
}

/// The reason shown: the one given, or `No reason`.
pub open spec fn reason_text(reason: Option<Seq<char>>) -> Seq<char> {
    match reason {
        Some(r) => r,
        None => "No reason"@,
    }
}

/// The reason shown; see [`reason_text`].
pub fn reason_or_default(reason: Option<String>) -> (r: String)
    ensures
        r@ == reason_text(
            match reason {
                Some(s) => Some(s@),
                None => None,
            },
        ),
{
    match reason {
        Some(s) => s,
        None => {
            let mut s = String::new();
            push_str(&mut s, "No reason");
            s
        },
    }
}

/// What `ban` does: the author of the joke ban command, or an attempt on the unbannable
/// user, gets the asker banned "by" the unbannable user for `sike`; anyone else's
/// target is banned by the asker for the given reason.
pub fn ban(author_id: u64, target_id: u64, reason: Option<String>) -> (r: JokeBan)
    ensures
        (author_id == banned_banner() || target_id == unbannable()) ==> (r.ban_author
            && r.moderator_id == unbannable() && r.reason@ == "sike"@),
        !(author_id == banned_banner() || target_id == unbannable()) ==> (!r.ban_author
            && r.moderator_id == author_id && r.reason@ == reason_text(
            match reason {
                Some(s) => Some(s@),
                None => None,
            },
        )),
{
    if author_id == 497014954935713802 || target_id == 966519580266737715 {
        let mut s = String::new();
        push_str(&mut s, "sike");
        JokeBan { ban_author: true, moderator_id: 966519580266737715, reason: s }
    } else {
        JokeBan { ban_author: false, moderator_id: author_id, reason: reason_or_default(reason) }
    }
}

/// What `banban` does: the joke ban command's author gets banned for
/// `get banbanned lol`; anyone else gets a picture (`None`).
pub fn banban(author_id: u64) -> (r: Option<JokeBan>)
    ensures
        author_id == banned_banner() ==> (r matches Some(b) && b.ban_author && b.moderator_id
            == unbannable() && b.reason@ == "get banbanned lol"@),
        author_id != banned_banner() ==> r is None,
{
    if author_id == 497014954935713802 {
        let mut s = String::new();
        push_str(&mut s, "get banbanned lol");
        Some(JokeBan { ban_author: true, moderator_id: 966519580266737715, reason: s })
    } else {
        None
    }
}

/// The picture `banban` shows everyone else.
pub fn banban_image() -> (r: String)
    ensures
        r@ == "https://files.catbox.moe/jm6sr9.png"@,
{
    let mut s = String::new();
    push_str(&mut s, "https://files.catbox.moe/jm6sr9.png");
    s
}

/// The part of the fake report's first field after the moderator's id.
pub open spec fn details_text() -> Seq<char> {
    "><:ticket:1167852279383216198><:message:1167852277273464956><:star_ticket:1167852280264003634><:star:1167852409989627954><:bomb:1167852281551663166>\n                    <:crosshair:1167852283422314588> **Details:**\n                    \u{200B}\u{200B}\u{200B}\u{200B}<:double_arrow:1167852272659734550> Duration: <:fail:1167852407028461648>\n                    \u{200B}\u{200B}\u{200B}\u{200B}<:double_arrow:1167852272659734550> Soft Ban: <:fail:1167852407028461648>\n                    \u{200B}\u{200B}\u{200B}\u{200B}<:double_arrow:1167852272659734550> Hack Ban: <:fail:1167852407028461648>\n                    \u{200B}\u{200B}\u{200B}\u{200B}<:double_arrow:1167852272659734550> DM-Members: <:fail:1167852407028461648>"@
}

/// The fields of the fake ban report: the reason and moderator with the ban's
/// details, the banned user among the successful bans, and no unsuccessful bans.
pub open spec fn ban_fields(reason: Seq<char>, moderator_id: u64, user: Seq<char>) -> Seq<Seq<char>> {
    seq![
        "<:reason:1167852271560839248> **Reason:** "@ + reason
            + "\n                    <:moderator:1167852275868389537> **Moderator:** <@"@ + decimal(
            moderator_id as nat,
        ) + details_text(),
        "<:success:1167852408626499664> **Successful bans**\n                <:arrow:1167852274589122631> `"@
            + user + "`"@,
        "<:fail:1167852407028461648> **Unsuccessful bans**\n                All users were banned!"@,
    ]
}

/// The fake ban report: titled `Ban result:`, colored `#2F3136`, with untitled fields.
#[derive(Debug)]
pub struct BanEmbed {
    pub title: String,
    pub color: u32,
    pub fields: Vec<String>,
}

/// The fake ban report; see [`ban_fields`].
pub fn ban_embed(reason: &str, moderator_id: u64, user: &str) -> (r: BanEmbed)
    ensures
        r.title@ == "Ban result:"@,
        r.color == 0x2F3136,
        r.fields@.len() == 3,
        forall|i: int| 0 <= i < 3 ==> #[trigger] r.fields@[i]@ == ban_fields(reason@, moderator_id, user@)[i],
{
    let mut a = String::new();
    push_str(&mut a, "<:reason:1167852271560839248> **Reason:** ");
    push_str(&mut a, reason);
    push_str(&mut a, "\n                    <:moderator:1167852275868389537> **Moderator:** <@");
    push_u64(&mut a, moderator_id);
    push_str(&mut a, "><:ticket:1167852279383216198><:message:1167852277273464956><:star_ticket:1167852280264003634><:star:1167852409989627954><:bomb:1167852281551663166>\n                    <:crosshair:1167852283422314588> **Details:**\n                    \u{200B}\u{200B}\u{200B}\u{200B}<:double_arrow:1167852272659734550> Duration: <:fail:1167852407028461648>\n                    \u{200B}\u{200B}\u{200B}\u{200B}<:double_arrow:1167852272659734550> Soft Ban: <:fail:1167852407028461648>\n                    \u{200B}\u{200B}\u{200B}\u{200B}<:double_arrow:1167852272659734550> Hack Ban: <:fail:1167852407028461648>\n                    \u{200B}\u{200B}\u{200B}\u{200B}<:double_arrow:1167852272659734550> DM-Members: <:fail:1167852407028461648>");
    let mut b = String::new();
    push_str(&mut b, "<:success:1167852408626499664> **Successful bans**\n                <:arrow:1167852274589122631> `");
    push_str(&mut b, user);
    push_str(&mut b, "`");
    let mut c = String::new();
    push_str(&mut c, "<:fail:1167852407028461648> **Unsuccessful bans**\n                All users were banned!");
    let mut t = String::new();
    push_str(&mut t, "Ban result:");
    let mut fields = Vec::new();
    fields.push(a);
    fields.push(b);
    fields.push(c);
    BanEmbed { title: t, color: 0x2F3136, fields }
}

/// What to change on the channel's Wick webhook so that it looks like Wick.
#[derive(Debug, PartialEq, Eq)]
pub struct WebhookChanges {
    /// Create a webhook named after Wick, as none named `Wick` exists.
    pub create: bool,
    /// Rename it to Wick's name.
    pub rename: bool,
    /// Give it Wick's picture.
    pub set_avatar: bool,
}

/// The index of the first webhook named `Wick`, if any.
pub open spec fn first_wick(names: Seq<Option<Seq<char>>>) -> Option<int> {
    if exists|i: int| 0 <= i < names.len() && names[i] == Some("Wick"@) {
        Some(choose|i: int|
            0 <= i < names.len() && names[i] == Some("Wick"@) && forall|j: int|
                0 <= j < i ==> names[j] != Some("Wick"@))
    } else {
        None
    }
}

/// Finds the channel's first webhook named `Wick`, given the webhooks' names.
pub fn find_wick(names: &Vec<Option<String>>) -> (r: Option<usize>)
    ensures
        match first_wick(Seq::new(names@.len(), |i: int| match names@[i] {
            Some(s) => Some(s@),
            None => None,
        })) {
            Some(i) => r == Some(i as usize),
            None => r is None,
        },
{
    let ghost ns = Seq::new(names@.len(), |i: int| match names@[i] {
        Some(s) => Some(s@),
        None => None::<Seq<char>>,
    });
    let wick = crate::text::chars_of("Wick");
    for i in 0..names.len()
        invariant
            ns == Seq::new(names@.len(), |i: int| match names@[i] {
                Some(s) => Some(s@),
                None => None::<Seq<char>>,
            }),
            wick@ == "Wick"@,
            forall|j: int| 0 <= j < i ==> ns[j] != Some("Wick"@),
    {
        let hit = match &names[i] {
            Some(s) => {
                let cs = crate::text::chars_of(s.as_str());
                crate::text::chars_eq(&cs, &wick)
            },
            None => false,
        };
        if hit {
            assert(ns[i as int] == Some("Wick"@));
            assert(first_wick(ns) == Some(i as int)) by {
                let k = choose|k: int|
                    0 <= k < ns.len() && ns[k] == Some("Wick"@) && forall|j: int|
                        0 <= j < k ==> ns[j] != Some("Wick"@);
                if k > i {
                    assert(ns[i as int] != Some("Wick"@));
                }
            }
            return Some(i);
        }
        assert(ns[i as int] != Some("Wick"@));
    }
    None
}

/// What to change so the webhook looks like Wick, given the picture of the webhook
/// named `Wick` if there is one (`found`): create one if there is none; rename a found
/// one unless Wick is named `Wick`; set the picture unless it is already Wick's.
pub fn webhook_changes(found: Option<Option<&str>>, wick_name: &str, wick_face: &str) -> (r:
    WebhookChanges)
    ensures
        r.create == found is None,
        r.rename == (found is Some && wick_name@ != "Wick"@),
        r.set_avatar == match found {
            Some(Some(a)) => a@ != wick_face@,
            _ => true,
        },
{
    let create = found.is_none();
    let rename = match found {
        Some(_) => !crate::text::str_eq(wick_name, "Wick"),
        None => false,
    };
    let set_avatar = match found {
        Some(Some(a)) => !crate::text::str_eq(a, wick_face),
        _ => true,
    };
    WebhookChanges { create, rename, set_avatar }
}

} // verus!
