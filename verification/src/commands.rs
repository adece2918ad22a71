//! What the chat commands answer: the decisions and texts behind `pfp`, `flip` and the
//! wordle commands. Sending the answers is left to the caller.
use vstd::prelude::*;

use crate::ids::{ChannelId, RoleId};
use crate::roll::{random_bool, random_seed, rng_from_seed};
use crate::text::{decimal, join, push_char, push_i64, push_str, push_u64, signed_decimal};

verus! {

/// Which profile picture a member shows.
#[derive(Clone, Copy, Debug, PartialEq, Eq, Structural)]
pub enum PfpType {
    /// One set for this server.
    Guild,
    /// Their account's, with none set for this server.
    GlobalOnly,
    /// Their account's.
    Global,
    /// None at all.
    Unset,
}

/// The picture shown: when asked for the account's picture (`global`), that of the
/// account, else the server's if one is set, else the account's.
pub open spec fn pfp_type_spec(global: bool, member_avatar: bool, user_avatar: bool) -> PfpType {
    if global {
        if !user_avatar {
            PfpType::Unset
        } else if member_avatar {
            PfpType::Global
        } else {
            PfpType::GlobalOnly
        }
    } else if member_avatar {
        PfpType::Guild
    } else if user_avatar {
        PfpType::Global
    } else {
        PfpType::Unset
    }
}

/// Classifies the picture a member shows; see [`pfp_type_spec`].
pub fn pfp_type(global: bool, member_avatar: bool, user_avatar: bool) -> (r: PfpType)
    ensures
        r == pfp_type_spec(global, member_avatar, user_avatar),
{
    if global {
        if !user_avatar {
            PfpType::Unset
        } else if member_avatar {
            PfpType::Global
        } else {
            PfpType::GlobalOnly
        }
    } else if member_avatar {
        PfpType::Guild
    } else if user_avatar {
        PfpType::Global
    } else {
        PfpType::Unset
    }
}

/// What the bot says when showing the asker their own picture in a server.
pub open spec fn author_text(t: PfpType, global: bool) -> Seq<char> {
    match t {
        PfpType::Guild => "**your profile picture in this server:**"@,
        PfpType::GlobalOnly => "**your profile picture:**"@,
        PfpType::Global => if global {
            "**your global profile picture:**"@
        } else {
            "**your profile picture:**"@
        },
        PfpType::Unset => "**you don't have a profile picture set!**"@,
    }
}

/// What the bot says when showing someone else's picture in a server; `display` is
/// their name in the server and `name` their account name.
pub open spec fn other_text(t: PfpType, global: bool, display: Seq<char>, name: Seq<char>) -> Seq<char> {
    match t {
        PfpType::Guild => "**"@ + display + "'s profile picture in this server:**"@,
        PfpType::GlobalOnly => "**`"@ + name + "`'s profile picture:**"@,
        PfpType::Global => if global {
            "**`"@ + name + "`'s global profile picture:**"@
        } else {
            "**"@ + display + "'s profile picture:**"@
        },
        PfpType::Unset => if global {
            "**`"@ + name + "` does not have a profile picture set!**"@
        } else {
            "**"@ + display + " does not have a profile picture set!**"@
        },
    }
}

/// The asker's own picture in a server; see [`author_text`].
pub fn author_response(t: PfpType, global: bool) -> (r: String)
    ensures
        r@ == author_text(t, global),
{
    let mut s = String::new();
    match t {
        PfpType::Guild => push_str(&mut s, "**your profile picture in this server:**"),
        PfpType::GlobalOnly => push_str(&mut s, "**your profile picture:**"),
        PfpType::Global => if global {
            push_str(&mut s, "**your global profile picture:**")
        } else {
            push_str(&mut s, "**your profile picture:**")
        },
        PfpType::Unset => push_str(&mut s, "**you don't have a profile picture set!**"),
    }
    s
}

/// Someone else's picture in a server; see [`other_text`].
pub fn other_response(t: PfpType, global: bool, display: &str, name: &str) -> (r: String)
    ensures
        r@ == other_text(t, global, display@, name@),
{
    let mut s = String::new();
    match t {
        PfpType::Guild => {
            push_str(&mut s, "**");
            push_str(&mut s, display);
            push_str(&mut s, "'s profile picture in this server:**");
        },
        PfpType::GlobalOnly => {
            push_str(&mut s, "**`");
            push_str(&mut s, name);
            push_str(&mut s, "`'s profile picture:**");
        },
        PfpType::Global => if global {
            push_str(&mut s, "**`");
            push_str(&mut s, name);
            push_str(&mut s, "`'s global profile picture:**");
        } else {
            push_str(&mut s, "**");
            push_str(&mut s, display);
            push_str(&mut s, "'s profile picture:**");
        },
        PfpType::Unset => if global {
            push_str(&mut s, "**`");
            push_str(&mut s, name);
            push_str(&mut s, "` does not have a profile picture set!**");
        } else {
            push_str(&mut s, "**");
            push_str(&mut s, display);
            push_str(&mut s, " does not have a profile picture set!**");
        },
    }
    s
}

/// What the bot says about a picture outside a server.
pub open spec fn dm_text(is_author: bool, has_avatar: bool, name: Seq<char>) -> Seq<char> {
    if is_author {
        if has_avatar {
            "**your profile picture:**"@
        } else {
            "**you don't have a profile picture set!**"@
        }
    } else if has_avatar {
        "**`"@ + name + "`'s profile picture:**"@
    } else {
        "**`"@ + name + "` does not have a profile picture set!**"@
    }
}

/// A picture outside a server; see [`dm_text`].
pub fn dm_response(is_author: bool, has_avatar: bool, name: &str) -> (r: String)
    ensures
        r@ == dm_text(is_author, has_avatar, name@),
{
    let mut s = String::new();
    if is_author {
        if has_avatar {
            push_str(&mut s, "**your profile picture:**");
        } else {
            push_str(&mut s, "**you don't have a profile picture set!**");
        }
    } else if has_avatar {
        push_str(&mut s, "**`");
        push_str(&mut s, name);
        push_str(&mut s, "`'s profile picture:**");
    } else {
        push_str(&mut s, "**`");
        push_str(&mut s, name);
        push_str(&mut s, "` does not have a profile picture set!**");
    }
    s
}

/// Whose face is attached to the answer.
#[derive(Clone, Copy, Debug, PartialEq, Eq, Structural)]
pub enum PfpSource {
    /// The member's face in the server (their server picture, or else their account's).
    MemberFace,
    /// The account's face.
    UserFace,
}

/// What is known of the asker and of the one whose picture is asked for.
pub struct PfpRequest<'a> {
    pub in_guild: bool,
    pub is_author: bool,
    pub global: bool,
    pub member_avatar: bool,
    pub user_avatar: bool,
    pub display_name: &'a str,
    pub user_name: &'a str,
}

/// The text of the answer to `pfp`.
pub open spec fn pfp_text(q: PfpRequest) -> Seq<char> {
    if q.in_guild {
        let t = pfp_type_spec(q.global, q.member_avatar, q.user_avatar);
        if q.is_author {
            author_text(t, q.global)
        } else {
            other_text(t, q.global, q.display_name@, q.user_name@)
        }
    } else {
        dm_text(q.is_author, q.user_avatar, q.user_name@)
    }
}

/// The face attached to the answer to `pfp`: in a server the member's, or the
/// account's when asked for it; elsewhere the account's.
pub open spec fn pfp_source(q: PfpRequest) -> PfpSource {
    if q.in_guild && !q.global {
        PfpSource::MemberFace
    } else {
        PfpSource::UserFace
    }
}

/// Answers `pfp`: which face to attach and what to say.
pub fn pfp(q: PfpRequest) -> (r: (PfpSource, String))
    ensures
        r.0 == pfp_source(q),
        r.1@ == pfp_text(q),
{
    if q.in_guild {
        let t = pfp_type(q.global, q.member_avatar, q.user_avatar);
        let text = if q.is_author {
            author_response(t, q.global)
        } else {
            other_response(t, q.global, q.display_name, q.user_name)
        };
        let source = if q.global {
            PfpSource::UserFace
        } else {
            PfpSource::MemberFace
        };
        (source, text)
    } else {
        (PfpSource::UserFace, dm_response(q.is_author, q.user_avatar, q.user_name))
    }
}

/// How many coins to flip: as asked, but at least one.
pub open spec fn coin_count_spec(coins: Option<u8>) -> u8 {
    match coins {
        Some(n) => if n == 0 {
            1
        } else {
            n
        },
        None => 1,
    }
}

/// How many coins to flip; see [`coin_count_spec`].
pub fn coin_count(coins: Option<u8>) -> (r: u8)
    ensures
        r == coin_count_spec(coins),
        r >= 1,
{
    match coins {
        Some(n) => if n == 0 {
            1
        } else {
            n
        },
        None => 1,
    }
}

/// How many of `flips` came up heads.
pub open spec fn heads_in(flips: Seq<bool>) -> nat
    decreases flips.len(),
{
    if flips.len() == 0 {
        0
    } else {
        heads_in(flips.drop_last()) + if flips.last() {
            1nat
        } else {
            0nat
        }
    }
}

/// `heads` or `tails`.
pub open spec fn side_name(heads: bool) -> Seq<char> {
    if heads {
        "heads"@
    } else {
        "tails"@
    }
}

/// The answer to `flip` for the results `flips`: one coin is named; for more, the
/// count of each side, and with `verbose` every result too.
pub open spec fn flip_text_spec(flips: Seq<bool>, verbose: bool) -> Seq<char> {
    if flips.len() == 1 {
        side_name(flips[0])
    } else {
        let h = heads_in(flips);
        let summary = decimal(h) + " heads & "@ + decimal((flips.len() - h) as nat) + " tails"@;
        if verbose {
            "**"@ + summary + "** ("@ + join(
                Seq::new(flips.len(), |i: int| side_name(flips[i])),
                ", "@,
            ) + ")"@
        } else {
            summary
        }
    }
}

/// At most as many heads as flips.
pub proof fn lemma_heads_bound(flips: Seq<bool>)
    ensures
        heads_in(flips) <= flips.len(),
    decreases flips.len(),
{
    if flips.len() > 0 {
        lemma_heads_bound(flips.drop_last());
    }
}

/// The answer to `flip` for the results `flips`; see [`flip_text_spec`].
pub fn flip_text(flips: &Vec<bool>, verbose: bool) -> (r: String)
    requires
        flips@.len() >= 1,
    ensures
        r@ == flip_text_spec(flips@, verbose),
{
    let n = flips.len();
    let mut s = String::new();
    if n == 1 {
        if flips[0] {
            push_str(&mut s, "heads");
        } else {
            push_str(&mut s, "tails");
        }
        return s;
    }
    let mut heads: u64 = 0;
    for i in 0..n
        invariant
            n == flips@.len(),
            heads == heads_in(flips@.take(i as int)),
            heads <= i,
    {
        assert(flips@.take(i + 1).drop_last() =~= flips@.take(i as int));
        proof {
            lemma_heads_bound(flips@.take(i as int));
        }
        if flips[i] {
            heads = heads + 1;
        }
    }
    assert(flips@.take(n as int) =~= flips@);
    let tails: u64 = n as u64 - heads;
    let ghost sides = Seq::new(n as nat, |i: int| side_name(flips@[i]));
    if verbose {
        push_str(&mut s, "**");
    }
    let ghost start = s@;
    push_u64(&mut s, heads);
    push_str(&mut s, " heads & ");
    push_u64(&mut s, tails);
    push_str(&mut s, " tails");
    let ghost summary = s@.skip(start.len() as int);
    assert(summary =~= decimal(heads as nat) + " heads & "@ + decimal(tails as nat) + " tails"@);
    if !verbose {
        assert(s@ =~= summary);
        return s;
    }
    push_str(&mut s, "** (");
    let ghost head = s@;
    for i in 0..n
        invariant
            n == flips@.len(),
            sides == Seq::new(n as nat, |i: int| side_name(flips@[i])),
            s@ == head + join(sides.take(i as int), ", "@),
    {
        assert(sides.take(i + 1).drop_last() =~= sides.take(i as int));
        if i > 0 {
            push_str(&mut s, ", ");
        } else {
            assert(sides.take(0) =~= Seq::<Seq<char>>::empty());
        }
        let ghost before = s@;
        if flips[i] {
            push_str(&mut s, "heads");
        } else {
            push_str(&mut s, "tails");
        }
        assert(s@ =~= before + sides[i as int]);
    }
    assert(sides.take(n as int) =~= sides);
    push_str(&mut s, ")");
    assert(s@ =~= "**"@ + summary + "** ("@ + join(sides, ", "@) + ")"@);
    s
}

/// Flips `coin_count(coins)` coins at random and says how they fell; see
/// [`flip_text_spec`].
pub fn flip(coins: Option<u8>, verbose: bool) -> (r: String)
    ensures
        exists|flips: Seq<bool>|
            flips.len() == coin_count_spec(coins) && r@ == flip_text_spec(flips, verbose),
{
    let n = coin_count(coins);
    let mut rng = rng_from_seed(random_seed());
    let mut flips: Vec<bool> = Vec::new();
    for _i in 0..n
        invariant
            flips@.len() == _i,
    {
        flips.push(random_bool(&mut rng));
    }
    let r = flip_text(&flips, verbose);
    assert(flips@.len() == coin_count_spec(coins) && r@ == flip_text_spec(flips@, verbose));
    r
}

/// The mention of a role: `<@&id>`.
pub open spec fn role_mention(role: RoleId) -> Seq<char> {
    "<@&"@ + decimal(role.0 as nat) + ">"@
}

/// The announcement of a new daily wordle.
pub fn daily_announcement(role: RoleId, number: u32) -> (r: String)
    ensures
        r@ == role_mention(role) + " **Daily wordle "@ + decimal(number as nat)
            + " now available!**\nPlay it with `/wordle daily`"@,
{
    let mut s = String::new();
    push_str(&mut s, "<@&");
    push_u64(&mut s, role.0);
    push_str(&mut s, ">");
    push_str(&mut s, " **Daily wordle ");
    push_u64(&mut s, number as u64);
    push_str(&mut s, " now available!**\nPlay it with `/wordle daily`");
    s
}

/// Where to announce a new daily wordle, and what: when puzzle `new_daily` has just
/// appeared and both the wordle channel and role are configured, the announcement
/// pinging the role goes to the channel; otherwise nothing is announced.
pub fn new_daily_announcement(new_daily: Option<u32>, channel: Option<ChannelId>, role: Option<RoleId>) -> (r: Option<(ChannelId, String)>)
    ensures
        match (new_daily, channel, role) {
            (Some(n), Some(c), Some(ro)) => r matches Some((c2, t)) && c2 == c && t@
                == role_mention(ro) + " **Daily wordle "@ + decimal(n as nat)
                + " now available!**\nPlay it with `/wordle daily`"@,
            _ => r is None,
        },
{
    match (new_daily, channel, role) {
        (Some(n), Some(c), Some(ro)) => Some((c, daily_announcement(ro, n))),
        _ => None,
    }
}

/// The announcement that `username` completed daily wordle `number`, with their
/// squares.
pub fn completed_announcement(username: &str, number: u32, emojis: &str) -> (r: String)
    ensures
        r@ == "`"@ + username@ + "` **completed wordle "@ + decimal(number as nat) + "!**\n"@
            + emojis@,
{
    let mut s = String::new();
    push_str(&mut s, "`");
    push_str(&mut s, username);
    push_str(&mut s, "` **completed wordle ");
    push_u64(&mut s, number as u64);
    push_str(&mut s, "!**\n");
    push_str(&mut s, emojis);
    s
}

/// The answer when the asker has no daily wordle to play.
pub fn no_daily_yet(hours: i64) -> (r: String)
    ensures
        r@ == "you don't have a daily wordle yet! check back in "@ + signed_decimal(hours as int)
            + " hours"@,
{
    let mut s = String::new();
    push_str(&mut s, "you don't have a daily wordle yet! check back in ");
    push_i64(&mut s, hours);
    push_str(&mut s, " hours");
    s
}

/// The answer when a game is already being played in the channel, with a link to it.
pub fn already_playing(link: &str) -> (r: String)
    ensures
        r@ == "there's already a game being played in this channel! "@ + link@,
{
    let mut s = String::new();
    push_str(&mut s, "there's already a game being played in this channel! ");
    push_str(&mut s, link);
    s
}

/// What `wordle daily` does.
#[derive(Clone, Copy, Debug, PartialEq, Eq, Structural)]
pub enum DailyStep {
    /// Say that a game is already running in the channel.
    AlreadyPlaying,
    /// Say to check direct messages, and play there.
    PlayInDms,
    /// Play in this channel.
    PlayHere,
    /// Say when the next daily wordle comes.
    NoneYet,
}

/// What `wordle daily` does: play the first daily wordle the asker may play, in
/// direct messages when asked in a server, unless the channel already has a game.
pub fn daily_step(has_playable: bool, channel_busy: bool, in_guild: bool) -> (r: DailyStep)
    ensures
        !has_playable ==> r == DailyStep::NoneYet,
        has_playable && channel_busy ==> r == DailyStep::AlreadyPlaying,
        has_playable && !channel_busy && in_guild ==> r == DailyStep::PlayInDms,
        has_playable && !channel_busy && !in_guild ==> r == DailyStep::PlayHere,
{
    if !has_playable {
        DailyStep::NoneYet
    } else if channel_busy {
        DailyStep::AlreadyPlaying
    } else if in_guild {
        DailyStep::PlayInDms
    } else {
        DailyStep::PlayHere
    }
}

/// One answer of a command: its text and whether only the asker sees it.
#[derive(Debug)]
pub struct Reply {
    pub text: String,
    pub ephemeral: bool,
}

impl Default for Reply {
    fn default() -> (r: Reply)
        ensures
            r.text@.len() == 0,
            !r.ephemeral,
    {
        Reply { text: String::new(), ephemeral: false }
    }
}

/// Reply builders that start out empty.
pub trait CreateReplyExt: Sized {
    /// An empty reply.
    fn new() -> Self;
}

impl CreateReplyExt for Reply {
    fn new() -> (r: Reply)
        ensures
            r.text@.len() == 0,
            !r.ephemeral,
    {
        Reply::default()
    }
}

/// A reply with `text`.
fn reply_of(text: &str, ephemeral: bool) -> (r: Reply)
    ensures
        r.text@ == text@,
        r.ephemeral == ephemeral,
{
    let mut s = String::new();
    push_str(&mut s, text);
    Reply { text: s, ephemeral }
}

/// The result line of `wordle display`.
pub open spec fn display_text(number: u32, name: Seq<char>, emojis: Seq<char>) -> Seq<char> {
    "wordle "@ + decimal(number as nat) + " (`"@ + name + "`):\n>>> "@ + emojis
}

/// The answers to `wordle display` for wordle `number`: whether it exists, and the
/// game of the user asked about (how many guesses and its squares), if they played.
pub fn display_replies(number: u32, exists: bool, user_name: &str, game: Option<(usize, &str)>) -> (r:
    Vec<Reply>)
    ensures
        !exists ==> r@.len() == 1 && r@[0].text@ == "that wordle doesn't exist!"@
            && r@[0].ephemeral,
        exists && game is None ==> r@.len() == 1 && r@[0].text@
            == "that user hasn't started that wordle!"@ && r@[0].ephemeral,
        exists ==> match game {
            Some((n, e)) => if n == 0 {
                r@.len() == 2 && r@[0].text@
                    == "that user has started the wordle but hasn't guessed anything!"@
                    && r@[0].ephemeral && r@[1].text@ == display_text(number, user_name@, e@)
                    && !r@[1].ephemeral
            } else {
                r@.len() == 1 && r@[0].text@ == display_text(number, user_name@, e@)
                    && !r@[0].ephemeral
            },
            None => true,
        },
{
    let mut out: Vec<Reply> = Vec::new();
    if !exists {
        out.push(reply_of("that wordle doesn't exist!", true));
        return out;
    }
    match game {
        None => {
            out.push(reply_of("that user hasn't started that wordle!", true));
        },
        Some((n, emojis)) => {
            if n == 0 {
                out.push(reply_of("that user has started the wordle but hasn't guessed anything!", true));
            }
            let mut s = String::new();
            push_str(&mut s, "wordle ");
            push_u64(&mut s, number as u64);
            push_str(&mut s, " (`");
            push_str(&mut s, user_name);
            push_str(&mut s, "`):\n>>> ");
            push_str(&mut s, emojis);
            out.push(Reply { text: s, ephemeral: false });
        },
    }
    out
}

/// The answer to `wordle letters`: the guessed letters and the unused ones, or that
/// no game is running.
pub fn letters_reply(game: Option<(&str, &str)>) -> (r: String)
    ensures
        match game {
            Some((guessed, unused)) => r@ == "guessed letters:\n"@ + guessed@
                + "\n\nunused letters:\n"@ + unused@,
            None => r@ == "there isn't a game active in this channel!"@,
        },
{
    let mut s = String::new();
    match game {
        Some((guessed, unused)) => {
            push_str(&mut s, "guessed letters:\n");
            push_str(&mut s, guessed);
            push_str(&mut s, "\n\nunused letters:\n");
            push_str(&mut s, unused);
        },
        None => push_str(&mut s, "there isn't a game active in this channel!"),
    }
    s
}

/// The answer to `wordle unused`: the unused letters, or that no game is running.
pub fn unused_reply(unused: Option<&str>) -> (r: String)
    ensures
        match unused {
            Some(u) => r@ == "unused letters:\n"@ + u@,
            None => r@ == "there isn't a game active in this channel!"@,
        },
{
    let mut s = String::new();
    match unused {
        Some(u) => {
            push_str(&mut s, "unused letters:\n");
            push_str(&mut s, u);
        },
        None => push_str(&mut s, "there isn't a game active in this channel!"),
    }
    s
}

/// What `wordle role` does.
#[derive(Clone, Copy, Debug, PartialEq, Eq, Structural)]
pub enum RoleStep {
    Remove,
    Give,
    NotConfigured,
}

/// What `wordle role` does: toggle the configured role, or say there is none.
pub fn role_step(configured: bool, has_role: bool) -> (r: RoleStep)
    ensures
        !configured ==> r == RoleStep::NotConfigured,
        configured && has_role ==> r == RoleStep::Remove,
        configured && !has_role ==> r == RoleStep::Give,
{
    if !configured {
        RoleStep::NotConfigured
    } else if has_role {
        RoleStep::Remove
    } else {
        RoleStep::Give
    }
}

/// What `wordle role` says after its step.
pub fn role_reply(step: RoleStep) -> (r: String)
    ensures
        step == RoleStep::Remove ==> r@ == "Removed the wordle role!"@,
        step == RoleStep::Give ==> r@ == "Gave you the wordle role!"@,
        step == RoleStep::NotConfigured ==> r@ == "Error: there's no wordle role configured!"@,
{
    let mut s = String::new();
    match step {
        RoleStep::Remove => push_str(&mut s, "Removed the wordle role!"),
        RoleStep::Give => push_str(&mut s, "Gave you the wordle role!"),
        RoleStep::NotConfigured => push_str(&mut s, "Error: there's no wordle role configured!"),
    }
    s
}

/// The answer to `ping` (`pong` when `pong` asked, `ping` otherwise), given the
/// latency in milliseconds: zero means it is not known yet.
pub fn ping_reply(ping: bool, latency_ms: u64) -> (r: String)
    ensures
        r@ == (if ping { "pong!"@ } else { "ping!"@ }) + if latency_ms == 0 {
            " (please try again later to display latency)"@
        } else {
            " ("@ + decimal(latency_ms as nat) + "ms)"@
        },
{
    let mut s = String::new();
    if ping {
        push_str(&mut s, "pong!");
    } else {
        push_str(&mut s, "ping!");
    }
    if latency_ms == 0 {
        push_str(&mut s, " (please try again later to display latency)");
    } else {
        push_str(&mut s, " (");
        push_u64(&mut s, latency_ms);
        push_str(&mut s, "ms)");
    }
    s
}

/// Where `cat` fetches its picture, and the file name it is sent as.
pub fn cat_source(gif: bool) -> (r: (String, String))
    ensures
        gif ==> r.0@ == "https://cataas.com/cat/gif"@ && r.1@ == "cat.gif"@,
        !gif ==> r.0@ == "https://cataas.com/cat"@ && r.1@ == "cat.jpg"@,
{
    let mut url = String::new();
    let mut name = String::new();
    if gif {
        push_str(&mut url, "https://cataas.com/cat/gif");
        push_str(&mut name, "cat.gif");
    } else {
        push_str(&mut url, "https://cataas.com/cat");
        push_str(&mut name, "cat.jpg");
    }
    (url, name)
}

/// Whether an HTTP status is a server error (`500..=599`), on which `borzoi` says the
/// dog API is down.
pub fn is_server_error(status: u16) -> (r: bool)
    ensures
        r == (500 <= status && status <= 599),
{
    500 <= status && status <= 599
}

/// The server `minecraft` asks about: the one given, or the bot's own.
pub open spec fn minecraft_address(server: Option<Seq<char>>) -> Seq<char> {
    match server {
        Some(s) => s,
        None => "162.218.211.126"@,
    }
}

/// The status request for `minecraft`: the address asked about, and the URL that
/// gives its status.
pub fn minecraft_request(server: Option<String>) -> (r: (String, String))
    ensures
        r.0@ == minecraft_address(
            match server {
                Some(s) => Some(s@),
                None => None,
            },
        ),
        r.1@ == "https://api.mcstatus.io/v2/status/java/"@ + r.0@,
{
    let address = match server {
        Some(s) => s,
        None => {
            let mut s = String::new();
            push_str(&mut s, "162.218.211.126");
            s
        },
    };
    let mut url = String::new();
    push_str(&mut url, "https://api.mcstatus.io/v2/status/java/");
    push_str(&mut url, address.as_str());
    (address, url)
}

/// The description of a server's status: how many players are on, when it is online.
pub fn minecraft_description(online: bool, players_online: u8) -> (r: Option<String>)
    ensures
        online ==> (r matches Some(d) && d@ == "players online: "@ + decimal(players_online as nat)),
        !online ==> r is None,
{
    if online {
        let mut s = String::new();
        push_str(&mut s, "players online: ");
        push_u64(&mut s, players_online as u64);
        Some(s)
    } else {
        None
    }
}

} // verus!
