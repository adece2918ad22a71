//! The errors of sending a message, and how an error is shown to users.
use vstd::prelude::*;

verus! {

/// Permissions the bot lacked: those required and those it had, as discord's bit sets.
#[derive(Clone, Copy, Debug, PartialEq, Eq, Structural)]
pub struct MissingPermissionsError {
    pub required: u64,
    pub present: u64,
}

impl MissingPermissionsError {
    /// The required permissions that were not present.
    pub fn missing(&self) -> (r: u64)
        ensures
            r == self.required & !self.present,
    {
        self.required & !self.present
    }
}

/// The missing permissions are all required and none of them is present.
pub proof fn lemma_missing_permissions(e: MissingPermissionsError)
    ensures
        (e.required & !e.present) & e.present == 0,
        (e.required & !e.present) & e.required == e.required & !e.present,
        (e.required & !e.present) | (e.required & e.present) == e.required,
{
    let (q, p) = (e.required, e.present);
    assert((q & !p) & p == 0) by (bit_vector);
    assert((q & !p) & q == q & !p) by (bit_vector);
    assert((q & !p) | (q & p) == q) by (bit_vector);
}

/// A message was longer than discord allows.
#[derive(Clone, Copy, Debug, PartialEq, Eq, Structural)]
pub struct MessageTooLongError {
    pub length: usize,
}

/// The parts of a discord error that sending a message cares about.
#[derive(Debug, PartialEq, Eq)]
pub enum SerenityErrorKind {
    InvalidPermissions { required: u64, present: u64 },
    MessageTooLong(usize),
    Other(String),
}

/// Why a message could not be sent.
#[derive(Debug, PartialEq, Eq)]
pub enum SendMessageError {
    Permissions(MissingPermissionsError),
    MessageTooLong(MessageTooLongError),
    Other(String),
}

/// Whether retrying may help.
#[derive(Debug, PartialEq, Eq)]
pub enum Backoff {
    Permanent(SendMessageError),
    Transient(SendMessageError),
}

/// The error that a discord error stands for: missing permissions and over-long
/// messages keep their details, anything else is kept as it is.
pub open spec fn send_error_of(e: SerenityErrorKind) -> SendMessageError {
    match e {
        SerenityErrorKind::InvalidPermissions { required, present } => SendMessageError::Permissions(
            MissingPermissionsError { required, present },
        ),
        SerenityErrorKind::MessageTooLong(len) => SendMessageError::MessageTooLong(
            MessageTooLongError { length: len },
        ),
        SerenityErrorKind::Other(s) => SendMessageError::Other(s),
    }
}

/// The discord error that a send error stands for.
pub open spec fn serenity_error_of(e: SendMessageError) -> SerenityErrorKind {
    match e {
        SendMessageError::Permissions(p) => SerenityErrorKind::InvalidPermissions {
            required: p.required,
            present: p.present,
        },
        SendMessageError::MessageTooLong(m) => SerenityErrorKind::MessageTooLong(m.length),
        SendMessageError::Other(s) => SerenityErrorKind::Other(s),
    }
}

impl SendMessageError {
    /// Reads a discord error; see [`send_error_of`].
    pub fn from_serenity(e: SerenityErrorKind) -> (r: SendMessageError)
        ensures
            r == send_error_of(e),
    {
        match e {
            SerenityErrorKind::InvalidPermissions { required, present } => SendMessageError::Permissions(
                MissingPermissionsError { required, present },
            ),
            SerenityErrorKind::MessageTooLong(len) => SendMessageError::MessageTooLong(
                MessageTooLongError { length: len },
            ),
            SerenityErrorKind::Other(s) => SendMessageError::Other(s),
        }
    }

    /// The discord error this error stands for; see [`serenity_error_of`].
    pub fn into_serenity(self) -> (r: SerenityErrorKind)
        ensures
            r == serenity_error_of(self),
    {
        match self {
            SendMessageError::Permissions(p) => SerenityErrorKind::InvalidPermissions {
                required: p.required,
                present: p.present,
            },
            SendMessageError::MessageTooLong(m) => SerenityErrorKind::MessageTooLong(m.length),
            SendMessageError::Other(s) => SerenityErrorKind::Other(s),
        }
    }

    /// Missing permissions and over-long messages fail again on retry; anything else
    /// may pass.
    pub fn backoff(self) -> (r: Backoff)
        ensures
            match self {
                SendMessageError::Permissions(_) | SendMessageError::MessageTooLong(_) => r
                    == Backoff::Permanent(self),
                SendMessageError::Other(_) => r == Backoff::Transient(self),
            },
    {
        match self {
            SendMessageError::Permissions(_) | SendMessageError::MessageTooLong(_) => Backoff::Permanent(
                self,
            ),
            SendMessageError::Other(_) => Backoff::Transient(self),
        }
    }
}

/// Turning a discord error into a send error and back gives the same discord error,
/// and the other way round.
pub proof fn lemma_serenity_round_trip(e: SerenityErrorKind, s: SendMessageError)
    ensures
        serenity_error_of(send_error_of(e)) == e,
        send_error_of(serenity_error_of(s)) == s,
{
}

/// Failure to read a dice roll.
#[derive(Debug, PartialEq, Eq)]
pub enum DiceRollError {
    NoFaces,
    InvalidExtra(String),
    InvalidExtraSign(String),
    NoMatch(String),
}

/// How an error is drawn as a discord embed. Errors shown to users implement it.
pub trait ErrorEmbedOptions {
    /// The embed's color, as `0xRRGGBB`.
    fn color(&self) -> u32;

    /// The error's message.
    fn description(&self) -> String;

    /// The footer's text, if the embed has a footer; by default there is none.
    fn footer_text(&self) -> (r: Option<String>)
        default_ensures
            r is None,
    {
        None
    }

    /// The footer's icon, if it has one; by default there is none.
    fn footer_icon_url(&self) -> (r: Option<String>)
        default_ensures
            r is None,
    {
        None
    }

    /// The embed's title; by default `boop`.
    fn title(&self) -> (r: String)
        default_ensures
            r@ == "boop"@,
    {
        let mut s = String::new();
        crate::text::push_str(&mut s, "boop");
        s
    }
}

/// A discord embed, as its parts.
#[derive(Debug)]
pub struct EmbedParts {
    pub color: u32,
    pub description: String,
    pub title: String,
    /// The footer's text and icon.
    pub footer: Option<(String, Option<String>)>,
}

/// The footer of an error embed: only with a text; the icon is kept only with one.
pub open spec fn footer_of(text: Option<String>, icon: Option<String>) -> Option<(String, Option<String>)> {
    match text {
        Some(t) => Some((t, icon)),
        None => None,
    }
}

/// The parts of an error embed: its color, description and title, and a footer
/// where there is a footer text; see [`footer_of`].
pub fn embed_parts(
    color: u32,
    description: String,
    title: String,
    text: Option<String>,
    icon: Option<String>,
) -> (r: EmbedParts)
    ensures
        r.color == color,
        r.description == description,
        r.title == title,
        r.footer == footer_of(text, icon),
{
    let footer = match (text, icon) {
        (Some(text), Some(icon)) => Some((text, Some(icon))),
        (Some(text), None) => Some((text, None)),
        _ => None,
    };
    EmbedParts { color, description, title, footer }
}

/// Draws `e` as an embed, from what its [`ErrorEmbedOptions`] give; see
/// [`embed_parts`].
pub fn create_embed<T: ErrorEmbedOptions>(e: &T) -> (r: EmbedParts)
    ensures
        call_ensures(T::color, (e,), r.color),
        call_ensures(T::description, (e,), r.description),
        call_ensures(T::title, (e,), r.title),
        exists|text: Option<String>, icon: Option<String>|
            call_ensures(T::footer_text, (e,), text) && call_ensures(T::footer_icon_url, (e,), icon)
                && r.footer == footer_of(text, icon),
{
    let color = e.color();
    let description = e.description();
    let title = e.title();
    let text = e.footer_text();
    let icon = e.footer_icon_url();
    let ghost (t, i) = (text, icon);
    let r = embed_parts(color, description, title, text, icon);
    assert(call_ensures(T::footer_text, (e,), t) && call_ensures(T::footer_icon_url, (e,), i)
        && r.footer == footer_of(t, i));
    r
}

} // verus!
