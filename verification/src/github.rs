//! Bug reports filed as GitHub issues.
use vstd::prelude::*;

use crate::ids::{GuildId, MessageId, UserId};

verus! {

/// An issue being put together: its title, author, and optionally a body, the server
/// and the messages it is about.
#[derive(Debug)]
pub struct IssueBuilder {
    title: String,
    body: Option<String>,
    guild: Option<GuildId>,
    author: UserId,
    messages: Vec<MessageId>,
}

impl IssueBuilder {
    pub closed spec fn title_view(&self) -> Seq<char> {
        self.title@
    }

    pub closed spec fn body_view(&self) -> Option<Seq<char>> {
        match self.body {
            Some(b) => Some(b@),
            None => None,
        }
    }

    pub closed spec fn guild_view(&self) -> Option<GuildId> {
        self.guild
    }

    pub closed spec fn author_view(&self) -> UserId {
        self.author
    }

    pub closed spec fn messages_view(&self) -> Seq<MessageId> {
        self.messages@
    }

    /// An issue titled `title` by `author`, with nothing else yet.
    pub fn new(title: String, author: UserId) -> (r: IssueBuilder)
        ensures
            r.title_view() == title@,
            r.author_view() == author,
            r.body_view() is None,
            r.guild_view() is None,
            r.messages_view().len() == 0,
    {
        IssueBuilder { title, body: None, guild: None, author, messages: Vec::new() }
    }

    /// The same issue with `body`.
    pub fn body(self, body: String) -> (r: IssueBuilder)
        ensures
            r.body_view() == Some(body@),
            r.title_view() == self.title_view(),
            r.author_view() == self.author_view(),
            r.guild_view() == self.guild_view(),
            r.messages_view() == self.messages_view(),
    {
        IssueBuilder { body: Some(body), ..self }
    }

    /// The same issue, from server `guild`.
    pub fn guild(self, guild: GuildId) -> (r: IssueBuilder)
        ensures
            r.guild_view() == Some(guild),
            r.title_view() == self.title_view(),
            r.author_view() == self.author_view(),
            r.body_view() == self.body_view(),
            r.messages_view() == self.messages_view(),
    {
        IssueBuilder { guild: Some(guild), ..self }
    }

    /// The same issue, about `messages` (in place of any given before).
    pub fn messages(self, messages: Vec<MessageId>) -> (r: IssueBuilder)
        ensures
            r.messages_view() == messages@,
            r.title_view() == self.title_view(),
            r.author_view() == self.author_view(),
            r.body_view() == self.body_view(),
            r.guild_view() == self.guild_view(),
    {
        IssueBuilder { messages, ..self }
    }
}

} // verus!
