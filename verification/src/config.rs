//! The bot's configuration: what the config file holds and the few decisions made on
//! it.
use vstd::prelude::*;

use crate::clock::choose_string;
use crate::env::url_valid;
use crate::ids::{ChannelId, GuildId, RoleId};
use crate::text::{chars_of, is_prefix, split_once, split_once_spec, starts_with, string_of_range};

pub mod guild;

verus! {

/// What the bot shows itself doing.
#[derive(Clone, Copy, Debug, PartialEq, Eq, Structural)]
pub enum ActivityKind {
    Playing,
    Listening,
    Watching,
    Competing,
}

/// The bot's displayed activity: a kind and a name.
#[derive(Debug)]
pub struct ActivityData {
    pub kind: ActivityKind,
    pub name: String,
}

/// The activity the config text `s` describes: the kind its verb names and the name
/// after the prefix, which is one of `playing `, `listening to `, `watching ` or
/// `competing in `. Empty or unprefixed text describes none.
pub open spec fn parse_activity(s: Seq<char>) -> Option<(ActivityKind, Seq<char>)> {
    if s.len() == 0 {
        None
    } else if is_prefix("playing "@, s) {
        Some((ActivityKind::Playing, s.skip("playing "@.len() as int)))
    } else if is_prefix("listening to "@, s) {
        Some((ActivityKind::Listening, s.skip("listening to "@.len() as int)))
    } else if is_prefix("watching "@, s) {
        Some((ActivityKind::Watching, s.skip("watching "@.len() as int)))
    } else if is_prefix("competing in "@, s) {
        Some((ActivityKind::Competing, s.skip("competing in "@.len() as int)))
    } else {
        None
    }
}

/// The text of `cs` after `prefix`, if `cs` starts with it.
fn strip_prefix(cs: &Vec<char>, prefix: &str) -> (r: Option<String>)
    ensures
        is_prefix(prefix@, cs@) ==> (r matches Some(t) && t@ == cs@.skip(prefix@.len() as int)),
        !is_prefix(prefix@, cs@) ==> r is None,
{
    let p = chars_of(prefix);
    if starts_with(cs, &p) {
        let r = string_of_range(cs, p.len(), cs.len());
        assert(r@ =~= cs@.skip(prefix@.len() as int));
        Some(r)
    } else {
        None
    }
}

/// Reads an activity from config text; see [`parse_activity`].
pub fn activity_from(text: &str) -> (r: Option<ActivityData>)
    ensures
        match parse_activity(text@) {
            Some((kind, name)) => r matches Some(a) && a.kind == kind && a.name@ == name,
            None => r is None,
        },
{
    let cs = chars_of(text);
    if cs.len() == 0 {
        return None;
    }
    if let Some(name) = strip_prefix(&cs, "playing ") {
        return Some(ActivityData { kind: ActivityKind::Playing, name });
    }
    if let Some(name) = strip_prefix(&cs, "listening to ") {
        return Some(ActivityData { kind: ActivityKind::Listening, name });
    }
    if let Some(name) = strip_prefix(&cs, "watching ") {
        return Some(ActivityData { kind: ActivityKind::Watching, name });
    }
    if let Some(name) = strip_prefix(&cs, "competing in ") {
        return Some(ActivityData { kind: ActivityKind::Competing, name });
    }
    None
}

/// A GitHub repository, `user/repo`.
#[derive(Clone, Debug)]
pub struct RepoName {
    user: String,
    repo: String,
}

impl View for RepoName {
    type V = (Seq<char>, Seq<char>);

    closed spec fn view(&self) -> (Seq<char>, Seq<char>) {
        (self.user@, self.repo@)
    }
}

/// What `url::Url::parse(base)` followed by `Url::set_path(path)` gives as text, for a
/// `base` that parses; a name for what the URL grammar makes of the two.
pub uninterp spec fn url_with_path_text(base: Seq<char>, path: Seq<char>) -> Seq<char>;

/// `url::Url::parse(base)`, then `Url::set_path(path)` and the URL's text. Claimed:
/// there is a text exactly when `base` parses (the named `url_valid`), and it is the
/// named result for `base` and `path`.
#[verifier::external_body]
fn url_with_path(base: &str, path: &str) -> (r: Option<String>)
    ensures
        r is Some <==> url_valid(base@),
        r matches Some(t) ==> t@ == url_with_path_text(base@, path@),
{
    match url::Url::parse(base) {
        Ok(mut url) => {
            url.set_path(path);
            Some(url.to_string())
        },
        Err(_) => None,
    }
}

impl RepoName {
    /// The repository `repo` of `user`.
    pub fn new(user: String, repo: String) -> (r: RepoName)
        ensures
            r@ == (user@, repo@),
    {
        RepoName { user, repo }
    }

    /// Reads `user/repo`: the user is what comes before the first `/`, the repository
    /// what comes after it. Text without a `/` names no repository.
    pub fn try_from_str(s: &str) -> (r: Option<RepoName>)
        ensures
            match split_once_spec(s@, '/') {
                Some((user, repo)) => r matches Some(n) && n@ == (user, repo),
                None => r is None,
            },
    {
        match split_once(s, '/') {
            Some((user, repo)) => Some(RepoName::new(user, repo)),
            None => None,
        }
    }

    /// `user/repo`.
    pub fn to_string(&self) -> (r: String)
        ensures
            r@ == self@.0 + seq!['/'] + self@.1,
    {
        let mut s = String::new();
        let u = chars_of(self.user.as_str());
        let p = chars_of(self.repo.as_str());
        crate::text::push_chars(&mut s, &u);
        crate::text::push_char(&mut s, '/');
        crate::text::push_chars(&mut s, &p);
        s
    }

    /// The repository's page on GitHub: `https://github.com` with the path
    /// `user/repo`. There is none only if that base fails to parse as a URL.
    pub fn to_github_url(&self) -> (r: Option<String>)
        ensures
            r is Some <==> url_valid("https://github.com"@),
            r matches Some(t) ==> t@ == url_with_path_text(
                "https://github.com"@,
                self@.0 + seq!['/'] + self@.1,
            ),
    {
        let path = self.to_string();
        url_with_path("https://github.com", path.as_str())
    }
}

/// The bot section of the config file.
#[derive(Debug)]
pub struct BotConfig {
    token: Option<String>,
    testing_server: Option<GuildId>,
    activity: Option<String>,
    prefix: String,
    status_channel: Option<ChannelId>,
    github_repo: Option<RepoName>,
}

impl BotConfig {
    /// A bot section with these entries.
    pub fn new(
        token: Option<String>,
        testing_server: Option<GuildId>,
        activity: Option<String>,
        prefix: String,
        status_channel: Option<ChannelId>,
        github_repo: Option<RepoName>,
    ) -> (r: BotConfig)
        ensures
            r.token_view() == token,
            r.testing_server_view() == testing_server,
            r.activity_view() == activity,
            r.prefix_view() == prefix@,
            r.status_channel_view() == status_channel,
            r.github_repo_view() == github_repo,
    {
        BotConfig { token, testing_server, activity, prefix, status_channel, github_repo }
    }

    pub closed spec fn token_view(&self) -> Option<String> {
        self.token
    }

    pub closed spec fn testing_server_view(&self) -> Option<GuildId> {
        self.testing_server
    }

    pub closed spec fn activity_view(&self) -> Option<String> {
        self.activity
    }

    pub closed spec fn prefix_view(&self) -> Seq<char> {
        self.prefix@
    }

    pub closed spec fn status_channel_view(&self) -> Option<ChannelId> {
        self.status_channel
    }

    pub closed spec fn github_repo_view(&self) -> Option<RepoName> {
        self.github_repo
    }

    /// The bot's token; the config must hold one.
    pub fn token(&self) -> (r: &str)
        requires
            self.token_view() is Some,
        ensures
            r@ == self.token_view()->0@,
    {
        self.token.as_ref().unwrap().as_str()
    }

    /// The server where slash commands are registered, if one is set.
    pub fn testing_server(&self) -> (r: Option<&GuildId>)
        ensures
            match self.testing_server_view() {
                Some(g) => r == Some(&g),
                None => r is None,
            },
    {
        self.testing_server.as_ref()
    }

    /// The activity the config describes, if any; see [`parse_activity`].
    pub fn activity(&self) -> (r: Option<ActivityData>)
        ensures
            match self.activity_view() {
                Some(text) => match parse_activity(text@) {
                    Some((kind, name)) => r matches Some(a) && a.kind == kind && a.name@ == name,
                    None => r is None,
                },
                None => r is None,
            },
    {
        match &self.activity {
            Some(text) => activity_from(text.as_str()),
            None => None,
        }
    }

    /// The prefix of text commands.
    pub fn prefix(&self) -> (r: &str)
        ensures
            r@ == self.prefix_view(),
    {
        self.prefix.as_str()
    }

    /// The channel for status messages, if one is set.
    pub fn status_channel(&self) -> (r: Option<ChannelId>)
        ensures
            r == self.status_channel_view(),
    {
        self.status_channel
    }

    /// The bot's GitHub repository, if one is set.
    pub fn github_repo(&self) -> (r: Option<&RepoName>)
        ensures
            match self.github_repo_view() {
                Some(g) => r matches Some(x) && x@ == g@,
                None => r is None,
            },
    {
        self.github_repo.as_ref()
    }
}

/// The texts shown when the bot logs in.
#[derive(Debug)]
pub struct LogsConfig {
    flavor_texts: Vec<String>,
}

impl LogsConfig {
    /// The logs section holding `flavor_texts`.
    pub fn new(flavor_texts: Vec<String>) -> (r: LogsConfig)
        ensures
            r.flavor_texts_view() == flavor_texts@,
    {
        LogsConfig { flavor_texts }
    }

    pub closed spec fn flavor_texts_view(&self) -> Seq<String> {
        self.flavor_texts@
    }

    /// One of the flavor texts, picked at random; none when there are none.
    pub fn flavor_text(&self) -> (r: Option<&str>)
        ensures
            r is Some <==> self.flavor_texts_view().len() > 0,
            r matches Some(t) ==> exists|i: int|
                0 <= i < self.flavor_texts_view().len() && t@ == #[trigger] self.flavor_texts_view()[i]@,
    {
        if self.flavor_texts.len() == 0 {
            None
        } else {
            let t = choose_string(&self.flavor_texts);
            let ghost i = choose|i: int| 0 <= i < self.flavor_texts@.len() && self.flavor_texts@[i] == *t;
            assert(t@ == self.flavor_texts_view()[i]@);
            Some(t.as_str())
        }
    }
}

/// Where the database is and how to log in to it.
#[derive(Debug)]
pub struct DbConfig {
    url: String,
    username: String,
    password: String,
}

impl DbConfig {
    /// The database section with these entries.
    pub fn new(url: String, username: String, password: String) -> (r: DbConfig)
        ensures
            r.url_view() == url@,
            r.username_view() == username@,
            r.password_view() == password@,
    {
        DbConfig { url, username, password }
    }

    pub closed spec fn url_view(&self) -> Seq<char> {
        self.url@
    }

    pub closed spec fn username_view(&self) -> Seq<char> {
        self.username@
    }

    pub closed spec fn password_view(&self) -> Seq<char> {
        self.password@
    }

    /// The database's address.
    pub fn url(&self) -> (r: &str)
        ensures
            r@ == self.url_view(),
    {
        self.url.as_str()
    }

    /// The database user.
    pub fn username(&self) -> (r: &str)
        ensures
            r@ == self.username_view(),
    {
        self.username.as_str()
    }

    /// The database password.
    pub fn password(&self) -> (r: &str)
        ensures
            r@ == self.password_view(),
    {
        self.password.as_str()
    }
}

/// Whether the watchers may answer in one channel.
#[derive(Clone, Copy, Debug, PartialEq, Eq, Structural)]
pub struct WatchersChannelConfig {
    pub id: ChannelId,
    pub allow: bool,
}

/// The rule of the first entry of `channels` for channel `id`, or `default`.
pub open spec fn channel_rule(channels: Seq<WatchersChannelConfig>, id: ChannelId, default: bool) -> bool
    decreases channels.len(),
{
    if channels.len() == 0 {
        default
    } else if channels[0].id == id {
        channels[0].allow
    } else {
        channel_rule(channels.skip(1), id, default)
    }
}

/// Where the message watchers may answer.
#[derive(Debug)]
pub struct WatchersConfig {
    allow_by_default: bool,
    channels: Option<Vec<WatchersChannelConfig>>,
}

impl Default for WatchersConfig {
    fn default() -> (r: WatchersConfig)
        ensures
            !r.allow_by_default_view(),
            r.channels_view() is None,
    {
        WatchersConfig { allow_by_default: false, channels: None }
    }
}

impl WatchersConfig {
    /// The watchers section with these entries.
    pub fn new(allow_by_default: bool, channels: Option<Vec<WatchersChannelConfig>>) -> (r: WatchersConfig)
        ensures
            r.allow_by_default_view() == allow_by_default,
            match channels {
                Some(cs) => r.channels_view() == Some(cs@),
                None => r.channels_view() is None,
            },
    {
        WatchersConfig { allow_by_default, channels }
    }

    pub closed spec fn allow_by_default_view(&self) -> bool {
        self.allow_by_default
    }

    pub closed spec fn channels_view(&self) -> Option<Seq<WatchersChannelConfig>> {
        match self.channels {
            Some(cs) => Some(cs@),
            None => None,
        }
    }

    /// Whether watchers answer in channels with no entry.
    pub fn allow_by_default(&self) -> (r: bool)
        ensures
            r == self.allow_by_default_view(),
    {
        self.allow_by_default
    }

    /// The channel entries, if any were given.
    pub fn channels(&self) -> (r: Option<&Vec<WatchersChannelConfig>>)
        ensures
            match self.channels_view() {
                Some(cs) => r matches Some(v) && v@ == cs,
                None => r is None,
            },
    {
        self.channels.as_ref()
    }

    /// Whether watchers may answer in channel `id`: the first entry for `id` decides,
    /// and without one the default does.
    pub fn channel_allowed(&self, id: ChannelId) -> (r: bool)
        ensures
            r == match self.channels_view() {
                Some(cs) => channel_rule(cs, id, self.allow_by_default_view()),
                None => self.allow_by_default_view(),
            },
    {
        match &self.channels {
            None => self.allow_by_default,
            Some(cs) => {
                let d = self.allow_by_default;
                let n = cs.len();
                let mut i: usize = 0;
                assert(cs@.skip(0) =~= cs@);
                while i < n
                    invariant
                        i <= n == cs@.len(),
                        self.channels_view() == Some(cs@),
                        d == self.allow_by_default_view(),
                        channel_rule(cs@, id, d) == channel_rule(cs@.skip(i as int), id, d),
                    decreases n - i,
                {
                    assert(cs@.skip(i as int).skip(1) =~= cs@.skip(i + 1));
                    assert(cs@.skip(i as int)[0] == cs@[i as int]);
                    if cs[i].id == id {
                        assert(channel_rule(cs@.skip(i as int), id, d) == cs@[i as int].allow);
                        return cs[i].allow;
                    }
                    i = i + 1;
                }
                assert(cs@.skip(n as int).len() == 0);
                assert(channel_rule(cs@, id, d) == d);
                d
            },
        }
    }
}

/// Where bug reports go.
#[derive(Debug, Default)]
pub struct BugReportsConfig {
    pub channel: Option<ChannelId>,
}

impl BugReportsConfig {
    /// The bug reports channel, if one is set.
    fn channel(&self) -> (r: Option<&ChannelId>)
        ensures
            match self.channel {
                Some(c) => r == Some(&c),
                None => r is None,
            },
    {
        self.channel.as_ref()
    }
}

/// Where the daily wordle is announced.
#[derive(Debug, Default)]
pub struct WordleConfig {
    pub role_id: Option<RoleId>,
    pub channel_id: Option<ChannelId>,
}

/// The directory that secrets are read from: the environment's choice, else the config
/// file's, else (in a container) `/etc/slimebot/secrets`; outside a container with
/// neither, there is none.
pub open spec fn secrets_dir_choice(env: Option<Seq<char>>, config: Option<Seq<char>>, docker: bool) -> Option<Seq<char>> {
    match env {
        Some(e) => Some(e),
        None => match config {
            Some(c) => Some(c),
            None => if docker {
                Some("/etc/slimebot/secrets"@)
            } else {
                None
            },
        },
    }
}

/// Chooses the secrets directory; see [`secrets_dir_choice`].
fn choose_secrets_dir(env: Option<String>, config: &Option<String>, docker: bool) -> (r: Option<String>)
    ensures
        secrets_dir_choice(
            match env {
                Some(e) => Some(e@),
                None => None,
            },
            match config {
                Some(c) => Some(c@),
                None => None,
            },
            docker,
        ) == match r {
            Some(d) => Some(d@),
            None => None::<Seq<char>>,
        },
{
    match env {
        Some(e) => Some(e),
        None => match config {
            Some(c) => Some(crate::text::string_of(&chars_of(c.as_str()))),
            None => if docker {
                let mut s = String::new();
                crate::text::push_str(&mut s, "/etc/slimebot/secrets");
                Some(s)
            } else {
                None
            },
        },
    }
}

/// Text of the form `user/repo`, with no `/` in `user`, reads back as that user and
/// repository.
pub proof fn lemma_repo_round_trip(user: Seq<char>, repo: Seq<char>)
    requires
        !user.contains('/'),
    ensures
        split_once_spec(user + seq!['/'] + repo, '/') == Some((user, repo)),
{
    let s = user + seq!['/'] + repo;
    let i = user.len() as int;
    assert(s[i] == '/');
    assert forall|j: int| 0 <= j < i implies s[j] != '/' by {
        assert(s[j] == user[j]);
    }
    assert(crate::text::first_index_of(s, '/') == Some(i)) by {
        let k = choose|k: int| 0 <= k < s.len() && s[k] == '/' && forall|j: int| 0 <= j < k ==> s[j] != '/';
        if k < i {
            assert(s[k] == user[k]);
        } else if k > i {
            assert(s[i] != '/');
        }
    }
    assert(s.take(i) =~= user);
    assert(s.skip(i + 1) =~= repo);
}

/// An activity written with any of the four prefixes reads back as the kind that its
/// verb names, with the name after the prefix.
pub proof fn lemma_activity_round_trip(name: Seq<char>)
    ensures
        parse_activity("playing "@ + name) == Some((ActivityKind::Playing, name)),
        parse_activity("listening to "@ + name) == Some((ActivityKind::Listening, name)),
        parse_activity("watching "@ + name) == Some((ActivityKind::Watching, name)),
        parse_activity("competing in "@ + name) == Some((ActivityKind::Competing, name)),
{
    reveal_strlit("playing ");
    reveal_strlit("listening to ");
    reveal_strlit("watching ");
    reveal_strlit("competing in ");
    let p1 = "playing "@;
    let p2 = "listening to "@;
    let p3 = "watching "@;
    let p4 = "competing in "@;
    assert((p1 + name).take(p1.len() as int) =~= p1);
    assert((p1 + name).skip(p1.len() as int) =~= name);
    assert((p2 + name).take(p2.len() as int) =~= p2);
    assert((p2 + name).skip(p2.len() as int) =~= name);
    assert(!is_prefix(p1, p2 + name)) by {
        assert((p2 + name)[0] != p1[0]);
    }
    assert((p3 + name).take(p3.len() as int) =~= p3);
    assert((p3 + name).skip(p3.len() as int) =~= name);
    assert(!is_prefix(p1, p3 + name)) by {
        assert((p3 + name)[0] != p1[0]);
    }
    assert(!is_prefix(p2, p3 + name)) by {
        assert((p3 + name)[0] != p2[0]);
    }
    assert((p4 + name).take(p4.len() as int) =~= p4);
    assert((p4 + name).skip(p4.len() as int) =~= name);
    assert(!is_prefix(p1, p4 + name)) by {
        assert((p4 + name)[0] != p1[0]);
    }
    assert(!is_prefix(p2, p4 + name)) by {
        assert((p4 + name)[0] != p2[0]);
    }
    assert(!is_prefix(p3, p4 + name)) by {
        assert((p4 + name)[0] != p3[0]);
    }
}

/// The whole config file.
#[derive(Debug)]
pub struct Config {
    pub secrets_dir: Option<String>,
    pub bot: BotConfig,
    pub logs: LogsConfig,
    pub db: DbConfig,
    pub watchers: WatchersConfig,
    pub bug_reports: BugReportsConfig,
    pub wordle: WordleConfig,
}

impl Config {
    /// The bug reports channel, if one is set.
    pub fn bug_reports_channel(&self) -> (r: Option<&ChannelId>)
        ensures
            match self.bug_reports.channel {
                Some(c) => r == Some(&c),
                None => r is None,
            },
    {
        self.bug_reports.channel()
    }

    /// The secrets directory, given the environment's choice and whether the bot runs
    /// in a container; see [`secrets_dir_choice`].
    pub fn secrets_dir_with(&self, env: Option<String>, docker: bool) -> (r: Option<String>)
        ensures
            secrets_dir_choice(
                match env {
                    Some(e) => Some(e@),
                    None => None,
                },
                match self.secrets_dir {
                    Some(c) => Some(c@),
                    None => None,
                },
                docker,
            ) == match r {
                Some(d) => Some(d@),
                None => None::<Seq<char>>,
            },
    {
        choose_secrets_dir(env, &self.secrets_dir, docker)
    }
}

/// The application's config file, without the database section.
#[derive(Debug)]
pub struct AppConfig {
    pub secrets_dir: Option<String>,
    pub bot: BotConfig,
    pub logs: LogsConfig,
    pub watchers: WatchersConfig,
    pub bug_reports: BugReportsConfig,
    pub wordle: WordleConfig,
}

impl AppConfig {
    /// The bug reports channel, if one is set.
    pub fn bug_reports_channel(&self) -> (r: Option<&ChannelId>)
        ensures
            match self.bug_reports.channel {
                Some(c) => r == Some(&c),
                None => r is None,
            },
    {
        self.bug_reports.channel()
    }

    /// The secrets directory; see [`Config::secrets_dir_with`].
    pub fn secrets_dir_with(&self, env: Option<String>, docker: bool) -> (r: Option<String>)
        ensures
            secrets_dir_choice(
                match env {
                    Some(e) => Some(e@),
                    None => None,
                },
                match self.secrets_dir {
                    Some(c) => Some(c@),
                    None => None,
                },
                docker,
            ) == match r {
                Some(d) => Some(d@),
                None => None::<Seq<char>>,
            },
    {
        choose_secrets_dir(env, &self.secrets_dir, docker)
    }
}

/// The GitHub section: the repository as `[user, repo]`.
#[derive(Debug)]
pub struct GithubConfig {
    pub repository: [String; 2],
}

impl GithubConfig {
    /// Reads the repository from `user/repo` text; text without a `/` is refused.
    pub fn from_repository(s: &str) -> (r: Option<GithubConfig>)
        ensures
            match split_once_spec(s@, '/') {
                Some((user, repo)) => r matches Some(g) && g.repository[0]@ == user
                    && g.repository[1]@ == repo,
                None => r is None,
            },
    {
        match split_once(s, '/') {
            Some((user, repo)) => Some(GithubConfig { repository: [user, repo] }),
            None => None,
        }
    }
}

} // verus!
