use slimebot::errors::{create_embed, ErrorEmbedOptions};
use slimebot::secrets::SecretStore;
use slimebot::env::{config_file_or_default, db_address_or_default, vault_settings_or_default, DbAddress};
use slimebot::fic::{chapter_id_from_href, has_updated, navigate_url, update_announcement, parse_usize_chars};
use slimebot::sprint::{Sprint, SprintMember};
use slimebot::wordle::users::User;
use slimebot::commands::{cat_source, is_server_error, minecraft_description, minecraft_request, ping_reply};
use slimebot::commands::{
    already_playing, author_response, new_daily_announcement, coin_count, completed_announcement, daily_announcement,
    daily_step, display_replies, dm_response, flip, flip_text, letters_reply, no_daily_yet,
    other_response, pfp, pfp_type, role_reply, role_step, unused_reply, DailyStep, PfpRequest,
    PfpSource, PfpType, RoleStep,
};
use slimebot::config::guild::{GuildConfig, WatchersConfig as GuildWatchers};
use slimebot::config::{
    activity_from, ActivityKind, AppConfig, BotConfig, BugReportsConfig, Config, DbConfig,
    GithubConfig, LogsConfig, RepoName, WatchersChannelConfig, WatchersConfig, WordleConfig,
};
use slimebot::env::{EnvVarErrorMeta, VaultEnvironment};
use slimebot::errors::{
    embed_parts, Backoff, MessageTooLongError, MissingPermissionsError, SendMessageError,
    SerenityErrorKind,
};
use slimebot::github::IssueBuilder;
use slimebot::ids::{ChannelId, GuildId, MessageId, RoleId, UserId};
use slimebot::secrets::{MissingSecretError, SecretFiles, SecretKey, Secrets};
use slimebot::watchers::haiku::check_haiku;
use slimebot::watchers::{
    vore_reply, BidenLWatcher, CLWatcher, HaikuWatcher, MessageWatcher, VoreWatcher,
};

#[test]
fn activity_prefixes() {
    let a = activity_from("playing chess").expect("prefixed");
    assert_eq!(a.kind, ActivityKind::Playing);
    assert_eq!(a.name, "chess");
    assert_eq!(activity_from("listening to music").map(|a| (a.kind, a.name)), Some((ActivityKind::Listening, "music".to_string())));
    assert_eq!(activity_from("watching ").map(|a| (a.kind, a.name)), Some((ActivityKind::Watching, "".to_string())));
    assert_eq!(activity_from("competing in a race").map(|a| (a.kind, a.name)), Some((ActivityKind::Competing, "a race".to_string())));
    assert!(activity_from("").is_none());
    assert!(activity_from("sleeping").is_none());
    assert!(activity_from("Playing chess").is_none());
}

fn bot(activity: Option<&str>) -> BotConfig {
    BotConfig::new(
        Some("tok".to_string()),
        Some(GuildId(5)),
        activity.map(|s| s.to_string()),
        "!".to_string(),
        None,
        RepoName::try_from_str("kaylendog/slimebot"),
    )
}

#[test]
fn bot_config_getters() {
    let b = bot(Some("watching you"));
    assert_eq!(b.token(), "tok");
    assert_eq!(b.testing_server(), Some(&GuildId(5)));
    assert_eq!(b.activity().map(|a| (a.kind, a.name)), Some((ActivityKind::Watching, "you".to_string())));
    assert!(bot(None).activity().is_none());
    assert_eq!(b.prefix(), "!");
    assert_eq!(b.status_channel(), None);
    assert_eq!(b.github_repo().map(|r| r.to_string()), Some("kaylendog/slimebot".to_string()));
}

#[test]
fn repo_names() {
    let r = RepoName::try_from_str("a/b/c").expect("has a slash");
    assert_eq!(r.to_string(), "a/b/c");
    assert!(RepoName::try_from_str("nothing").is_none());
    assert_eq!(RepoName::new("me".to_string(), "bot".to_string()).to_github_url(), Some("https://github.com/me/bot".to_string()));
    let g = GithubConfig::from_repository("x/y").expect("slash");
    assert_eq!(g.repository, ["x".to_string(), "y".to_string()]);
    assert!(GithubConfig::from_repository("xy").is_none());
}

#[test]
fn watchers_channels() {
    let w = WatchersConfig::new(
        true,
        Some(vec![
            WatchersChannelConfig { id: ChannelId(1), allow: false },
            WatchersChannelConfig { id: ChannelId(1), allow: true },
            WatchersChannelConfig { id: ChannelId(2), allow: true },
        ]),
    );
    assert!(!w.channel_allowed(ChannelId(1)));
    assert!(w.channel_allowed(ChannelId(2)));
    assert!(w.channel_allowed(ChannelId(3)));
    assert!(w.allow_by_default());
    assert_eq!(w.channels().map(|c| c.len()), Some(3));
    let d = WatchersConfig::default();
    assert!(!d.channel_allowed(ChannelId(3)));
    assert!(d.channels().is_none());
}

fn config(secrets_dir: Option<&str>, bug: Option<u64>) -> Config {
    Config {
        secrets_dir: secrets_dir.map(|s| s.to_string()),
        bot: bot(None),
        logs: LogsConfig::new(vec!["hi".to_string(), "hello".to_string()]),
        db: DbConfig::new("mongodb://x".to_string(), "u".to_string(), "p".to_string()),
        watchers: WatchersConfig::default(),
        bug_reports: BugReportsConfig { channel: bug.map(ChannelId) },
        wordle: WordleConfig::default(),
    }
}

#[test]
fn config_decisions() {
    let c = config(Some("/cfg"), Some(9));
    assert_eq!(c.bug_reports_channel(), Some(&ChannelId(9)));
    assert_eq!(config(None, None).bug_reports_channel(), None);
    assert_eq!(c.secrets_dir_with(Some("/env".to_string()), true), Some("/env".to_string()));
    assert_eq!(c.secrets_dir_with(None, false), Some("/cfg".to_string()));
    let n = config(None, None);
    assert_eq!(n.secrets_dir_with(None, true), Some("/etc/slimebot/secrets".to_string()));
    assert_eq!(n.secrets_dir_with(None, false), None);
    let t = c.logs.flavor_text().expect("two texts");
    assert!(t == "hi" || t == "hello");
    assert!(LogsConfig::new(vec![]).flavor_text().is_none());
    assert_eq!(c.db.url(), "mongodb://x");
    assert_eq!(c.db.username(), "u");
    assert_eq!(c.db.password(), "p");
    let app = AppConfig {
        secrets_dir: None,
        bot: bot(None),
        logs: LogsConfig::new(vec![]),
        watchers: WatchersConfig::default(),
        bug_reports: BugReportsConfig { channel: Some(ChannelId(4)) },
        wordle: WordleConfig { role_id: Some(RoleId(1)), channel_id: None },
    };
    assert_eq!(app.bug_reports_channel(), Some(&ChannelId(4)));
    let _guild = GuildConfig::new(GuildId(1), None, GuildWatchers::new(true, vec![(ChannelId(2), false)]));
}

#[test]
fn secrets_found_or_missing() {
    let s = Secrets::from_found(Some("t".into()), Some("u".into()), Some("p".into())).ok().expect("all found");
    assert_eq!(s.bot_token(), "t");
    assert_eq!(s.db_username(), "u");
    assert_eq!(s.db_password(), "p");
    let e = Secrets::from_found(Some("t".into()), None, Some("p".into())).err().expect("missing");
    assert_eq!(e, MissingSecretError { secret: SecretKey::DbUsername });
    assert_eq!(e.to_string(), "missing secret `db_username`");
    assert_eq!(SecretKey::BotToken.to_string(), "bot_token");
    assert_eq!(SecretKey::DbPassword.to_string(), "db_password");
}

#[test]
fn secret_files() {
    assert_eq!(SecretFiles::new("/run/secrets".into()).path_for(SecretKey::BotToken), "/run/secrets/bot_token");
    assert_eq!(SecretFiles::new("/run/secrets/".into()).path_for(SecretKey::DbUsername), "/run/secrets/db_username");
    assert_eq!(SecretFiles::new("".into()).path_for(SecretKey::DbPassword), "db_password");
    assert_eq!(SecretFiles::secret_from_contents("abc\r\nrest"), "abc");
    assert_eq!(SecretFiles::secret_from_contents("abc\nrest"), "abc");
    assert_eq!(SecretFiles::secret_from_contents("abc"), "abc");
}

#[test]
fn vault_environment() {
    let e = VaultEnvironment::from_vars(None, None, None).err().expect("missing url");
    assert_eq!(e.var, "SLIMEBOT_VAULT_URL");
    assert_eq!(e.meta, EnvVarErrorMeta::NotFound);
    let e = VaultEnvironment::from_vars(Some("not a url".into()), None, None).err().expect("bad url");
    assert_eq!(e.var, "SLIMEBOT_VAULT_URL");
    assert!(matches!(e.meta, EnvVarErrorMeta::Invalid(_)));
    let e = VaultEnvironment::from_vars(Some("https://vault.example".into()), None, Some("t".into())).err().expect("no mount");
    assert_eq!(e.var, "SLIMEBOT_VAULT_KV1_MOUNT");
    let e = VaultEnvironment::from_vars(Some("https://vault.example".into()), Some("kv".into()), None).err().expect("no token");
    assert_eq!(e.var, "SLIMEBOT_VAULT_TOKEN");
    let v = VaultEnvironment::from_vars(Some("https://vault.example".into()), Some("kv".into()), Some("t".into())).ok().expect("all set");
    assert_eq!(v.url(), "https://vault.example");
    assert_eq!(v.kv1_mount(), "kv");
    assert_eq!(v.token(), "t");
}

#[test]
fn send_message_errors() {
    let p = MissingPermissionsError { required: 0b1110, present: 0b0110 };
    assert_eq!(p.missing(), 0b1000);
    let e = SendMessageError::from_serenity(SerenityErrorKind::MessageTooLong(2001));
    assert_eq!(e, SendMessageError::MessageTooLong(MessageTooLongError { length: 2001 }));
    assert_eq!(e.into_serenity(), SerenityErrorKind::MessageTooLong(2001));
    let e = SendMessageError::from_serenity(SerenityErrorKind::InvalidPermissions { required: 3, present: 1 });
    assert!(matches!(e.backoff(), Backoff::Permanent(_)));
    let e = SendMessageError::from_serenity(SerenityErrorKind::Other("x".into()));
    assert!(matches!(e.backoff(), Backoff::Transient(SendMessageError::Other(s)) if s == "x"));
    let parts = embed_parts(1, "d".into(), "t".into(), Some("f".into()), None);
    assert_eq!(parts.footer, Some(("f".to_string(), None)));
    let parts = embed_parts(1, "d".into(), "t".into(), None, Some("i".into()));
    assert_eq!(parts.footer, None);
}

#[test]
fn issue_builder() {
    let i = IssueBuilder::new("bug".into(), UserId(1))
        .body("it broke".into())
        .guild(GuildId(2))
        .messages(vec![MessageId(3), MessageId(4)]);
    let _ = i;
}

#[test]
fn vore_pattern() {
    assert!(VoreWatcher::check("vore"));
    assert!(VoreWatcher::check("I like VORING"));
    assert!(VoreWatcher::check("(vores)"));
    assert!(VoreWatcher::check("Vore!"));
    assert!(!VoreWatcher::check("devore"));
    assert!(!VoreWatcher::check("vor e"));
    assert!(VoreWatcher::filter("x vore").is_some());
    assert_eq!(vore_reply("3 days"), "~~3 days~~ 0 days without mentioning vore");
}

#[test]
fn biden_and_cl() {
    assert!(BidenLWatcher::filter("L").is_some());
    assert!(BidenLWatcher::filter("L ").is_none());
    assert!(CLWatcher::check("look, CL!"));
    assert!(CLWatcher::check("(CL)"));
    assert!(!CLWatcher::check("CLEAR"));
    assert!(!CLWatcher::check("cl"));
    assert_eq!(CLWatcher::reply("Look CL please", "Look CL, Look CL, listen"), "listen");
    assert_eq!(CLWatcher::reply("hey CL", "Look CL, listen"), "Look CL, listen");
}

#[test]
fn haiku_reply() {
    let lines = vec!["a".to_string(), "b".to_string()];
    assert_eq!(HaikuWatcher::reply(&lines), "beep boop! i found a haiku:\n> *a*\n> *b*\nsometimes i make mistakes");
    let text = "an old silent pond a frog jumps into the pond splash silence again";
    let found = check_haiku(text).expect("5-7-5");
    assert_eq!(found, vec!["an old silent pond", "a frog jumps into the pond", "splash silence again"]);
    assert!(HaikuWatcher::filter("hello there").is_none());
}

fn request(in_guild: bool, is_author: bool, global: bool, member_avatar: bool, user_avatar: bool) -> PfpRequest<'static> {
    PfpRequest { in_guild, is_author, global, member_avatar, user_avatar, display_name: "Kay", user_name: "kay" }
}

#[test]
fn pfp_texts() {
    assert_eq!(pfp_type(false, true, true), PfpType::Guild);
    assert_eq!(pfp_type(true, false, true), PfpType::GlobalOnly);
    assert_eq!(pfp_type(true, true, true), PfpType::Global);
    assert_eq!(pfp_type(true, true, false), PfpType::Unset);
    assert_eq!(author_response(PfpType::Guild, false), "**your profile picture in this server:**");
    assert_eq!(other_response(PfpType::Global, true, "Kay", "kay"), "**`kay`'s global profile picture:**");
    assert_eq!(other_response(PfpType::Unset, false, "Kay", "kay"), "**Kay does not have a profile picture set!**");
    assert_eq!(dm_response(false, true, "kay"), "**`kay`'s profile picture:**");
    let (src, text) = pfp(request(true, false, false, true, true));
    assert_eq!(src, PfpSource::MemberFace);
    assert_eq!(text, "**Kay's profile picture in this server:**");
    let (src, text) = pfp(request(false, true, false, false, false));
    assert_eq!(src, PfpSource::UserFace);
    assert_eq!(text, "**you don't have a profile picture set!**");
}

#[test]
fn flips() {
    assert_eq!(coin_count(None), 1);
    assert_eq!(coin_count(Some(0)), 1);
    assert_eq!(coin_count(Some(4)), 4);
    assert_eq!(flip_text(&vec![true], true), "heads");
    assert_eq!(flip_text(&vec![false], false), "tails");
    assert_eq!(flip_text(&vec![true, false, true], false), "2 heads & 1 tails");
    assert_eq!(flip_text(&vec![true, false], true), "**1 heads & 1 tails** (heads, tails)");
    let one = flip(Some(0), true);
    assert!(one == "heads" || one == "tails");
    assert!(flip(Some(3), false).ends_with(" tails"));
}

#[test]
fn wordle_command_texts() {
    assert_eq!(daily_announcement(RoleId(42), 7), "<@&42> **Daily wordle 7 now available!**\nPlay it with `/wordle daily`");
    assert_eq!(completed_announcement("kay", 7, "🟩"), "`kay` **completed wordle 7!**\n🟩");
    assert_eq!(no_daily_yet(5), "you don't have a daily wordle yet! check back in 5 hours");
    assert_eq!(no_daily_yet(-2), "you don't have a daily wordle yet! check back in -2 hours");
    assert_eq!(already_playing("link"), "there's already a game being played in this channel! link");
    assert_eq!(daily_step(false, true, true), DailyStep::NoneYet);
    assert_eq!(daily_step(true, true, true), DailyStep::AlreadyPlaying);
    assert_eq!(daily_step(true, false, true), DailyStep::PlayInDms);
    assert_eq!(daily_step(true, false, false), DailyStep::PlayHere);
    let r = display_replies(3, true, "kay", Some((0, "")));
    assert_eq!(r.len(), 2);
    assert_eq!(r[0].text, "that user has started the wordle but hasn't guessed anything!");
    assert_eq!(r[1].text, "wordle 3 (`kay`):\n>>> ");
    let r = display_replies(3, false, "kay", None);
    assert_eq!(r[0].text, "that wordle doesn't exist!");
    assert!(r[0].ephemeral);
    let r = display_replies(3, true, "kay", None);
    assert_eq!(r[0].text, "that user hasn't started that wordle!");
    assert_eq!(letters_reply(None), "there isn't a game active in this channel!");
    assert_eq!(letters_reply(Some(("a", "b"))), "guessed letters:\na\n\nunused letters:\nb");
    assert_eq!(unused_reply(Some("x")), "unused letters:\nx");
    assert_eq!(role_step(true, true), RoleStep::Remove);
    assert_eq!(role_reply(role_step(false, true)), "Error: there's no wordle role configured!");
    assert_eq!(role_reply(RoleStep::Give), "Gave you the wordle role!");
}

#[test]
fn joke_bans() {
    let b = slimebot::ban::ban(1, 2, None);
    assert!(!b.ban_author);
    assert_eq!(b.moderator_id, 1);
    assert_eq!(b.reason, "No reason");
    let b = slimebot::ban::ban(1, 966519580266737715, Some("x".into()));
    assert!(b.ban_author);
    assert_eq!(b.moderator_id, 966519580266737715);
    assert_eq!(b.reason, "sike");
    let b = slimebot::ban::ban(497014954935713802, 2, Some("x".into()));
    assert_eq!(b.reason, "sike");
    assert!(slimebot::ban::banban(5).is_none());
    assert_eq!(slimebot::ban::banban(497014954935713802).map(|b| b.reason), Some("get banbanned lol".to_string()));
    assert_eq!(slimebot::ban::banban_image(), "https://files.catbox.moe/jm6sr9.png");
    let e = slimebot::ban::ban_embed("spam", 42, "bob");
    assert_eq!(e.title, "Ban result:");
    assert_eq!(e.color, 0x2F3136);
    assert!(e.fields[0].starts_with("<:reason:1167852271560839248> **Reason:** spam\n"));
    assert!(e.fields[0].contains("**Moderator:** <@42><:ticket:"));
    assert!(e.fields[1].ends_with("`bob`"));
    assert_eq!(e.fields[2], "<:fail:1167852407028461648> **Unsuccessful bans**\n                All users were banned!");
}

#[test]
fn wick_webhook() {
    let names = vec![None, Some("Other".to_string()), Some("Wick".to_string()), Some("Wick".to_string())];
    assert_eq!(slimebot::ban::find_wick(&names), Some(2));
    assert_eq!(slimebot::ban::find_wick(&vec![Some("x".to_string())]), None);
    let c = slimebot::ban::webhook_changes(None, "Wick", "face");
    assert!(c.create && !c.rename && c.set_avatar);
    let c = slimebot::ban::webhook_changes(Some(Some("face")), "Wick", "face");
    assert!(!c.create && !c.rename && !c.set_avatar);
    let c = slimebot::ban::webhook_changes(Some(Some("old")), "Wick Jr", "face");
    assert!(c.rename && c.set_avatar);
}

#[test]
fn bug_report_parts() {
    assert!(slimebot::bug_reports::is_report_request("🐞", 1));
    assert!(!slimebot::bug_reports::is_report_request("🐞", 2));
    assert!(!slimebot::bug_reports::is_report_request("👍", 1));
    let msgs: Vec<(String, String)> = vec![
        ("e".into(), "5".into()),
        ("d".into(), "4".into()),
        ("c".into(), "".into()),
        ("b".into(), "2".into()),
        ("a".into(), "1".into()),
    ];
    let f = slimebot::bug_reports::report_fields(&msgs, "LINK");
    assert_eq!(f.len(), 5);
    assert_eq!(f[0].name, "a");
    assert_eq!(f[0].value, "1");
    assert_eq!(f[2].name, "c << bug occurred here LINK");
    assert_eq!(f[2].value, "***empty message***");
    assert!(!f[4].inline);
    let frame = slimebot::bug_reports::report_frame();
    assert_eq!(frame.title, "bug report!");
    assert_eq!(frame.color, 0xDD2E44);
    assert_eq!(frame.footer, "slimebot");
}

#[test]
fn event_filters() {
    assert!(slimebot::events::should_watch(false, false, true));
    assert!(!slimebot::events::should_watch(true, false, true));
    assert!(!slimebot::events::should_watch(false, true, true));
    assert!(slimebot::events::should_check_reaction(false, true));
    assert!(!slimebot::events::should_check_reaction(false, false));
    let none = slimebot::events::MessageWatchersErrors::from_results(vec![Ok(()), Ok(())]);
    assert!(none.is_none());
    let some = slimebot::events::MessageWatchersErrors::from_results(vec![Err("a".into()), Ok(()), Err("b".into())])
        .expect("two failures");
    assert_eq!(some.to_string(), "ab");
}

#[test]
fn fic_watching() {
    assert_eq!(chapter_id_from_href("/works/1/chapters/123"), Some(123));
    assert_eq!(chapter_id_from_href("/works/1/chapters/123/chapters/9"), Some(123));
    assert_eq!(chapter_id_from_href("/works/1"), None);
    assert_eq!(chapter_id_from_href("/chapters/x1"), None);
    assert_eq!(parse_usize_chars(&"+7".chars().collect()), Some(7));
    assert_eq!(parse_usize_chars(&"".chars().collect()), None);
    assert_eq!(parse_usize_chars(&"99999999999999999999999".chars().collect()), None);
    assert_eq!(has_updated(1, 2), Ok(true));
    assert_eq!(has_updated(2, 2), Ok(false));
    assert!(has_updated(3, 2).is_err());
    assert_eq!(navigate_url(5), "https://archiveofourown.org/works/5/navigate");
    assert_eq!(
        update_announcement(RoleId(1), 3, 5, 77),
        "<@&1> **Intertwined has updated!**\n                    chapter 3: https://archiveofourown.org/works/5/chapters/77"
    );
}

#[test]
fn sprints() {
    let mut s = Sprint::new();
    s.add_member(User { id: UserId(1), name: "a".into() });
    s.add_member(User { id: UserId(1), name: "again".into() });
    s.add_member(User { id: UserId(2), name: "b".into() });
    let m = s.members();
    assert_eq!(m.len(), 2);
    assert_eq!(m[0].name, "a");
    assert_eq!(SprintMember::new(UserId(3)).stats.words, 0);
}

#[test]
fn small_command_texts() {
    assert_eq!(ping_reply(true, 0), "pong! (please try again later to display latency)");
    assert_eq!(ping_reply(false, 12), "ping! (12ms)");
    assert_eq!(cat_source(true), ("https://cataas.com/cat/gif".to_string(), "cat.gif".to_string()));
    assert_eq!(cat_source(false).1, "cat.jpg");
    assert!(is_server_error(503));
    assert!(!is_server_error(404));
    assert_eq!(minecraft_request(None).1, "https://api.mcstatus.io/v2/status/java/162.218.211.126");
    assert_eq!(minecraft_request(Some("mc.example".into())).0, "mc.example");
    assert_eq!(minecraft_description(true, 3), Some("players online: 3".to_string()));
    assert_eq!(minecraft_description(false, 3), None);
}

#[test]
fn environment_defaults() {
    assert_eq!(config_file_or_default(None), "./slimebot.toml");
    assert_eq!(config_file_or_default(Some("x.toml".into())), "x.toml");
    let a = db_address_or_default(None);
    assert_eq!(a.host, "db");
    assert_eq!(a.port, Some(27017));
    let b = db_address_or_default(Some(DbAddress { host: "h".into(), port: None }));
    assert_eq!(b, DbAddress { host: "h".into(), port: None });
    assert_eq!(vault_settings_or_default(None, None), ("http://vault:8200".to_string(), "slimebot".to_string()));
    assert_eq!(vault_settings_or_default(Some("u".into()), Some("k".into())), ("u".to_string(), "k".to_string()));
}

struct HalfStore;

impl SecretStore for HalfStore {
    fn try_get(&self, secret: SecretKey) -> Option<String> {
        match secret {
            SecretKey::BotToken => Some("tok".to_string()),
            _ => None,
        }
    }
}

struct Oops;

impl ErrorEmbedOptions for Oops {
    fn color(&self) -> u32 {
        0xFF0000
    }

    fn description(&self) -> String {
        "it broke".to_string()
    }
}

#[test]
fn stores_and_embeds() {
    assert_eq!(HalfStore.get(SecretKey::BotToken), Ok("tok".to_string()));
    assert_eq!(HalfStore.get(SecretKey::DbPassword), Err(MissingSecretError { secret: SecretKey::DbPassword }));
    let e = Secrets::from_store(&HalfStore).err().expect("user missing");
    assert_eq!(e.secret, SecretKey::DbUsername);
    let parts = create_embed(&Oops);
    assert_eq!(parts.color, 0xFF0000);
    assert_eq!(parts.title, "boop");
    assert_eq!(parts.description, "it broke");
    assert!(parts.footer.is_none());
}

#[test]
fn new_daily_announced_when_configured() {
    assert_eq!(
        new_daily_announcement(Some(7), Some(ChannelId(3)), Some(RoleId(42))),
        Some((ChannelId(3), "<@&42> **Daily wordle 7 now available!**\nPlay it with `/wordle daily`".to_string()))
    );
    assert_eq!(new_daily_announcement(None, Some(ChannelId(3)), Some(RoleId(42))), None);
    assert_eq!(new_daily_announcement(Some(7), None, Some(RoleId(42))), None);
    assert_eq!(new_daily_announcement(Some(7), Some(ChannelId(3)), None), None);
}
