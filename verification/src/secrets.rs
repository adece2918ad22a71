//! The bot's secrets: which there are, where they are read from, and what is missing.
use vstd::prelude::*;

use crate::text::{push_char, push_str};

verus! {

/// The name of one secret.
#[derive(Clone, Copy, Debug, PartialEq, Eq, Hash, Structural)]
pub enum SecretKey {
    BotToken,
    DbUsername,
    DbPassword,
}

/// The text naming a secret, which is also the name of its file.
pub open spec fn key_name(k: SecretKey) -> Seq<char> {
    match k {
        SecretKey::BotToken => "bot_token"@,
        SecretKey::DbUsername => "db_username"@,
        SecretKey::DbPassword => "db_password"@,
    }
}

impl SecretKey {
    /// The secret's name; see [`key_name`].
    pub fn to_string(&self) -> (r: String)
        ensures
            r@ == key_name(*self),
    {
        let mut s = String::new();
        match self {
            SecretKey::BotToken => push_str(&mut s, "bot_token"),
            SecretKey::DbUsername => push_str(&mut s, "db_username"),
            SecretKey::DbPassword => push_str(&mut s, "db_password"),
        }
        s
    }
}

/// A secret could not be found.
#[derive(Clone, Copy, Debug, PartialEq, Eq, Structural)]
pub struct MissingSecretError {
    pub secret: SecretKey,
}

impl MissingSecretError {
    /// The error's message: ``missing secret `name` ``.
    pub fn to_string(&self) -> (r: String)
        ensures
            r@ == "missing secret `"@ + key_name(self.secret) + "`"@,
    {
        let mut s = String::new();
        push_str(&mut s, "missing secret `");
        let name = self.secret.to_string();
        push_str(&mut s, name.as_str());
        push_str(&mut s, "`");
        s
    }
}

/// The value found for `secret`, or the error that it is missing.
pub fn secret_result(secret: SecretKey, found: Option<String>) -> (r: Result<String, MissingSecretError>)
    ensures
        match found {
            Some(v) => r == Ok::<String, MissingSecretError>(v),
            None => r == Err::<String, MissingSecretError>(MissingSecretError { secret }),
        },
{
    match found {
        Some(v) => Ok(v),
        None => Err(MissingSecretError { secret }),
    }
}

/// Somewhere secrets are kept. Stores are implemented where secrets are read.
pub trait SecretStore {
    /// The value of `secret`, if the store has it.
    fn try_get(&self, secret: SecretKey) -> Option<String>;

    /// The value of `secret`, or the error naming it; by default, what `try_get` found
    /// for it, or that it is missing.
    fn get(&self, secret: SecretKey) -> (r: Result<String, MissingSecretError>)
        ensures
            r matches Err(e) ==> e.secret == secret,
        default_ensures
            r matches Err(e) ==> e.secret == secret,
            exists|found: Option<String>|
                call_ensures(Self::try_get, (self, secret), found) && r == match found {
                    Some(v) => Ok::<String, MissingSecretError>(v),
                    None => Err::<String, MissingSecretError>(MissingSecretError { secret }),
                },
    {
        secret_result(secret, self.try_get(secret))
    }
}

/// What [`Secrets::from_found`] gives for what was found: all three secrets, or the
/// first missing one (bot token, then database user, then database password).
pub open spec fn found_outcome(
    bot_token: Option<String>,
    db_username: Option<String>,
    db_password: Option<String>,
    r: Result<Secrets, MissingSecretError>,
) -> bool {
    match (bot_token, db_username, db_password) {
        (Some(t), Some(u), Some(p)) => r matches Ok(s) && s.bot_token_view() == t@
            && s.db_username_view() == u@ && s.db_password_view() == p@,
        (None, _, _) => r == Err::<Secrets, MissingSecretError>(
            MissingSecretError { secret: SecretKey::BotToken },
        ),
        (Some(_), None, _) => r == Err::<Secrets, MissingSecretError>(
            MissingSecretError { secret: SecretKey::DbUsername },
        ),
        (Some(_), Some(_), None) => r == Err::<Secrets, MissingSecretError>(
            MissingSecretError { secret: SecretKey::DbPassword },
        ),
    }
}

/// The secrets the bot needs.
#[derive(Debug)]
pub struct Secrets {
    bot_token: String,
    db_username: String,
    db_password: String,
}

impl Secrets {
    /// Secrets from what was found for each: all of them, or an error naming one that
    /// is missing.
    pub fn from_found(
        bot_token: Option<String>,
        db_username: Option<String>,
        db_password: Option<String>,
    ) -> (r: Result<Secrets, MissingSecretError>)
        ensures
            r is Ok <==> (bot_token is Some && db_username is Some && db_password is Some),
            r matches Ok(s) ==> s.bot_token_view() == bot_token->0@ && s.db_username_view()
                == db_username->0@ && s.db_password_view() == db_password->0@,
            r matches Err(e) ==> (e.secret == SecretKey::BotToken && bot_token is None) || (
            e.secret == SecretKey::DbUsername && db_username is None) || (e.secret
                == SecretKey::DbPassword && db_password is None),
            found_outcome(bot_token, db_username, db_password, r),
    {
        let bot_token = match secret_result(SecretKey::BotToken, bot_token) {
            Ok(v) => v,
            Err(e) => return Err(e),
        };
        let db_username = match secret_result(SecretKey::DbUsername, db_username) {
            Ok(v) => v,
            Err(e) => return Err(e),
        };
        let db_password = match secret_result(SecretKey::DbPassword, db_password) {
            Ok(v) => v,
            Err(e) => return Err(e),
        };
        Ok(Secrets { bot_token, db_username, db_password })
    }

    /// Reads every secret from `store` with `try_get`; see [`Secrets::from_found`].
    pub fn from_store<S: SecretStore>(store: &S) -> (r: Result<Secrets, MissingSecretError>)
        ensures
            exists|a: Option<String>, b: Option<String>, c: Option<String>|
                call_ensures(S::try_get, (store, SecretKey::BotToken), a) && call_ensures(
                    S::try_get,
                    (store, SecretKey::DbUsername),
                    b,
                ) && call_ensures(S::try_get, (store, SecretKey::DbPassword), c) && found_outcome(
                    a,
                    b,
                    c,
                    r,
                ),
    {
        let a = store.try_get(SecretKey::BotToken);
        let b = store.try_get(SecretKey::DbUsername);
        let c = store.try_get(SecretKey::DbPassword);
        let ghost (ga, gb, gc) = (a, b, c);
        let r = Secrets::from_found(a, b, c);
        assert(call_ensures(S::try_get, (store, SecretKey::BotToken), ga) && call_ensures(
            S::try_get,
            (store, SecretKey::DbUsername),
            gb,
        ) && call_ensures(S::try_get, (store, SecretKey::DbPassword), gc) && found_outcome(
            ga,
            gb,
            gc,
            r,
        ));
        r
    }

    pub closed spec fn bot_token_view(&self) -> Seq<char> {
        self.bot_token@
    }

    pub closed spec fn db_username_view(&self) -> Seq<char> {
        self.db_username@
    }

    pub closed spec fn db_password_view(&self) -> Seq<char> {
        self.db_password@
    }

    /// The discord token.
    pub fn bot_token(&self) -> (r: &str)
        ensures
            r@ == self.bot_token_view(),
    {
        self.bot_token.as_str()
    }

    /// The database user.
    pub fn db_username(&self) -> (r: &str)
        ensures
            r@ == self.db_username_view(),
    {
        self.db_username.as_str()
    }

    /// The database password.
    pub fn db_password(&self) -> (r: &str)
        ensures
            r@ == self.db_password_view(),
    {
        self.db_password.as_str()
    }
}

/// `dir` joined with `name`, as `Path::join` does for a relative name: a `/` goes
/// between them unless `dir` is empty or already ends with one.
pub open spec fn joined_path(dir: Seq<char>, name: Seq<char>) -> Seq<char> {
    if dir.len() == 0 {
        name
    } else if dir.last() == '/' {
        dir + name
    } else {
        dir + seq!['/'] + name
    }
}

/// The first line of a secret file, without its line ending.
pub open spec fn first_line(s: Seq<char>) -> Seq<char> {
    match crate::text::first_index_of(s, '\n') {
        Some(i) => if i > 0 && s[i - 1] == '\r' {
            s.take(i - 1)
        } else {
            s.take(i)
        },
        None => s,
    }
}

/// A directory with one file per secret, named after it.
#[derive(Debug)]
pub struct SecretFiles {
    directory: String,
}

impl SecretFiles {
    /// The secrets in `directory`.
    pub fn new(directory: String) -> (r: SecretFiles)
        ensures
            r.directory_view() == directory@,
    {
        SecretFiles { directory }
    }

    pub closed spec fn directory_view(&self) -> Seq<char> {
        self.directory@
    }

    /// The file holding `secret`.
    pub fn path_for(&self, secret: SecretKey) -> (r: String)
        ensures
            r@ == joined_path(self.directory_view(), key_name(secret)),
    {
        let name = secret.to_string();
        let dir = crate::text::chars_of(self.directory.as_str());
        let mut s = String::new();
        let n = dir.len();
        if n == 0 {
            push_str(&mut s, name.as_str());
            return s;
        }
        crate::text::push_chars(&mut s, &dir);
        if dir[n - 1] != '/' {
            push_char(&mut s, '/');
        }
        push_str(&mut s, name.as_str());
        s
    }

    /// The secret held by a file with `contents`: its first line. The file must not be
    /// empty.
    pub fn secret_from_contents(contents: &str) -> (r: String)
        requires
            contents@.len() > 0,
        ensures
            r@ == first_line(contents@),
    {
        let cs = crate::text::chars_of(contents);
        match crate::text::find_char(&cs, '\n') {
            Some(i) => {
                if i > 0 && cs[i - 1] == '\r' {
                    let r = crate::text::string_of_range(&cs, 0, i - 1);
                    assert(r@ =~= cs@.take(i - 1));
                    r
                } else {
                    let r = crate::text::string_of_range(&cs, 0, i);
                    assert(r@ =~= cs@.take(i as int));
                    r
                }
            },
            None => crate::text::string_of(&cs),
        }
    }
}

} // verus!
