//! What the environment tells the bot: where its secrets come from, and the settings
//! of the secrets vault.
use vstd::prelude::*;

verus! {

/// Why an environment variable could not be used.
#[derive(Debug, PartialEq, Eq)]
pub enum EnvVarErrorMeta {
    NotFound,
    Invalid(String),
}

/// An environment variable could not be used.
#[derive(Debug, PartialEq, Eq)]
pub struct EnvVarError {
    pub var: &'static str,
    pub meta: EnvVarErrorMeta,
}

/// Whether `url::Url::parse` accepts `s`; a name for what the URL grammar decides.
pub uninterp spec fn url_valid(s: Seq<char>) -> bool;

/// `url::Url::parse(s)`: `None` when it succeeds, else the parse error's message.
/// Claimed: `None` exactly when `s` is a valid URL by the named property; nothing is
/// claimed of the message.
#[verifier::external_body]
fn url_parse_error(s: &str) -> (r: Option<String>)
    ensures
        r is None <==> url_valid(s@),
{
    match url::Url::parse(s) {
        Ok(_) => None,
        Err(e) => Some(e.to_string()),
    }
}

/// Where the secrets vault is and how to read from it.
#[derive(Debug, PartialEq, Eq)]
pub struct VaultEnvironment {
    url: String,
    kv1_mount: String,
    token: String,
}

impl VaultEnvironment {
    pub closed spec fn url_view(&self) -> Seq<char> {
        self.url@
    }

    pub closed spec fn kv1_mount_view(&self) -> Seq<char> {
        self.kv1_mount@
    }

    pub closed spec fn token_view(&self) -> Seq<char> {
        self.token@
    }

    /// The vault's settings from the values of `SLIMEBOT_VAULT_URL`,
    /// `SLIMEBOT_VAULT_KV1_MOUNT` and `SLIMEBOT_VAULT_TOKEN`, checked in that order: a
    /// missing variable, or a URL that does not parse, is reported.
    pub fn from_vars(url: Option<String>, kv1_mount: Option<String>, token: Option<String>) -> (r:
        Result<VaultEnvironment, EnvVarError>)
        ensures
            match url {
                None => r matches Err(e) && e.var@ == "SLIMEBOT_VAULT_URL"@ && e.meta
                    == EnvVarErrorMeta::NotFound,
                Some(u) => if !url_valid(u@) {
                    r matches Err(e) && e.var@ == "SLIMEBOT_VAULT_URL"@ && e.meta is Invalid
                } else {
                    match kv1_mount {
                        None => r matches Err(e) && e.var@ == "SLIMEBOT_VAULT_KV1_MOUNT"@ && e.meta
                            == EnvVarErrorMeta::NotFound,
                        Some(k) => match token {
                            None => r matches Err(e) && e.var@ == "SLIMEBOT_VAULT_TOKEN"@ && e.meta
                                == EnvVarErrorMeta::NotFound,
                            Some(t) => r matches Ok(env) && env.url_view() == u@
                                && env.kv1_mount_view() == k@ && env.token_view() == t@,
                        },
                    }
                },
            },
    {
        let url = match url {
            Some(u) => u,
            None => {
                return Err(EnvVarError { var: "SLIMEBOT_VAULT_URL", meta: EnvVarErrorMeta::NotFound });
            },
        };
        if let Some(message) = url_parse_error(url.as_str()) {
            return Err(
                EnvVarError { var: "SLIMEBOT_VAULT_URL", meta: EnvVarErrorMeta::Invalid(message) },
            );
        }
        let kv1_mount = match kv1_mount {
            Some(k) => k,
            None => {
                return Err(
                    EnvVarError { var: "SLIMEBOT_VAULT_KV1_MOUNT", meta: EnvVarErrorMeta::NotFound },
                );
            },
        };
        let token = match token {
            Some(t) => t,
            None => {
                return Err(
                    EnvVarError { var: "SLIMEBOT_VAULT_TOKEN", meta: EnvVarErrorMeta::NotFound },
                );
            },
        };
        Ok(VaultEnvironment { url, kv1_mount, token })
    }

    /// The vault's address.
    pub fn url(&self) -> (r: &str)
        ensures
            r@ == self.url_view(),
    {
        self.url.as_str()
    }

    /// The mount point of the key-value store.
    pub fn kv1_mount(&self) -> (r: &str)
        ensures
            r@ == self.kv1_mount_view(),
    {
        self.kv1_mount.as_str()
    }

    /// The vault token.
    pub fn token(&self) -> (r: &str)
        ensures
            r@ == self.token_view(),
    {
        self.token.as_str()
    }
}

/// Where the bot's secrets come from: a token given directly, or the vault.
#[derive(Debug)]
pub enum Secrets {
    Dev { token: String },
    Vault(VaultEnvironment),
}

/// The config file to read: the one named by the environment, or `./slimebot.toml`.
pub fn config_file_or_default(path: Option<String>) -> (r: String)
    ensures
        match path {
            Some(p) => r@ == p@,
            None => r@ == "./slimebot.toml"@,
        },
{
    match path {
        Some(p) => p,
        None => {
            let mut s = String::new();
            crate::text::push_str(&mut s, "./slimebot.toml");
            s
        },
    }
}

/// A database server: its host and, if given, its port.
#[derive(Debug, PartialEq, Eq)]
pub struct DbAddress {
    pub host: String,
    pub port: Option<u16>,
}

/// The database server to use: the one given, or host `db` on port 27017.
pub fn db_address_or_default(given: Option<DbAddress>) -> (r: DbAddress)
    ensures
        match given {
            Some(a) => r == a,
            None => r.host@ == "db"@ && r.port == Some(27017u16),
        },
{
    match given {
        Some(a) => a,
        None => {
            let mut host = String::new();
            crate::text::push_str(&mut host, "db");
            DbAddress { host, port: Some(27017) }
        },
    }
}

/// Where the vault is and which store to read, as given or by default
/// (`http://vault:8200` and `slimebot`).
pub fn vault_settings_or_default(url: Option<String>, kv1_mount: Option<String>) -> (r: (String, String))
    ensures
        match url {
            Some(u) => r.0@ == u@,
            None => r.0@ == "http://vault:8200"@,
        },
        match kv1_mount {
            Some(k) => r.1@ == k@,
            None => r.1@ == "slimebot"@,
        },
{
    let u = match url {
        Some(u) => u,
        None => {
            let mut s = String::new();
            crate::text::push_str(&mut s, "http://vault:8200");
            s
        },
    };
    let k = match kv1_mount {
        Some(k) => k,
        None => {
            let mut s = String::new();
            crate::text::push_str(&mut s, "slimebot");
            s
        },
    };
    (u, k)
}

} // verus!
