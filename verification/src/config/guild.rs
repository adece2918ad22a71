//! Per-server settings.
use vstd::prelude::*;

use crate::ids::{ChannelId, GuildId};

verus! {

/// Where the watchers answer in one server: a default and per-channel overrides.
#[derive(Debug)]
pub struct WatchersConfig {
    enabled_by_default: bool,
    channel_overrides: Vec<(ChannelId, bool)>,
}

impl WatchersConfig {
    /// Watchers enabled by default or not, with these overrides.
    pub fn new(enabled_by_default: bool, channel_overrides: Vec<(ChannelId, bool)>) -> (r: WatchersConfig)
        ensures
            r.enabled_by_default_view() == enabled_by_default,
            r.overrides_view() == channel_overrides@,
    {
        WatchersConfig { enabled_by_default, channel_overrides }
    }

    pub closed spec fn enabled_by_default_view(&self) -> bool {
        self.enabled_by_default
    }

    pub closed spec fn overrides_view(&self) -> Seq<(ChannelId, bool)> {
        self.channel_overrides@
    }
}

/// The settings of one server.
#[derive(Debug)]
pub struct GuildConfig {
    guild_id: GuildId,
    prefix: Option<String>,
    watchers: WatchersConfig,
}

impl GuildConfig {
    /// The settings of server `guild_id`.
    pub fn new(guild_id: GuildId, prefix: Option<String>, watchers: WatchersConfig) -> (r: GuildConfig)
        ensures
            r.guild_id_view() == guild_id,
            r.prefix_view() == prefix,
            r.watchers_view() == watchers,
    {
        GuildConfig { guild_id, prefix, watchers }
    }

    pub closed spec fn guild_id_view(&self) -> GuildId {
        self.guild_id
    }

    pub closed spec fn prefix_view(&self) -> Option<String> {
        self.prefix
    }

    pub closed spec fn watchers_view(&self) -> WatchersConfig {
        self.watchers
    }
}

} // verus!
