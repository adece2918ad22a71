//! Discord snowflake identifiers, held as plain integers.
use vstd::prelude::*;

verus! {

/// A discord user id.
#[derive(Clone, Copy, Debug, Default, PartialEq, Eq, Hash, Structural)]
pub struct UserId(pub u64);

/// A discord channel id.
#[derive(Clone, Copy, Debug, Default, PartialEq, Eq, Hash, Structural)]
pub struct ChannelId(pub u64);

/// A discord guild (server) id.
#[derive(Clone, Copy, Debug, Default, PartialEq, Eq, Hash, Structural)]
pub struct GuildId(pub u64);

/// A discord message id.
#[derive(Clone, Copy, Debug, Default, PartialEq, Eq, Hash, Structural)]
pub struct MessageId(pub u64);

/// A discord role id.
#[derive(Clone, Copy, Debug, Default, PartialEq, Eq, Hash, Structural)]
pub struct RoleId(pub u64);

} // verus!
