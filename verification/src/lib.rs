//! Verified core of a small self-hosted discord bot: its commands' decisions and
//! texts, dice rolls, wordle, haiku and other message watchers, bug reports,
//! configuration and secrets.

pub mod ban;
pub mod bug_reports;
pub mod clock;
pub mod commands;
pub mod config;
pub mod env;
pub mod errors;
pub mod events;
pub mod fic;
pub mod github;
pub mod ids;
pub mod natural;
pub mod roll;
pub mod secrets;
pub mod sprint;
pub mod text;
pub mod watchers;
pub mod wordle;
