//! Wordle: the classic game played in a channel, and the newer game core.

pub mod classic;
pub mod daily;
pub mod emoji;
pub mod game;
pub mod guess;
pub mod guesses;
pub mod letters;
pub mod options;
pub mod users;
