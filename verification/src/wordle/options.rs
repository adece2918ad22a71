//! How a wordle game is shown and how many guesses it allows.
use vstd::prelude::*;

use crate::wordle::guess::GuessesLimit;

verus! {

/// How guesses are drawn.
#[derive(Clone, Copy, Debug, PartialEq, Eq, Structural)]
pub enum GameStyle {
    /// Colored squares only.
    Colors,
    /// Letters above the squares.
    Letters,
    /// Letters above the squares, with spaces between.
    SpacedLetters,
}

impl Default for GameStyle {
    fn default() -> (r: Self)
        ensures
            r == GameStyle::Letters,
    {
        GameStyle::Letters
    }
}

/// The settings of one game.
#[derive(Clone, Copy, Debug)]
pub struct GameOptions {
    pub style: GameStyle,
    pub guesses_limit: GuessesLimit,
}

impl Default for GameOptions {
    fn default() -> (r: Self)
        ensures
            r.style == GameStyle::Letters,
            r.guesses_limit@ == 6,
    {
        GameOptions { style: GameStyle::default(), guesses_limit: GuessesLimit::default() }
    }
}

/// Settings chosen so far; unset ones take their defaults when built.
#[derive(Clone, Copy, Debug)]
pub struct GameOptionsBuilder {
    style: Option<GameStyle>,
    guesses_limit: Option<GuessesLimit>,
}

impl Default for GameOptionsBuilder {
    fn default() -> (r: Self)
        ensures
            r.style_view() is None,
            r.limit_view() is None,
    {
        GameOptionsBuilder { style: None, guesses_limit: None }
    }
}

impl GameOptionsBuilder {
    /// The style chosen, if any.
    pub closed spec fn style_view(&self) -> Option<GameStyle> {
        self.style
    }

    /// The guess limit chosen, if any.
    pub closed spec fn limit_view(&self) -> Option<GuessesLimit> {
        self.guesses_limit
    }

    /// Sets (or clears) the style.
    pub fn style(self, style: Option<GameStyle>) -> (r: Self)
        ensures
            r.style_view() == style,
            r.limit_view() == self.limit_view(),
    {
        let mut s = self;
        s.style = style;
        s
    }

    /// Sets (or clears) the guess limit.
    pub fn guesses_limit(self, limit: Option<GuessesLimit>) -> (r: Self)
        ensures
            r.limit_view() == limit,
            r.style_view() == self.style_view(),
    {
        let mut s = self;
        s.guesses_limit = limit;
        s
    }

    /// The options, with defaults for whatever was not chosen.
    pub fn build(self) -> (r: GameOptions)
        ensures
            r.style == match self.style_view() {
                Some(s) => s,
                None => GameStyle::Letters,
            },
            r.guesses_limit@ == match self.limit_view() {
                Some(l) => l@,
                None => 6,
            },
    {
        GameOptions {
            style: match self.style {
                Some(s) => s,
                None => GameStyle::default(),
            },
            guesses_limit: match self.guesses_limit {
                Some(l) => l,
                None => GuessesLimit::default(),
            },
        }
    }
}

} // verus!
