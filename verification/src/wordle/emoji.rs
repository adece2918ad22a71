//! Showing guesses and letters as emoji: regional-indicator letters and colored squares.
use vstd::prelude::*;

use crate::text::{join, push_char};
use crate::wordle::guess::{Guess, LetterState};
use crate::wordle::options::GameStyle;

verus! {

/// Whether `c` is one of `a`..=`z`.
pub open spec fn is_lower_letter(c: char) -> bool {
    'a' <= c && c <= 'z'
}

/// The regional-indicator emoji for lowercase letter `c`.
pub open spec fn letter_emoji(c: char) -> char {
    ((c as u32) - ('a' as u32) + 0x1F1E6) as char
}

/// The colored square for a letter state.
pub open spec fn square(s: LetterState) -> char {
    match s {
        LetterState::Correct => '\u{1F7E9}',
        LetterState::WrongPlace => '\u{1F7E8}',
        LetterState::NotPresent => '\u{2B1B}',
    }
}

/// The zero-width non-joiner put before each letter emoji so flags do not form.
pub open spec fn zwnj() -> char {
    '\u{200C}'
}

/// The regional-indicator emoji for lowercase letter `c`.
pub fn letter_emoji_char(c: char) -> (r: char)
    requires
        is_lower_letter(c),
    ensures
        r == letter_emoji(c),
{
    match c {
        'a' => '\u{1F1E6}',
        'b' => '\u{1F1E7}',
        'c' => '\u{1F1E8}',
        'd' => '\u{1F1E9}',
        'e' => '\u{1F1EA}',
        'f' => '\u{1F1EB}',
        'g' => '\u{1F1EC}',
        'h' => '\u{1F1ED}',
        'i' => '\u{1F1EE}',
        'j' => '\u{1F1EF}',
        'k' => '\u{1F1F0}',
        'l' => '\u{1F1F1}',
        'm' => '\u{1F1F2}',
        'n' => '\u{1F1F3}',
        'o' => '\u{1F1F4}',
        'p' => '\u{1F1F5}',
        'q' => '\u{1F1F6}',
        'r' => '\u{1F1F7}',
        's' => '\u{1F1F8}',
        't' => '\u{1F1F9}',
        'u' => '\u{1F1FA}',
        'v' => '\u{1F1FB}',
        'w' => '\u{1F1FC}',
        'x' => '\u{1F1FD}',
        'y' => '\u{1F1FE}',
        'z' => '\u{1F1FF}',
        _ => '\u{1F1FF}',
    }
}

/// The colored square for `s`.
pub fn square_char(s: LetterState) -> (r: char)
    ensures
        r == square(s),
{
    match s {
        LetterState::Correct => '\u{1F7E9}',
        LetterState::WrongPlace => '\u{1F7E8}',
        LetterState::NotPresent => '\u{2B1B}',
    }
}

/// The text a style picks among the three ways of drawing.
pub open spec fn styled(style: GameStyle, colors: Seq<char>, letters: Seq<char>, spaced: Seq<char>) -> Seq<
    char,
> {
    match style {
        GameStyle::Colors => colors,
        GameStyle::Letters => letters,
        GameStyle::SpacedLetters => spaced,
    }
}

/// Things that can be drawn with emoji.
pub trait AsEmoji {
    /// Whether every letter involved is one of `a`..=`z`, which drawing needs.
    spec fn showable(&self) -> bool;

    /// The colors-only drawing.
    spec fn emoji_view(&self) -> Seq<char>;

    /// The drawing with letters.
    spec fn letters_view(&self) -> Seq<char>;

    /// The drawing with spaced letters.
    spec fn spaced_view(&self) -> Seq<char>;

    /// Draws with colors only.
    fn as_emoji(&self) -> (r: String)
        requires
            self.showable(),
        ensures
            r@ == self.emoji_view(),
    ;

    /// Draws with letters.
    fn emoji_with_letters(&self) -> (r: String)
        requires
            self.showable(),
        ensures
            r@ == self.letters_view(),
    ;

    /// Draws with spaced letters.
    fn emoji_with_letters_spaced(&self) -> (r: String)
        requires
            self.showable(),
        ensures
            r@ == self.spaced_view(),
    ;

    /// Draws in `style`.
    fn emoji_with_style(&self, style: GameStyle) -> (r: String)
        requires
            self.showable(),
        ensures
            r@ == styled(style, self.emoji_view(), self.letters_view(), self.spaced_view()),
    {
        match style {
            GameStyle::Colors => self.as_emoji(),
            GameStyle::Letters => self.emoji_with_letters(),
            GameStyle::SpacedLetters => self.emoji_with_letters_spaced(),
        }
    }

    /// Draws in the default style, with letters.
    fn emoji_default_style(&self) -> (r: String)
        requires
            self.showable(),
        ensures
            r@ == self.letters_view(),
    {
        self.emoji_with_style(GameStyle::default())
    }
}

impl AsEmoji for char {
    open spec fn showable(&self) -> bool {
        is_lower_letter(*self)
    }

    open spec fn emoji_view(&self) -> Seq<char> {
        seq![letter_emoji(*self)]
    }

    open spec fn letters_view(&self) -> Seq<char> {
        seq![letter_emoji(*self)]
    }

    open spec fn spaced_view(&self) -> Seq<char> {
        seq![letter_emoji(*self)]
    }

    fn as_emoji(&self) -> (r: String) {
        let mut s = String::new();
        push_char(&mut s, letter_emoji_char(*self));
        s
    }

    fn emoji_with_letters(&self) -> (r: String) {
        self.as_emoji()
    }

    fn emoji_with_letters_spaced(&self) -> (r: String) {
        self.as_emoji()
    }
}

impl AsEmoji for LetterState {
    open spec fn showable(&self) -> bool {
        true
    }

    open spec fn emoji_view(&self) -> Seq<char> {
        seq![square(*self)]
    }

    open spec fn letters_view(&self) -> Seq<char> {
        seq![square(*self)]
    }

    open spec fn spaced_view(&self) -> Seq<char> {
        seq![square(*self)]
    }

    fn as_emoji(&self) -> (r: String) {
        let mut s = String::new();
        push_char(&mut s, square_char(*self));
        s
    }

    fn emoji_with_letters(&self) -> (r: String) {
        self.as_emoji()
    }

    fn emoji_with_letters_spaced(&self) -> (r: String) {
        self.as_emoji()
    }
}

/// The squares of a guess, side by side.
pub open spec fn guess_squares(g: Seq<(char, LetterState)>) -> Seq<char> {
    Seq::new(g.len(), |i: int| square(g[i].1))
}

/// The letter emoji of a guess, each after a zero-width non-joiner.
pub open spec fn guess_letter_row(g: Seq<(char, LetterState)>) -> Seq<char> {
    Seq::new(2 * g.len(), |i: int| if i % 2 == 0 { zwnj() } else { letter_emoji(g[i / 2].0) })
}

/// Singletons of each letter emoji of a guess.
pub open spec fn letter_cells(g: Seq<(char, LetterState)>) -> Seq<Seq<char>> {
    Seq::new(g.len(), |i: int| seq![letter_emoji(g[i].0)])
}

/// Singletons of each square of a guess.
pub open spec fn square_cells(g: Seq<(char, LetterState)>) -> Seq<Seq<char>> {
    Seq::new(g.len(), |i: int| seq![square(g[i].1)])
}

/// Pushes the squares of `g` onto `s`, with `sep` after each but the last when `spaced`.
pub(crate) fn push_row(s: &mut String, g: &Guess, letters: bool, spaced: bool)
    requires
        letters ==> forall|i: int| 0 <= i < 5 ==> is_lower_letter(#[trigger] g@[i].0),
    ensures
        !letters && !spaced ==> final(s)@ == old(s)@ + guess_squares(g@),
        letters && !spaced ==> final(s)@ == old(s)@ + guess_letter_row(g@),
        !letters && spaced ==> final(s)@ == old(s)@ + join(square_cells(g@), seq![' ']),
        letters && spaced ==> final(s)@ == old(s)@ + join(letter_cells(g@), seq![' ']),
{
    proof {
        g.lemma_len();
    }
    let v = g.iter();
    let ghost start = s@;
    let ghost row = if letters {
        if spaced {
            join(letter_cells(g@), seq![' '])
        } else {
            guess_letter_row(g@)
        }
    } else {
        if spaced {
            join(square_cells(g@), seq![' '])
        } else {
            guess_squares(g@)
        }
    };
    let ghost cells = if letters {
        letter_cells(g@)
    } else {
        square_cells(g@)
    };
    let mut i: usize = 0;
    while i < 5
        invariant
            0 <= i <= 5,
            v@ == g@,
            g@.len() == 5,
            letters ==> forall|k: int| 0 <= k < 5 ==> is_lower_letter(#[trigger] g@[k].0),
            cells == if letters {
                letter_cells(g@)
            } else {
                square_cells(g@)
            },
            !spaced && !letters ==> s@ == start + guess_squares(g@).take(i as int),
            !spaced && letters ==> s@ == start + guess_letter_row(g@).take(2 * i),
            spaced ==> s@ == start + join(cells.take(i as int), seq![' ']),
        decreases 5 - i,
    {
        let (c, st) = v[i];
        let ghost before = s@;
        if spaced && i > 0 {
            push_char(s, ' ');
        }
        if letters {
            if !spaced {
                push_char(s, '\u{200C}');
            }
            push_char(s, letter_emoji_char(c));
        } else {
            push_char(s, square_char(st));
        }
        proof {
            assert(cells.take(i + 1).drop_last() =~= cells.take(i as int));
            if i == 0 {
                assert(cells.take(0) =~= Seq::<Seq<char>>::empty());
            }
            if !spaced && !letters {
                assert(guess_squares(g@).take(i + 1) =~= guess_squares(g@).take(i as int).push(
                    square(st),
                ));
            }
            if !spaced && letters {
                assert(guess_letter_row(g@).take(2 * (i + 1)) =~= guess_letter_row(g@).take(
                    2 * i,
                ).push(zwnj()).push(letter_emoji(c)));
            }
        }
        i = i + 1;
    }
    proof {
        assert(cells.take(5) =~= cells);
        assert(guess_squares(g@).take(5) =~= guess_squares(g@));
        assert(guess_letter_row(g@).take(10) =~= guess_letter_row(g@));
    }
}

impl AsEmoji for Guess {
    open spec fn showable(&self) -> bool {
        forall|i: int| 0 <= i < 5 ==> is_lower_letter(#[trigger] self@[i].0)
    }

    open spec fn emoji_view(&self) -> Seq<char> {
        guess_squares(self@)
    }

    open spec fn letters_view(&self) -> Seq<char> {
        guess_letter_row(self@) + seq!['\n'] + guess_squares(self@)
    }

    open spec fn spaced_view(&self) -> Seq<char> {
        join(letter_cells(self@), seq![' ']) + seq!['\n'] + join(square_cells(self@), seq![' '])
    }

    fn as_emoji(&self) -> (r: String) {
        let mut s = String::new();
        push_row(&mut s, self, false, false);
        s
    }

    fn emoji_with_letters(&self) -> (r: String) {
        let mut s = String::new();
        push_row(&mut s, self, true, false);
        push_char(&mut s, '\n');
        push_row(&mut s, self, false, false);
        s
    }

    fn emoji_with_letters_spaced(&self) -> (r: String) {
        let mut s = String::new();
        push_row(&mut s, self, true, true);
        push_char(&mut s, '\n');
        push_row(&mut s, self, false, true);
        s
    }
}

} // verus!
