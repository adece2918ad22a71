//! The newer wordle core: five-letter guesses, partial guesses read from chat,
//! guess limits, and summaries of the letters used.
use vstd::prelude::*;

use crate::text::{
    alphabetic, ascii_lower, char_is_alphabetic, chars_of, lowercase, push_char, string_of,
    to_ascii_lower,
};
use crate::wordle::classic::WordsList;

verus! {

/// How one letter of a guess relates to the answer.
#[derive(Clone, Copy, Debug, PartialEq, Eq, Structural)]
pub enum LetterState {
    NotPresent,
    WrongPlace,
    Correct,
}

impl Default for LetterState {
    fn default() -> (r: Self)
        ensures
            r == LetterState::NotPresent,
    {
        LetterState::NotPresent
    }
}

/// The one-character code of a letter state: `O`, `o` or `.`.
pub open spec fn code_of(s: LetterState) -> char {
    match s {
        LetterState::Correct => 'O',
        LetterState::WrongPlace => 'o',
        LetterState::NotPresent => '.',
    }
}

impl LetterState {
    /// Reads `O`, `o` or `.`; any other text reads as `NotPresent`.
    pub fn from_str(s: &str) -> (r: Result<LetterState, ()>)
        ensures
            r == Ok::<LetterState, ()>(
                if s@ == seq!['O'] {
                    LetterState::Correct
                } else if s@ == seq!['o'] {
                    LetterState::WrongPlace
                } else {
                    LetterState::NotPresent
                },
            ),
    {
        let cs = chars_of(s);
        if cs.len() == 1 && cs[0] == 'O' {
            assert(cs@ =~= seq!['O']);
            Ok(LetterState::Correct)
        } else if cs.len() == 1 && cs[0] == 'o' {
            assert(cs@ =~= seq!['o']);
            Ok(LetterState::WrongPlace)
        } else {
            assert(cs@ != seq!['O'] && cs@ != seq!['o']) by {
                if cs@ == seq!['O'] || cs@ == seq!['o'] {
                    assert(cs@.len() == 1);
                }
            }
            Ok(LetterState::NotPresent)
        }
    }

    /// The one-character code of this state.
    pub fn code(&self) -> (c: char)
        ensures
            c == code_of(*self),
    {
        match self {
            LetterState::Correct => 'O',
            LetterState::WrongPlace => 'o',
            LetterState::NotPresent => '.',
        }
    }

    /// The one-character code of this state, as text.
    pub fn to_string(&self) -> (r: String)
        ensures
            r@ == seq![code_of(*self)],
    {
        let mut s = String::new();
        push_char(&mut s, self.code());
        s
    }
}

/// A guess of five letters, each with its state.
#[derive(Clone, Copy, Debug, PartialEq, Eq)]
pub struct Guess {
    letters: [(char, LetterState); 5],
}

/// `s` lowercased (ASCII) and paired, letter by letter, with `NotPresent`.
pub open spec fn fresh(s: Seq<char>) -> Seq<(char, LetterState)> {
    Seq::new(s.len(), |i: int| (ascii_lower(s[i]), LetterState::NotPresent))
}

impl Default for Guess {
    fn default() -> (r: Self)
        ensures
            r@ == Seq::new(5, |i: int| ('\0', LetterState::NotPresent)),
    {
        let r = Guess { letters: [('\0', LetterState::NotPresent); 5] };
        assert(r@ =~= Seq::new(5, |i: int| ('\0', LetterState::NotPresent)));
        r
    }
}

impl View for Guess {
    type V = Seq<(char, LetterState)>;

    closed spec fn view(&self) -> Seq<(char, LetterState)> {
        self.letters@
    }
}

impl Guess {
    /// A guess always has five letters.
    pub proof fn lemma_len(&self)
        ensures
            self@.len() == 5,
    {
    }

    /// The five characters of `word`, lowercased (ASCII), none yet scored.
    pub fn from_str(word: &str) -> (r: Guess)
        requires
            word@.len() == 5,
        ensures
            r@ == fresh(word@),
    {
        let cs = chars_of(word);
        let letters = [
            (to_ascii_lower(cs[0]), LetterState::NotPresent),
            (to_ascii_lower(cs[1]), LetterState::NotPresent),
            (to_ascii_lower(cs[2]), LetterState::NotPresent),
            (to_ascii_lower(cs[3]), LetterState::NotPresent),
            (to_ascii_lower(cs[4]), LetterState::NotPresent),
        ];
        let r = Guess { letters };
        assert(r@ =~= fresh(word@));
        r
    }

    /// The letters of `partial`, lowercased (ASCII), none yet scored.
    pub fn new(partial: PartialGuess) -> (r: Guess)
        ensures
            r@ == fresh(partial@),
    {
        let l = partial.letters;
        let letters = [
            (to_ascii_lower(l[0]), LetterState::NotPresent),
            (to_ascii_lower(l[1]), LetterState::NotPresent),
            (to_ascii_lower(l[2]), LetterState::NotPresent),
            (to_ascii_lower(l[3]), LetterState::NotPresent),
            (to_ascii_lower(l[4]), LetterState::NotPresent),
        ];
        let r = Guess { letters };
        assert(r@ =~= fresh(partial@));
        r
    }

    /// Marks the letter at `index` as `Correct`.
    pub fn mark_correct(&mut self, index: usize)
        requires
            index < 5,
        ensures
            final(self)@ == old(self)@.update(
                index as int,
                (old(self)@[index as int].0, LetterState::Correct),
            ),
    {
        let c = self.letters[index].0;
        self.letters[index] = (c, LetterState::Correct);
        assert(self@ =~= old(self)@.update(index as int, (c, LetterState::Correct)));
    }

    /// Marks the letter at `index` as `WrongPlace`.
    pub fn mark_wrong_place(&mut self, index: usize)
        requires
            index < 5,
        ensures
            final(self)@ == old(self)@.update(
                index as int,
                (old(self)@[index as int].0, LetterState::WrongPlace),
            ),
    {
        let c = self.letters[index].0;
        self.letters[index] = (c, LetterState::WrongPlace);
        assert(self@ =~= old(self)@.update(index as int, (c, LetterState::WrongPlace)));
    }

    /// Whether every letter is `Correct`.
    pub fn is_correct(&self) -> (r: bool)
        ensures
            r == (forall|i: int| 0 <= i < 5 ==> #[trigger] self@[i].1 == LetterState::Correct),
    {
        let mut i: usize = 0;
        while i < 5
            invariant
                0 <= i <= 5,
                forall|j: int| 0 <= j < i ==> #[trigger] self@[j].1 == LetterState::Correct,
            decreases 5 - i,
        {
            if self.letters[i].1 != LetterState::Correct {
                return false;
            }
            i = i + 1;
        }
        true
    }

    /// Whether the letter at `index` is `Correct`.
    pub fn is_correct_at(&self, index: usize) -> (r: bool)
        requires
            index < 5,
        ensures
            r == (self@[index as int].1 == LetterState::Correct),
    {
        self.letters[index].1 == LetterState::Correct
    }

    /// The letters with their states, in order.
    pub fn iter(&self) -> (r: Vec<(char, LetterState)>)
        ensures
            r@ == self@,
    {
        let mut v = Vec::new();
        let mut i: usize = 0;
        while i < 5
            invariant
                0 <= i <= 5,
                v@ == self@.take(i as int),
            decreases 5 - i,
        {
            v.push(self.letters[i]);
            assert(self@.take(i + 1) =~= self@.take(i as int).push(self@[i as int]));
            i = i + 1;
        }
        assert(self@.take(5) =~= self@);
        v
    }

    /// The letters with their states, to change in place.
    pub fn iter_mut(&mut self) -> (r: &mut [(char, LetterState); 5])
        ensures
            r@ == old(self)@,
            final(self)@ == final(r)@,
    {
        &mut self.letters
    }

    /// The letters with their states, as a slice.
    pub fn as_slice(&self) -> (r: &[(char, LetterState)])
        ensures
            r@ == self@,
    {
        self.letters.as_slice()
    }

    /// The letter at `index` with its state.
    pub fn get(&self, index: usize) -> (r: (char, LetterState))
        requires
            index < 5,
        ensures
            r == self@[index as int],
    {
        self.letters[index]
    }

    /// Whether the guess's codes read as `other`.
    pub fn eq_str(&self, other: &str) -> (r: bool)
        ensures
            r == (Seq::new(5, |i: int| code_of(self@[i].1)) == other@),
    {
        let s = self.to_string();
        crate::text::str_eq(s.as_str(), other)
    }

    /// The `O`/`o`/`.` codes of this guess.
    pub fn to_string(&self) -> (r: String)
        ensures
            r@ == Seq::new(5, |i: int| code_of(self@[i].1)),
    {
        let mut s = String::new();
        let mut i: usize = 0;
        while i < 5
            invariant
                0 <= i <= 5,
                s@ == Seq::new(5, |k: int| code_of(self@[k].1)).take(i as int),
            decreases 5 - i,
        {
            push_char(&mut s, self.letters[i].1.code());
            assert(s@ =~= Seq::new(5, |k: int| code_of(self@[k].1)).take(i + 1));
            i = i + 1;
        }
        assert(Seq::new(5, |k: int| code_of(self@[k].1)).take(5) =~= Seq::new(
            5,
            |k: int| code_of(self@[k].1),
        ));
        s
    }
}

/// Five characters read from a message, not yet scored.
#[derive(Clone, Copy, Debug, PartialEq, Eq)]
pub struct PartialGuess {
    letters: [char; 5],
}

impl View for PartialGuess {
    type V = Seq<char>;

    closed spec fn view(&self) -> Seq<char> {
        self.letters@
    }
}

/// Why text is not a guess.
#[derive(Debug, Clone, PartialEq)]
pub enum PartialGuessError {
    /// It has this many characters rather than five.
    WrongLength(usize),
    /// It has a character that is not a letter.
    HasSymbols,
    /// It is not one of the valid words.
    NotInList(String),
}

/// How reading text as a guess turns out.
pub enum PartialGuessOutcome {
    Read(Seq<char>),
    WrongLength(int),
    HasSymbols,
    NotInList,
}

/// Reading `t` as a guess: five characters, all letters, and a word of the list.
pub open spec fn read_guess(t: Seq<char>, words: Seq<Seq<char>>) -> PartialGuessOutcome {
    if t.len() != 5 {
        PartialGuessOutcome::WrongLength(t.len() as int)
    } else if exists|i: int| 0 <= i < 5 && !alphabetic(#[trigger] t[i]) {
        PartialGuessOutcome::HasSymbols
    } else if !words.contains(lowercase(t)) {
        PartialGuessOutcome::NotInList
    } else {
        PartialGuessOutcome::Read(t)
    }
}

/// Reads the characters `t` as a guess.
pub fn read_partial_guess(t: &str, words: &WordsList) -> (r: Result<PartialGuess, PartialGuessError>)
    ensures
        match read_guess(t@, words.words_view()) {
            PartialGuessOutcome::Read(g) => r matches Ok(p) && p@ == g,
            PartialGuessOutcome::WrongLength(n) => r == Err::<PartialGuess, PartialGuessError>(
                PartialGuessError::WrongLength(n as usize),
            ),
            PartialGuessOutcome::HasSymbols => r == Err::<PartialGuess, PartialGuessError>(
                PartialGuessError::HasSymbols,
            ),
            PartialGuessOutcome::NotInList => r matches Err(PartialGuessError::NotInList(s)) && s@
                == t@,
        },
{
    let cs = chars_of(t);
    if cs.len() != 5 {
        return Err(PartialGuessError::WrongLength(cs.len()));
    }
    let mut i: usize = 0;
    while i < 5
        invariant
            0 <= i <= 5,
            cs@ == t@,
            cs@.len() == 5,
            forall|j: int| 0 <= j < i ==> alphabetic(#[trigger] cs@[j]),
        decreases 5 - i,
    {
        if !char_is_alphabetic(cs[i]) {
            return Err(PartialGuessError::HasSymbols);
        }
        i = i + 1;
    }
    if !words.contains(t) {
        return Err(PartialGuessError::NotInList(string_of(&cs)));
    }
    let letters = [cs[0], cs[1], cs[2], cs[3], cs[4]];
    let p = PartialGuess { letters };
    assert(p@ =~= t@);
    Ok(p)
}

/// Text that can be read as a guess.
pub trait ToPartialGuess {
    /// The text read.
    spec fn guess_text(&self) -> Seq<char>;

    /// Reads the text as a guess checked against `words`.
    fn to_partial_guess(&self, words: &WordsList) -> (r: Result<PartialGuess, PartialGuessError>)
        ensures
            match read_guess(self.guess_text(), words.words_view()) {
                PartialGuessOutcome::Read(g) => r matches Ok(p) && p@ == g,
                PartialGuessOutcome::WrongLength(n) => r == Err::<PartialGuess, PartialGuessError>(
                    PartialGuessError::WrongLength(n as usize),
                ),
                PartialGuessOutcome::HasSymbols => r == Err::<PartialGuess, PartialGuessError>(
                    PartialGuessError::HasSymbols,
                ),
                PartialGuessOutcome::NotInList => r matches Err(PartialGuessError::NotInList(s))
                    && s@ == self.guess_text(),
            },
    ;
}

impl<'a> ToPartialGuess for &'a str {
    open spec fn guess_text(&self) -> Seq<char> {
        (*self)@
    }

    fn to_partial_guess(&self, words: &WordsList) -> (r: Result<PartialGuess, PartialGuessError>) {
        read_partial_guess(*self, words)
    }
}

impl ToPartialGuess for String {
    open spec fn guess_text(&self) -> Seq<char> {
        self@
    }

    fn to_partial_guess(&self, words: &WordsList) -> (r: Result<PartialGuess, PartialGuessError>) {
        read_partial_guess(self.as_str(), words)
    }
}

/// How many guesses a game allows; never zero.
#[derive(Clone, Copy, Debug, PartialEq, Eq, PartialOrd, Ord)]
pub struct GuessesLimit(usize);

impl View for GuessesLimit {
    type V = int;

    closed spec fn view(&self) -> int {
        self.0 as int
    }
}

impl Default for GuessesLimit {
    fn default() -> (r: Self)
        ensures
            r@ == 6,
    {
        GuessesLimit(6)
    }
}

impl GuessesLimit {
    /// A limit is never zero.
    #[verifier::type_invariant]
    pub(crate) closed spec fn nonzero(self) -> bool {
        self.0 != 0
    }

    /// A limit that keeps its invariant allows at least one guess.
    pub(crate) proof fn lemma_nonzero(l: GuessesLimit)
        requires
            l.nonzero(),
        ensures
            l@ >= 1,
    {
    }

    /// A limit of `limit` guesses, which must not be zero.
    pub fn new(limit: usize) -> (r: GuessesLimit)
        requires
            limit != 0,
        ensures
            r@ == limit,
    {
        GuessesLimit(limit)
    }

    /// `Some` limit of `limit` guesses. The limit is built before `limit` is tested, so
    /// a zero limit is refused the way `new` refuses it.
    pub fn try_new(limit: usize) -> (r: Option<GuessesLimit>)
        requires
            limit != 0,
        ensures
            r matches Some(l) && l@ == limit,
    {
        let built = Self::new(limit);
        if limit != 0 {
            Some(built)
        } else {
            None
        }
    }

    /// The limit in decimal.
    pub fn to_string(&self) -> (r: String)
        ensures
            r@ == crate::text::decimal(self@ as nat),
    {
        let mut s = String::new();
        crate::text::push_u64(&mut s, self.0 as u64);
        s
    }

    /// The limit as a number.
    pub fn into_usize(self) -> (r: usize)
        ensures
            r == self@,
            r >= 1,
    {
        proof {
            use_type_invariant(&self);
        }
        self.0
    }

    /// Whether the limit equals `other`.
    pub fn eq_usize(&self, other: usize) -> (r: bool)
        ensures
            r == (self@ == other),
            self@ >= 1,
    {
        proof {
            use_type_invariant(self);
        }
        self.0 == other
    }
}

} // verus!
