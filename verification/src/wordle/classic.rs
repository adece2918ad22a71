//! The classic wordle game: scoring guesses against a five-letter answer,
//! daily puzzles and their completions.
use vstd::prelude::*;

use crate::clock::{choose_string, now_millis};
use crate::ids::UserId;
use vstd::string::StringSliceAdditionalSpecFns;
use vstd::utf8::encode_utf8;
use crate::text::{
    all_ascii, ascii_lower_seq, ascii_upper_seq, chars_eq, chars_of, lowercase, push_char,
    push_chars, string_of, to_lowercase,
};

verus! {

/// Hours a daily puzzle stays fresh; it expires after twice that.
pub const PUZZLE_ACTIVE_HOURS: i64 = 24;

/// Milliseconds in an hour.
pub const MILLIS_PER_HOUR: i64 = 3600000;

/// How one letter of a guess relates to the answer.
#[derive(Clone, Copy, Debug, PartialEq, Eq, Structural)]
pub enum LetterState {
    NotPresent,
    WrongPlace,
    Correct,
}

impl Default for LetterState {
    fn default() -> (r: Self)
        ensures
            r == LetterState::NotPresent,
    {
        LetterState::NotPresent
    }
}

/// The square emoji that shows a letter state.
pub open spec fn state_emoji(s: LetterState) -> Seq<char> {
    match s {
        LetterState::Correct => seq!['\u{1F7E9}'],
        LetterState::WrongPlace => seq!['\u{1F7E8}'],
        LetterState::NotPresent => seq!['\u{2B1B}'],
    }
}

/// The one-character code of a letter state: `O`, `o` or `.`.
pub open spec fn state_code(s: LetterState) -> char {
    match s {
        LetterState::Correct => 'O',
        LetterState::WrongPlace => 'o',
        LetterState::NotPresent => '.',
    }
}

/// The state a one-character code stands for; anything else is `NotPresent`.
pub open spec fn state_of_code(s: Seq<char>) -> LetterState {
    if s == seq!['O'] {
        LetterState::Correct
    } else if s == seq!['o'] {
        LetterState::WrongPlace
    } else {
        LetterState::NotPresent
    }
}

impl LetterState {
    /// The square emoji for this state.
    pub fn emoji(&self) -> (r: String)
        ensures
            r@ == state_emoji(*self),
    {
        let mut s = String::new();
        match self {
            LetterState::Correct => push_char(&mut s, '\u{1F7E9}'),
            LetterState::WrongPlace => push_char(&mut s, '\u{1F7E8}'),
            LetterState::NotPresent => push_char(&mut s, '\u{2B1B}'),
        }
        s
    }

    /// Reads `O`, `o` or `.`; any other text reads as `NotPresent`.
    pub fn from_str(s: &str) -> (r: Result<LetterState, ()>)
        ensures
            r == Ok::<LetterState, ()>(state_of_code(s@)),
    {
        let cs = chars_of(s);
        if cs.len() == 1 && cs[0] == 'O' {
            assert(cs@ =~= seq!['O']);
            Ok(LetterState::Correct)
        } else if cs.len() == 1 && cs[0] == 'o' {
            assert(cs@ =~= seq!['o']);
            Ok(LetterState::WrongPlace)
        } else {
            assert(cs@ != seq!['O'] && cs@ != seq!['o']) by {
                if cs@ == seq!['O'] || cs@ == seq!['o'] {
                    assert(cs@.len() == 1);
                }
            }
            Ok(LetterState::NotPresent)
        }
    }

    /// The one-character code of this state.
    pub fn to_string(&self) -> (r: String)
        ensures
            r@ == seq![state_code(*self)],
    {
        let mut s = String::new();
        push_char(&mut s, self.code());
        s
    }

    fn code(&self) -> (c: char)
        ensures
            c == state_code(*self),
    {
        match self {
            LetterState::Correct => 'O',
            LetterState::WrongPlace => 'o',
            LetterState::NotPresent => '.',
        }
    }
}

/// Number of times `c` occurs in `s`.
pub open spec fn count_of(s: Seq<char>, c: char) -> nat
    decreases s.len(),
{
    if s.len() == 0 {
        0
    } else {
        count_of(s.drop_last(), c) + if s.last() == c {
            1nat
        } else {
            0nat
        }
    }
}

/// Number of positions where guess `g` has `c` exactly where answer `w` has it.
pub open spec fn correct_count(w: Seq<char>, g: Seq<char>, c: char) -> nat
    decreases g.len(),
{
    if g.len() == 0 {
        0
    } else {
        let i = g.len() - 1;
        correct_count(w, g.drop_last(), c) + if g[i] == c && i < w.len() && w[i] == c {
            1nat
        } else {
            0nat
        }
    }
}

/// Copies of `c` in the answer left to flag as misplaced once the exact hits are taken.
pub open spec fn available(w: Seq<char>, g: Seq<char>, c: char) -> int {
    count_of(w, c) - correct_count(w, g, c)
}

/// Position `i` of guess `g` is flagged as misplaced: fewer copies of its letter come
/// before it in the guess than the answer has left over.
pub open spec fn flagged(w: Seq<char>, g: Seq<char>, i: int) -> bool {
    count_of(g.take(i), g[i]) < available(w, g, g[i])
}

/// The state given to position `i` when guess `g` is scored against answer `w`.
/// A misplaced flag is given after exact hits are marked and takes precedence.
pub open spec fn scored_state(w: Seq<char>, g: Seq<char>, i: int) -> LetterState {
    if flagged(w, g, i) {
        LetterState::WrongPlace
    } else if i < w.len() && g[i] == w[i] {
        LetterState::Correct
    } else {
        LetterState::NotPresent
    }
}

/// Guess `g` scored against answer `w`: each letter paired with its state.
pub open spec fn scored(w: Seq<char>, g: Seq<char>) -> Seq<(char, LetterState)> {
    Seq::new(g.len(), |i: int| (g[i], scored_state(w, g, i)))
}

/// `s` paired, letter by letter, with `NotPresent`.
pub open spec fn unscored(s: Seq<char>) -> Seq<(char, LetterState)> {
    Seq::new(s.len(), |i: int| (s[i], LetterState::NotPresent))
}

/// The letters of a scored guess.
pub open spec fn letters_of(g: Seq<(char, LetterState)>) -> Seq<char> {
    Seq::new(g.len(), |i: int| g[i].0)
}

/// Every letter of a scored guess is `Correct`.
pub open spec fn all_correct(g: Seq<(char, LetterState)>) -> bool {
    forall|i: int| 0 <= i < g.len() ==> g[i].1 == LetterState::Correct
}

/// The emoji row of a scored guess.
pub open spec fn guess_emoji(g: Seq<(char, LetterState)>) -> Seq<char>
    decreases g.len(),
{
    if g.len() == 0 {
        seq![]
    } else {
        guess_emoji(g.drop_last()) + state_emoji(g.last().1)
    }
}

/// The `O`/`o`/`.` codes of a scored guess.
pub open spec fn guess_codes(g: Seq<(char, LetterState)>) -> Seq<char> {
    Seq::new(g.len(), |i: int| state_code(g[i].1))
}

/// `parts` joined with line breaks.
pub open spec fn join_lines(parts: Seq<Seq<char>>) -> Seq<char>
    decreases parts.len(),
{
    if parts.len() == 0 {
        seq![]
    } else if parts.len() == 1 {
        parts[0]
    } else {
        join_lines(parts.drop_last()) + seq!['\n'] + parts.last()
    }
}

pub(crate) fn count_in(v: &Vec<char>, upto: usize, c: char) -> (r: usize)
    requires
        upto <= v.len(),
    ensures
        r == count_of(v@.take(upto as int), c),
        r <= upto,
{
    let mut r: usize = 0;
    for i in 0..upto
        invariant
            upto <= v.len(),
            r == count_of(v@.take(i as int), c),
            r <= i,
    {
        assert(v@.take(i + 1).drop_last() =~= v@.take(i as int));
        if v[i] == c {
            r = r + 1;
        }
    }
    r
}

pub(crate) fn correct_in(w: &Vec<char>, g: &Vec<char>, c: char) -> (r: usize)
    ensures
        r == correct_count(w@, g@, c),
        r <= g@.len(),
{
    let mut r: usize = 0;
    for i in 0..g.len()
        invariant
            r == correct_count(w@, g@.take(i as int), c),
            r <= i,
    {
        assert(g@.take(i + 1).drop_last() =~= g@.take(i as int));
        if g[i] == c && i < w.len() && w[i] == c {
            r = r + 1;
        }
    }
    assert(g@.take(g.len() as int) =~= g@);
    r
}

/// A five-letter answer.
#[derive(Debug, PartialEq, Eq)]
pub struct Word {
    word: Vec<char>,
}

impl View for Word {
    type V = Seq<char>;

    closed spec fn view(&self) -> Seq<char> {
        self.word@
    }
}

fn copy_chars(v: &Vec<char>) -> (r: Vec<char>)
    ensures
        r@ == v@,
{
    let mut out = Vec::new();
    for i in 0..v.len()
        invariant
            out@ == v@.take(i as int),
    {
        out.push(v[i]);
        assert(v@.take(i + 1) =~= v@.take(i as int).push(v@[i as int]));
    }
    assert(v@.take(v.len() as int) =~= v@);
    out
}

impl Clone for Word {
    fn clone(&self) -> (r: Self)
        ensures
            r@ == self@,
    {
        Word { word: copy_chars(&self.word) }
    }
}

impl Word {
    /// How many characters `word` has once lowercased.
    pub fn lowercase_len(word: &str) -> (r: usize)
        ensures
            r == lowercase(word@).len(),
    {
        let lower = to_lowercase(word);
        chars_of(lower.as_str()).len()
    }

    /// The lowercased `word` if it has five characters; `None` otherwise.
    pub fn try_new(word: &str) -> (r: Option<Word>)
        ensures
            lowercase(word@).len() == 5 ==> (r matches Some(w) && w@ == lowercase(word@) && w.wf()),
            lowercase(word@).len() != 5 ==> r is None,
    {
        if Word::lowercase_len(word) == 5 {
            Some(Word::new(word))
        } else {
            None
        }
    }

    /// `word` scored against this answer, if it has at most five characters once
    /// lowercased; `None` otherwise.
    pub fn try_guess(&self, word: &str) -> (r: Option<Guess>)
        requires
            self.wf(),
        ensures
            lowercase(word@).len() <= 5 ==> (r matches Some(g) && g@ == scored(self@, lowercase(word@))),
            lowercase(word@).len() > 5 ==> r is None,
    {
        if Word::lowercase_len(word) <= 5 {
            Some(self.guess(word))
        } else {
            None
        }
    }

    /// A word is five letters long.
    pub closed spec fn wf(&self) -> bool {
        self.word@.len() == 5
    }

    /// A well-formed word has five letters.
    pub proof fn lemma_wf_len(&self)
        requires
            self.wf(),
        ensures
            self@.len() == 5,
    {
    }

    /// The lowercased `word`, which must be five characters long once lowercased.
    pub fn new(word: &str) -> (r: Word)
        requires
            lowercase(word@).len() == 5,
        ensures
            r@ == lowercase(word@),
            r.wf(),
    {
        let lower = to_lowercase(word);
        let w = chars_of(lower.as_str());
        Word { word: w }
    }

    /// The letters of the word.
    pub fn iter(&self) -> (r: Vec<char>)
        ensures
            r@ == self@,
    {
        copy_chars(&self.word)
    }

    /// The word as text.
    pub fn to_string(&self) -> (r: String)
        ensures
            r@ == self@,
    {
        string_of(&self.word)
    }

    /// Whether the word reads as `other`.
    pub fn eq_string(&self, other: &String) -> (r: bool)
        ensures
            r == (self@ == other@),
    {
        let o = chars_of(other.as_str());
        chars_eq(&self.word, &o)
    }

    /// Scores `word` (lowercased) against this answer: exact hits are `Correct`; then,
    /// going left to right, a letter is `WrongPlace` while the answer still has copies of
    /// it not used by exact hits or by earlier flagged letters; the rest are `NotPresent`.
    pub fn guess(&self, word: &str) -> (r: Guess)
        requires
            self.wf(),
            lowercase(word@).len() <= 5,
        ensures
            r@ == scored(self@, lowercase(word@)),
    {
        let lower = to_lowercase(word);
        let g = chars_of(lower.as_str());
        let ghost gs = g@;
        let mut out: Vec<(char, LetterState)> = Vec::new();
        for i in 0..g.len()
            invariant
                g@ == gs,
                gs.len() <= 5,
                self.word@.len() == 5,
                out@ == scored(self.word@, gs).take(i as int),
        {
            let c = g[i];
            let before = count_in(&g, i, c);
            let hits = correct_in(&self.word, &g, c);
            let total = count_in(&self.word, 5, c);
            assert(self.word@.take(5) =~= self.word@);
            let state = if before + hits < total {
                LetterState::WrongPlace
            } else if c == self.word[i] {
                LetterState::Correct
            } else {
                LetterState::NotPresent
            };
            out.push((c, state));
            assert(out@ =~= scored(self.word@, gs).take(i + 1));
        }
        assert(scored(self.word@, gs).take(g.len() as int) =~= scored(self.word@, gs));
        Guess { word: out }
    }
}

/// A scored guess: each letter with its state.
#[derive(Debug)]
pub struct Guess {
    word: Vec<(char, LetterState)>,
}

impl View for Guess {
    type V = Seq<(char, LetterState)>;

    closed spec fn view(&self) -> Seq<(char, LetterState)> {
        self.word@
    }
}

fn copy_pairs(v: &Vec<(char, LetterState)>) -> (r: Vec<(char, LetterState)>)
    ensures
        r@ == v@,
{
    let mut out = Vec::new();
    for i in 0..v.len()
        invariant
            out@ == v@.take(i as int),
    {
        out.push(v[i]);
        assert(v@.take(i + 1) =~= v@.take(i as int).push(v@[i as int]));
    }
    assert(v@.take(v.len() as int) =~= v@);
    out
}

impl Clone for Guess {
    fn clone(&self) -> (r: Self)
        ensures
            r@ == self@,
    {
        Guess { word: copy_pairs(&self.word) }
    }
}

impl Guess {
    /// The lowercased `word`, every letter `NotPresent`.
    pub fn new(word: &str) -> (r: Guess)
        ensures
            r@ == unscored(lowercase(word@)),
    {
        let lower = to_lowercase(word);
        let g = chars_of(lower.as_str());
        let mut out: Vec<(char, LetterState)> = Vec::new();
        for i in 0..g.len()
            invariant
                out@ == unscored(g@).take(i as int),
        {
            out.push((g[i], LetterState::NotPresent));
            assert(out@ =~= unscored(g@).take(i + 1));
        }
        assert(unscored(g@).take(g.len() as int) =~= unscored(g@));
        Guess { word: out }
    }

    /// Marks the letter at `index` as `Correct`.
    pub fn correct_at(&mut self, index: usize)
        requires
            index < old(self)@.len(),
        ensures
            final(self)@ == old(self)@.update(index as int, (old(self)@[index as int].0, LetterState::Correct)),
    {
        let c = self.word[index].0;
        self.word.set(index, (c, LetterState::Correct));
    }

    /// Marks the letter at `index` as `WrongPlace`.
    pub fn has_letter_at(&mut self, index: usize)
        requires
            index < old(self)@.len(),
        ensures
            final(self)@ == old(self)@.update(index as int, (old(self)@[index as int].0, LetterState::WrongPlace)),
    {
        let c = self.word[index].0;
        self.word.set(index, (c, LetterState::WrongPlace));
    }

    /// Whether every letter is `Correct`.
    pub fn all_correct(&self) -> (r: bool)
        ensures
            r == all_correct(self@),
    {
        for i in 0..self.word.len()
            invariant
                forall|j: int| 0 <= j < i ==> self.word@[j].1 == LetterState::Correct,
        {
            if self.word[i].1 != LetterState::Correct {
                return false;
            }
        }
        true
    }

    /// The letters of the guess.
    pub fn iter(&self) -> (r: Vec<char>)
        ensures
            r@ == letters_of(self@),
    {
        let mut out = Vec::new();
        for i in 0..self.word.len()
            invariant
                out@ == letters_of(self.word@).take(i as int),
        {
            out.push(self.word[i].0);
            assert(out@ =~= letters_of(self.word@).take(i + 1));
        }
        assert(letters_of(self.word@).take(self.word.len() as int) =~= letters_of(self.word@));
        out
    }

    /// The emoji row for this guess.
    pub fn emoji(&self) -> (r: String)
        ensures
            r@ == guess_emoji(self@),
    {
        let mut s = String::new();
        for i in 0..self.word.len()
            invariant
                s@ == guess_emoji(self.word@.take(i as int)),
        {
            let e = self.word[i].1.emoji();
            let ec = chars_of(e.as_str());
            push_chars(&mut s, &ec);
            assert(self.word@.take(i + 1).drop_last() =~= self.word@.take(i as int));
        }
        assert(self.word@.take(self.word.len() as int) =~= self.word@);
        s
    }

    /// The `O`/`o`/`.` codes of this guess.
    pub fn to_string(&self) -> (r: String)
        ensures
            r@ == guess_codes(self@),
    {
        let mut s = String::new();
        for i in 0..self.word.len()
            invariant
                s@ == guess_codes(self.word@).take(i as int),
        {
            push_char(&mut s, self.word[i].1.code());
            assert(s@ =~= guess_codes(self.word@).take(i + 1));
        }
        assert(guess_codes(self.word@).take(self.word.len() as int) =~= guess_codes(self.word@));
        s
    }
}


/// Text that can be shown as emoji.
pub trait AsEmoji {
    /// The emoji text.
    spec fn emoji_view(&self) -> Seq<char>;

    /// The emoji text.
    fn as_emoji(&self) -> (r: String)
        ensures
            r@ == self.emoji_view(),
    ;
}

impl AsEmoji for Guess {
    open spec fn emoji_view(&self) -> Seq<char> {
        guess_emoji(self@)
    }

    fn as_emoji(&self) -> (r: String) {
        self.emoji()
    }
}

impl<T: AsEmoji> AsEmoji for Vec<T> {
    open spec fn emoji_view(&self) -> Seq<char> {
        join_lines(Seq::new(self@.len(), |i: int| self@[i].emoji_view()))
    }

    fn as_emoji(&self) -> (r: String) {
        let ghost parts = Seq::new(self@.len(), |i: int| self@[i].emoji_view());
        let mut s = String::new();
        for i in 0..self.len()
            invariant
                parts == Seq::new(self@.len(), |i: int| self@[i].emoji_view()),
                s@ == join_lines(parts.take(i as int)),
        {
            let e = self[i].as_emoji();
            let ec = chars_of(e.as_str());
            assert(parts.take(i + 1).drop_last() =~= parts.take(i as int));
            if i > 0 {
                push_char(&mut s, '\n');
            } else {
                assert(parts.take(0) =~= Seq::<Seq<char>>::empty());
            }
            push_chars(&mut s, &ec);
        }
        assert(parts.take(self.len() as int) =~= parts);
        s
    }
}

/// Truncating division, as Rust's integer `/` does.
pub open spec fn trunc_div(a: int, b: int) -> int {
    if a >= 0 {
        a / b
    } else {
        -((-a) / b)
    }
}

/// Whole hours from `start` to `now`, both in milliseconds, rounded toward zero.
pub open spec fn hours_between(start: i64, now: i64) -> int {
    trunc_div(now - start, MILLIS_PER_HOUR as int)
}

/// When a puzzle started, in milliseconds since the Unix epoch, if it has.
#[derive(Clone, Copy, Debug, PartialEq, Eq, Structural)]
pub struct StartTime(pub Option<i64>);

impl Default for StartTime {
    fn default() -> (r: Self)
        ensures
            r.0 is None,
    {
        StartTime(None)
    }
}

impl StartTime {
    /// Started at `time`.
    pub fn new(time: i64) -> (r: Self)
        ensures
            r.0 == Some(time),
    {
        StartTime(Some(time))
    }

    /// Started now.
    pub fn now() -> (r: Self)
        ensures
            r.0 is Some,
    {
        StartTime(Some(now_millis()))
    }

    /// Not started.
    pub fn none() -> (r: Self)
        ensures
            r.0 is None,
    {
        StartTime(None)
    }

    /// Whole hours since the start, as seen at time `now`.
    pub fn age_hours_at(&self, now: i64) -> (r: Option<i64>)
        ensures
            match self.0 {
                Some(start) => r == Some(hours_between(start, now) as i64),
                None => r is None,
            },
            r matches Some(h) ==> h == hours_between(self.0->0, now),
    {
        match self.0 {
            Some(start) => {
                let diff: i128 = now as i128 - start as i128;
                let hours: i128 = if diff >= 0 {
                    diff / 3600000
                } else {
                    -((-diff) / 3600000)
                };
                assert(-0x8000_0000_0000_0000 <= hours <= 0x7fff_ffff_ffff_ffff) by (nonlinear_arith)
                    requires
                        -0x1_0000_0000_0000_0000 <= diff <= 0x1_0000_0000_0000_0000,
                        diff >= 0 ==> hours == diff / 3600000,
                        diff < 0 ==> hours == -((-diff) / 3600000),
                ;
                Some(hours as i64)
            },
            None => None,
        }
    }

    /// Whole hours since the start, read from the clock.
    pub fn age_hours(&self) -> (r: Option<i64>)
        ensures
            r is Some <==> self.0 is Some,
            r matches Some(h) ==> exists|now: i64| h == hours_between(self.0->0, now),
    {
        let now = now_millis();
        self.age_hours_at(now)
    }

    /// At `now`, whether a day has passed since the start.
    pub fn is_old_at(&self, now: i64) -> (r: Option<bool>)
        ensures
            match self.0 {
                Some(start) => r == Some(hours_between(start, now) >= PUZZLE_ACTIVE_HOURS),
                None => r is None,
            },
    {
        match self.age_hours_at(now) {
            Some(age) => Some(age >= PUZZLE_ACTIVE_HOURS),
            None => None,
        }
    }

    /// Whether a day has passed since the start, by the clock.
    pub fn is_old(&self) -> (r: Option<bool>)
        ensures
            r is Some <==> self.0 is Some,
            r matches Some(b) ==> exists|now: i64|
                b == (hours_between(self.0->0, now) >= PUZZLE_ACTIVE_HOURS),
    {
        let now = now_millis();
        self.is_old_at(now)
    }

    /// At `now`, whether two days have passed since the start.
    pub fn is_expired_at(&self, now: i64) -> (r: Option<bool>)
        ensures
            match self.0 {
                Some(start) => r == Some(hours_between(start, now) >= 2 * PUZZLE_ACTIVE_HOURS),
                None => r is None,
            },
    {
        match self.age_hours_at(now) {
            Some(age) => Some(age >= 2 * PUZZLE_ACTIVE_HOURS),
            None => None,
        }
    }

    /// Whether two days have passed since the start, by the clock.
    pub fn is_expired(&self) -> (r: Option<bool>)
        ensures
            r is Some <==> self.0 is Some,
            r matches Some(b) ==> exists|now: i64|
                b == (hours_between(self.0->0, now) >= 2 * PUZZLE_ACTIVE_HOURS),
    {
        let now = now_millis();
        self.is_expired_at(now)
    }
}


/// The scored guesses of a list of guesses.
pub open spec fn guesses_view(gs: Seq<Guess>) -> Seq<Seq<(char, LetterState)>> {
    Seq::new(gs.len(), |i: int| gs[i]@)
}

/// The emoji rows of a list of guesses, one per line.
pub open spec fn guesses_emoji(gs: Seq<Seq<(char, LetterState)>>) -> Seq<char> {
    join_lines(Seq::new(gs.len(), |i: int| guess_emoji(gs[i])))
}

/// A game is solved when its last guess is all correct.
pub open spec fn solved_spec(gs: Seq<Seq<(char, LetterState)>>) -> bool {
    gs.len() > 0 && all_correct(gs.last())
}

fn copy_guesses(v: &Vec<Guess>) -> (r: Vec<Guess>)
    ensures
        guesses_view(r@) == guesses_view(v@),
{
    let mut out: Vec<Guess> = Vec::new();
    for i in 0..v.len()
        invariant
            guesses_view(out@) == guesses_view(v@).take(i as int),
            out@.len() == i,
    {
        let g = v[i].clone();
        assert(g@ == v@[i as int]@);
        let ghost prev = out@;
        out.push(g);
        assert forall|k: int| 0 <= k < i + 1 implies guesses_view(out@)[k] == guesses_view(v@)[k] by {
            if k < i {
                assert(out@[k] == prev[k]);
                assert(guesses_view(prev)[k] == guesses_view(v@).take(i as int)[k]);
            }
        }
        assert(guesses_view(out@) =~= guesses_view(v@).take(i + 1));
    }
    assert(guesses_view(v@).take(v.len() as int) =~= guesses_view(v@));
    out
}

/// One game of wordle played by one user.
#[derive(Debug)]
pub struct Game {
    user: UserId,
    guesses: Vec<Guess>,
    pub answer: Word,
    pub started: StartTime,
    pub number: Option<u32>,
    pub ended: bool,
}

impl Game {
    /// A fresh game whose answer is `word`, if `word` has five bytes and five characters
    /// once lowercased; `None` otherwise.
    pub fn try_from_word(user: UserId, word: &str) -> (r: Option<Game>)
        ensures
            (word.spec_bytes().len() == 5 && lowercase(word@).len() == 5) ==> (r matches Some(g)
                && g.answer_view() == lowercase(word@) && g.user_view() == user
                && g.guesses_view().len() == 0 && g.number_view() is None && !g.ended_view()),
            !(word.spec_bytes().len() == 5 && lowercase(word@).len() == 5) ==> r is None,
    {
        if word.as_bytes().len() == 5 && Word::lowercase_len(word) == 5 {
            Some(Game::from_word(user, word))
        } else {
            None
        }
    }

    /// A game with a random answer from `words`, if the list is not empty and each of its
    /// words has five bytes and five characters once lowercased; `None` otherwise.
    pub fn try_random(user: UserId, words: &WordsList) -> (r: Option<Game>)
        ensures
            r is Some <==> (words.words_view().len() > 0 && forall|i: int|
                0 <= i < words.words_view().len() ==> encode_utf8(#[trigger] words.words_view()[i]).len()
                    == 5 && lowercase(words.words_view()[i]).len() == 5),
            r matches Some(g) ==> g.user_view() == user && g.guesses_view().len() == 0
                && g.number_view() is None && exists|i: int|
                0 <= i < words.words_view().len() && g.answer_view() == lowercase(
                    #[trigger] words.words_view()[i],
                ),
    {
        if words.all_five_letters() {
            Some(Game::random(user, words))
        } else {
            None
        }
    }

    /// Scores `word` and records it, if it has at most five characters once lowercased;
    /// says whether it did.
    pub fn try_guess(&mut self, word: &str) -> (r: bool)
        requires
            old(self).answer_wf(),
        ensures
            r == (lowercase(word@).len() <= 5),
            r ==> final(self).guesses_view() == old(self).guesses_view().push(
                scored(old(self).answer_view(), lowercase(word@)),
            ),
            !r ==> final(self).guesses_view() == old(self).guesses_view(),
            final(self).answer_view() == old(self).answer_view(),
            final(self).answer_wf() == old(self).answer_wf(),
            final(self).user_view() == old(self).user_view(),
            final(self).number_view() == old(self).number_view(),
    {
        if Word::lowercase_len(word) <= 5 {
            self.guess(word);
            true
        } else {
            false
        }
    }

    /// The player.
    pub closed spec fn user_view(&self) -> UserId {
        self.user
    }

    /// The guesses made so far, scored.
    pub closed spec fn guesses_view(&self) -> Seq<Seq<(char, LetterState)>> {
        guesses_view(self.guesses@)
    }

    /// The answer.
    pub closed spec fn answer_view(&self) -> Seq<char> {
        self.answer@
    }

    /// The answer is five letters long.
    pub closed spec fn answer_wf(&self) -> bool {
        self.answer.wf()
    }

    /// When the puzzle started.
    pub closed spec fn started_view(&self) -> StartTime {
        self.started
    }

    /// The daily puzzle number, if any.
    pub closed spec fn number_view(&self) -> Option<u32> {
        self.number
    }

    /// Whether the game has ended.
    pub closed spec fn ended_view(&self) -> bool {
        self.ended
    }

    /// A game with a random answer from `words`.
    pub fn random(user: UserId, words: &WordsList) -> (r: Game)
        requires
            words.words_view().len() > 0,
            forall|i: int|
                0 <= i < words.words_view().len() ==> encode_utf8(#[trigger] words.words_view()[i]).len()
                    == 5 && lowercase(words.words_view()[i]).len() == 5,
        ensures
            exists|i: int|
                0 <= i < words.words_view().len() && r.answer_view() == lowercase(
                    #[trigger] words.words_view()[i],
                ),
            r.user_view() == user,
            r.guesses_view().len() == 0,
            r.number_view() is None,
            !r.ended_view(),
    {
        let w = words.get_random();
        let r = Self::from_word(user, w.as_str());
        proof {
            let k = choose|k: int| 0 <= k < words.words_view().len() && words.words_view()[k] == w@;
            assert(encode_utf8(words.words_view()[k]).len() == 5);
        }
        r
    }

    /// A fresh game whose answer is `word`, lowercased; `word` must be five bytes long.
    pub fn from_word(user: UserId, word: &str) -> (r: Game)
        requires
            word.spec_bytes().len() == 5,
            lowercase(word@).len() == 5,
        ensures
            r.answer_view() == lowercase(word@),
            r.answer_wf(),
            r.user_view() == user,
            r.guesses_view().len() == 0,
            r.started_view().0 is None,
            r.number_view() is None,
            !r.ended_view(),
    {
        let r = Game {
            user,
            guesses: Vec::new(),
            answer: Word::new(word),
            started: StartTime::none(),
            number: None,
            ended: false,
        };
        assert(r.guesses_view() =~= Seq::<Seq<(char, LetterState)>>::empty());
        r
    }

    /// Scores `word` against the answer and records it.
    pub fn guess(&mut self, word: &str)
        requires
            old(self).answer_wf(),
            lowercase(word@).len() <= 5,
        ensures
            final(self).guesses_view() == old(self).guesses_view().push(
                scored(old(self).answer_view(), lowercase(word@)),
            ),
            final(self).answer_view() == old(self).answer_view(),
            final(self).answer_wf() == old(self).answer_wf(),
            final(self).user_view() == old(self).user_view(),
            final(self).started_view() == old(self).started_view(),
            final(self).number_view() == old(self).number_view(),
            final(self).ended_view() == old(self).ended_view(),
    {
        let g = self.answer.guess(word);
        self.guesses.push(g);
        assert(self.guesses_view() =~= old(self).guesses_view().push(
            scored(old(self).answer_view(), lowercase(word@)),
        ));
    }

    /// How many guesses have been made.
    pub fn guesses(&self) -> (r: usize)
        ensures
            r == self.guesses_view().len(),
    {
        self.guesses.len()
    }

    /// The latest guess, if any.
    pub fn last_guess(&self) -> (r: Option<&Guess>)
        ensures
            match r {
                Some(g) => self.guesses_view().len() > 0 && g@ == self.guesses_view().last(),
                None => self.guesses_view().len() == 0,
            },
    {
        if self.guesses.len() == 0 {
            None
        } else {
            Some(&self.guesses[self.guesses.len() - 1])
        }
    }

    /// Whether the latest guess is all correct.
    pub fn solved(&self) -> (r: bool)
        ensures
            r == solved_spec(self.guesses_view()),
    {
        match self.last_guess() {
            Some(g) => g.all_correct(),
            None => false,
        }
    }

    /// The emoji rows of every guess, one per line.
    pub fn emoji(&self) -> (r: String)
        ensures
            r@ == guesses_emoji(self.guesses_view()),
    {
        let r = self.guesses.as_emoji();
        assert(Seq::new(self.guesses@.len(), |i: int| self.guesses@[i].emoji_view()) =~= Seq::new(
            self.guesses_view().len(),
            |i: int| guess_emoji(self.guesses_view()[i]),
        ));
        r
    }

    /// The record of this daily game; `ended` says whether the player is done with it.
    fn results(&self, ended: bool) -> (r: GameResult)
        requires
            self.number_view() is Some,
        ensures
            r.puzzle == self.number_view()->0,
            r.user == self.user,
            guesses_view(r.guesses@) == self.guesses_view(),
            r.num_guesses == self.guesses_view().len(),
            r.solved == solved_spec(self.guesses_view()),
            r.ended == ended,
    {
        let puzzle = match self.number {
            Some(n) => n,
            None => 0,
        };
        GameResult {
            puzzle,
            user: self.user,
            guesses: copy_guesses(&self.guesses),
            num_guesses: self.guesses(),
            solved: self.solved(),
            ended,
        }
    }

    /// Whether this game is a daily puzzle.
    pub fn is_daily(&self) -> (r: bool)
        ensures
            r == self.number_view() is Some,
    {
        self.number.is_some()
    }
}

/// The saved outcome of one user's daily game.
#[derive(Debug)]
pub struct GameResult {
    pub puzzle: u32,
    pub user: UserId,
    pub guesses: Vec<Guess>,
    pub num_guesses: usize,
    pub solved: bool,
    pub ended: bool,
}

impl AsEmoji for GameResult {
    open spec fn emoji_view(&self) -> Seq<char> {
        self.guesses.emoji_view()
    }

    fn as_emoji(&self) -> (r: String) {
        self.guesses.as_emoji()
    }
}

/// A numbered daily puzzle and who has completed it.
#[derive(Debug)]
pub struct DailyPuzzle {
    pub number: u32,
    pub started: StartTime,
    answer: String,
    finished: Vec<GameResult>,
}

/// Whether some result in `rs` belongs to `user`.
pub open spec fn has_result_for(rs: Seq<GameResult>, user: UserId) -> bool {
    exists|i: int| 0 <= i < rs.len() && #[trigger] rs[i].user == user
}

impl DailyPuzzle {
    /// A fresh daily game of this puzzle for `user`, if the answer has five characters
    /// once lowercased; `None` otherwise.
    pub fn try_play(&self, user: UserId) -> (r: Option<Game>)
        ensures
            lowercase(self.answer_view()).len() == 5 ==> (r matches Some(g) && g.user_view() == user
                && g.guesses_view().len() == 0 && g.answer_view() == lowercase(self.answer_view())
                && g.number_view() == Some(self.number_view())),
            lowercase(self.answer_view()).len() != 5 ==> r is None,
    {
        if Word::lowercase_len(self.answer.as_str()) == 5 {
            Some(self.play(user))
        } else {
            None
        }
    }

    /// Resumes a saved game of this puzzle, if the answer has five characters once
    /// lowercased; `None` otherwise.
    pub fn try_resume(&self, result: GameResult) -> (r: Option<Game>)
        ensures
            lowercase(self.answer_view()).len() == 5 ==> (r matches Some(g) && g.user_view()
                == result.user && g.guesses_view() == guesses_view(result.guesses@)
                && g.answer_view() == lowercase(self.answer_view())),
            lowercase(self.answer_view()).len() != 5 ==> r is None,
    {
        if Word::lowercase_len(self.answer.as_str()) == 5 {
            Some(self.resume(result))
        } else {
            None
        }
    }

    /// The answer.
    pub closed spec fn answer_view(&self) -> Seq<char> {
        self.answer@
    }

    /// The saved results.
    pub closed spec fn finished_view(&self) -> Seq<GameResult> {
        self.finished@
    }

    /// The puzzle number.
    pub closed spec fn number_view(&self) -> u32 {
        self.number
    }

    /// When the puzzle started.
    pub closed spec fn started_view(&self) -> StartTime {
        self.started
    }

    /// A puzzle numbered `number` with a random answer from `words`, starting now.
    pub fn new(words: &WordsList, number: u32) -> (r: DailyPuzzle)
        requires
            words.words_view().len() > 0,
        ensures
            r.number_view() == number,
            r.started_view().0 is Some,
            words.words_view().contains(r.answer_view()),
            r.finished_view().len() == 0,
    {
        let w = words.get_random();
        let answer = string_of(&chars_of(w.as_str()));
        DailyPuzzle { number, started: StartTime::now(), answer, finished: Vec::new() }
    }

    /// A fresh daily game of this puzzle for `user`.
    pub fn play(&self, user: UserId) -> (r: Game)
        requires
            lowercase(self.answer_view()).len() == 5,
        ensures
            r.user_view() == user,
            r.guesses_view().len() == 0,
            r.answer_view() == lowercase(self.answer_view()),
            r.answer_wf(),
            r.started_view() == self.started_view(),
            r.number_view() == Some(self.number_view()),
            !r.ended_view(),
    {
        let r = Game {
            user,
            guesses: Vec::new(),
            answer: Word::new(self.answer.as_str()),
            started: self.started,
            number: Some(self.number),
            ended: false,
        };
        assert(r.guesses_view() =~= Seq::<Seq<(char, LetterState)>>::empty());
        r
    }

    /// Resumes a saved game of this puzzle.
    pub fn resume(&self, result: GameResult) -> (r: Game)
        requires
            lowercase(self.answer_view()).len() == 5,
        ensures
            r.user_view() == result.user,
            r.guesses_view() == guesses_view(result.guesses@),
            r.answer_view() == lowercase(self.answer_view()),
            r.answer_wf(),
            r.started_view() == self.started_view(),
            r.number_view() == Some(result.puzzle),
            !r.ended_view(),
    {
        Game {
            user: result.user,
            guesses: result.guesses,
            answer: Word::new(self.answer.as_str()),
            started: self.started,
            number: Some(result.puzzle),
            ended: false,
        }
    }

    /// Whether `user` has a saved result for this puzzle.
    pub fn completed_by(&self, user: UserId) -> (r: bool)
        ensures
            r == has_result_for(self.finished_view(), user),
    {
        for i in 0..self.finished.len()
            invariant
                forall|j: int| 0 <= j < i ==> #[trigger] self.finished@[j].user != user,
        {
            if self.finished[i].user == user {
                return true;
            }
        }
        false
    }

    /// The first saved result of `user`, if any.
    pub fn get_completion(&self, user: UserId) -> (r: Option<&GameResult>)
        ensures
            match r {
                Some(res) => exists|i: int|
                    0 <= i < self.finished_view().len() && self.finished_view()[i] == *res
                        && res.user == user && forall|j: int|
                        0 <= j < i ==> #[trigger] self.finished_view()[j].user != user,
                None => !has_result_for(self.finished_view(), user),
            },
    {
        for i in 0..self.finished.len()
            invariant
                forall|j: int| 0 <= j < i ==> #[trigger] self.finished@[j].user != user,
        {
            if self.finished[i].user == user {
                assert(self.finished_view()[i as int] == self.finished@[i as int]);
                return Some(&self.finished[i]);
            }
        }
        None
    }

    /// Saves `completion` as a finished result of this puzzle.
    pub fn completed(&mut self, completion: Game)
        requires
            completion.answer_view() == old(self).answer_view(),
            completion.number_view() is Some,
        ensures
            final(self).number_view() == old(self).number_view(),
            final(self).started_view() == old(self).started_view(),
            final(self).answer_view() == old(self).answer_view(),
            final(self).finished_view().len() == old(self).finished_view().len() + 1,
            forall|i: int|
                0 <= i < old(self).finished_view().len() ==> final(self).finished_view()[i]
                    == old(self).finished_view()[i],
            ({
                let res = final(self).finished_view().last();
                &&& res.puzzle == completion.number_view()->0
                &&& res.user == completion.user_view()
                &&& guesses_view(res.guesses@) == completion.guesses_view()
                &&& res.num_guesses == completion.guesses_view().len()
                &&& res.solved == solved_spec(completion.guesses_view())
                &&& res.ended
            }),
    {
        let results = completion.results(true);
        self.finished.push(results);
    }

    /// At `now`, whether the puzzle is a day old but not yet expired.
    pub fn is_old_at(&self, now: i64) -> (r: bool)
        ensures
            r == (self.started_view().0 is Some && hours_between(self.started_view().0->0, now)
                >= PUZZLE_ACTIVE_HOURS && hours_between(self.started_view().0->0, now) < 2
                * PUZZLE_ACTIVE_HOURS),
    {
        let old = match self.started.is_old_at(now) {
            Some(b) => b,
            None => false,
        };
        old && !self.is_expired_at(now)
    }

    /// Whether the puzzle is a day old but not yet expired, by the clock.
    pub fn is_old(&self) -> (r: bool)
        ensures
            exists|now: i64| r == self.is_old_spec(now),
    {
        let now = now_millis();
        let r = self.is_old_at(now);
        assert(r == self.is_old_spec(now));
        r
    }

    /// At `now`, whether two days have passed since the puzzle started.
    pub fn is_expired_at(&self, now: i64) -> (r: bool)
        ensures
            r == (self.started_view().0 is Some && hours_between(self.started_view().0->0, now) >= 2
                * PUZZLE_ACTIVE_HOURS),
    {
        match self.started.is_expired_at(now) {
            Some(b) => b,
            None => false,
        }
    }

    /// Whether two days have passed since the puzzle started, by the clock.
    pub fn is_expired(&self) -> (r: bool)
        ensures
            exists|now: i64|
                r == (self.started_view().0 is Some && hours_between(self.started_view().0->0, now)
                    >= 2 * PUZZLE_ACTIVE_HOURS),
    {
        let now = now_millis();
        let r = self.is_expired_at(now);
        assert(r == (self.started_view().0 is Some && hours_between(self.started_view().0->0, now)
            >= 2 * PUZZLE_ACTIVE_HOURS));
        r
    }

    /// At `now`, whether `user` can still play: not expired and not completed by them.
    pub fn is_playable_at(&self, user: UserId, now: i64) -> (r: bool)
        ensures
            r == (!(self.started_view().0 is Some && hours_between(self.started_view().0->0, now) >= 2
                * PUZZLE_ACTIVE_HOURS) && !has_result_for(self.finished_view(), user)),
    {
        !self.is_expired_at(now) && !self.completed_by(user)
    }

    /// Whether `user` can still play, by the clock.
    pub fn is_playable(&self, user: UserId) -> (r: bool)
        ensures
            exists|now: i64| r == self.is_playable_spec(user, now),
    {
        let now = now_millis();
        let r = self.is_playable_at(user, now);
        assert(r == self.is_playable_spec(user, now));
        r
    }

    /// At `now`, whether `user` can still play this puzzle though it is a day old.
    pub fn is_backlogged_at(&self, user: UserId, now: i64) -> (r: bool)
        ensures
            r == (self.is_playable_spec(user, now) && self.is_old_spec(now)),
    {
        self.is_playable_at(user, now) && self.is_old_at(now)
    }

    /// Whether `user` can still play this puzzle though it is a day old, by the clock.
    pub fn is_backlogged(&self, user: UserId) -> (r: bool)
        ensures
            exists|now: i64| r == #[trigger] self.is_backlogged_spec(user, now),
    {
        let now = now_millis();
        let r = self.is_backlogged_at(user, now);
        assert(r == self.is_backlogged_spec(user, now));
        r
    }

    /// What `is_backlogged_at` gives.
    pub open spec fn is_backlogged_spec(&self, user: UserId, now: i64) -> bool {
        self.is_playable_spec(user, now) && self.is_old_spec(now)
    }

    /// What `is_playable_at` gives.
    pub open spec fn is_playable_spec(&self, user: UserId, now: i64) -> bool {
        !(self.started_view().0 is Some && hours_between(self.started_view().0->0, now) >= 2
            * PUZZLE_ACTIVE_HOURS) && !has_result_for(self.finished_view(), user)
    }

    /// What `is_old_at` gives.
    pub open spec fn is_old_spec(&self, now: i64) -> bool {
        self.started_view().0 is Some && hours_between(self.started_view().0->0, now) >= PUZZLE_ACTIVE_HOURS
            && hours_between(self.started_view().0->0, now) < 2 * PUZZLE_ACTIVE_HOURS
    }
}

/// The list of words answers are drawn from.
#[derive(Debug)]
pub struct WordsList {
    words: Vec<String>,
}

impl WordsList {
    /// Whether the list has words, each of five bytes and five characters once
    /// lowercased.
    pub fn all_five_letters(&self) -> (r: bool)
        ensures
            r == (self.words_view().len() > 0 && forall|i: int|
                0 <= i < self.words_view().len() ==> encode_utf8(#[trigger] self.words_view()[i]).len()
                    == 5 && lowercase(self.words_view()[i]).len() == 5),
    {
        let n = self.words.len();
        if n == 0 {
            return false;
        }
        for i in 0..n
            invariant
                n == self.words@.len(),
                forall|k: int|
                    0 <= k < i ==> encode_utf8(#[trigger] self.words_view()[k]).len() == 5
                        && lowercase(self.words_view()[k]).len() == 5,
        {
            let w = self.words[i].as_str();
            if !(w.as_bytes().len() == 5 && Word::lowercase_len(w) == 5) {
                assert(self.words_view()[i as int] == w@);
                return false;
            }
            assert(self.words_view()[i as int] == w@);
        }
        true
    }

    /// The words, as text.
    pub closed spec fn words_view(&self) -> Seq<Seq<char>> {
        Seq::new(self.words@.len(), |i: int| self.words@[i]@)
    }

    /// A list holding `words`.
    pub fn from_words(words: Vec<String>) -> (r: WordsList)
        ensures
            r.words_view() == Seq::new(words@.len(), |i: int| words@[i]@),
    {
        WordsList { words }
    }

    /// Whether `word`, lowercased, is in the list.
    pub fn contains(&self, word: &str) -> (r: bool)
        ensures
            r == self.words_view().contains(lowercase(word@)),
            all_ascii(word@) ==> r == self.words_view().contains(ascii_lower_seq(word@)),
    {
        let lower = to_lowercase(word);
        for i in 0..self.words.len()
            invariant
                forall|j: int| 0 <= j < i ==> self.words@[j]@ != lower@,
                lower@ == lowercase(word@),
                all_ascii(word@) ==> lower@ == ascii_lower_seq(word@),
        {
            if self.words[i] == lower {
                assert(self.words_view()[i as int] == lower@);
                return true;
            }
        }
        assert forall|k: int| 0 <= k < self.words_view().len() implies self.words_view()[k] != lower@ by {
            assert(self.words_view()[k] == self.words@[k]@);
        }
        false
    }

    /// A word of the list, picked at random.
    fn get_random(&self) -> (r: &String)
        requires
            self.words_view().len() > 0,
        ensures
            self.words_view().contains(r@),
    {
        let r = choose_string(&self.words);
        proof {
            let i = choose|i: int| 0 <= i < self.words@.len() && self.words@[i] == *r;
            assert(self.words_view()[i] == r@);
        }
        r
    }
}

/// Looking a word up ignores ASCII case: an ASCII word and the same word in capitals
/// are both ASCII and lowercase to the same text, so `WordsList::contains` gives the
/// same answer for both.
pub proof fn lemma_contains_ignores_ascii_case(list: &WordsList, word: Seq<char>)
    requires
        all_ascii(word),
    ensures
        all_ascii(ascii_upper_seq(word)),
        ascii_lower_seq(ascii_upper_seq(word)) == ascii_lower_seq(word),
        list.words_view().contains(ascii_lower_seq(ascii_upper_seq(word)))
            == list.words_view().contains(ascii_lower_seq(word)),
{
    let up = ascii_upper_seq(word);
    assert forall|i: int| 0 <= i < up.len() implies (up[i] as u32) < 128 by {
        assert((word[i] as u32) < 128);
    }
    assert(ascii_lower_seq(up) =~= ascii_lower_seq(word));
}

proof fn lemma_correct_count_self(w: Seq<char>, n: int, c: char)
    requires
        0 <= n <= w.len(),
    ensures
        correct_count(w, w.take(n), c) == count_of(w.take(n), c),
    decreases n,
{
    if n > 0 {
        assert(w.take(n).drop_last() =~= w.take(n - 1));
        lemma_correct_count_self(w, n - 1, c);
    }
}

proof fn lemma_count_positive(s: Seq<char>, i: int)
    requires
        0 <= i < s.len(),
    ensures
        count_of(s, s[i]) >= 1,
    decreases s.len(),
{
    if i < s.len() - 1 {
        lemma_count_positive(s.drop_last(), i);
    }
}

/// How many entries of a scored guess hold letter `c` and are marked, that is scored
/// `WrongPlace` or `Correct`.
pub open spec fn marked_count(s: Seq<(char, LetterState)>, c: char) -> nat
    decreases s.len(),
{
    if s.len() == 0 {
        0
    } else {
        marked_count(s.drop_last(), c) + if s.last().0 == c && (s.last().1
            == LetterState::WrongPlace || s.last().1 == LetterState::Correct) {
            1nat
        } else {
            0nat
        }
    }
}

proof fn lemma_count_take_le(w: Seq<char>, k: int, c: char)
    requires
        0 <= k <= w.len(),
    ensures
        count_of(w.take(k), c) <= count_of(w, c),
    decreases w.len() - k,
{
    if k == w.len() {
        assert(w.take(k) =~= w);
    } else {
        assert(w.take(k + 1).drop_last() =~= w.take(k));
        lemma_count_take_le(w, k + 1, c);
    }
}

proof fn lemma_correct_le_count(w: Seq<char>, g: Seq<char>, c: char)
    ensures
        correct_count(w, g, c) <= count_of(
            w.take(
                if g.len() <= w.len() {
                    g.len() as int
                } else {
                    w.len() as int
                },
            ),
            c,
        ),
    decreases g.len(),
{
    if g.len() > 0 {
        let i = g.len() - 1;
        lemma_correct_le_count(w, g.drop_last(), c);
        if i < w.len() {
            assert(w.take(i + 1).drop_last() =~= w.take(i));
        }
    }
}

proof fn lemma_marks_prefix(w: Seq<char>, g: Seq<char>, c: char, n: int)
    requires
        0 <= n <= g.len(),
        available(w, g, c) >= 0,
    ensures
        marked_count(scored(w, g).take(n), c) <= correct_count(w, g.take(n), c) + if count_of(
            g.take(n),
            c,
        ) < available(w, g, c) {
            count_of(g.take(n), c) as int
        } else {
            available(w, g, c)
        },
    decreases n,
{
    if n > 0 {
        let k = n - 1;
        lemma_marks_prefix(w, g, c, k);
        assert(scored(w, g).take(n).drop_last() =~= scored(w, g).take(k));
        assert(g.take(n).drop_last() =~= g.take(k));
        assert(scored(w, g).take(n).last() == (g[k], scored_state(w, g, k)));
        assert(g.take(n)[k] == g[k]);
    }
}

/// However a guess is scored, no letter is marked (`WrongPlace` or `Correct`) more
/// often than the answer holds it: an answer with one `e` marks at most one `e` of the
/// guess.
pub proof fn lemma_marks_within_answer(w: Seq<char>, g: Seq<char>, c: char)
    ensures
        marked_count(scored(w, g), c) <= count_of(w, c),
{
    lemma_correct_le_count(w, g, c);
    let m = if g.len() <= w.len() {
        g.len() as int
    } else {
        w.len() as int
    };
    lemma_count_take_le(w, m, c);
    lemma_marks_prefix(w, g, c, g.len() as int);
    assert(scored(w, g).take(g.len() as int) =~= scored(w, g));
    assert(g.take(g.len() as int) =~= g);
}

/// An exact hit is always marked: a letter in the answer's place is never scored
/// `NotPresent`.
pub proof fn lemma_exact_hit_marked(w: Seq<char>, g: Seq<char>, i: int)
    requires
        0 <= i < g.len(),
        i < w.len(),
        g[i] == w[i],
    ensures
        scored(w, g)[i].1 != LetterState::NotPresent,
{
}

/// Guessing the answer itself scores every letter `Correct`.
pub proof fn lemma_answer_scores_all_correct(w: Seq<char>)
    ensures
        all_correct(scored(w, w)),
{
    assert forall|i: int| 0 <= i < scored(w, w).len() implies scored(w, w)[i].1
        == LetterState::Correct by {
        lemma_correct_count_self(w, w.len() as int, w[i]);
        assert(w.take(w.len() as int) =~= w);
    }
}

/// A guess as long as the answer is scored all `Correct` exactly when it is the answer.
pub proof fn lemma_all_correct_iff_answer(w: Seq<char>, g: Seq<char>)
    requires
        g.len() == w.len(),
    ensures
        all_correct(scored(w, g)) <==> g == w,
{
    if all_correct(scored(w, g)) {
        assert forall|i: int| 0 <= i < g.len() implies g[i] == w[i] by {
            assert(scored(w, g)[i].1 == LetterState::Correct);
        }
        assert(g =~= w);
    }
    if g == w {
        lemma_answer_scores_all_correct(w);
    }
}

/// A letter that does not occur in the answer is always scored `NotPresent`.
pub proof fn lemma_absent_letter_not_present(w: Seq<char>, g: Seq<char>, i: int)
    requires
        0 <= i < g.len(),
        count_of(w, g[i]) == 0,
    ensures
        scored(w, g)[i].1 == LetterState::NotPresent,
{
    if i < w.len() && g[i] == w[i] {
        lemma_count_positive(w, i);
    }
}

/// Scoring keeps the letters of the guess, in order.
pub proof fn lemma_scoring_keeps_letters(w: Seq<char>, g: Seq<char>)
    ensures
        letters_of(scored(w, g)) == g,
{
    assert(letters_of(scored(w, g)) =~= g);
}

/// A puzzle is never both old and expired.
pub proof fn lemma_old_not_expired(p: DailyPuzzle, now: i64)
    ensures
        p.is_old_spec(now) ==> !(p.started_view().0 is Some && hours_between(p.started_view().0->0, now)
            >= 2 * PUZZLE_ACTIVE_HOURS),
{
}

} // verus!
