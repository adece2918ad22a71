//! The guesses of a game, with an optional limit, and what they say about letters.
use vstd::prelude::*;

use tinyvec::TinyVec;

use crate::text::char_from_u32;
use crate::text::{join, push_char};
use crate::wordle::emoji::{
    guess_letter_row, guess_squares, is_lower_letter, letter_cells, push_row, square_cells, AsEmoji,
};
use crate::wordle::guess::{Guess, GuessesLimit, LetterState};
use crate::wordle::letters::{has_key, strictly_sorted, summarizes, CharSet, LetterStates};

verus! {

/// A `TinyVec` of guesses, inline up to six. Verus does not take `TinyVec` as a
/// declared type (its `Array` bound is refused), so it is held here, out of Verus's
/// sight, and reached only through the trusted calls below.
#[verifier::external_body]
#[derive(Debug)]
pub struct GuessVec {
    inner: TinyVec<[Guess; 6]>,
}

/// The guesses held by a `GuessVec`, in order.
pub uninterp spec fn tiny_guesses(v: GuessVec) -> Seq<Guess>;

/// `TinyVec::new`: an empty vector. Claimed: it holds no guesses.
#[verifier::external_body]
fn tiny_new() -> (r: GuessVec)
    ensures
        tiny_guesses(r) == Seq::<Guess>::empty(),
{
    GuessVec { inner: TinyVec::new() }
}

/// `TinyVec::push`: appends `g`. Claimed: the guesses are the old ones followed by `g`.
#[verifier::external_body]
fn tiny_push(v: &mut GuessVec, g: Guess)
    ensures
        tiny_guesses(*final(v)) == tiny_guesses(*old(v)).push(g),
{
    v.inner.push(g)
}

/// `TinyVec::len`. Claimed: the number of guesses held.
#[verifier::external_body]
fn tiny_len(v: &GuessVec) -> (r: usize)
    ensures
        r == tiny_guesses(*v).len(),
{
    v.inner.len()
}

/// Indexing a `TinyVec` through its slice. Claimed: the guess at `i`.
#[verifier::external_body]
fn tiny_get(v: &GuessVec, i: usize) -> (r: Guess)
    requires
        i < tiny_guesses(*v).len(),
    ensures
        r == tiny_guesses(*v)[i as int],
{
    v.inner[i]
}

/// `<TinyVec as Clone>::clone`. Claimed: the copy holds the same guesses (guesses are
/// `Copy`, so each clone is the guess itself).
#[verifier::external_body]
fn tiny_clone(v: &GuessVec) -> (r: GuessVec)
    ensures
        tiny_guesses(r) == tiny_guesses(*v),
{
    GuessVec { inner: v.inner.clone() }
}

/// The guesses of a game, and how many it allows.
#[derive(Debug)]
pub struct Guesses {
    vec: GuessVec,
    pub limit: Option<GuessesLimit>,
}

impl Clone for Guesses {
    fn clone(&self) -> (r: Self)
        ensures
            r@ == self@,
            r.limit_view() == self.limit_view(),
    {
        Guesses { vec: tiny_clone(&self.vec), limit: self.limit }
    }
}

impl View for Guesses {
    type V = Seq<Guess>;

    closed spec fn view(&self) -> Seq<Guess> {
        tiny_guesses(self.vec)
    }
}

impl Guesses {
    /// The limit, if any.
    pub closed spec fn limit_view(&self) -> Option<GuessesLimit> {
        self.limit
    }

    /// Whether as many guesses as the limit allows have been made.
    pub fn limit_reached(&self) -> (r: bool)
        ensures
            r == (self.limit_view() matches Some(l) && l@ == self@.len()),
    {
        match self.limit {
            Some(l) => l.eq_usize(tiny_len(&self.vec)),
            None => false,
        }
    }

    /// Records `guess`, unless the limit has been reached.
    pub fn push(&mut self, guess: Guess)
        ensures
            final(self).limit_view() == old(self).limit_view(),
            (old(self).limit_view() matches Some(l) && l@ == old(self)@.len()) ==> final(self)@ == old(
                self,
            )@,
            !(old(self).limit_view() matches Some(l) && l@ == old(self)@.len()) ==> final(self)@ == old(
                self,
            )@.push(guess),
            final(self)@.len() > 0,
            match old(self).limit_view() {
                Some(l) => old(self)@.len() <= l@ ==> final(self)@.len() <= l@,
                None => true,
            },
    {
        if let Some(l) = &self.limit {
            proof {
                use_type_invariant(l);
                GuessesLimit::lemma_nonzero(*l);
            }
        }
        if !self.limit_reached() {
            tiny_push(&mut self.vec, guess);
        }
    }

    /// No guesses yet, with the default limit of six.
    pub fn default_limit() -> (r: Guesses)
        ensures
            r@.len() == 0,
            r.limit_view() matches Some(l) && l@ == 6,
    {
        Self::new(Some(GuessesLimit::default()))
    }

    /// No guesses yet, with `limit`.
    pub fn new(limit: Option<GuessesLimit>) -> (r: Guesses)
        ensures
            r@.len() == 0,
            r.limit_view() == limit,
    {
        Guesses { vec: tiny_new(), limit }
    }

    /// No guesses yet, and no limit.
    pub fn unlimited() -> (r: Guesses)
        ensures
            r@.len() == 0,
            r.limit_view() is None,
    {
        Self::new(None)
    }

    /// The guesses, in order.
    pub fn iter(&self) -> (r: Vec<Guess>)
        ensures
            r@ == self@,
    {
        let n = tiny_len(&self.vec);
        let mut out: Vec<Guess> = Vec::new();
        for i in 0..n
            invariant
                n == self@.len(),
                out@ == self@.take(i as int),
        {
            out.push(tiny_get(&self.vec, i));
            assert(self@.take(i + 1) =~= self@.take(i as int).push(self@[i as int]));
        }
        assert(self@.take(n as int) =~= self@);
        out
    }

    /// How many guesses are allowed, if there is a limit.
    pub fn max(&self) -> (r: Option<usize>)
        ensures
            match self.limit_view() {
                Some(l) => r matches Some(m) && m == l@ && m >= 1,
                None => r is None,
            },
    {
        match self.limit {
            Some(l) => Some(l.into_usize()),
            None => None,
        }
    }

    /// How many guesses have been made.
    pub fn count(&self) -> (r: usize)
        ensures
            r == self@.len(),
    {
        tiny_len(&self.vec)
    }

    /// The latest guess, if any.
    pub fn last(&self) -> (r: Option<Guess>)
        ensures
            self@.len() == 0 ==> r is None,
            self@.len() > 0 ==> r == Some(self@.last()),
    {
        let n = tiny_len(&self.vec);
        if n == 0 {
            None
        } else {
            Some(tiny_get(&self.vec, n - 1))
        }
    }

    /// Whether the latest guess is all correct.
    pub fn last_is_solved(&self) -> (r: bool)
        ensures
            r == (self@.len() > 0 && forall|i: int|
                0 <= i < 5 ==> #[trigger] self@.last()@[i].1 == crate::wordle::guess::LetterState::Correct),
    {
        match self.last() {
            Some(g) => g.is_correct(),
            None => false,
        }
    }
}

/// The drawing of one guess: colors only, or its letters above its colors, spaced or
/// not.
pub open spec fn guess_drawing(g: Seq<(char, LetterState)>, letters: bool, spaced: bool) -> Seq<char> {
    if !letters {
        guess_squares(g)
    } else if !spaced {
        guess_letter_row(g) + seq!['\n'] + guess_squares(g)
    } else {
        join(letter_cells(g), seq![' ']) + seq!['\n'] + join(square_cells(g), seq![' '])
    }
}

/// The drawings of some guesses, one after another on their own lines.
pub open spec fn guesses_drawing(gs: Seq<Guess>, letters: bool, spaced: bool) -> Seq<char> {
    join(Seq::new(gs.len(), |i: int| guess_drawing(gs[i]@, letters, spaced)), seq!['\n'])
}

/// Draws `gs`; see [`guesses_drawing`].
fn draw_guesses(gs: &Vec<Guess>, letters: bool, spaced: bool) -> (r: String)
    requires
        letters ==> forall|i: int, j: int|
            0 <= i < gs@.len() && 0 <= j < 5 ==> is_lower_letter(#[trigger] gs@[i]@[j].0),
    ensures
        r@ == guesses_drawing(gs@, letters, spaced),
{
    let n = gs.len();
    let ghost rows = Seq::new(n as nat, |i: int| guess_drawing(gs@[i]@, letters, spaced));
    let mut s = String::new();
    for i in 0..n
        invariant
            n == gs@.len(),
            rows == Seq::new(n as nat, |i: int| guess_drawing(gs@[i]@, letters, spaced)),
            letters ==> forall|i: int, j: int|
                0 <= i < gs@.len() && 0 <= j < 5 ==> is_lower_letter(#[trigger] gs@[i]@[j].0),
            s@ == join(rows.take(i as int), seq!['\n']),
    {
        assert(rows.take(i + 1).drop_last() =~= rows.take(i as int));
        if i > 0 {
            push_char(&mut s, '\n');
        } else {
            assert(rows.take(0) =~= Seq::<Seq<char>>::empty());
        }
        let ghost before = s@;
        let g = &gs[i];
        if letters {
            assert forall|j: int| 0 <= j < 5 implies is_lower_letter(#[trigger] g@[j].0) by {
                assert(is_lower_letter(gs@[i as int]@[j].0));
            }
            push_row(&mut s, g, true, spaced);
            push_char(&mut s, '\n');
            push_row(&mut s, g, false, spaced);
        } else {
            push_row(&mut s, g, false, false);
        }
        assert(s@ =~= before + rows[i as int]);
    }
    assert(rows.take(n as int) =~= rows);
    s
}

impl AsEmoji for Guesses {
    open spec fn showable(&self) -> bool {
        forall|i: int, j: int| 0 <= i < self@.len() && 0 <= j < 5 ==> is_lower_letter(#[trigger] self@[i]@[j].0)
    }

    open spec fn emoji_view(&self) -> Seq<char> {
        guesses_drawing(self@, false, false)
    }

    open spec fn letters_view(&self) -> Seq<char> {
        guesses_drawing(self@, true, false)
    }

    open spec fn spaced_view(&self) -> Seq<char> {
        guesses_drawing(self@, true, true)
    }

    fn as_emoji(&self) -> (r: String) {
        draw_guesses(&self.iter(), false, false)
    }

    fn emoji_with_letters(&self) -> (r: String) {
        draw_guesses(&self.iter(), true, false)
    }

    fn emoji_with_letters_spaced(&self) -> (r: String) {
        draw_guesses(&self.iter(), true, true)
    }
}

impl AsEmoji for Vec<Guess> {
    open spec fn showable(&self) -> bool {
        forall|i: int, j: int| 0 <= i < self@.len() && 0 <= j < 5 ==> is_lower_letter(#[trigger] self@[i]@[j].0)
    }

    open spec fn emoji_view(&self) -> Seq<char> {
        guesses_drawing(self@, false, false)
    }

    open spec fn letters_view(&self) -> Seq<char> {
        guesses_drawing(self@, true, false)
    }

    open spec fn spaced_view(&self) -> Seq<char> {
        guesses_drawing(self@, true, true)
    }

    fn as_emoji(&self) -> (r: String) {
        draw_guesses(self, false, false)
    }

    fn emoji_with_letters(&self) -> (r: String) {
        draw_guesses(self, true, false)
    }

    fn emoji_with_letters_spaced(&self) -> (r: String) {
        draw_guesses(self, true, true)
    }
}

/// Every letter/state pair of `gs`, guess after guess.
pub open spec fn flat_pairs(gs: Seq<Guess>) -> Seq<(char, LetterState)>
    decreases gs.len(),
{
    if gs.len() == 0 {
        seq![]
    } else {
        flat_pairs(gs.drop_last()) + gs.last()@
    }
}

impl Guesses {
    /// Every letter/state pair, guess after guess.
    pub fn pairs(&self) -> (r: Vec<(char, LetterState)>)
        ensures
            r@ == flat_pairs(self@),
    {
        let gs = self.iter();
        let mut out: Vec<(char, LetterState)> = Vec::new();
        for i in 0..gs.len()
            invariant
                gs@ == self@,
                out@ == flat_pairs(gs@.take(i as int)),
        {
            let row = gs[i].iter();
            let ghost before = out@;
            for j in 0..row.len()
                invariant
                    out@ == before + row@.take(j as int),
            {
                out.push(row[j]);
                assert(row@.take(j + 1) =~= row@.take(j as int).push(row@[j as int]));
            }
            assert(row@.take(row.len() as int) =~= row@);
            assert(gs@.take(i + 1).drop_last() =~= gs@.take(i as int));
        }
        assert(gs@.take(gs.len() as int) =~= gs@);
        out
    }

    /// The latest state of each letter guessed, in letter order.
    pub fn letter_states(&self) -> (r: LetterStates)
        ensures
            summarizes(r@, flat_pairs(self@)),
    {
        let p = self.pairs();
        LetterStates::from_pairs(&p)
    }

    /// The letters guessed so far.
    pub fn used_letters(&self) -> (r: CharSet)
        ensures
            strictly_sorted(r@),
            forall|x: char| #[trigger] r@.contains(x) <==> has_key(flat_pairs(self@), x),
    {
        let p = self.pairs();
        let mut set = CharSet::new();
        for i in 0..p.len()
            invariant
                forall|x: char| #[trigger] set@.contains(x) <==> has_key(p@.take(i as int), x),
        {
            set.insert(p[i].0);
            proof {
                let pre = p@.take(i as int);
                let post = p@.take(i + 1);
                assert(post.drop_last() =~= pre);
                assert forall|x: char| #[trigger] set@.contains(x) <==> has_key(post, x) by {
                    if has_key(post, x) {
                        let k = choose|k: int| 0 <= k < post.len() && post[k].0 == x;
                        if k < i {
                            assert(pre[k].0 == x);
                        }
                    }
                    if has_key(pre, x) {
                        let k = choose|k: int| 0 <= k < pre.len() && pre[k].0 == x;
                        assert(post[k].0 == x);
                    }
                    if x == p@[i as int].0 {
                        assert(post[i as int].0 == x);
                    }
                }
            }
        }
        assert(p@.take(p.len() as int) =~= p@);
        set.lemma_sorted();
        set
    }

    /// The letters `a`..=`z` not guessed so far, in order.
    pub fn unused_letters(&self) -> (r: CharSet)
        ensures
            strictly_sorted(r@),
            forall|x: char| #[trigger] r@.contains(x) <==> (is_lower_letter(x) && !has_key(
                flat_pairs(self@),
                x,
            )),
    {
        let used = self.used_letters();
        let mut set = CharSet::new();
        let mut u: u32 = 97;
        while u <= 122
            invariant
                97 <= u <= 123,
                forall|x: char| #[trigger] used@.contains(x) <==> has_key(flat_pairs(self@), x),
                forall|x: char| #[trigger]
                    set@.contains(x) <==> ('a' <= x && (x as int) < u && !used@.contains(x)),
            decreases 123 - u,
        {
            let c = char_from_u32(u);
            assert(c as int == u as int);
            if !used.contains(c) {
                set.insert(c);
            }
            u = u + 1;
        }
        set.lemma_sorted();
        set
    }
}

} // verus!
