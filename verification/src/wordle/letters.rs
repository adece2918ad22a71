//! Sets of letters and the latest state known for each letter, kept in letter order.
use vstd::prelude::*;

use crate::text::{join, push_char};
use crate::wordle::emoji::{is_lower_letter, letter_emoji, letter_emoji_char, square, square_char, AsEmoji};
use crate::wordle::guess::LetterState;

verus! {

/// Every character of `s` is below the ones after it.
pub open spec fn strictly_sorted(s: Seq<char>) -> bool {
    forall|i: int, j: int| 0 <= i < j < s.len() ==> s[i] < s[j]
}

/// A set of characters, kept in increasing order.
#[derive(Debug)]
pub struct CharSet {
    chars: Vec<char>,
}

impl View for CharSet {
    type V = Seq<char>;

    closed spec fn view(&self) -> Seq<char> {
        self.chars@
    }
}

impl CharSet {
    #[verifier::type_invariant]
    closed spec fn sorted(self) -> bool {
        strictly_sorted(self.chars@)
    }

    /// The characters are in increasing order.
    pub fn lemma_sorted(&self)
        ensures
            strictly_sorted(self@),
    {
        proof {
            use_type_invariant(self);
        }
    }

    /// The empty set.
    pub fn new() -> (r: CharSet)
        ensures
            r@.len() == 0,
    {
        CharSet { chars: Vec::new() }
    }

    /// Whether `c` is in the set.
    pub fn contains(&self, c: char) -> (r: bool)
        ensures
            r == self@.contains(c),
    {
        for i in 0..self.chars.len()
            invariant
                forall|k: int| 0 <= k < i ==> self.chars@[k] != c,
        {
            if self.chars[i] == c {
                return true;
            }
        }
        false
    }

    /// Adds `c`.
    pub fn insert(&mut self, c: char)
        ensures
            forall|x: char| #[trigger] final(self)@.contains(x) <==> (old(self)@.contains(x) || x == c),
    {
        proof {
            use_type_invariant(&*self);
        }
        let n = self.chars.len();
        let mut p: usize = 0;
        while p < n && self.chars[p] < c
            invariant
                p <= n == self.chars@.len(),
                strictly_sorted(self.chars@),
                forall|k: int| 0 <= k < p ==> self.chars@[k] < c,
            decreases n - p,
        {
            p = p + 1;
        }
        if p < n && self.chars[p] == c {
            return;
        }
        let ghost old_chars = self.chars@;
        let mut chars: Vec<char> = Vec::new();
        std::mem::swap(&mut chars, &mut self.chars);
        chars.insert(p, c);
        proof {
            let s = chars@;
            assert(s == old_chars.insert(p as int, c));
            assert forall|i: int, j: int| 0 <= i < j < s.len() implies s[i] < s[j] by {
                if j < p {
                } else if j == p {
                } else if i < p {
                    assert(old_chars[i] < c);
                    assert(c < old_chars[p as int]);
                    assert(old_chars[p as int] <= old_chars[j - 1]) by {
                        if p < j - 1 {
                        }
                    }
                } else if i == p {
                    assert(c < old_chars[p as int]);
                    if p < j - 1 {
                        assert(old_chars[p as int] < old_chars[j - 1]);
                    }
                } else {
                }
            }
            assert forall|x: char| #[trigger] s.contains(x) <==> (old_chars.contains(x) || x == c) by {
                if s.contains(x) {
                    let k = choose|k: int| 0 <= k < s.len() && s[k] == x;
                    if k < p {
                        assert(old_chars[k] == x);
                    } else if k > p {
                        assert(old_chars[k - 1] == x);
                    }
                }
                if old_chars.contains(x) {
                    let k = choose|k: int| 0 <= k < old_chars.len() && old_chars[k] == x;
                    if k < p {
                        assert(s[k] == x);
                    } else {
                        assert(s[k + 1] == x);
                    }
                }
                if x == c {
                    assert(s[p as int] == c);
                }
            }
        }
        self.chars = chars;
    }
}

/// Singletons of the letter emoji of each character.
pub open spec fn char_cells(s: Seq<char>) -> Seq<Seq<char>> {
    Seq::new(s.len(), |i: int| seq![letter_emoji(s[i])])
}

impl AsEmoji for CharSet {
    open spec fn showable(&self) -> bool {
        forall|i: int| 0 <= i < self@.len() ==> is_lower_letter(#[trigger] self@[i])
    }

    open spec fn emoji_view(&self) -> Seq<char> {
        join(char_cells(self@), seq![',', ' '])
    }

    open spec fn letters_view(&self) -> Seq<char> {
        join(char_cells(self@), seq![',', ' '])
    }

    open spec fn spaced_view(&self) -> Seq<char> {
        join(char_cells(self@), seq![',', ' '])
    }

    fn as_emoji(&self) -> (r: String) {
        let ghost cells = char_cells(self@);
        let mut s = String::new();
        for i in 0..self.chars.len()
            invariant
                cells == char_cells(self.chars@),
                forall|k: int| 0 <= k < self.chars@.len() ==> is_lower_letter(#[trigger] self.chars@[k]),
                s@ == join(cells.take(i as int), seq![',', ' ']),
        {
            assert(cells.take(i + 1).drop_last() =~= cells.take(i as int));
            if i > 0 {
                push_char(&mut s, ',');
                push_char(&mut s, ' ');
            } else {
                assert(cells.take(0) =~= Seq::<Seq<char>>::empty());
            }
            push_char(&mut s, letter_emoji_char(self.chars[i]));
            assert(s@ =~= join(cells.take(i + 1), seq![',', ' ']));
        }
        assert(cells.take(self.chars.len() as int) =~= cells);
        s
    }

    fn emoji_with_letters(&self) -> (r: String) {
        self.as_emoji()
    }

    fn emoji_with_letters_spaced(&self) -> (r: String) {
        self.as_emoji()
    }
}

/// Letters of `s`, in order, are increasing.
pub open spec fn keys_sorted(s: Seq<(char, LetterState)>) -> bool {
    forall|i: int, j: int| 0 <= i < j < s.len() ==> s[i].0 < s[j].0
}

/// Whether some entry of `s` is for letter `c`.
pub open spec fn has_key(s: Seq<(char, LetterState)>, c: char) -> bool {
    exists|i: int| 0 <= i < s.len() && #[trigger] s[i].0 == c
}

/// The state of the last pair for letter `c` in `pairs`.
pub open spec fn last_state(pairs: Seq<(char, LetterState)>, c: char) -> LetterState
    decreases pairs.len(),
{
    if pairs.len() == 0 {
        LetterState::NotPresent
    } else if pairs.last().0 == c {
        pairs.last().1
    } else {
        last_state(pairs.drop_last(), c)
    }
}

/// The latest state seen for each letter, in letter order.
#[derive(Debug)]
pub struct LetterStates {
    entries: Vec<(char, LetterState)>,
}

impl View for LetterStates {
    type V = Seq<(char, LetterState)>;

    closed spec fn view(&self) -> Seq<(char, LetterState)> {
        self.entries@
    }
}

/// `entries` are the latest states of the letters of `pairs`, one per letter, in order.
pub open spec fn summarizes(entries: Seq<(char, LetterState)>, pairs: Seq<(char, LetterState)>) -> bool {
    &&& keys_sorted(entries)
    &&& forall|c: char| #[trigger] has_key(entries, c) <==> has_key(pairs, c)
    &&& forall|i: int| 0 <= i < entries.len() ==> #[trigger] entries[i].1 == last_state(pairs, entries[i].0)
}

impl LetterStates {
    #[verifier::type_invariant]
    closed spec fn sorted(self) -> bool {
        keys_sorted(self.entries@)
    }

    /// No letters yet.
    pub fn new() -> (r: LetterStates)
        ensures
            r@.len() == 0,
    {
        LetterStates { entries: Vec::new() }
    }

    /// The state recorded for `c`, if any.
    pub fn get(&self, c: char) -> (r: Option<LetterState>)
        ensures
            r is Some <==> has_key(self@, c),
            r matches Some(s) ==> exists|i: int| 0 <= i < self@.len() && self@[i] == (c, s),
    {
        for i in 0..self.entries.len()
            invariant
                forall|k: int| 0 <= k < i ==> self.entries@[k].0 != c,
        {
            if self.entries[i].0 == c {
                assert(self@[i as int] == (c, self.entries@[i as int].1));
                return Some(self.entries[i].1);
            }
        }
        proof {
            false_key(self@, c);
        }
        None
    }

    /// The latest states of the letters of `pairs`.
    pub fn from_pairs(pairs: &Vec<(char, LetterState)>) -> (r: LetterStates)
        ensures
            summarizes(r@, pairs@),
    {
        let mut entries: Vec<(char, LetterState)> = Vec::new();
        for n in 0..pairs.len()
            invariant
                summarizes(entries@, pairs@.take(n as int)),
        {
            let (c, s) = pairs[n];
            let ghost before = entries@;
            let ghost pre = pairs@.take(n as int);
            let ghost post = pairs@.take(n + 1);
            upsert(&mut entries, c, s);
            proof {
                assert(post.drop_last() =~= pre);
                assert(post.last() == (c, s));
                assert forall|x: char| #[trigger] has_key(entries@, x) <==> has_key(post, x) by {
                    if has_key(post, x) {
                        let k = choose|k: int| 0 <= k < post.len() && post[k].0 == x;
                        if k < n {
                            assert(pre[k].0 == x);
                        }
                    }
                    if has_key(pre, x) {
                        let k = choose|k: int| 0 <= k < pre.len() && pre[k].0 == x;
                        assert(post[k].0 == x);
                    }
                    if x == c {
                        assert(post[n as int].0 == x);
                    }
                }
                assert forall|i: int| 0 <= i < entries@.len() implies #[trigger] entries@[i].1
                    == last_state(post, entries@[i].0) by {
                    let x = entries@[i].0;
                    if x != c {
                        assert(before.contains(entries@[i]));
                        let j = choose|j: int| 0 <= j < before.len() && before[j] == entries@[i];
                        assert(before[j].1 == last_state(pre, before[j].0));
                    }
                }
            }
        }
        assert(pairs@.take(pairs.len() as int) =~= pairs@);
        LetterStates { entries }
    }
}

proof fn false_key(s: Seq<(char, LetterState)>, c: char)
    requires
        forall|k: int| 0 <= k < s.len() ==> s[k].0 != c,
    ensures
        !has_key(s, c),
{
}

fn upsert(v: &mut Vec<(char, LetterState)>, c: char, s: LetterState)
    requires
        keys_sorted(old(v)@),
    ensures
        keys_sorted(final(v)@),
        forall|x: char| #[trigger] has_key(final(v)@, x) <==> (has_key(old(v)@, x) || x == c),
        forall|i: int| 0 <= i < final(v)@.len() && #[trigger] final(v)@[i].0 == c ==> final(v)@[i].1 == s,
        forall|i: int|
            0 <= i < final(v)@.len() && #[trigger] final(v)@[i].0 != c ==> old(v)@.contains(final(v)@[i]),
{
    let n = v.len();
    let mut p: usize = 0;
    while p < n && v[p].0 < c
        invariant
            p <= n == v@.len(),
            keys_sorted(v@),
            forall|k: int| 0 <= k < p ==> v@[k].0 < c,
        decreases n - p,
    {
        p = p + 1;
    }
    let ghost o = v@;
    if p < n && v[p].0 == c {
        v.set(p, (c, s));
        proof {
            let t = v@;
            assert(t == o.update(p as int, (c, s)));
            assert forall|i: int, j: int| 0 <= i < j < t.len() implies t[i].0 < t[j].0 by {
                assert(t[i].0 == o[i].0);
                assert(t[j].0 == o[j].0);
            }
            assert forall|x: char| #[trigger] has_key(t, x) <==> (has_key(o, x) || x == c) by {
                if has_key(o, x) {
                    let k = choose|k: int| 0 <= k < o.len() && o[k].0 == x;
                    assert(t[k].0 == x);
                }
                if has_key(t, x) {
                    let k = choose|k: int| 0 <= k < t.len() && t[k].0 == x;
                    assert(o[k].0 == x);
                }
                if x == c {
                    assert(t[p as int].0 == c);
                }
            }
            assert forall|i: int| 0 <= i < t.len() && #[trigger] t[i].0 == c implies t[i].1 == s by {
                if i != p {
                    assert(o[i].0 == t[i].0);
                    if i < p {
                        assert(o[i].0 < c);
                    } else {
                        assert(o[p as int].0 < o[i].0);
                    }
                }
            }
            assert forall|i: int| 0 <= i < t.len() && #[trigger] t[i].0 != c implies o.contains(t[i]) by {
                assert(i != p);
                assert(t[i] == o[i]);
            }
        }
        return;
    }
    v.insert(p, (c, s));
    proof {
        let t = v@;
        assert(t == o.insert(p as int, (c, s)));
        if p < n {
            assert(c < o[p as int].0);
        }
        assert forall|i: int, j: int| 0 <= i < j < t.len() implies t[i].0 < t[j].0 by {
            if j < p {
            } else if j == p {
            } else if i < p {
                assert(o[i].0 < c);
                assert(o[p as int].0 <= o[j - 1].0) by {
                    if p < j - 1 {
                    }
                }
            } else if i == p {
                if p < j - 1 {
                    assert(o[p as int].0 < o[j - 1].0);
                }
            } else {
            }
        }
        assert forall|x: char| #[trigger] has_key(t, x) <==> (has_key(o, x) || x == c) by {
            if has_key(t, x) {
                let k = choose|k: int| 0 <= k < t.len() && t[k].0 == x;
                if k < p {
                    assert(o[k].0 == x);
                } else if k > p {
                    assert(o[k - 1].0 == x);
                }
            }
            if has_key(o, x) {
                let k = choose|k: int| 0 <= k < o.len() && o[k].0 == x;
                if k < p {
                    assert(t[k].0 == x);
                } else {
                    assert(t[k + 1].0 == x);
                }
            }
            if x == c {
                assert(t[p as int].0 == c);
            }
        }
        assert forall|i: int| 0 <= i < t.len() && #[trigger] t[i].0 == c implies t[i].1 == s by {
            if i < p {
                assert(o[i].0 < c);
            } else if i > p {
                assert(t[i] == o[i - 1]);
                if p < i - 1 {
                    assert(o[p as int].0 < o[i - 1].0);
                }
            }
        }
        assert forall|i: int| 0 <= i < t.len() && #[trigger] t[i].0 != c implies o.contains(t[i]) by {
            if i < p {
                assert(t[i] == o[i]);
            } else if i > p {
                assert(t[i] == o[i - 1]);
            }
        }
    }
}

/// The first line of the letter summary: each letter's emoji followed by a space.
pub open spec fn key_row(e: Seq<(char, LetterState)>) -> Seq<char> {
    Seq::new(2 * e.len(), |i: int| if i % 2 == 0 { letter_emoji(e[i / 2].0) } else { ' ' })
}

/// Singletons of each state's square.
pub open spec fn state_cells(e: Seq<(char, LetterState)>) -> Seq<Seq<char>> {
    Seq::new(e.len(), |i: int| seq![square(e[i].1)])
}

/// The letter summary: letters on one line, their squares below, trailing space trimmed.
pub open spec fn summary_emoji(e: Seq<(char, LetterState)>) -> Seq<char> {
    if e.len() == 0 {
        seq![]
    } else {
        key_row(e) + seq!['\n'] + join(state_cells(e), seq![' '])
    }
}

impl AsEmoji for LetterStates {
    open spec fn showable(&self) -> bool {
        forall|i: int| 0 <= i < self@.len() ==> is_lower_letter(#[trigger] self@[i].0)
    }

    open spec fn emoji_view(&self) -> Seq<char> {
        summary_emoji(self@)
    }

    open spec fn letters_view(&self) -> Seq<char> {
        summary_emoji(self@)
    }

    open spec fn spaced_view(&self) -> Seq<char> {
        summary_emoji(self@)
    }

    fn as_emoji(&self) -> (r: String) {
        let e = &self.entries;
        let n = e.len();
        let mut s = String::new();
        if n == 0 {
            return s;
        }
        assert forall|k: int| 0 <= k < n implies is_lower_letter(#[trigger] e@[k].0) by {
            assert(self@[k] == e@[k]);
        }
        for i in 0..n
            invariant
                n == e@.len(),
                forall|k: int| 0 <= k < n ==> is_lower_letter(#[trigger] e@[k].0),
                s@ == key_row(e@).take(2 * i),
        {
            push_char(&mut s, letter_emoji_char(e[i].0));
            push_char(&mut s, ' ');
            assert(key_row(e@).take(2 * (i + 1)) =~= key_row(e@).take(2 * i).push(
                letter_emoji(e@[i as int].0),
            ).push(' '));
        }
        assert(key_row(e@).take(2 * n) =~= key_row(e@));
        push_char(&mut s, '\n');
        let ghost head = s@;
        let ghost cells = state_cells(e@);
        for i in 0..n
            invariant
                n == e@.len(),
                cells == state_cells(e@),
                s@ == head + join(cells.take(i as int), seq![' ']),
        {
            assert(cells.take(i + 1).drop_last() =~= cells.take(i as int));
            if i > 0 {
                push_char(&mut s, ' ');
            } else {
                assert(cells.take(0) =~= Seq::<Seq<char>>::empty());
            }
            push_char(&mut s, square_char(e[i].1));
            assert(s@ =~= head + join(cells.take(i + 1), seq![' ']));
        }
        assert(cells.take(n as int) =~= cells);
        s
    }

    fn emoji_with_letters(&self) -> (r: String) {
        self.as_emoji()
    }

    fn emoji_with_letters_spaced(&self) -> (r: String) {
        self.as_emoji()
    }
}

} // verus!
