//! Finding 5-7-5 haiku in chat messages by counting syllables.
use vstd::prelude::*;

use crate::text::{
    char_lowercase, char_to_lowercase, chars_eq, chars_of, ends_with, is_suffix, join, join_range,
    split_whitespace, split_ws, string_of, string_views, views,
};

verus! {

/// The letters counted as vowels.
pub open spec fn is_vowel_char(c: char) -> bool {
    c == 'a' || c == 'e' || c == 'i' || c == 'o' || c == 'u' || c == 'y'
}

/// Whether the letter at `i` of `w` starts a vowel group: it lowercases to exactly a
/// vowel, and either the letter before it (if any) does not lowercase to a text
/// starting with a vowel, or it is the `i` of a closing `ing`, which is sounded apart
/// from a vowel before it (as in "trying" or "being").
pub open spec fn opens_vowel_group(w: Seq<char>, i: int) -> bool {
    let lc = char_lowercase(w[i]);
    &&& lc.len() == 1
    &&& is_vowel_char(lc[0])
    &&& !(i > 0 && is_vowel_char(char_lowercase(w[i - 1])[0])) || (i == w.len() - 3
        && is_suffix("ing"@, w))
}

/// The first letter of each vowel group among the first `k` letters of `w`, as
/// written.
pub open spec fn vowel_groups_upto(w: Seq<char>, k: int) -> Seq<char>
    decreases k,
{
    if k <= 0 {
        seq![]
    } else {
        vowel_groups_upto(w, k - 1) + if opens_vowel_group(w, k - 1) {
            seq![w[k - 1]]
        } else {
            seq![]
        }
    }
}

/// The first letter of each vowel group of `w`, as written.
pub open spec fn vowel_groups(w: Seq<char>) -> Seq<char> {
    vowel_groups_upto(w, w.len() as int)
}

/// Whether `w` ends in an `-ed` that is sounded, after `t` or `d` (as in "muted").
pub open spec fn sounded_ed(w: Seq<char>) -> bool {
    is_suffix("ted"@, w) || is_suffix("ded"@, w)
}

/// The syllables counted in `w`: a few listed words have fixed counts; otherwise one
/// per vowel group, less a trailing silent `e` (after `e`, `es` or `ed`, but not after
/// `ses`, `ces`, `ted` or `ded`) when there is more than one group.
pub open spec fn syllable_count(w: Seq<char>) -> nat {
    if w == "tumblr"@ {
        2
    } else if w == "cringe"@ {
        1
    } else if w == "alien"@ || w == "aliens"@ {
        3
    } else {
        let v = vowel_groups(w);
        if is_suffix("ses"@, w) || is_suffix("ces"@, w) {
            v.len()
        } else if v.len() > 1 && !sounded_ed(w) && (is_suffix("es"@, w) || is_suffix("ed"@, w)
            || is_suffix("e"@, w)) && v.last() == 'e' {
            (v.len() - 1) as nat
        } else {
            v.len()
        }
    }
}

/// A word ending in `ses` or `ces` sounds every one of its vowel groups: its final `es`
/// is a syllable of its own, so no silent `e` is dropped (as in "horses" or "faces").
pub proof fn lemma_sibilant_es_sounded(w: Seq<char>)
    requires
        is_suffix("ses"@, w) || is_suffix("ces"@, w),
    ensures
        syllable_count(w) == vowel_groups(w).len(),
{
    reveal_strlit("ses");
    reveal_strlit("ces");
    reveal_strlit("tumblr");
    reveal_strlit("cringe");
    reveal_strlit("alien");
    reveal_strlit("aliens");
    if w == "tumblr"@ || w == "cringe"@ || w == "alien"@ || w == "aliens"@ {
        assert(w[w.len() - 2] != 'e' || w[w.len() - 1] != 's');
        assert(w.skip(w.len() - 3)[2] == w[w.len() - 1]);
        assert(w.skip(w.len() - 3)[1] == w[w.len() - 2]);
    }
}

/// A word ending in `ted` or `ded` sounds every one of its vowel groups: its `-ed` is a
/// syllable of its own (as in "muted" or "needed").
pub proof fn lemma_sounded_ed_kept(w: Seq<char>)
    requires
        is_suffix("ted"@, w) || is_suffix("ded"@, w),
    ensures
        syllable_count(w) == vowel_groups(w).len(),
{
    reveal_strlit("ted");
    reveal_strlit("ded");
    reveal_strlit("ses");
    reveal_strlit("ces");
    reveal_strlit("tumblr");
    reveal_strlit("cringe");
    reveal_strlit("alien");
    reveal_strlit("aliens");
    assert(w.skip(w.len() - 3)[2] == w[w.len() - 1]);
    assert(w.skip(w.len() - 3)[1] == w[w.len() - 2]);
    assert(w[w.len() - 1] == 'd');
    assert(sounded_ed(w));
}

fn is_vowel(c: char) -> (r: bool)
    ensures
        r == is_vowel_char(c),
{
    c == 'a' || c == 'e' || c == 'i' || c == 'o' || c == 'u' || c == 'y'
}

fn literal(s: &str) -> (r: Vec<char>)
    ensures
        r@ == s@,
{
    chars_of(s)
}

/// The number of syllables counted in `word`.
pub fn syllables(word: &str) -> (r: usize)
    ensures
        r == syllable_count(word@),
{
    let w = chars_of(word);
    if chars_eq(&w, &literal("tumblr")) {
        return 2;
    }
    if chars_eq(&w, &literal("cringe")) {
        return 1;
    }
    if chars_eq(&w, &literal("alien")) || chars_eq(&w, &literal("aliens")) {
        return 3;
    }
    let ends_ing = ends_with(&w, &literal("ing"));
    let mut vowels: Vec<char> = Vec::new();
    for i in 0..w.len()
        invariant
            vowels@ == vowel_groups_upto(w@, i as int),
            ends_ing == is_suffix("ing"@, w@),
    {
        let letter = w[i];
        let lower = char_to_lowercase(letter);
        let last_is_vowel = if i > 0 {
            let prev = char_to_lowercase(w[i - 1]);
            is_vowel(prev[0])
        } else {
            false
        };
        let closing_i = ends_ing && w.len() >= 3 && i == w.len() - 3;
        if lower.len() == 1 && is_vowel(lower[0]) && (!last_is_vowel || closing_i) {
            vowels.push(letter);
        }
    }
    if ends_with(&w, &literal("ses")) || ends_with(&w, &literal("ces")) {
        vowels.len()
    } else if vowels.len() > 1 && !(ends_with(&w, &literal("ted")) || ends_with(
        &w,
        &literal("ded"),
    )) {
        if ends_with(&w, &literal("es")) || ends_with(&w, &literal("ed")) || ends_with(
            &w,
            &literal("e"),
        ) {
            if vowels[vowels.len() - 1] == 'e' {
                vowels.len() - 1
            } else {
                vowels.len()
            }
        } else {
            vowels.len()
        }
    } else {
        vowels.len()
    }
}

/// Filling one line from word `p` on, counting syllables `sy` toward `target`: the
/// position after the line and the syllables it holds, or `None` when a word would
/// overshoot the target. A line stops as soon as it reaches the target, or when the
/// words run out.
pub open spec fn fill_line(sy: Seq<nat>, p: int, target: nat, acc: nat) -> Option<(int, nat)>
    decreases sy.len() - p,
{
    if p < 0 || p >= sy.len() {
        Some((p, acc))
    } else if acc + sy[p] > target {
        None
    } else if acc + sy[p] == target {
        Some((p + 1, target))
    } else {
        fill_line(sy, p + 1, target, acc + sy[p])
    }
}

/// The syllable counts of `words`.
pub open spec fn syllable_counts(words: Seq<Seq<char>>) -> Seq<nat> {
    Seq::new(words.len(), |i: int| syllable_count(words[i]))
}

/// The three lines of a haiku read from the start of `words`, if the words fill lines
/// of exactly 5, 7 and 5 syllables; words after the third line are ignored.
pub open spec fn haiku_lines(words: Seq<Seq<char>>) -> Option<Seq<Seq<char>>> {
    let sy = syllable_counts(words);
    match fill_line(sy, 0, 5, 0) {
        None => None,
        Some((p1, a1)) => match fill_line(sy, p1, 7, 0) {
            None => None,
            Some((p2, a2)) => match fill_line(sy, p2, 5, 0) {
                None => None,
                Some((p3, a3)) => if a1 + a2 + a3 == 17 {
                    Some(
                        seq![
                            join(words.subrange(0, p1), seq![' ']),
                            join(words.subrange(p1, p2), seq![' ']),
                            join(words.subrange(p2, p3), seq![' ']),
                        ],
                    )
                } else {
                    None
                },
            },
        },
    }
}

proof fn lemma_fill_bounds(sy: Seq<nat>, p: int, target: nat, acc: nat)
    requires
        0 <= p <= sy.len(),
        acc <= target,
    ensures
        fill_line(sy, p, target, acc) matches Some((q, a)) ==> p <= q <= sy.len() && a <= target,
    decreases sy.len() - p,
{
    if p < sy.len() && acc + sy[p] < target {
        lemma_fill_bounds(sy, p + 1, target, acc + sy[p]);
    }
}

/// The syllables of words `from..to`.
pub open spec fn syllables_between(sy: Seq<nat>, from: int, to: int) -> nat
    decreases to - from,
{
    if to <= from {
        0
    } else {
        syllables_between(sy, from, to - 1) + sy[to - 1]
    }
}

proof fn lemma_fill_sum(sy: Seq<nat>, p: int, target: nat, acc: nat)
    requires
        0 <= p <= sy.len(),
        acc <= target,
    ensures
        fill_line(sy, p, target, acc) matches Some((q, a)) ==> p <= q <= sy.len() && a == acc
            + syllables_between(sy, p, q),
    decreases sy.len() - p,
{
    if p < sy.len() && acc + sy[p] <= target {
        if acc + sy[p] < target {
            lemma_fill_sum(sy, p + 1, target, acc + sy[p]);
            if let Some((q, a)) = fill_line(sy, p + 1, target, acc + sy[p]) {
                lemma_sum_split(sy, p, q);
            }
        } else {
            assert(syllables_between(sy, p, p + 1) == sy[p]) by {
                assert(syllables_between(sy, p, p) == 0);
            }
        }
    }
}

proof fn lemma_sum_split(sy: Seq<nat>, p: int, q: int)
    requires
        0 <= p < q,
    ensures
        syllables_between(sy, p, q) == sy[p] + syllables_between(sy, p + 1, q),
    decreases q - p,
{
    if q > p + 1 {
        lemma_sum_split(sy, p, q - 1);
    } else {
        assert(syllables_between(sy, p, p) == 0);
        assert(syllables_between(sy, p + 1, q) == 0);
    }
}

/// A haiku found in `words` is their first words in three lines whose syllables add
/// up to exactly 5, 7 and 5, each line the words joined by single spaces.
pub proof fn lemma_haiku_is_five_seven_five(words: Seq<Seq<char>>)
    ensures
        haiku_lines(words) matches Some(lines) ==> exists|p1: int, p2: int, p3: int|
            0 <= p1 <= p2 <= p3 <= words.len() && lines == seq![
                join(words.subrange(0, p1), seq![' ']),
                join(words.subrange(p1, p2), seq![' ']),
                join(words.subrange(p2, p3), seq![' ']),
            ] && syllables_between(syllable_counts(words), 0, p1) == 5 && syllables_between(
                syllable_counts(words),
                p1,
                p2,
            ) == 7 && syllables_between(syllable_counts(words), p2, p3) == 5,
{
    let sy = syllable_counts(words);
    lemma_fill_sum(sy, 0, 5, 0);
    lemma_fill_bounds(sy, 0, 5, 0);
    if let Some((p1, a1)) = fill_line(sy, 0, 5, 0) {
        lemma_fill_sum(sy, p1, 7, 0);
        lemma_fill_bounds(sy, p1, 7, 0);
        if let Some((p2, a2)) = fill_line(sy, p1, 7, 0) {
            lemma_fill_sum(sy, p2, 5, 0);
            lemma_fill_bounds(sy, p2, 5, 0);
            if let Some((p3, a3)) = fill_line(sy, p2, 5, 0) {
                if a1 + a2 + a3 == 17 {
                    assert(a1 == 5 && a2 == 7 && a3 == 5);
                }
            }
        }
    }
}

proof fn lemma_sum_concat(sy: Seq<nat>, a: int, b: int, c: int)
    requires
        a <= b <= c,
    ensures
        syllables_between(sy, a, c) == syllables_between(sy, a, b) + syllables_between(sy, b, c),
    decreases c - b,
{
    if c > b {
        lemma_sum_concat(sy, a, b, c - 1);
    }
}

/// A line that can reach its target exactly does: it ends after the first word at
/// which the syllables reach the target.
proof fn lemma_fill_exact(sy: Seq<nat>, p: int, target: nat, acc: nat, q: int)
    requires
        0 <= p < q <= sy.len(),
        acc < target,
        acc + syllables_between(sy, p, q) == target,
    ensures
        fill_line(sy, p, target, acc) matches Some((e, a)) && a == target && p < e <= q && acc
            + syllables_between(sy, p, e) == target && forall|r: int|
            p < r < e ==> acc + #[trigger] syllables_between(sy, p, r) < target,
    decreases sy.len() - p,
{
    lemma_sum_split(sy, p, q);
    assert(syllables_between(sy, p, p + 1) == sy[p]) by {
        assert(syllables_between(sy, p, p) == 0);
    }
    if acc + sy[p] < target {
        if q == p + 1 {
            assert(syllables_between(sy, p + 1, q) == 0);
        }
        lemma_fill_exact(sy, p + 1, target, acc + sy[p], q);
        let e = fill_line(sy, p + 1, target, acc + sy[p]).unwrap().0;
        lemma_sum_split(sy, p, e);
        assert forall|r: int| p < r < e implies acc + #[trigger] syllables_between(sy, p, r)
            < target by {
            if r > p + 1 {
                lemma_sum_split(sy, p, r);
            }
        }
    }
}

/// The running syllable total of the first `j` words.
pub open spec fn running_total(sy: Seq<nat>, j: int) -> nat {
    syllables_between(sy, 0, j)
}

/// Whether the running total is exactly `k` after some word.
pub open spec fn total_reached(sy: Seq<nat>, k: nat) -> bool {
    exists|j: int| 1 <= j <= sy.len() && #[trigger] running_total(sy, j) == k
}

/// Whether word `j` is the first after which the running total is exactly `k`.
pub open spec fn first_reached_at(sy: Seq<nat>, k: nat, j: int) -> bool {
    &&& 1 <= j <= sy.len()
    &&& running_total(sy, j) == k
    &&& forall|i: int| 1 <= i < j ==> #[trigger] running_total(sy, i) != k
}

/// The first word after which the running total is exactly `k`.
pub open spec fn first_reach(sy: Seq<nat>, k: nat) -> int {
    choose|j: int| first_reached_at(sy, k, j)
}

proof fn lemma_first_reach_is(sy: Seq<nat>, k: nat, j: int)
    requires
        first_reached_at(sy, k, j),
    ensures
        first_reach(sy, k) == j,
{
    let f = first_reach(sy, k);
    assert(first_reached_at(sy, k, f));
    if f < j {
        assert(running_total(sy, f) != k);
    } else if f > j {
        assert(running_total(sy, j) != k);
    }
}

/// Haiku lines in running totals: with `S(j)` the syllables of the first `j` words,
/// `words` hold a haiku exactly when 5, 12 and 17 each occur among `S(1)`, ..., `S(n)`,
/// and its lines are then the words up to the first `j` with `S(j) == 5`, the words
/// from there up to the first with `S(j) == 12`, and from there up to the first with
/// `S(j) == 17`; any words after that are ignored.
pub proof fn lemma_haiku_running_totals(words: Seq<Seq<char>>)
    ensures
        haiku_lines(words) is Some <==> (total_reached(syllable_counts(words), 5)
            && total_reached(syllable_counts(words), 12) && total_reached(
            syllable_counts(words),
            17,
        )),
        haiku_lines(words) is Some ==> haiku_lines(words) == Some(
            seq![
                join(words.subrange(0, first_reach(syllable_counts(words), 5)), seq![' ']),
                join(
                    words.subrange(
                        first_reach(syllable_counts(words), 5),
                        first_reach(syllable_counts(words), 12),
                    ),
                    seq![' '],
                ),
                join(
                    words.subrange(
                        first_reach(syllable_counts(words), 12),
                        first_reach(syllable_counts(words), 17),
                    ),
                    seq![' '],
                ),
            ],
        ),
{
    let sy = syllable_counts(words);
    let n = sy.len() as int;
    assert(syllables_between(sy, 0, 0) == 0);
    lemma_fill_sum(sy, 0, 5, 0);
    lemma_fill_bounds(sy, 0, 5, 0);
    if total_reached(sy, 5) && total_reached(sy, 12) && total_reached(sy, 17) {
        let j5 = choose|j: int| 1 <= j <= n && #[trigger] running_total(sy, j) == 5;
        let j12 = choose|j: int| 1 <= j <= n && #[trigger] running_total(sy, j) == 12;
        let j17 = choose|j: int| 1 <= j <= n && #[trigger] running_total(sy, j) == 17;
        lemma_fill_exact(sy, 0, 5, 0, j5);
        let p1 = fill_line(sy, 0, 5, 0).unwrap().0;
        if j12 <= p1 {
            lemma_sum_concat(sy, 0, j12, p1);
        }
        lemma_sum_concat(sy, 0, p1, j12);
        lemma_fill_exact(sy, p1, 7, 0, j12);
        let p2 = fill_line(sy, p1, 7, 0).unwrap().0;
        lemma_sum_concat(sy, 0, p1, p2);
        if j17 <= p2 {
            lemma_sum_concat(sy, 0, j17, p2);
        }
        lemma_sum_concat(sy, 0, p2, j17);
        lemma_fill_exact(sy, p2, 5, 0, j17);
    }
    if let Some((p1, a1)) = fill_line(sy, 0, 5, 0) {
        lemma_fill_sum(sy, p1, 7, 0);
        lemma_fill_bounds(sy, p1, 7, 0);
        if let Some((p2, a2)) = fill_line(sy, p1, 7, 0) {
            lemma_fill_sum(sy, p2, 5, 0);
            lemma_fill_bounds(sy, p2, 5, 0);
            if let Some((p3, a3)) = fill_line(sy, p2, 5, 0) {
                if a1 + a2 + a3 == 17 {
                    lemma_sum_concat(sy, 0, p1, p2);
                    lemma_sum_concat(sy, 0, p2, p3);
                    assert(running_total(sy, p1) == 5);
                    assert(running_total(sy, p2) == 12);
                    assert(running_total(sy, p3) == 17);
                    lemma_fill_exact(sy, 0, 5, 0, p1);
                    lemma_fill_exact(sy, p1, 7, 0, p2);
                    lemma_fill_exact(sy, p2, 5, 0, p3);
                    assert forall|i: int| 1 <= i < p2 implies #[trigger] running_total(sy, i)
                        != 12 by {
                        if i <= p1 {
                            lemma_sum_concat(sy, 0, i, p1);
                        } else {
                            lemma_sum_concat(sy, 0, p1, i);
                        }
                    }
                    assert forall|i: int| 1 <= i < p3 implies #[trigger] running_total(sy, i)
                        != 17 by {
                        if i <= p2 {
                            lemma_sum_concat(sy, 0, i, p2);
                        } else {
                            lemma_sum_concat(sy, 0, p2, i);
                        }
                    }
                    lemma_first_reach_is(sy, 5, p1);
                    lemma_first_reach_is(sy, 12, p2);
                    lemma_first_reach_is(sy, 17, p3);
                }
            }
        }
    }
}

fn fill(sy: &Vec<usize>, start: usize, target: usize) -> (r: Option<(usize, usize)>)
    requires
        start <= sy.len(),
        target > 0,
    ensures
        match fill_line(Seq::new(sy@.len(), |i: int| sy@[i] as nat), start as int, target as nat, 0) {
            Some((q, a)) => r == Some((q as usize, a as usize)),
            None => r is None,
        },
{
    let ghost nsy = Seq::new(sy@.len(), |i: int| sy@[i] as nat);
    let mut p = start;
    let mut acc: usize = 0;
    while p < sy.len()
        invariant
            start <= p <= sy.len(),
            acc < target,
            nsy == Seq::new(sy@.len(), |i: int| sy@[i] as nat),
            fill_line(nsy, p as int, target as nat, acc as nat) == fill_line(
                nsy,
                start as int,
                target as nat,
                0,
            ),
        decreases sy.len() - p,
    {
        let s = sy[p];
        if s > target - acc {
            return None;
        }
        acc = acc + s;
        p = p + 1;
        if acc == target {
            return Some((p, acc));
        }
    }
    Some((p, acc))
}

/// Reads `text` as a haiku: its words must fill lines of 5, 7 and 5 syllables, in
/// order; the lines come back with their words joined by single spaces.
pub fn check_haiku(text: &str) -> (r: Option<Vec<String>>)
    ensures
        match haiku_lines(split_ws(text@)) {
            Some(lines) => r is Some && string_views(r->0@) == lines,
            None => r is None,
        },
{
    let cs = chars_of(text);
    let words = split_whitespace(&cs);
    let ghost ws = split_ws(text@);
    let mut sy: Vec<usize> = Vec::new();
    for i in 0..words.len()
        invariant
            views(words@) == ws,
            sy@.len() == i,
            forall|k: int| 0 <= k < i ==> sy@[k] as nat == syllable_count(ws[k]),
    {
        let s = string_of(&words[i]);
        assert(ws[i as int] == words@[i as int]@);
        sy.push(syllables(s.as_str()));
    }
    let ghost nsy = Seq::new(sy@.len(), |i: int| sy@[i] as nat);
    assert(nsy =~= syllable_counts(ws));
    let space = literal(" ");
    proof {
        reveal_strlit(" ");
    }
    assert(space@ == seq![' ']);
    let (p1, a1) = match fill(&sy, 0, 5) {
        Some(x) => x,
        None => return None,
    };
    proof {
        lemma_fill_bounds(nsy, 0, 5, 0);
    }
    let (p2, a2) = match fill(&sy, p1, 7) {
        Some(x) => x,
        None => return None,
    };
    proof {
        lemma_fill_bounds(nsy, p1 as int, 7, 0);
    }
    let (p3, a3) = match fill(&sy, p2, 5) {
        Some(x) => x,
        None => return None,
    };
    proof {
        lemma_fill_bounds(nsy, p2 as int, 5, 0);
    }
    if a1 + a2 + a3 == 17 {
        let mut lines: Vec<String> = Vec::new();
        lines.push(join_range(&words, 0, p1, &space));
        lines.push(join_range(&words, p1, p2, &space));
        lines.push(join_range(&words, p2, p3, &space));
        assert(string_views(lines@) =~= haiku_lines(ws)->0);
        Some(lines)
    } else {
        None
    }
}

} // verus!
