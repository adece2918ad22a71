//! Message watchers: reactions to particular things said in chat. Each watcher reads a
//! message's text and decides whether, and with what, to answer.
use vstd::prelude::*;

use crate::text::{
    chars_eq, chars_of, is_ascii_whitespace, is_prefix, join, push_char, push_str, split_ascii_whitespace, split_ascii_ws,
    string_of, string_of_range, string_views, views,
};

pub mod haiku;

verus! {

/// A watcher of chat messages: what it looks for in a message's text.
pub trait MessageWatcher {
    /// What the watcher found.
    type FilterOutput;

    /// What the watcher finds in `content`, if anything.
    fn filter(content: &str) -> Option<Self::FilterOutput>;
}

/// ASCII letters, and the two characters that regular expressions fold into them
/// without regard to case: the long s (`ſ`) and the Kelvin sign.
pub open spec fn folds_to_letter(c: char) -> bool {
    ('a' <= c && c <= 'z') || ('A' <= c && c <= 'Z') || c == '\u{17F}' || c == '\u{212A}'
}

/// Whether `c` is `lower` or its ASCII uppercase, for a lowercase ASCII letter `lower`
/// that no other character folds into.
pub open spec fn same_letter(c: char, lower: char) -> bool {
    c == lower || (c as u32) + 32 == (lower as u32)
}

/// Whether `s` starts with `w` (lowercase letters), without regard to case.
pub open spec fn starts_with_word(s: Seq<char>, w: Seq<char>) -> bool {
    w.len() <= s.len() && forall|i: int| 0 <= i < w.len() ==> same_letter(#[trigger] s[i], w[i])
}

/// Whether `vore`, `vores` or `voring` starts at position `p` of `s`, in any case,
/// not right after a letter.
pub open spec fn vore_at(s: Seq<char>, p: int) -> bool {
    &&& 0 <= p <= s.len()
    &&& (p == 0 || !folds_to_letter(s[p - 1]))
    &&& (starts_with_word(s.skip(p), "vore"@) || starts_with_word(s.skip(p), "voring"@))
}

/// Whether `s` mentions vore: the pattern `(?i)(?:[^a-z]|^)(voring|vores|vore)`.
pub open spec fn mentions_vore(s: Seq<char>) -> bool {
    exists|p: int| vore_at(s, p)
}

/// Whether the characters of `cs` from `p` on start with `w`, without regard to case.
fn word_at(cs: &Vec<char>, p: usize, w: &Vec<char>) -> (r: bool)
    requires
        p <= cs@.len(),
        forall|i: int| 0 <= i < w@.len() ==> 'a' <= #[trigger] w@[i] && w@[i] <= 'z',
    ensures
        r == starts_with_word(cs@.skip(p as int), w@),
{
    let n = cs.len();
    if w.len() > n - p {
        return false;
    }
    for i in 0..w.len()
        invariant
            n == cs@.len(),
            w@.len() <= cs@.len() - p,
            p <= cs@.len(),
            forall|i: int| 0 <= i < w@.len() ==> 'a' <= #[trigger] w@[i] && w@[i] <= 'z',
            forall|j: int| 0 <= j < i ==> same_letter(#[trigger] cs@.skip(p as int)[j], w@[j]),
    {
        let c = cs[p + i];
        let l = w[i];
        assert(cs@.skip(p as int)[i as int] == c);
        if c != l && !((l as u32) >= 32 && (c as u32) == (l as u32) - 32) {
            return false;
        }
    }
    true
}

/// Whether `c` folds to an ASCII letter; see [`folds_to_letter`].
fn is_folded_letter(c: char) -> (r: bool)
    ensures
        r == folds_to_letter(c),
{
    ('a' <= c && c <= 'z') || ('A' <= c && c <= 'Z') || c == '\u{17F}' || c == '\u{212A}'
}

/// Watches for mentions of vore.
pub struct VoreWatcher;

impl VoreWatcher {
    /// Whether `content` mentions vore; see [`mentions_vore`].
    pub fn check(content: &str) -> (r: bool)
        ensures
            r == mentions_vore(content@),
    {
        let cs = chars_of(content);
        let mut vore: Vec<char> = Vec::new();
        vore.push('v');
        vore.push('o');
        vore.push('r');
        vore.push('e');
        let mut voring: Vec<char> = Vec::new();
        voring.push('v');
        voring.push('o');
        voring.push('r');
        voring.push('i');
        voring.push('n');
        voring.push('g');
        proof {
            reveal_strlit("vore");
            reveal_strlit("voring");
        }
        assert(vore@ =~= "vore"@);
        assert(voring@ =~= "voring"@);
        let n = cs.len();
        let mut p: usize = 0;
        while p <= n
            invariant
                n == cs@.len(),
                cs@ == content@,
                vore@ == "vore"@,
                voring@ == "voring"@,
                forall|i: int| 0 <= i < vore@.len() ==> 'a' <= #[trigger] vore@[i] && vore@[i] <= 'z',
                forall|i: int|
                    0 <= i < voring@.len() ==> 'a' <= #[trigger] voring@[i] && voring@[i] <= 'z',
                forall|q: int| 0 <= q < p ==> !vore_at(cs@, q),
            decreases n + 1 - p,
        {
            let boundary = p == 0 || !is_folded_letter(cs[p - 1]);
            if boundary && (word_at(&cs, p, &vore) || word_at(&cs, p, &voring)) {
                assert(vore_at(cs@, p as int));
                return true;
            }
            if p == n {
                assert forall|q: int| #![auto] !vore_at(cs@, q) by {
                    if 0 <= q <= n {
                    }
                }
                return false;
            }
            p = p + 1;
        }
        false
    }
}

impl MessageWatcher for VoreWatcher {
    type FilterOutput = ();

    fn filter(content: &str) -> (r: Option<()>)
        ensures
            r is Some <==> mentions_vore(content@),
    {
        if VoreWatcher::check(content) {
            Some(())
        } else {
            None
        }
    }
}

/// Watches for a message saying only `L`.
pub struct BidenLWatcher;

impl MessageWatcher for BidenLWatcher {
    type FilterOutput = ();

    fn filter(content: &str) -> (r: Option<()>)
        ensures
            r is Some <==> content@ == seq!['L'],
    {
        let cs = chars_of(content);
        if cs.len() == 1 && cs[0] == 'L' {
            assert(cs@ =~= seq!['L']);
            Some(())
        } else {
            None
        }
    }
}

/// The punctuation that does not count as part of a word when looking for `CL`.
pub open spec fn cl_punctuation(c: char) -> bool {
    c == '.' || c == ',' || c == ':' || c == ';' || c == '(' || c == ')' || c == '!' || c == '?'
        || c == '~' || c == '#' || c == '^'
}

/// `s` with that punctuation replaced by spaces.
pub open spec fn blank_punctuation(s: Seq<char>) -> Seq<char> {
    s.map_values(|c: char| if cl_punctuation(c) { ' ' } else { c })
}

/// Whether `s` has the word `CL`: after blanking punctuation, one of its ASCII
/// whitespace-separated words is `CL`.
pub open spec fn says_cl(s: Seq<char>) -> bool {
    split_ascii_ws(blank_punctuation(s)).contains(seq!['C', 'L'])
}

proof fn lemma_split_after_space(a: Seq<char>, c: char)
    requires
        is_ascii_whitespace(c),
    ensures
        split_ascii_ws(a.push(c)) == split_ascii_ws(a),
{
    assert(a.push(c).drop_last() =~= a);
}

proof fn lemma_split_word(a: Seq<char>, w: Seq<char>)
    requires
        a.len() == 0 || is_ascii_whitespace(a.last()),
        w.len() > 0,
        forall|i: int| 0 <= i < w.len() ==> !is_ascii_whitespace(#[trigger] w[i]),
    ensures
        split_ascii_ws(a + w) == split_ascii_ws(a).push(w),
    decreases w.len(),
{
    let x = a + w;
    if w.len() == 1 {
        assert(x.drop_last() =~= a);
        assert(seq![w[0]] =~= w);
        if x.len() >= 2 {
            assert(x[x.len() - 2] == a.last());
        }
    } else {
        let v = w.drop_last();
        assert(forall|i: int| 0 <= i < v.len() ==> v[i] == w[i]);
        lemma_split_word(a, v);
        assert(x.drop_last() =~= a + v);
        assert(x[x.len() - 2] == w[w.len() - 2]);
        assert(v.push(w.last()) =~= w);
    }
}

proof fn lemma_split_keeps_words(x: Seq<char>, b: Seq<char>)
    requires
        x.len() > 0,
        is_ascii_whitespace(x.last()),
    ensures
        split_ascii_ws(x + b).len() >= split_ascii_ws(x).len(),
        forall|i: int|
            0 <= i < split_ascii_ws(x).len() ==> #[trigger] split_ascii_ws(x + b)[i]
                == split_ascii_ws(x)[i],
        b.len() > 0 && !is_ascii_whitespace(b.last()) ==> split_ascii_ws(x + b).len()
            > split_ascii_ws(x).len(),
    decreases b.len(),
{
    if b.len() == 0 {
        assert(x + b =~= x);
    } else {
        let b2 = b.drop_last();
        lemma_split_keeps_words(x, b2);
        let y = x + b;
        assert(y.drop_last() =~= x + b2);
        assert(y.last() == b.last());
        if b2.len() > 0 {
            assert(y[y.len() - 2] == b2.last());
        } else {
            assert(y[y.len() - 2] == x.last());
        }
    }
}

/// The word `CL` right before any of `.` `,` `:` `;` `(` `)` `!` `?` `~` `#` `^` is
/// still the word `CL`: whatever precedes it (ending in whitespace, or nothing) and
/// whatever follows, the text says `CL`, as in "did you see CL?".
pub proof fn lemma_cl_before_punctuation(s: Seq<char>, p: char, r: Seq<char>)
    requires
        s.len() == 0 || is_ascii_whitespace(s.last()),
        p == '.' || p == ',' || p == ':' || p == ';' || p == '(' || p == ')' || p == '!' || p
            == '?' || p == '~' || p == '#' || p == '^',
    ensures
        says_cl(s + seq!['C', 'L', p] + r),
{
    let t = s + seq!['C', 'L', p] + r;
    let a = blank_punctuation(s);
    let cl = seq!['C', 'L'];
    let x = (a + cl).push(' ');
    assert(blank_punctuation(t) =~= x + blank_punctuation(r));
    if s.len() > 0 {
        assert(a.last() == s.last());
    }
    lemma_split_word(a, cl);
    lemma_split_after_space(a + cl, ' ');
    lemma_split_keeps_words(x, blank_punctuation(r));
    let n = split_ascii_ws(a).len() as int;
    assert(split_ascii_ws(x)[n] == cl);
    assert(split_ascii_ws(x + blank_punctuation(r))[n] == cl);
}

/// Watches for the word `CL`.
pub struct CLWatcher;

impl CLWatcher {
    /// Whether `content` has the word `CL`; see [`says_cl`].
    pub fn check(content: &str) -> (r: bool)
        ensures
            r == says_cl(content@),
    {
        let cs = chars_of(content);
        let mut blanked: Vec<char> = Vec::new();
        for i in 0..cs.len()
            invariant
                blanked@ == blank_punctuation(cs@).take(i as int),
                cs@ == content@,
        {
            let c = cs[i];
            let d = if c == '.' || c == ',' || c == ':' || c == ';' || c == '(' || c == ')' || c
                == '!' || c == '?' || c == '~' || c == '#' || c == '^' {
                ' '
            } else {
                c
            };
            blanked.push(d);
            assert(blank_punctuation(cs@).take(i + 1) =~= blank_punctuation(cs@).take(i as int).push(
                d,
            ));
        }
        assert(blanked@ =~= blank_punctuation(cs@));
        let words = split_ascii_whitespace(&blanked);
        let mut cl: Vec<char> = Vec::new();
        cl.push('C');
        cl.push('L');
        for i in 0..words.len()
            invariant
                views(words@) == split_ascii_ws(blank_punctuation(content@)),
                cl@ == seq!['C', 'L'],
                forall|k: int| 0 <= k < i ==> words@[k]@ != seq!['C', 'L'],
        {
            if chars_eq(&words[i], &cl) {
                assert(views(words@)[i as int] == seq!['C', 'L']);
                return true;
            }
        }
        assert forall|k: int| 0 <= k < views(words@).len() implies views(words@)[k] != seq![
            'C',
            'L',
        ] by {
            assert(views(words@)[k] == words@[k]@);
        }
        false
    }

    /// The answer to `content`: the copypasta, or, when the message itself starts with
    /// `Look CL` or `look CL`, the copypasta without its leading `Look CL, `.
    pub fn reply(content: &str, copypasta: &str) -> (r: String)
        ensures
            r@ == if is_prefix("Look CL"@, content@) || is_prefix("look CL"@, content@) {
                trim_start_matches(copypasta@, "Look CL, "@)
            } else {
                copypasta@
            },
    {
        let cs = chars_of(content);
        let a = chars_of("Look CL");
        let b = chars_of("look CL");
        let p = chars_of(copypasta);
        if crate::text::starts_with(&cs, &a) || crate::text::starts_with(&cs, &b) {
            let pre = chars_of("Look CL, ");
            trim_prefixes(&p, &pre)
        } else {
            string_of(&p)
        }
    }
}

impl MessageWatcher for CLWatcher {
    type FilterOutput = ();

    fn filter(content: &str) -> (r: Option<()>)
        ensures
            r is Some <==> says_cl(content@),
    {
        if CLWatcher::check(content) {
            Some(())
        } else {
            None
        }
    }
}

/// `s` with every leading copy of `p` removed, as `str::trim_start_matches` does.
pub open spec fn trim_start_matches(s: Seq<char>, p: Seq<char>) -> Seq<char>
    decreases s.len(),
{
    if p.len() > 0 && is_prefix(p, s) {
        trim_start_matches(s.skip(p.len() as int), p)
    } else {
        s
    }
}

/// Removes every leading copy of `p` from `s`; see [`trim_start_matches`].
fn trim_prefixes(s: &Vec<char>, p: &Vec<char>) -> (r: String)
    ensures
        r@ == trim_start_matches(s@, p@),
{
    let n = s.len();
    let m = p.len();
    let mut k: usize = 0;
    assert(s@.skip(0) =~= s@);
    while m > 0 && m <= n - k && prefix_at(s, k, p)
        invariant
            k <= n == s@.len(),
            m == p@.len(),
            trim_start_matches(s@, p@) == trim_start_matches(s@.skip(k as int), p@),
        decreases n - k,
    {
        assert(s@.skip(k as int).skip(m as int) =~= s@.skip(k + m));
        k = k + m;
    }
    proof {
        if m > 0 && is_prefix(p@, s@.skip(k as int)) {
            assert(k + m <= n);
        }
    }
    let r = string_of_range(s, k, n);
    assert(r@ =~= s@.skip(k as int));
    r
}

/// Whether `p` occurs in `s` at `k`.
fn prefix_at(s: &Vec<char>, k: usize, p: &Vec<char>) -> (r: bool)
    requires
        k + p@.len() <= s@.len(),
    ensures
        r == is_prefix(p@, s@.skip(k as int)),
{
    let m = p.len();
    let n = s.len();
    for i in 0..m
        invariant
            m == p@.len(),
            n == s@.len(),
            k + p@.len() <= s@.len(),
            forall|j: int| 0 <= j < i ==> s@[k + j] == p@[j],
    {
        if s[k + i] != p[i] {
            assert(s@.skip(k as int)[i as int] != p@[i as int]);
            return false;
        }
    }
    assert(s@.skip(k as int).take(p@.len() as int) =~= p@);
    true
}

/// Watches for messages that read as haiku.
pub struct HaikuWatcher;

impl HaikuWatcher {
    /// The answer to a haiku: each line quoted in italics, between a greeting and a
    /// disclaimer.
    pub fn reply(lines: &Vec<String>) -> (r: String)
        ensures
            r@ == "beep boop! i found a haiku:\n"@ + join(
                Seq::new(lines@.len(), |i: int| "> *"@ + lines@[i]@ + "*"@),
                seq!['\n'],
            ) + "\nsometimes i make mistakes"@,
    {
        let ghost quoted = Seq::new(lines@.len(), |i: int| "> *"@ + lines@[i]@ + "*"@);
        let mut s = String::new();
        push_str(&mut s, "beep boop! i found a haiku:\n");
        let ghost head = s@;
        for i in 0..lines.len()
            invariant
                quoted == Seq::new(lines@.len(), |i: int| "> *"@ + lines@[i]@ + "*"@),
                s@ == head + join(quoted.take(i as int), seq!['\n']),
        {
            assert(quoted.take(i + 1).drop_last() =~= quoted.take(i as int));
            if i > 0 {
                push_char(&mut s, '\n');
            } else {
                assert(quoted.take(0) =~= Seq::<Seq<char>>::empty());
            }
            let ghost before = s@;
            push_str(&mut s, "> *");
            push_str(&mut s, lines[i].as_str());
            push_str(&mut s, "*");
            assert(s@ =~= before + quoted[i as int]);
        }
        assert(quoted.take(lines@.len() as int) =~= quoted);
        push_str(&mut s, "\nsometimes i make mistakes");
        s
    }
}

impl MessageWatcher for HaikuWatcher {
    type FilterOutput = Vec<String>;

    fn filter(content: &str) -> (r: Option<Vec<String>>)
        ensures
            match haiku::haiku_lines(crate::text::split_ws(content@)) {
                Some(lines) => r is Some && string_views(r->0@) == lines,
                None => r is None,
            },
    {
        haiku::check_haiku(content)
    }
}

/// The answer to a mention of vore, given how long it has been since the last one.
pub fn vore_reply(since_last: &str) -> (r: String)
    ensures
        r@ == "~~"@ + since_last@ + "~~ 0 days without mentioning vore"@,
{
    let mut s = String::new();
    push_str(&mut s, "~~");
    push_str(&mut s, since_last);
    push_str(&mut s, "~~ 0 days without mentioning vore");
    s
}

} // verus!
