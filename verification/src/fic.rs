//! Watching a fic on AO3 for new chapters: reading chapter ids from links, deciding
//! when a new chapter is out, and announcing it.
use vstd::prelude::*;

use crate::ids::RoleId;
use crate::natural::{digit_value, is_digit};
use crate::text::{chars_of, decimal, is_prefix, push_str, push_u64};

verus! {

/// The value of the ASCII digits `d`.
pub open spec fn digits_value(d: Seq<char>) -> int
    decreases d.len(),
{
    if d.len() == 0 {
        0
    } else {
        digits_value(d.drop_last()) * 10 + digit_value(d.last())
    }
}

/// The digits of an unsigned number's text: all of it but a leading `+`.
pub open spec fn unsigned_digits(s: Seq<char>) -> Seq<char> {
    if s.len() > 0 && s[0] == '+' {
        s.skip(1)
    } else {
        s
    }
}

/// Whether every character of `d` is an ASCII digit.
pub open spec fn all_digits(d: Seq<char>) -> bool {
    forall|i: int| 0 <= i < d.len() ==> is_digit(#[trigger] d[i])
}

/// What `str::parse::<usize>` gives for `s`: an optional `+`, then one or more ASCII
/// digits whose value fits.
pub open spec fn parse_usize(s: Seq<char>) -> Option<int> {
    let d = unsigned_digits(s);
    if d.len() > 0 && all_digits(d) && digits_value(d) <= usize::MAX {
        Some(digits_value(d))
    } else {
        None
    }
}

proof fn lemma_digits_grow(d: Seq<char>)
    requires
        forall|i: int| 0 <= i < d.len() ==> is_digit(#[trigger] d[i]),
    ensures
        digits_value(d) >= 0,
        d.len() > 0 ==> digits_value(d) >= digits_value(d.drop_last()),
    decreases d.len(),
{
    if d.len() > 0 {
        lemma_digits_grow(d.drop_last());
    }
}

/// Reads `s` as a `usize`; see [`parse_usize`].
pub fn parse_usize_chars(s: &Vec<char>) -> (r: Option<usize>)
    ensures
        match parse_usize(s@) {
            Some(v) => r == Some(v as usize),
            None => r is None,
        },
{
    let n = s.len();
    let start: usize = if n > 0 && s[0] == '+' {
        1
    } else {
        0
    };
    let ghost d = unsigned_digits(s@);
    assert(d =~= s@.skip(start as int));
    if start == n {
        return None;
    }
    let mut v: usize = 0;
    let mut i: usize = start;
    let mut fits = true;
    while i < n
        invariant
            start <= i <= n == s@.len(),
            d == s@.skip(start as int),
            d == unsigned_digits(s@),
            forall|k: int| start <= k < i ==> is_digit(#[trigger] s@[k]),
            fits ==> v as int == digits_value(s@.subrange(start as int, i as int)),
            !fits ==> digits_value(s@.subrange(start as int, i as int)) > usize::MAX,
        decreases n - i,
    {
        let c = s[i];
        if !('0' <= c && c <= '9') {
            assert(!is_digit(d[i - start]));
            return None;
        }
        let ghost pre = s@.subrange(start as int, i as int);
        let ghost next = s@.subrange(start as int, i + 1);
        assert(next.drop_last() =~= pre);
        assert(forall|k: int| 0 <= k < pre.len() ==> is_digit(#[trigger] pre[k]));
        proof {
            lemma_digits_grow(pre);
        }
        let dv: usize = ((c as u32) - 48) as usize;
        if fits {
            match v.checked_mul(10) {
                Some(t) => match t.checked_add(dv) {
                    Some(u) => {
                        v = u;
                    },
                    None => {
                        fits = false;
                    },
                },
                None => {
                    fits = false;
                },
            }
        }
        i = i + 1;
    }
    assert(s@.subrange(start as int, n as int) =~= d);
    if fits {
        Some(v)
    } else {
        None
    }
}

/// Where `p` first occurs in `s`, if it does.
pub open spec fn first_occurrence(s: Seq<char>, p: Seq<char>) -> Option<int> {
    if exists|i: int|
        0 <= i && i + p.len() <= s.len() && is_prefix(p, s.skip(i)) && forall|j: int|
            0 <= j < i ==> !is_prefix(p, s.skip(j)) {
        Some(choose|i: int|
            0 <= i && i + p.len() <= s.len() && is_prefix(p, s.skip(i)) && forall|j: int|
                0 <= j < i ==> !is_prefix(p, s.skip(j)))
    } else {
        None
    }
}

/// What `s.split(p).nth(1)` gives: the text between the first and second `p`, or after
/// the first when there is no second.
pub open spec fn second_piece(s: Seq<char>, p: Seq<char>) -> Option<Seq<char>> {
    match first_occurrence(s, p) {
        None => None,
        Some(i) => {
            let rest = s.skip(i + p.len());
            match first_occurrence(rest, p) {
                Some(j) => Some(rest.take(j)),
                None => Some(rest),
            }
        },
    }
}

/// Whether `p` occurs in `s` at `k`.
fn occurs_at(s: &Vec<char>, k: usize, p: &Vec<char>) -> (r: bool)
    requires
        k + p@.len() <= s@.len(),
    ensures
        r == is_prefix(p@, s@.skip(k as int)),
{
    let m = p.len();
    let n = s.len();
    for i in 0..m
        invariant
            m == p@.len(),
            n == s@.len(),
            k + p@.len() <= s@.len(),
            forall|j: int| 0 <= j < i ==> s@[k + j] == p@[j],
    {
        if s[k + i] != p[i] {
            assert(s@.skip(k as int)[i as int] != p@[i as int]);
            return false;
        }
    }
    assert(s@.skip(k as int).take(p@.len() as int) =~= p@);
    true
}

/// Where the non-empty `p` first occurs in `s` at or after `from`, if it does.
fn find_from(s: &Vec<char>, p: &Vec<char>, from: usize) -> (r: Option<usize>)
    requires
        from <= s@.len(),
        p@.len() > 0,
    ensures
        match first_occurrence(s@.skip(from as int), p@) {
            Some(i) => r == Some((from + i) as usize),
            None => r is None,
        },
        r matches Some(k) ==> from <= k && k + p@.len() <= s@.len(),
{
    let n = s.len();
    let m = p.len();
    let ghost t = s@.skip(from as int);
    let mut k = from;
    while k < n && m <= n - k
        invariant
            from <= k <= n == s@.len(),
            m == p@.len() > 0,
            t == s@.skip(from as int),
            forall|j: int| 0 <= j < k - from ==> !is_prefix(p@, t.skip(j)),
        decreases n - k,
    {
        assert(t.skip(k - from) =~= s@.skip(k as int));
        if occurs_at(s, k, p) {
            assert(first_occurrence(t, p@) == Some(k - from)) by {
                let c = choose|i: int|
                    0 <= i && i + p@.len() <= t.len() && is_prefix(p@, t.skip(i)) && forall|j: int|
                        0 <= j < i ==> !is_prefix(p@, t.skip(j));
                assert(0 <= c && c + p@.len() <= t.len() && is_prefix(p@, t.skip(c)) && forall|j: int|
                    0 <= j < c ==> !is_prefix(p@, t.skip(j)));
                if c > k - from {
                    assert(!is_prefix(p@, t.skip(k - from)));
                }
            }
            return Some(k);
        }
        k = k + 1;
    }
    assert forall|i: int| 0 <= i && i + p@.len() <= t.len() implies !is_prefix(p@, t.skip(i)) by {
        assert(i < k - from);
    }
    None
}

#[verifier::rlimit(40)]
/// The id of the chapter a link points to: the number after `/chapters/`, if there is
/// one.
pub fn chapter_id_from_href(href: &str) -> (r: Option<usize>)
    ensures
        match second_piece(href@, "/chapters/"@) {
            Some(piece) => match parse_usize(piece) {
                Some(v) => r == Some(v as usize),
                None => r is None,
            },
            None => r is None,
        },
{
    let s = chars_of(href);
    let p = chars_of("/chapters/");
    proof {
        reveal_strlit("/chapters/");
    }
    let n = s.len();
    let m = p.len();
    assert(m == 10);
    assert(s@.skip(0) =~= s@);
    match find_from(&s, &p, 0) {
        None => None,
        Some(i) => {
            let start = i + m;
            let ghost rest = s@.skip(start as int);
            let piece = match find_from(&s, &p, start) {
                Some(j) => {
                    assert(first_occurrence(rest, p@) is Some);
                    let ghost k = first_occurrence(rest, p@)->0;
                    assert(0 <= k && k + p@.len() <= rest.len());
                    assert(j == start + k);
                    let piece = crate::text::string_of_range(&s, start, j);
                    assert(piece@ =~= rest.take(k));
                    piece
                },
                None => {
                    let piece = crate::text::string_of_range(&s, start, n);
                    assert(piece@ =~= rest);
                    piece
                },
            };
            let pc = chars_of(piece.as_str());
            parse_usize_chars(&pc)
        },
    }
}

/// Whether a new chapter is out: more chapters than were stored; an error when fewer
/// (the stored count is wrong).
pub fn has_updated(stored: usize, current: usize) -> (r: Result<bool, String>)
    ensures
        stored < current ==> r == Ok::<bool, String>(true),
        stored == current ==> r == Ok::<bool, String>(false),
        stored > current ==> (r matches Err(e) && e@ == "chapter count not stored properly"@),
{
    if stored < current {
        Ok(true)
    } else if stored == current {
        Ok(false)
    } else {
        let mut e = String::new();
        push_str(&mut e, "chapter count not stored properly");
        Err(e)
    }
}

/// The page listing a work's chapters.
pub fn navigate_url(work_id: usize) -> (r: String)
    ensures
        r@ == "https://archiveofourown.org/works/"@ + decimal(work_id as nat) + "/navigate"@,
{
    let mut s = String::new();
    push_str(&mut s, "https://archiveofourown.org/works/");
    push_u64(&mut s, work_id as u64);
    push_str(&mut s, "/navigate");
    s
}

/// The announcement of a new chapter: the role pinged, the chapter's number and its
/// link.
pub fn update_announcement(role: RoleId, count: usize, work_id: usize, last_chapter: usize) -> (r:
    String)
    ensures
        r@ == "<@&"@ + decimal(role.0 as nat) + "> **Intertwined has updated!**\n                    chapter "@
            + decimal(count as nat) + ": https://archiveofourown.org/works/"@ + decimal(
            work_id as nat,
        ) + "/chapters/"@ + decimal(last_chapter as nat),
{
    let mut s = String::new();
    push_str(&mut s, "<@&");
    push_u64(&mut s, role.0);
    push_str(&mut s, "> **Intertwined has updated!**\n                    chapter ");
    push_u64(&mut s, count as u64);
    push_str(&mut s, ": https://archiveofourown.org/works/");
    push_u64(&mut s, work_id as u64);
    push_str(&mut s, "/chapters/");
    push_u64(&mut s, last_chapter as u64);
    s
}

} // verus!
