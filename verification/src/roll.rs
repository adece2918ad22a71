//! Dice: parsing roll expressions such as `2d20+4` and rolling them.
use vstd::prelude::*;

use rand::rngs::StdRng;
use rand::seq::IteratorRandom;
use rand::{Rng, SeedableRng};

use crate::natural::{
    NaturalI8Constants, digit_value, is_digit, parse_i8, parse_i8_chars, parse_natural, scan_i8,
    NaturalI8, NaturalI8Error,
};
use crate::text::{chars_of, is_whitespace, char_is_whitespace};

verus! {

#[verifier::external_type_specification]
#[verifier::external_body]
pub struct ExStdRng(StdRng);

/// `rand::random::<[u8; 32]>()`: a random seed. Nothing is claimed of its value.
#[verifier::external_body]
pub(crate) fn random_seed() -> [u8; 32] {
    rand::random()
}

/// `StdRng::from_seed`: a generator seeded with `seed`. Nothing is claimed of it.
#[verifier::external_body]
pub(crate) fn rng_from_seed(seed: [u8; 32]) -> StdRng {
    StdRng::from_seed(seed)
}

/// `<StdRng as Clone>::clone`: a copy of the generator's state. Nothing is claimed of it.
#[verifier::external_body]
fn clone_rng(rng: &StdRng) -> StdRng {
    rng.clone()
}

/// `rand::Rng::gen::<bool>`: a fair coin. Nothing is claimed of the value.
#[verifier::external_body]
pub(crate) fn random_bool(rng: &mut StdRng) -> bool {
    rng.gen()
}

/// `IteratorRandom::choose` on `low..=high`: one value picked at random. Claimed: the
/// result lies in `low..=high` (the range is not empty, so `choose` gives `Some`).
#[verifier::external_body]
fn choose_between(low: i8, high: i8, rng: &mut StdRng) -> (r: i8)
    requires
        low <= high,
    ensures
        low <= r <= high,
{
    (low..=high).choose(rng).unwrap()
}

/// Failure to read or build a dice roll.
#[derive(Debug, PartialEq)]
pub enum DiceRollError {
    InvalidNumber(NaturalI8Error),
    NoFaces,
    InvalidExtra(String),
    InvalidExtraSign(String),
    NoMatch(String),
}

/// One die with some number of faces.
#[derive(Clone, Copy, Debug, PartialEq, Eq, Structural)]
pub struct Die {
    pub faces: NaturalI8,
}

impl Die {
    fn new(faces: NaturalI8) -> (r: Die)
        ensures
            r.faces == faces,
    {
        Die { faces }
    }

    /// Rolls the die with a freshly seeded generator.
    pub fn roll(&self) -> (r: NaturalI8)
        ensures
            1 <= r@ <= self.faces@,
    {
        let mut rng = rng_from_seed(random_seed());
        self.roll_with(&mut rng)
    }

    fn roll_with(&self, rng: &mut StdRng) -> (r: NaturalI8)
        ensures
            1 <= r@ <= self.faces@,
    {
        let v = choose_between(1, self.faces.get(), rng);
        match NaturalI8::new(v) {
            Ok(n) => n,
            Err(_) => NaturalI8::min(),
        }
    }

    /// The die named d20, built from the constant named twenty.
    pub fn d20() -> (r: Die)
        ensures
            r.faces@ == 1,
    {
        Die::new(NaturalI8::twenty())
    }

    /// The lowest face, one.
    pub fn min(&self) -> (r: NaturalI8)
        ensures
            r@ == 1,
    {
        NaturalI8::min()
    }

    /// The highest face.
    pub fn max(&self) -> (r: NaturalI8)
        ensures
            r == self.faces,
    {
        self.faces
    }
}

/// The sum of `s`.
pub open spec fn sum(s: Seq<int>) -> int
    decreases s.len(),
{
    if s.len() == 0 {
        0
    } else {
        sum(s.drop_last()) + s.last()
    }
}

proof fn lemma_sum_bounds(s: Seq<int>, lo: int, hi: int)
    requires
        forall|i: int| 0 <= i < s.len() ==> lo <= #[trigger] s[i] <= hi,
    ensures
        s.len() * lo <= sum(s) <= s.len() * hi,
    decreases s.len(),
{
    if s.len() > 0 {
        lemma_sum_bounds(s.drop_last(), lo, hi);
        assert(s.last() == s[s.len() - 1]);
        assert((s.len() - 1) * lo + lo == s.len() * lo) by (nonlinear_arith);
        assert((s.len() - 1) * hi + hi == s.len() * hi) by (nonlinear_arith);
    }
}

/// A roll not yet gone through totals between its minimum and its maximum: its total
/// (bounded as [`DiceRoll::total`] says) lies between [`DiceRoll::min`] and
/// [`DiceRoll::max`].
pub proof fn lemma_fresh_roll_range(d: DiceRoll, total: int)
    requires
        d.dice_view().index_view() == 0,
        d.dice_view().remaining_faces().len() + d.extra_view() <= total <= sum(
            d.dice_view().remaining_faces(),
        ) + d.extra_view(),
    ensures
        d.dice_view().faces_view().len() + d.extra_view() <= total <= sum(
            d.dice_view().remaining_faces(),
        ) + d.extra_view(),
{
    assert(d.dice_view().faces_view().skip(0) =~= d.dice_view().faces_view());
}

/// A handful of dice, with a position for going through them one at a time.
#[derive(Debug)]
pub struct Dice {
    vec: Vec<Die>,
    index: usize,
}

/// No dice.
impl Default for Dice {
    fn default() -> (r: Dice)
        ensures
            r.faces_view() == Seq::<int>::empty(),
            r.index_view() == 0,
    {
        let r = Dice { vec: Vec::new(), index: 0 };
        assert(r.faces_view() =~= Seq::<int>::empty());
        r
    }
}

impl Dice {
    #[verifier::type_invariant]
    closed spec fn inv(self) -> bool {
        &&& self.vec@.len() <= 127
        &&& forall|k: int| 0 <= k < self.vec@.len() ==> 1 <= #[trigger] self.vec@[k].faces@ <= 127
    }

    /// The faces of every die.
    pub closed spec fn faces_view(&self) -> Seq<int> {
        Seq::new(self.vec@.len(), |i: int| self.vec@[i].faces@)
    }

    /// The position of the next die to go through.
    pub closed spec fn index_view(&self) -> int {
        self.index as int
    }

    /// The faces of the dice not yet gone through.
    pub open spec fn remaining_faces(&self) -> Seq<int> {
        if self.index_view() <= self.faces_view().len() {
            self.faces_view().skip(self.index_view())
        } else {
            seq![]
        }
    }

    /// `count` dice with `faces` faces each.
    pub fn new(count: NaturalI8, faces: NaturalI8) -> (r: Dice)
        ensures
            r.faces_view() == Seq::new(count@ as nat, |i: int| faces@),
            r.index_view() == 0,
    {
        let n = count.to_usize();
        let cv = count.get();
        let fv = faces.get();
        let mut vec: Vec<Die> = Vec::new();
        for i in 0..n
            invariant
                n <= 127,
                vec@.len() == i,
                forall|k: int| 0 <= k < i ==> #[trigger] vec@[k].faces == faces,
                1 <= faces@ <= 127,
        {
            vec.push(Die::new(faces));
        }
        let r = Dice { vec, index: 0 };
        assert(r.faces_view() =~= Seq::new(count@ as nat, |i: int| faces@));
        r
    }

    /// The next die, moving past it.
    pub fn next(&mut self) -> (r: Option<Die>)
        requires
            old(self).index_view() < usize::MAX,
        ensures
            final(self).faces_view() == old(self).faces_view(),
            final(self).index_view() == old(self).index_view() + 1,
            old(self).index_view() < old(self).faces_view().len() ==> (r matches Some(d) && d.faces@
                == old(self).faces_view()[old(self).index_view()]),
            old(self).index_view() >= old(self).faces_view().len() ==> r is None,
    {
        proof {
            use_type_invariant(&*self);
        }
        let item = if self.index < self.vec.len() {
            Some(self.vec[self.index])
        } else {
            None
        };
        self.index = self.index + 1;
        item
    }

    /// The number of dice, which must be at least one.
    pub fn len(&self) -> (r: NaturalI8)
        requires
            self.faces_view().len() >= 1,
        ensures
            r@ == self.faces_view().len(),
    {
        proof {
            use_type_invariant(self);
        }
        match NaturalI8::try_from_usize(self.vec.len()) {
            Ok(n) => n,
            Err(_) => NaturalI8::min(),
        }
    }

    /// The lowest total the dice can roll: one per die.
    pub fn lowest_roll(&self) -> (r: NaturalI8)
        requires
            self.faces_view().len() >= 1,
        ensures
            r@ == self.faces_view().len(),
    {
        self.len()
    }

    /// The highest total the dice not yet gone through can roll.
    pub fn highest_roll(&self) -> (r: i16)
        ensures
            r == sum(self.remaining_faces()),
    {
        proof {
            use_type_invariant(self);
        }
        let mut total: i16 = 0;
        let mut k = self.index;
        let ghost fs = self.faces_view();
        if k > self.vec.len() {
            assert(self.remaining_faces() =~= Seq::<int>::empty());
            return 0;
        }
        let ghost start = k as int;
        while k < self.vec.len()
            invariant
                start <= k <= self.vec.len() <= 127,
                fs == self.faces_view(),
                start == self.index_view(),
                total == sum(fs.subrange(start, k as int)),
                0 <= total <= 127 * (k - start),
                forall|j: int| 0 <= j < self.vec@.len() ==> 1 <= #[trigger] self.vec@[j].faces@ <= 127,
            decreases self.vec.len() - k,
        {
            let f = self.vec[k].faces.to_i16();
            assert(fs.subrange(start, k + 1).drop_last() =~= fs.subrange(start, k as int));
            assert(fs[k as int] == f);
            assert(127 * (k - start) + 127 == 127 * (k + 1 - start)) by (nonlinear_arith);
            total = total + f;
            k = k + 1;
        }
        assert(fs.subrange(start, k as int) =~= self.remaining_faces());
        total
    }
}

/// A parsed dice roll: dice, a flat bonus, and the generator its rolls come from.
#[derive(Debug)]
pub struct DiceRoll {
    pub dice: Dice,
    pub extra: i8,
    rng: StdRng,
}

impl DiceRoll {
    /// The dice.
    pub closed spec fn dice_view(&self) -> Dice {
        self.dice
    }

    /// The flat bonus.
    pub closed spec fn extra_view(&self) -> i8 {
        self.extra
    }

    /// `count` dice of `faces` faces plus `extra`; the faces are checked first.
    pub fn new(count: i8, faces: i8, extra: i8) -> (r: Result<DiceRoll, DiceRollError>)
        ensures
            faces < 1 ==> r == Err::<DiceRoll, DiceRollError>(DiceRollError::InvalidNumber(
                NaturalI8::spec_new(faces)->Err_0,
            )),
            faces >= 1 && count < 1 ==> r == Err::<DiceRoll, DiceRollError>(
                DiceRollError::InvalidNumber(NaturalI8::spec_new(count)->Err_0),
            ),
            faces >= 1 && count >= 1 ==> (r matches Ok(d) && d.dice_view().faces_view() == Seq::new(
                count as nat,
                |i: int| faces as int,
            ) && d.dice_view().index_view() == 0 && d.extra_view() == extra),
    {
        let faces = match NaturalI8::new(faces) {
            Ok(f) => f,
            Err(e) => return Err(DiceRollError::InvalidNumber(e)),
        };
        let count = match NaturalI8::new(count) {
            Ok(c) => c,
            Err(e) => return Err(DiceRollError::InvalidNumber(e)),
        };
        let dice = Dice::new(count, faces);
        let rng = rng_from_seed(random_seed());
        Ok(DiceRoll { dice, extra, rng })
    }

    /// Rolls each die not yet gone through, from a copy of this roll's generator.
    pub fn rolls(&self) -> (r: Vec<NaturalI8>)
        ensures
            r@.len() == self.dice_view().remaining_faces().len(),
            forall|i: int|
                0 <= i < r@.len() ==> 1 <= #[trigger] r@[i]@ <= self.dice_view().remaining_faces()[i],
    {
        let mut rng = clone_rng(&self.rng);
        let mut dice = Dice { vec: Vec::new(), index: 0 };
        proof {
            use_type_invariant(&self.dice);
        }
        let mut out: Vec<NaturalI8> = Vec::new();
        let len = self.dice.vec.len();
        if self.dice.index > len {
            assert(self.dice_view().remaining_faces() =~= Seq::<int>::empty());
            return out;
        }
        let mut k = self.dice.index;
        let ghost fs = self.dice_view().faces_view();
        let ghost start = k as int;
        while k < len
            invariant
                start <= k <= len == self.dice.vec@.len(),
                fs == self.dice_view().faces_view(),
                start == self.dice_view().index_view(),
                out@.len() == k - start,
                forall|i: int| 0 <= i < out@.len() ==> 1 <= #[trigger] out@[i]@ <= fs[start + i],
            decreases len - k,
        {
            let die = self.dice.vec[k];
            let rolled = die.roll_with(&mut rng);
            out.push(rolled);
            k = k + 1;
        }
        assert forall|i: int| 0 <= i < out@.len() implies 1 <= #[trigger] out@[i]@
            <= self.dice_view().remaining_faces()[i] by {
            assert(self.dice_view().remaining_faces()[i] == fs[start + i]);
        }
        out
    }

    /// The rolled dice plus the bonus.
    pub fn total(&self) -> (r: i16)
        ensures
            self.dice_view().remaining_faces().len() + self.extra_view() <= r <= sum(
                self.dice_view().remaining_faces(),
            ) + self.extra_view(),
    {
        let rolls = self.rolls();
        let ghost fs = self.dice_view().remaining_faces();
        proof {
            use_type_invariant(&self.dice);
        }
        if self.dice.index > self.dice.vec.len() {
            assert(fs =~= Seq::<int>::empty());
            return self.extra as i16;
        }
        let mut s: i16 = 0;
        for i in 0..rolls.len()
            invariant
                rolls@.len() == fs.len() <= 127,
                fs == self.dice_view().remaining_faces(),
                forall|j: int| 0 <= j < rolls@.len() ==> 1 <= #[trigger] rolls@[j]@ <= fs[j],
                i <= s <= sum(fs.take(i as int)),
                s <= 127 * i,
                self.dice.index <= self.dice.vec@.len(),
                forall|j: int|
                    0 <= j < self.dice.vec@.len() ==> 1 <= #[trigger] self.dice.vec@[j].faces@ <= 127,
        {
            let v = rolls[i].to_i16();
            assert(fs[i as int] <= 127) by {
                assert(fs[i as int] == self.dice.faces_view()[self.dice.index_view() + i]);
            }
            assert(fs.take(i + 1).drop_last() =~= fs.take(i as int));
            assert(fs.take(i + 1).last() == fs[i as int]);
            assert(127 * i + 127 == 127 * (i + 1)) by (nonlinear_arith);
            s = s + v;
        }
        assert(fs.take(rolls.len() as int) =~= fs);
        s + self.extra as i16
    }

    /// The lowest possible total: one per die, plus the bonus.
    pub fn min(&self) -> (r: i16)
        requires
            self.dice_view().faces_view().len() >= 1,
        ensures
            r == self.dice_view().faces_view().len() + self.extra_view(),
    {
        proof {
            use_type_invariant(&self.dice);
        }
        self.dice.lowest_roll().to_i16() + self.extra as i16
    }

    /// The highest possible total: every die on its top face, plus the bonus.
    pub fn max(&self) -> (r: i16)
        ensures
            r == sum(self.dice_view().remaining_faces()) + self.extra_view(),
    {
        proof {
            use_type_invariant(&self.dice);
        }
        let highest = self.dice.highest_roll();
        proof {
            let fs = self.dice_view().remaining_faces();
            assert forall|i: int| 0 <= i < fs.len() implies 1 <= #[trigger] fs[i] <= 127 by {
                assert(fs[i] == self.dice_view().faces_view()[self.dice_view().index_view() + i]);
            }
            lemma_sum_bounds(fs, 1, 127);
        }
        highest + self.extra as i16
    }
}

/// Where the run of characters satisfying `class` that starts at `p` ends.
pub open spec fn run_end(t: Seq<char>, p: int, digits: bool) -> int
    decreases t.len() - p,
{
    if 0 <= p < t.len() && (if digits {
        is_digit(t[p])
    } else {
        is_whitespace(t[p])
    }) {
        run_end(t, p + 1, digits)
    } else {
        p
    }
}

/// Whether a roll expression — digits, `d`, at least one digit — starts at `p`.
pub open spec fn roll_starts_at(t: Seq<char>, p: int) -> bool {
    let j = run_end(t, p, true);
    j < t.len() && t[j] == 'd' && j + 1 < t.len() && is_digit(t[j + 1])
}

/// The first position at or after `p` where a roll expression starts.
pub open spec fn first_roll(t: Seq<char>, p: int) -> Option<int>
    decreases t.len() + 1 - p,
{
    if p < 0 || p > t.len() {
        None
    } else if roll_starts_at(t, p) {
        Some(p)
    } else {
        first_roll(t, p + 1)
    }
}

/// How reading a roll expression fails.
pub enum RollParseFailure {
    InvalidNumber(NaturalI8Error),
    NoMatch,
}

/// What `DiceRoll::parse` reads from `t`, as (count, faces, bonus). The first place
/// matching `([0-9]*)d([0-9]+)\s*(?:(\+|-)\s*([0-9]+))?` is read: a count that does not
/// read as a natural counts as one; faces that do not read as a natural are refused; a
/// bonus that does not fit an `i8` counts as zero, and its sign applies when present.
pub open spec fn parse_roll(t: Seq<char>) -> Result<(int, int, int), RollParseFailure> {
    match first_roll(t, 0) {
        None => Err(RollParseFailure::NoMatch),
        Some(p) => {
            let j = run_end(t, p, true);
            let k = run_end(t, j + 1, true);
            let count = match parse_natural(t.subrange(p, j)) {
                Ok(c) => c,
                Err(_) => 1,
            };
            match parse_natural(t.subrange(j + 1, k)) {
                Err(e) => Err(RollParseFailure::InvalidNumber(e)),
                Ok(faces) => {
                    let m = run_end(t, k, false);
                    let extra = if m < t.len() && (t[m] == '+' || t[m] == '-') {
                        let m2 = run_end(t, m + 1, false);
                        let e = run_end(t, m2, true);
                        if e > m2 {
                            let v = match parse_i8(t.subrange(m2, e)) {
                                Ok(v) => v,
                                Err(_) => 0,
                            };
                            if t[m] == '+' {
                                v
                            } else {
                                -v
                            }
                        } else {
                            0
                        }
                    } else {
                        0
                    };
                    Ok((count, faces, extra))
                },
            }
        },
    }
}

proof fn lemma_run_end_bounds(t: Seq<char>, p: int, digits: bool)
    requires
        0 <= p <= t.len(),
    ensures
        p <= run_end(t, p, digits) <= t.len(),
    decreases t.len() - p,
{
    if p < t.len() && (if digits {
        is_digit(t[p])
    } else {
        is_whitespace(t[p])
    }) {
        lemma_run_end_bounds(t, p + 1, digits);
    }
}

proof fn lemma_run_chars(t: Seq<char>, p: int, digits: bool)
    requires
        0 <= p <= t.len(),
    ensures
        digits ==> forall|i: int| p <= i < run_end(t, p, digits) ==> is_digit(#[trigger] t[i]),
    decreases t.len() - p,
{
    if p < t.len() && (if digits {
        is_digit(t[p])
    } else {
        is_whitespace(t[p])
    }) {
        lemma_run_chars(t, p + 1, digits);
    }
}

/// Whether every character of `d` is a decimal digit.
pub open spec fn all_digits(d: Seq<char>) -> bool {
    forall|i: int| 0 <= i < d.len() ==> is_digit(#[trigger] d[i])
}

/// The value of a run of decimal digits, read in base ten.
pub open spec fn decimal_value(d: Seq<char>) -> int
    decreases d.len(),
{
    if d.len() == 0 {
        0
    } else {
        decimal_value(d.drop_last()) * 10 + digit_value(d.last())
    }
}

proof fn lemma_decimal_value_grows(d: Seq<char>)
    requires
        all_digits(d),
    ensures
        decimal_value(d) >= 0,
        d.len() > 0 ==> decimal_value(d.drop_last()) <= decimal_value(d),
    decreases d.len(),
{
    if d.len() > 0 {
        assert(is_digit(d[d.len() - 1]));
        let e = d.drop_last();
        assert(all_digits(e)) by {
            assert forall|i: int| 0 <= i < e.len() implies is_digit(#[trigger] e[i]) by {
                assert(e[i] == d[i]);
            }
        }
        lemma_decimal_value_grows(e);
    }
}

proof fn lemma_scan_decimal(d: Seq<char>)
    requires
        all_digits(d),
        decimal_value(d) <= 127,
    ensures
        scan_i8(d, false) == Ok::<int, crate::natural::IntErrorKind>(decimal_value(d)),
    decreases d.len(),
{
    lemma_decimal_value_grows(d);
    if d.len() > 0 {
        let e = d.drop_last();
        assert(all_digits(e)) by {
            assert forall|i: int| 0 <= i < e.len() implies is_digit(#[trigger] e[i]) by {
                assert(e[i] == d[i]);
            }
        }
        lemma_scan_decimal(e);
        assert(is_digit(d[d.len() - 1]));
    }
}

proof fn lemma_parse_digits(d: Seq<char>)
    requires
        all_digits(d),
        d.len() > 0,
        decimal_value(d) <= 127,
    ensures
        parse_i8(d) == Ok::<int, crate::natural::IntErrorKind>(decimal_value(d)),
        decimal_value(d) >= 1 ==> parse_natural(d) == Ok::<int, NaturalI8Error>(decimal_value(d)),
        decimal_value(d) == 0 ==> parse_natural(d) is Err,
{
    assert(is_digit(d[0]));
    assert(d != seq!['+'] && d != seq!['-']) by {
        if d.len() == 1 {
            assert(d[0] != '+' && d[0] != '-');
        }
    }
    lemma_scan_decimal(d);
}

proof fn lemma_run_end_digits(t: Seq<char>, p: int, n: int)
    requires
        0 <= p,
        0 <= n,
        p + n <= t.len(),
        forall|i: int| p <= i < p + n ==> is_digit(#[trigger] t[i]),
        p + n == t.len() || !is_digit(t[p + n]),
    ensures
        run_end(t, p, true) == p + n,
    decreases n,
{
    if n > 0 {
        assert(is_digit(t[p]));
        lemma_run_end_digits(t, p + 1, n - 1);
    }
}

/// A roll written as count digits, `d`, face digits, a sign and bonus digits is read
/// with every digit of each number: the count (one when none or zero is written), the
/// faces, and the bonus with its sign, whatever follows the bonus's digits. So
/// `1d20+10` is one twenty-sided die with a bonus of ten.
pub proof fn lemma_parse_whole_numbers(
    c: Seq<char>,
    f: Seq<char>,
    sign: char,
    e: Seq<char>,
    r: Seq<char>,
)
    requires
        all_digits(c),
        decimal_value(c) <= 127,
        all_digits(f),
        f.len() > 0,
        1 <= decimal_value(f) <= 127,
        sign == '+' || sign == '-',
        all_digits(e),
        e.len() > 0,
        decimal_value(e) <= 127,
        r.len() == 0 || !is_digit(r[0]),
    ensures
        parse_roll(c + seq!['d'] + f + seq![sign] + e + r) == Ok::<(int, int, int), RollParseFailure>(
            (
                if decimal_value(c) >= 1 {
                    decimal_value(c)
                } else {
                    1
                },
                decimal_value(f),
                if sign == '+' {
                    decimal_value(e)
                } else {
                    -decimal_value(e)
                },
            ),
        ),
{
    let t = c + seq!['d'] + f + seq![sign] + e + r;
    let lc = c.len() as int;
    let lf = f.len() as int;
    let le = e.len() as int;
    let j = lc;
    let k = lc + 1 + lf;
    let m2 = k + 1;
    let end = m2 + le;
    assert(t.len() == end + r.len());
    assert(forall|i: int| 0 <= i < lc ==> t[i] == c[i]);
    assert(t[j] == 'd');
    assert(forall|i: int| 0 <= i < lf ==> t[j + 1 + i] == f[i]);
    assert(t[k] == sign);
    assert(forall|i: int| 0 <= i < le ==> t[m2 + i] == e[i]);
    assert(r.len() > 0 ==> t[end] == r[0]);
    assert(forall|i: int| 0 <= i < lc ==> is_digit(#[trigger] t[i])) by {
        assert forall|i: int| 0 <= i < lc implies is_digit(#[trigger] t[i]) by {
            assert(is_digit(c[i]));
        }
    }
    lemma_run_end_digits(t, 0, lc);
    assert(is_digit(f[0]));
    assert(roll_starts_at(t, 0));
    assert(first_roll(t, 0) == Some(0int));
    assert forall|i: int| j + 1 <= i < j + 1 + lf implies is_digit(#[trigger] t[i]) by {
        assert(t[i] == f[i - (j + 1)]);
        assert(is_digit(f[i - (j + 1)]));
    }
    lemma_run_end_digits(t, j + 1, lf);
    assert(t.subrange(0, j) =~= c);
    assert(t.subrange(j + 1, k) =~= f);
    lemma_parse_digits(f);
    if lc > 0 {
        lemma_parse_digits(c);
    } else {
        assert(parse_i8(t.subrange(0, j)) is Err);
    }
    assert(run_end(t, k, false) == k);
    assert(is_digit(e[0]));
    assert(t[m2] == e[0]);
    assert(run_end(t, m2, false) == m2);
    assert forall|i: int| m2 <= i < m2 + le implies is_digit(#[trigger] t[i]) by {
        assert(t[i] == e[i - m2]);
        assert(is_digit(e[i - m2]));
    }
    lemma_run_end_digits(t, m2, le);
    assert(t.subrange(m2, end) =~= e);
    lemma_parse_digits(e);
}

fn scan_run(t: &Vec<char>, p: usize, digits: bool) -> (r: usize)
    requires
        p <= t.len(),
    ensures
        r == run_end(t@, p as int, digits),
        p <= r <= t.len(),
{
    let mut k = p;
    while k < t.len()
        invariant
            p <= k <= t.len(),
            run_end(t@, k as int, digits) == run_end(t@, p as int, digits),
        decreases t.len() - k,
    {
        let c = t[k];
        let hit = if digits {
            '0' <= c && c <= '9'
        } else {
            char_is_whitespace(c)
        };
        if !hit {
            return k;
        }
        k = k + 1;
    }
    k
}

fn sub_chars(t: &Vec<char>, from: usize, to: usize) -> (r: Vec<char>)
    requires
        from <= to <= t.len(),
    ensures
        r@ == t@.subrange(from as int, to as int),
{
    let mut out = Vec::new();
    let mut k = from;
    while k < to
        invariant
            from <= k <= to <= t.len(),
            out@ == t@.subrange(from as int, k as int),
        decreases to - k,
    {
        out.push(t[k]);
        assert(t@.subrange(from as int, k + 1) =~= t@.subrange(from as int, k as int).push(t@[k as int]));
        k = k + 1;
    }
    out
}

fn starts_at(t: &Vec<char>, p: usize) -> (r: bool)
    requires
        p <= t.len(),
    ensures
        r == roll_starts_at(t@, p as int),
{
    let j = scan_run(t, p, true);
    j < t.len() && t[j] == 'd' && j + 1 < t.len() && '0' <= t[j + 1] && t[j + 1] <= '9'
}

impl DiceRoll {
    /// Reads a roll such as `2d20+4` from the first place in `text` that looks like one.
    pub fn parse(text: &str) -> (r: Result<DiceRoll, DiceRollError>)
        ensures
            match parse_roll(text@) {
                Ok((count, faces, extra)) => r matches Ok(d) && d.dice_view().faces_view()
                    == Seq::new(count as nat, |i: int| faces) && d.dice_view().index_view() == 0
                    && d.extra_view() == extra,
                Err(RollParseFailure::InvalidNumber(e)) => r == Err::<DiceRoll, DiceRollError>(
                    DiceRollError::InvalidNumber(e),
                ),
                Err(RollParseFailure::NoMatch) => r matches Err(DiceRollError::NoMatch(s)) && s@
                    == text@,
            },
    {
        let t = chars_of(text);
        let mut p: usize = 0;
        let mut found = false;
        while p < t.len()
            invariant_except_break
                !found,
            invariant
                p <= t.len(),
                first_roll(t@, p as int) == first_roll(t@, 0),
            ensures
                p <= t.len(),
                first_roll(t@, p as int) == first_roll(t@, 0),
                found ==> p < t.len() && roll_starts_at(t@, p as int),
                !found ==> p == t.len(),
            decreases t.len() - p,
        {
            if starts_at(&t, p) {
                found = true;
                break;
            }
            p = p + 1;
        }
        if !found {
            assert(!roll_starts_at(t@, t@.len() as int));
            assert(first_roll(t@, t@.len() + 1int) is None);
            assert(p == t@.len());
            assert(first_roll(t@, t@.len() as int) is None);
            assert(first_roll(t@, 0) is None);
            let mut s = String::new();
            crate::text::push_chars(&mut s, &t);
            return Err(DiceRollError::NoMatch(s));
        }
        let j = scan_run(&t, p, true);
        let k = scan_run(&t, j + 1, true);
        let count = match NaturalI8::from_chars(&sub_chars(&t, p, j)) {
            Ok(c) => c,
            Err(_) => NaturalI8::min(),
        };
        let faces = match NaturalI8::from_chars(&sub_chars(&t, j + 1, k)) {
            Ok(f) => f,
            Err(e) => return Err(DiceRollError::InvalidNumber(e)),
        };
        let m = scan_run(&t, k, false);
        let mut extra: i8 = 0;
        if m < t.len() && (t[m] == '+' || t[m] == '-') {
            let m2 = scan_run(&t, m + 1, false);
            let e = scan_run(&t, m2, true);
            if e > m2 {
                let v: i8 = match parse_i8_chars(&sub_chars(&t, m2, e)) {
                    Ok(v) => v,
                    Err(_) => 0,
                };
                proof {
                    lemma_run_chars(t@, m2 as int, true);
                    crate::natural::lemma_digits_nonnegative(t@.subrange(m2 as int, e as int));
                }
                extra = if t[m] == '+' {
                    v
                } else {
                    -v
                };
            }
        }
        let cv = count.get();
        let fv = faces.get();
        DiceRoll::new(cv, fv, extra)
    }
}

} // verus!
