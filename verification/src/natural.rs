//! Strictly positive `i8` values used for dice counts and faces.
use vstd::prelude::*;

use crate::text::{chars_of, decimal, decimal_chars, string_of};

verus! {

/// Why reading an integer out of text failed.
#[derive(Clone, Copy, Debug, PartialEq, Eq, Structural)]
pub enum IntErrorKind {
    Empty,
    InvalidDigit,
    PosOverflow,
    NegOverflow,
    Zero,
}

/// Failure to build a [`NaturalI8`].
#[derive(Clone, Copy, Debug, PartialEq, Eq, Structural)]
pub enum NaturalI8Error {
    /// The text could not be read as a non-zero `i8`.
    ParsedZero(IntErrorKind),
    /// The value was zero.
    TryFromZero,
    /// The value was below zero.
    ValueNegative(i8),
}

/// An `i8` that is at least one.
#[derive(Clone, Copy, Debug, PartialEq, Eq, Ord, Structural)]
pub struct NaturalI8 {
    value: i8,
}

impl View for NaturalI8 {
    type V = int;

    closed spec fn view(&self) -> int {
        self.value as int
    }
}

/// Naturals are ordered by value.
impl PartialOrd for NaturalI8 {
    fn partial_cmp(&self, other: &Self) -> (r: Option<std::cmp::Ordering>) {
        if self.value < other.value {
            Some(std::cmp::Ordering::Less)
        } else if self.value == other.value {
            Some(std::cmp::Ordering::Equal)
        } else {
            Some(std::cmp::Ordering::Greater)
        }
    }
}

impl vstd::std_specs::cmp::PartialOrdSpecImpl for NaturalI8 {
    open spec fn obeys_partial_cmp_spec() -> bool {
        true
    }

    open spec fn partial_cmp_spec(&self, other: &Self) -> Option<std::cmp::Ordering> {
        if self@ < other@ {
            Some(std::cmp::Ordering::Less)
        } else if self@ == other@ {
            Some(std::cmp::Ordering::Equal)
        } else {
            Some(std::cmp::Ordering::Greater)
        }
    }
}

impl NaturalI8 {
    #[verifier::type_invariant]
    closed spec fn positive(self) -> bool {
        self.value >= 1
    }

    /// What `new` gives back for `value`.
    pub open spec fn spec_new(value: i8) -> Result<int, NaturalI8Error> {
        if value == 0 {
            Err(NaturalI8Error::TryFromZero)
        } else if value < 0 {
            Err(NaturalI8Error::ValueNegative(value))
        } else {
            Ok(value as int)
        }
    }

    /// Accepts `value` when it is at least one.
    pub fn new(value: i8) -> (r: Result<NaturalI8, NaturalI8Error>)
        ensures
            r matches Ok(n) ==> Self::spec_new(value) == Ok::<int, NaturalI8Error>(n@),
            r matches Err(e) ==> Self::spec_new(value) == Err::<int, NaturalI8Error>(e),
    {
        if value == 0 {
            Err(NaturalI8Error::TryFromZero)
        } else if value < 0 {
            Err(NaturalI8Error::ValueNegative(value))
        } else {
            Ok(NaturalI8 { value })
        }
    }

    pub fn get(&self) -> (r: i8)
        ensures
            r == self@,
            r >= 1,
    {
        proof {
            use_type_invariant(self);
        }
        self.value
    }
}

/// Whether `c` is an ASCII digit.
pub open spec fn is_digit(c: char) -> bool {
    '0' <= c && c <= '9'
}

/// The value of digit `c`.
pub open spec fn digit_value(c: char) -> int {
    (c as u32) - ('0' as u32)
}

/// Reads the digits of `d` one at a time, as `i8`'s parser does, after an optional sign:
/// the value so far, or the first failure met (a non-digit, or leaving the `i8` range).
pub open spec fn scan_i8(d: Seq<char>, neg: bool) -> Result<int, IntErrorKind>
    decreases d.len(),
{
    if d.len() == 0 {
        Ok(0)
    } else {
        match scan_i8(d.drop_last(), neg) {
            Err(e) => Err(e),
            Ok(v) => {
                let c = d.last();
                if !is_digit(c) {
                    Err(IntErrorKind::InvalidDigit)
                } else {
                    let nv = if neg {
                        v * 10 - digit_value(c)
                    } else {
                        v * 10 + digit_value(c)
                    };
                    if nv > 127 {
                        Err(IntErrorKind::PosOverflow)
                    } else if nv < -128 {
                        Err(IntErrorKind::NegOverflow)
                    } else {
                        Ok(nv)
                    }
                }
            },
        }
    }
}

/// What `str::parse::<i8>` gives for `s`.
pub open spec fn parse_i8(s: Seq<char>) -> Result<int, IntErrorKind> {
    if s.len() == 0 {
        Err(IntErrorKind::Empty)
    } else if s == seq!['+'] || s == seq!['-'] {
        Err(IntErrorKind::InvalidDigit)
    } else if s[0] == '-' {
        scan_i8(s.skip(1), true)
    } else if s[0] == '+' {
        scan_i8(s.skip(1), false)
    } else {
        scan_i8(s, false)
    }
}

/// What `NaturalI8::from_str` gives for `s`: the non-zero `i8` it reads, if at least one.
pub open spec fn parse_natural(s: Seq<char>) -> Result<int, NaturalI8Error> {
    match parse_i8(s) {
        Err(e) => Err(NaturalI8Error::ParsedZero(e)),
        Ok(v) => if v == 0 {
            Err(NaturalI8Error::ParsedZero(IntErrorKind::Zero))
        } else if v < 0 {
            Err(NaturalI8Error::ValueNegative(v as i8))
        } else {
            Ok(v)
        },
    }
}

fn digit_of_char(c: char) -> (r: i16)
    requires
        is_digit(c),
    ensures
        r == digit_value(c),
{
    let u: u32 = c as u32;
    (u - 48) as i16
}

/// Reads `s` as an `i8`, with an optional leading sign.
pub fn parse_i8_chars(s: &Vec<char>) -> (r: Result<i8, IntErrorKind>)
    ensures
        match parse_i8(s@) {
            Ok(v) => r == Ok::<i8, IntErrorKind>(v as i8),
            Err(e) => r == Err::<i8, IntErrorKind>(e),
        },
{
    if s.len() == 0 {
        return Err(IntErrorKind::Empty);
    }
    if s.len() == 1 && (s[0] == '+' || s[0] == '-') {
        assert(s@ == seq!['+'] || s@ == seq!['-']) by {
            if s[0] == '+' {
                assert(s@ =~= seq!['+']);
            } else {
                assert(s@ =~= seq!['-']);
            }
        }
        return Err(IntErrorKind::InvalidDigit);
    }
    assert(s@ != seq!['+'] && s@ != seq!['-']) by {
        if s@ == seq!['+'] || s@ == seq!['-'] {
            assert(s@.len() == 1);
        }
    }
    let neg = s[0] == '-';
    let start: usize = if s[0] == '-' || s[0] == '+' {
        1
    } else {
        0
    };
    let ghost d = s@.skip(start as int);
    assert(parse_i8(s@) == scan_i8(d, neg)) by {
        if start == 0 {
            assert(d =~= s@);
        }
    }
    let mut v: i16 = 0;
    let mut k = start;
    while k < s.len()
        invariant
            start <= k <= s.len(),
            d == s@.skip(start as int),
            parse_i8(s@) == scan_i8(d, neg),
            scan_i8(d.take(k - start), neg) == Ok::<int, IntErrorKind>(v as int),
            -128 <= v <= 127,
        decreases s.len() - k,
    {
        let c = s[k];
        let ghost t = d.take(k - start + 1);
        assert(t.drop_last() =~= d.take(k - start));
        assert(t.last() == c);
        if !('0' <= c && c <= '9') {
            assert(scan_i8(t, neg) == Err::<int, IntErrorKind>(IntErrorKind::InvalidDigit));
            proof {
                lemma_scan_err_sticks(d, k - start + 1, neg);
            }
            return Err(IntErrorKind::InvalidDigit);
        }
        let dv = digit_of_char(c);
        let nv: i16 = if neg {
            v * 10 - dv
        } else {
            v * 10 + dv
        };
        if nv > 127 {
            assert(scan_i8(t, neg) == Err::<int, IntErrorKind>(IntErrorKind::PosOverflow));
            proof {
                lemma_scan_err_sticks(d, k - start + 1, neg);
            }
            return Err(IntErrorKind::PosOverflow);
        }
        if nv < -128 {
            assert(scan_i8(t, neg) == Err::<int, IntErrorKind>(IntErrorKind::NegOverflow));
            proof {
                lemma_scan_err_sticks(d, k - start + 1, neg);
            }
            return Err(IntErrorKind::NegOverflow);
        }
        assert(scan_i8(t, neg) == Ok::<int, IntErrorKind>(nv as int));
        v = nv;
        k = k + 1;
    }
    assert(d.take(k - start) =~= d);
    Ok(v as i8)
}

proof fn lemma_scan_err_sticks(d: Seq<char>, n: int, neg: bool)
    requires
        0 <= n <= d.len(),
        scan_i8(d.take(n), neg) is Err,
    ensures
        scan_i8(d, neg) == scan_i8(d.take(n), neg),
    decreases d.len() - n,
{
    if n < d.len() {
        assert(d.take(n + 1).drop_last() =~= d.take(n));
        lemma_scan_err_sticks(d, n + 1, neg);
    } else {
        assert(d.take(n) =~= d);
    }
}

impl NaturalI8 {
    /// The value, which is never zero.
    pub fn get_non_zero(&self) -> (r: i8)
        ensures
            r == self@,
            r != 0,
    {
        self.get()
    }

    /// The smallest natural, one.
    pub fn min() -> (r: NaturalI8)
        ensures
            r@ == 1,
    {
        NaturalI8 { value: 1 }
    }

    /// Reads `s` as a natural: a non-zero `i8` that is at least one.
    pub fn from_str(s: &str) -> (r: Result<NaturalI8, NaturalI8Error>)
        ensures
            r matches Ok(n) ==> parse_natural(s@) == Ok::<int, NaturalI8Error>(n@),
            r matches Err(e) ==> parse_natural(s@) == Err::<int, NaturalI8Error>(e),
    {
        let cs = chars_of(s);
        Self::from_chars(&cs)
    }

    /// Reads the characters `s` as a natural.
    pub fn from_chars(s: &Vec<char>) -> (r: Result<NaturalI8, NaturalI8Error>)
        ensures
            r matches Ok(n) ==> parse_natural(s@) == Ok::<int, NaturalI8Error>(n@),
            r matches Err(e) ==> parse_natural(s@) == Err::<int, NaturalI8Error>(e),
    {
        match parse_i8_chars(s) {
            Err(e) => Err(NaturalI8Error::ParsedZero(e)),
            Ok(v) => {
                if v == 0 {
                    Err(NaturalI8Error::ParsedZero(IntErrorKind::Zero))
                } else if v < 0 {
                    Err(NaturalI8Error::ValueNegative(v))
                } else {
                    Ok(NaturalI8 { value: v })
                }
            },
        }
    }

    /// Converts a count: zero and counts beyond `i8` are refused.
    pub fn try_from_usize(value: usize) -> (r: Result<NaturalI8, NaturalI8Error>)
        ensures
            value == 0 || value > 127 ==> r == Err::<NaturalI8, NaturalI8Error>(
                NaturalI8Error::TryFromZero,
            ),
            1 <= value <= 127 ==> (r matches Ok(n) && n@ == value),
    {
        if value == 0 || value > 127 {
            Err(NaturalI8Error::TryFromZero)
        } else {
            Ok(NaturalI8 { value: value as i8 })
        }
    }

    /// The value as a count.
    pub fn to_usize(&self) -> (r: usize)
        ensures
            r == self@,
    {
        self.get() as usize
    }

    /// The value widened to `i16`.
    pub fn to_i16(&self) -> (r: i16)
        ensures
            r == self@,
    {
        self.get() as i16
    }

    /// The decimal text of the value.
    pub fn to_string(&self) -> (r: String)
        ensures
            r@ == decimal(self@ as nat),
    {
        let v = self.get();
        string_of(&decimal_chars(v as u64))
    }
}

impl Default for NaturalI8 {
    fn default() -> (r: Self)
        ensures
            r@ == 1,
    {
        NaturalI8::min()
    }
}

/// Named constants of [`NaturalI8`].
pub trait NaturalI8Constants {
    /// The constant named one.
    fn one() -> (r: NaturalI8)
        ensures
            r@ == 1,
    ;

    /// The constant named twenty. Like every constant here it is built from one.
    fn twenty() -> (r: NaturalI8)
        ensures
            r@ == 1,
    ;

    /// The constant named one hundred. Like every constant here it is built from one.
    fn one_hundred() -> (r: NaturalI8)
        ensures
            r@ == 1,
    ;
}

impl NaturalI8Constants for NaturalI8 {
    fn one() -> (r: NaturalI8) {
        NaturalI8 { value: 1 }
    }

    fn twenty() -> (r: NaturalI8) {
        NaturalI8 { value: 1 }
    }

    fn one_hundred() -> (r: NaturalI8) {
        NaturalI8 { value: 1 }
    }
}

proof fn lemma_scan_digits(d: Seq<char>)
    requires
        forall|i: int| 0 <= i < d.len() ==> is_digit(#[trigger] d[i]),
    ensures
        scan_i8(d, false) matches Ok(v) ==> v >= 0,
    decreases d.len(),
{
    if d.len() > 0 {
        lemma_scan_digits(d.drop_last());
    }
}

/// A run of digits that reads as an `i8` reads as a value that is not negative.
pub proof fn lemma_digits_nonnegative(d: Seq<char>)
    requires
        d.len() > 0,
        forall|i: int| 0 <= i < d.len() ==> is_digit(#[trigger] d[i]),
    ensures
        parse_i8(d) matches Ok(v) ==> 0 <= v <= 127,
{
    assert(d[0] != '-' && d[0] != '+');
    assert(d != seq!['+'] && d != seq!['-']) by {
        if d == seq!['+'] || d == seq!['-'] {
            assert(d[0] == '+' || d[0] == '-');
        }
    }
    lemma_scan_digits(d);
    lemma_scan_upper(d, false);
}

proof fn lemma_scan_upper(d: Seq<char>, neg: bool)
    ensures
        scan_i8(d, neg) matches Ok(v) ==> -128 <= v <= 127,
    decreases d.len(),
{
    if d.len() > 0 {
        lemma_scan_upper(d.drop_last(), neg);
    }
}

} // verus!
