//! Characters of a string, and decimal numbers in them.

use vstd::prelude::*;
use vstd::std_specs::iter::IteratorSpec;

verus! {

broadcast use vstd::string::group_string_axioms;

/// The characters of `s`, in order.
pub fn chars_of(s: &str) -> (r: Vec<char>)
    ensures
        r@ == s@,
{
    let n = s.unicode_len();
    let mut it = s.chars();
    let mut r: Vec<char> = Vec::new();
    while r.len() < n
        invariant
            n == s@.len(),
            r@.len() <= n,
            s@ == r@ + it.remaining(),
        decreases n - r@.len(),
    {
        match it.next() {
            Some(c) => {
                r.push(c);
            },
            None => {
                // a character remains, so the iterator cannot be done
                proof {
                    assert(false);
                }
            },
        }
    }
    assert(r@ =~= s@);
    r
}

/// Why a string is not a number.
#[derive(Debug, Clone, Copy, PartialEq, Eq, Structural)]
pub enum NumberError {
    /// The string is empty.
    Empty,
    /// A character is not a decimal digit.
    InvalidDigit,
    /// The number is larger than the bound.
    Overflow,
}

impl NumberError {
    /// A sentence that says what is wrong.
    pub fn describe(&self) -> (r: &'static str)
        ensures
            *self is Empty ==> r@ == "cannot parse integer from empty string"@,
            *self is InvalidDigit ==> r@ == "invalid digit found in string"@,
            *self is Overflow ==> r@ == "number too large to fit in target type"@,
    {
        match self {
            NumberError::Empty => {
                proof { reveal_strlit("cannot parse integer from empty string"); }
                "cannot parse integer from empty string"
            },
            NumberError::InvalidDigit => {
                proof { reveal_strlit("invalid digit found in string"); }
                "invalid digit found in string"
            },
            NumberError::Overflow => {
                proof { reveal_strlit("number too large to fit in target type"); }
                "number too large to fit in target type"
            },
        }
    }
}

pub open spec fn is_digit(c: char) -> bool {
    '0' <= c && c <= '9'
}

pub open spec fn digit_value(c: char) -> nat {
    (c as u32 - '0' as u32) as nat
}

/// Reads the digits `d` left to right against the bound `max`: the first
/// character that is not a digit, or the first digit that takes the value
/// past `max`, decides the error.
pub open spec fn scan_digits(d: Seq<char>, max: nat) -> Result<nat, NumberError>
    decreases d.len(),
{
    if d.len() == 0 {
        Ok(0)
    } else {
        match scan_digits(d.drop_last(), max) {
            Err(e) => Err(e),
            Ok(v) => if !is_digit(d.last()) {
                Err(NumberError::InvalidDigit)
            } else if v * 10 + digit_value(d.last()) > max {
                Err(NumberError::Overflow)
            } else {
                Ok(v * 10 + digit_value(d.last()))
            },
        }
    }
}

/// An unsigned decimal number with an optional leading `+`, no larger than `max`.
pub open spec fn parse_decimal(s: Seq<char>, max: nat) -> Result<nat, NumberError> {
    if s.len() == 0 {
        Err(NumberError::Empty)
    } else if s[0] == '+' {
        if s.len() == 1 {
            Err(NumberError::InvalidDigit)
        } else {
            scan_digits(s.drop_first(), max)
        }
    } else {
        scan_digits(s, max)
    }
}

proof fn lemma_scan_error_stays(d: Seq<char>, k: int, max: nat)
    requires
        0 <= k <= d.len(),
        scan_digits(d.subrange(0, k), max) is Err,
    ensures
        scan_digits(d, max) == scan_digits(d.subrange(0, k), max),
    decreases d.len() - k,
{
    if k < d.len() {
        assert(d.subrange(0, k + 1).drop_last() =~= d.subrange(0, k));
        lemma_scan_error_stays(d, k + 1, max);
    } else {
        assert(d.subrange(0, k) =~= d);
    }
}

/// Reads `s[start..]` as digits, see [`scan_digits`] with bound `usize::MAX`.
fn scan_usize(s: &Vec<char>, start: usize) -> (r: Result<usize, NumberError>)
    requires
        start <= s@.len(),
    ensures
        r matches Ok(v) ==> scan_digits(s@.subrange(start as int, s@.len() as int), usize::MAX as nat) == Ok::<nat, NumberError>(v as nat),
        r matches Err(e) ==> scan_digits(s@.subrange(start as int, s@.len() as int), usize::MAX as nat) == Err::<nat, NumberError>(e),
{
    let ghost d = s@.subrange(start as int, s@.len() as int);
    let mut v: usize = 0;
    let mut i: usize = start;
    assert(d.subrange(0, 0).len() == 0);
    while i < s.len()
        invariant
            start <= i <= s@.len(),
            d == s@.subrange(start as int, s@.len() as int),
            scan_digits(d.subrange(0, i - start), usize::MAX as nat) == Ok::<nat, NumberError>(v as nat),
        decreases s@.len() - i,
    {
        let c = s[i];
        let ghost prefix = d.subrange(0, i + 1 - start);
        assert(prefix.drop_last() =~= d.subrange(0, i - start));
        assert(prefix.last() == c);
        if !('0' <= c && c <= '9') {
            proof { lemma_scan_error_stays(d, i + 1 - start, usize::MAX as nat); }
            return Err(NumberError::InvalidDigit);
        }
        let dv = (c as u32 - '0' as u32) as u128;
        let next: u128 = v as u128 * 10 + dv;
        if next > usize::MAX as u128 {
            proof { lemma_scan_error_stays(d, i + 1 - start, usize::MAX as nat); }
            return Err(NumberError::Overflow);
        }
        v = next as usize;
        i = i + 1;
    }
    assert(d.subrange(0, i - start) =~= d);
    Ok(v)
}

/// Reads `s[start..]` as a decimal number, see [`parse_decimal`] with bound `usize::MAX`.
pub fn parse_usize_from(s: &Vec<char>, start: usize) -> (r: Result<usize, NumberError>)
    requires
        start <= s@.len(),
    ensures
        r matches Ok(v) ==> parse_decimal(s@.subrange(start as int, s@.len() as int), usize::MAX as nat) == Ok::<nat, NumberError>(v as nat),
        r matches Err(e) ==> parse_decimal(s@.subrange(start as int, s@.len() as int), usize::MAX as nat) == Err::<nat, NumberError>(e),
{
    let ghost t = s@.subrange(start as int, s@.len() as int);
    if start == s.len() {
        Err(NumberError::Empty)
    } else if s[start] == '+' {
        if start + 1 == s.len() {
            Err(NumberError::InvalidDigit)
        } else {
            assert(t.drop_first() =~= s@.subrange(start + 1, s@.len() as int));
            scan_usize(s, start + 1)
        }
    } else {
        scan_usize(s, start)
    }
}

/// `s` as an unsigned decimal number that fits in `usize`.
pub fn parse_usize(s: &str) -> (r: Result<usize, NumberError>)
    ensures
        r matches Ok(v) ==> parse_decimal(s@, usize::MAX as nat) == Ok::<nat, NumberError>(v as nat),
        r matches Err(e) ==> parse_decimal(s@, usize::MAX as nat) == Err::<nat, NumberError>(e),
{
    let cs = chars_of(s);
    assert(cs@.subrange(0, cs@.len() as int) =~= s@);
    parse_usize_from(&cs, 0)
}

/// Whether `a` and `b` hold the same characters.
pub fn same_text(a: &str, b: &str) -> (r: bool)
    ensures
        r == (a@ == b@),
{
    let x = chars_of(a);
    let y = chars_of(b);
    if x.len() != y.len() {
        return false;
    }
    let mut i: usize = 0;
    while i < x.len()
        invariant
            x@ == a@,
            y@ == b@,
            x@.len() == y@.len(),
            i <= x@.len(),
            forall|j: int| 0 <= j < i ==> x@[j] == y@[j],
        decreases x@.len() - i,
    {
        if x[i] != y[i] {
            return false;
        }
        i = i + 1;
    }
    assert(x@ =~= y@);
    true
}

} // verus!
