//! What the interpreter reads from text: a line with the space around it
//! taken off, and decimal numerals.

use vstd::prelude::*;

verus! {

/// A decimal digit.
pub open spec fn is_digit(c: char) -> bool {
    '0' <= c <= '9'
}

/// One or more characters, all of them decimal digits.
pub open spec fn all_digits(s: Seq<char>) -> bool {
    s.len() > 0 && forall|i: int| 0 <= i < s.len() ==> is_digit(#[trigger] s[i])
}

/// The number that a run of decimal digits denotes, most significant digit first.
pub open spec fn decimal_value(digits: Seq<char>) -> nat
    decreases digits.len(),
{
    if digits.len() == 0 {
        0
    } else {
        (decimal_value(digits.drop_last()) * 10 + (digits.last() as int - '0' as int)) as nat
    }
}

/// The integer that a numeral denotes: an optional `+` or `-`, then one or
/// more decimal digits and nothing else.
pub open spec fn signed_decimal(s: Seq<char>) -> Option<int> {
    if s.len() > 0 && s[0] == '-' {
        if all_digits(s.skip(1)) {
            Some(-(decimal_value(s.skip(1)) as int))
        } else {
            None
        }
    } else {
        unsigned_decimal(s)
    }
}

/// The natural number that a numeral denotes: an optional `+`, then one or
/// more decimal digits and nothing else.
pub open spec fn unsigned_decimal(s: Seq<char>) -> Option<int> {
    if s.len() > 0 && s[0] == '+' {
        if all_digits(s.skip(1)) {
            Some(decimal_value(s.skip(1)) as int)
        } else {
            None
        }
    } else if all_digits(s) {
        Some(decimal_value(s) as int)
    } else {
        None
    }
}

/// The numeral `s` read as an `i64`: its value where it is a signed decimal
/// numeral whose value an `i64` can hold, and nothing otherwise.
pub open spec fn decimal_i64(s: Seq<char>) -> Option<i64> {
    match signed_decimal(s) {
        Some(v) => if i64::MIN <= v <= i64::MAX {
            Some(v as i64)
        } else {
            None
        },
        None => None,
    }
}

/// The numeral `s` read as a `usize`: its value where it is an unsigned
/// decimal numeral whose value a `usize` can hold, and nothing otherwise.
pub open spec fn decimal_usize(s: Seq<char>) -> Option<usize> {
    match unsigned_decimal(s) {
        Some(v) => if v <= usize::MAX {
            Some(v as usize)
        } else {
            None
        },
        None => None,
    }
}

/// What `str::trim` makes of a text: the text without the white space at
/// its two ends, where white space is what Unicode calls so.
pub uninterp spec fn trimmed(s: Seq<char>) -> Seq<char>;

/// Calls `str::trim`, which returns the part of the text that is left when
/// leading and trailing white space is taken off. The result depends on the
/// text alone; the contract names it and says no more.
#[verifier::external_body]
pub(crate) fn trim(s: &str) -> (r: &str)
    ensures
        r@ == trimmed(s@),
{
    s.trim()
}

/// Calls `str::parse::<i64>`, that is `i64::from_str`. It accepts an
/// optional sign followed by decimal digits only, and fails on an empty
/// text, on any other character and on a value that an `i64` cannot hold.
#[verifier::external_body]
pub(crate) fn parse_i64(s: &str) -> (r: Option<i64>)
    ensures
        r == decimal_i64(s@),
{
    s.parse::<i64>().ok()
}

/// Calls `str::parse::<usize>`, that is `usize::from_str`. It accepts an
/// optional `+` followed by decimal digits only, and fails on an empty
/// text, on any other character, a `-` among them, and on a value that a
/// `usize` cannot hold.
#[verifier::external_body]
pub(crate) fn parse_usize(s: &str) -> (r: Option<usize>)
    ensures
        r == decimal_usize(s@),
{
    s.parse::<usize>().ok()
}

/// The characters of a text, one by one.
pub fn chars_of(s: &str) -> (v: Vec<char>)
    ensures
        v@ == s@,
{
    let mut v: Vec<char> = Vec::new();
    for c in it: s.chars()
        invariant
            it.seq() == s@,
            v@ == it.seq().take(it.index() as int),
    {
        v.push(c);
    }
    assert(s@.take(s@.len() as int) == s@);
    v
}

/// Whether `chars` spells `word`.
pub fn spells(chars: &Vec<char>, word: &str) -> (b: bool)
    ensures
        b == (chars@ == word@),
{
    let other = chars_of(word);
    if other.len() != chars.len() {
        return false;
    }
    let mut i: usize = 0;
    while i < chars.len()
        invariant
            other@ == word@,
            other.len() == chars.len(),
            i <= chars.len(),
            forall|k: int| 0 <= k < i ==> chars@[k] == other@[k],
        decreases chars.len() - i,
    {
        if chars[i] != other[i] {
            return false;
        }
        i += 1;
    }
    assert(chars@ =~= other@);
    true
}

} // verus!
