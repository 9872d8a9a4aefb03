//! Decimal text of the protocol's numeric fields: what `str::parse` accepts
//! and what `to_string` produces, stated as spec functions, with trusted
//! wrappers around the std calls.
use vstd::prelude::*;

verus! {

/// One ASCII decimal digit.
pub open spec fn is_dec_digit(c: char) -> bool {
    '0' <= c && c <= '9'
}

pub open spec fn dec_digit_value(c: char) -> int {
    c as int - '0' as int
}

pub open spec fn all_dec_digits(s: Seq<char>) -> bool {
    forall|k: int| 0 <= k < s.len() ==> is_dec_digit(#[trigger] s[k])
}

/// Value of a digit string read in base 10.
pub open spec fn dec_value(s: Seq<char>) -> int
    decreases s.len(),
{
    if s.len() == 0 {
        0
    } else {
        dec_value(s.drop_last()) * 10 + dec_digit_value(s.last())
    }
}

/// What `str::parse` to a signed integer accepts: an optional `+` or `-`
/// sign, then one or more decimal digits, with a value inside `[lo, hi]`.
pub open spec fn spec_parse_signed(s: Seq<char>, lo: int, hi: int) -> Option<int> {
    let digits = if s.len() > 0 && (s[0] == '+' || s[0] == '-') {
        s.drop_first()
    } else {
        s
    };
    let sign: int = if s.len() > 0 && s[0] == '-' {
        -1
    } else {
        1
    };
    if digits.len() > 0 && all_dec_digits(digits) {
        let v = sign * dec_value(digits);
        if lo <= v && v <= hi {
            Some(v)
        } else {
            None
        }
    } else {
        None
    }
}

pub open spec fn spec_parse_i32(s: Seq<char>) -> Option<int> {
    spec_parse_signed(s, i32::MIN as int, i32::MAX as int)
}

pub open spec fn spec_parse_i64(s: Seq<char>) -> Option<int> {
    spec_parse_signed(s, i64::MIN as int, i64::MAX as int)
}

pub open spec fn dec_digit_char(n: int) -> char {
    if n == 0 {
        '0'
    } else if n == 1 {
        '1'
    } else if n == 2 {
        '2'
    } else if n == 3 {
        '3'
    } else if n == 4 {
        '4'
    } else if n == 5 {
        '5'
    } else if n == 6 {
        '6'
    } else if n == 7 {
        '7'
    } else if n == 8 {
        '8'
    } else {
        '9'
    }
}

/// Canonical decimal digits of a non-negative integer, without leading zeros.
pub open spec fn spec_dec_digits(n: int) -> Seq<char>
    decreases n,
{
    if n < 10 {
        seq![dec_digit_char(n)]
    } else {
        spec_dec_digits(n / 10).push(dec_digit_char(n % 10))
    }
}

/// Canonical decimal representation of a signed integer, as `to_string`
/// prints it.
pub open spec fn spec_int_str(n: int) -> Seq<char> {
    if n < 0 {
        seq!['-'] + spec_dec_digits(-n)
    } else {
        spec_dec_digits(n)
    }
}

/// Relies on `str::parse::<i32>`: it accepts an optional sign followed by
/// one or more decimal digits, when the value fits in an `i32`.
#[verifier::external_body]
pub fn parse_i32(s: &str) -> (r: Option<i32>)
    ensures
        match spec_parse_i32(s@) {
            Some(v) => r == Some(v as i32),
            None => r is None,
        },
{
    match s.parse::<i32>() {
        Ok(v) => Some(v),
        Err(_) => None,
    }
}

/// Relies on `str::parse::<i64>`: it accepts an optional sign followed by
/// one or more decimal digits, when the value fits in an `i64`.
#[verifier::external_body]
pub fn parse_i64(s: &str) -> (r: Option<i64>)
    ensures
        match spec_parse_i64(s@) {
            Some(v) => r == Some(v as i64),
            None => r is None,
        },
{
    match s.parse::<i64>() {
        Ok(v) => Some(v),
        Err(_) => None,
    }
}

/// Relies on `i32::to_string`: the canonical decimal representation, a `-`
/// sign for negative values, no leading zeros.
#[verifier::external_body]
pub fn i32_to_field(v: i32) -> (r: String)
    ensures
        r@ == spec_int_str(v as int),
{
    v.to_string()
}

/// Relies on `usize::to_string`: the canonical decimal representation.
#[verifier::external_body]
pub fn usize_to_field(v: usize) -> (r: String)
    ensures
        r@ == spec_dec_digits(v as int),
{
    v.to_string()
}

} // verus!
