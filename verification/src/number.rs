//! Numbers of the language: IEEE 754 binary64 values held as their 64-bit
//! patterns.
//!
//! Sign handling and comparison are plain integer reasoning on the pattern
//! and are proved here. Rounding arithmetic and decimal conversion are done
//! by `rustc_apfloat`, a software implementation of IEEE 754; each of its
//! results is given a name, and the contracts of the callers speak of that
//! name.

use rustc_apfloat::ieee::Double;
use rustc_apfloat::Float;
use vstd::prelude::*;

verus! {

/// The bit that holds the sign.
pub const SIGN_BIT: u64 = 0x8000_0000_0000_0000u64;

/// The pattern of positive infinity: every exponent bit set, no fraction bit.
pub const INFINITY_BITS: u64 = 0x7ff0_0000_0000_0000u64;

/// The pattern with its sign bit cleared.
pub open spec fn magnitude(bits: u64) -> int {
    if bits >= SIGN_BIT {
        bits - SIGN_BIT
    } else {
        bits as int
    }
}

/// Whether the pattern is a NaN: all exponent bits set and a fraction that
/// is not zero.
pub open spec fn is_nan(bits: u64) -> bool {
    magnitude(bits) > INFINITY_BITS
}

/// The place of a pattern that is no NaN on the number line, as an integer
/// that grows with the value: the magnitude, negated under a set sign bit.
/// Both zeros have key 0.
pub open spec fn order_key(bits: u64) -> int {
    if bits >= SIGN_BIT {
        -magnitude(bits)
    } else {
        magnitude(bits)
    }
}

/// `a < b` on binary64: false when either side is a NaN.
pub open spec fn less(a: u64, b: u64) -> bool {
    !is_nan(a) && !is_nan(b) && order_key(a) < order_key(b)
}

/// `a == b` on binary64: false when either side is a NaN, true of the two
/// zeros.
pub open spec fn same(a: u64, b: u64) -> bool {
    !is_nan(a) && !is_nan(b) && order_key(a) == order_key(b)
}

/// The pattern with its sign bit flipped.
pub open spec fn negated(bits: u64) -> u64 {
    if bits >= SIGN_BIT {
        (bits - SIGN_BIT) as u64
    } else {
        (bits + SIGN_BIT) as u64
    }
}

/// Whether `text` is a decimal literal: digits with at most one point, which
/// stands between two digits.
pub open spec fn is_decimal_literal(text: Seq<char>) -> bool {
    &&& text.len() > 0
    &&& is_digit_char(text[0])
    &&& is_digit_char(text[text.len() - 1])
    &&& forall|i: int| 0 <= i < text.len() ==> is_digit_char(#[trigger] text[i]) || text[i] == '.'
    &&& forall|i: int, j: int|
        0 <= i < text.len() && 0 <= j < text.len() && #[trigger] text[i] == '.' && #[trigger] text[j]
            == '.' ==> i == j
}

/// Whether `c` is one of the ten decimal digits.
pub open spec fn is_digit_char(c: char) -> bool {
    '0' <= c && c <= '9'
}

/// The binary64 sum of `a` and `b`, rounded to nearest, ties to even.
pub uninterp spec fn double_sum(a: u64, b: u64) -> u64;

/// The binary64 difference `a - b`, rounded to nearest, ties to even.
pub uninterp spec fn double_difference(a: u64, b: u64) -> u64;

/// The binary64 product of `a` and `b`, rounded to nearest, ties to even.
pub uninterp spec fn double_product(a: u64, b: u64) -> u64;

/// The binary64 quotient `a / b`, rounded to nearest, ties to even.
pub uninterp spec fn double_quotient(a: u64, b: u64) -> u64;

/// The binary64 remainder of `a / b` with the sign of `a`.
pub uninterp spec fn double_remainder(a: u64, b: u64) -> u64;

/// The binary64 value nearest to the decimal literal `text`.
pub uninterp spec fn double_from_decimal(text: Seq<char>) -> u64;

/// `Add::add` of `rustc_apfloat::ieee::Double`: the sum rounded to nearest,
/// ties to even. Both operands are unpacked from, and the result packed into,
/// the 64-bit pattern; the status flags are dropped. The result is a function
/// of the two patterns alone.
#[verifier::external_body]
pub(crate) fn add_doubles(a: u64, b: u64) -> (r: u64)
    ensures
        r == double_sum(a, b),
{
    (Double::from_bits(a as u128) + Double::from_bits(b as u128)).value.to_bits() as u64
}

/// `Sub::sub` of `rustc_apfloat::ieee::Double`: the difference rounded to
/// nearest, ties to even, on 64-bit patterns; the status flags are dropped.
#[verifier::external_body]
pub(crate) fn subtract_doubles(a: u64, b: u64) -> (r: u64)
    ensures
        r == double_difference(a, b),
{
    (Double::from_bits(a as u128) - Double::from_bits(b as u128)).value.to_bits() as u64
}

/// `Mul::mul` of `rustc_apfloat::ieee::Double`: the product rounded to
/// nearest, ties to even, on 64-bit patterns; the status flags are dropped.
#[verifier::external_body]
pub(crate) fn multiply_doubles(a: u64, b: u64) -> (r: u64)
    ensures
        r == double_product(a, b),
{
    (Double::from_bits(a as u128) * Double::from_bits(b as u128)).value.to_bits() as u64
}

/// `Div::div` of `rustc_apfloat::ieee::Double`: the quotient rounded to
/// nearest, ties to even, on 64-bit patterns. A zero divisor is no error: the
/// result is an infinity, or a NaN for `0 / 0`. The status flags are dropped.
#[verifier::external_body]
pub(crate) fn divide_doubles(a: u64, b: u64) -> (r: u64)
    ensures
        r == double_quotient(a, b),
{
    (Double::from_bits(a as u128) / Double::from_bits(b as u128)).value.to_bits() as u64
}

/// `Rem::rem` of `rustc_apfloat::ieee::Double`, which is C's `fmod`: the
/// remainder with the sign of the dividend, on 64-bit patterns. A zero
/// divisor gives a NaN. The status flags are dropped.
#[verifier::external_body]
pub(crate) fn remainder_doubles(a: u64, b: u64) -> (r: u64)
    ensures
        r == double_remainder(a, b),
{
    (Double::from_bits(a as u128) % Double::from_bits(b as u128)).value.to_bits() as u64
}

/// `FromStr::from_str` of `rustc_apfloat::ieee::Double` on a decimal literal:
/// the nearest binary64 value, ties to even, as its 64-bit pattern. On text
/// of digits and at most one point the parser meets none of its error
/// returns, which are for an empty text, a second point, a missing digit and
/// a character that is neither; so the result is there to unwrap.
#[verifier::external_body]
pub(crate) fn parse_double(text: &str) -> (r: u64)
    requires
        is_decimal_literal(text@),
    ensures
        r == double_from_decimal(text@),
{
    text.parse::<Double>().unwrap().to_bits() as u64
}

/// Unary minus: flips the sign bit, of a NaN too.
pub fn negate(bits: u64) -> (r: u64)
    ensures
        r == negated(bits),
{
    if bits >= SIGN_BIT {
        bits - SIGN_BIT
    } else {
        bits + SIGN_BIT
    }
}

/// Whether the pattern is a NaN.
pub fn is_not_a_number(bits: u64) -> (r: bool)
    ensures
        r == is_nan(bits),
{
    let mag: u64 = if bits >= SIGN_BIT {
        bits - SIGN_BIT
    } else {
        bits
    };
    mag > INFINITY_BITS
}

/// The order key of a pattern, in a type wide enough for both signs.
fn key_of(bits: u64) -> (k: i128)
    ensures
        k == order_key(bits),
{
    if bits >= SIGN_BIT {
        -((bits - SIGN_BIT) as i128)
    } else {
        bits as i128
    }
}

/// `a < b` on binary64.
pub fn is_less(a: u64, b: u64) -> (r: bool)
    ensures
        r == less(a, b),
{
    !is_not_a_number(a) && !is_not_a_number(b) && key_of(a) < key_of(b)
}

/// `a <= b` on binary64.
pub fn is_less_or_same(a: u64, b: u64) -> (r: bool)
    ensures
        r == (less(a, b) || same(a, b)),
{
    !is_not_a_number(a) && !is_not_a_number(b) && key_of(a) <= key_of(b)
}

/// `a == b` on binary64.
pub fn is_same(a: u64, b: u64) -> (r: bool)
    ensures
        r == same(a, b),
{
    !is_not_a_number(a) && !is_not_a_number(b) && key_of(a) == key_of(b)
}

} // verus!
