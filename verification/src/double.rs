//! IEEE 754 double-precision numbers, by their encodings.
//!
//! An encoding holds, from the highest bit down, one bit for the sign, 11 for the exponent and 52
//! for the fraction. The library compares and classifies numbers by their encodings; it does not
//! calculate with them.
use vstd::arithmetic::power2::{
    lemma2_to64, lemma2_to64_rest, lemma_pow2_adds, lemma_pow2_pos, lemma_pow2_strictly_increases,
    lemma_pow2_unfold, pow2,
};
use vstd::prelude::*;

verus! {

/// The largest length that JavaScript allows for an array.
pub const MAXIMUM_ARRAY_LENGTH: u32 = 4_294_967_295;

/// The encoding of `NaN`. There are others; none of them is told apart.
pub const NAN: u64 = 0x7ff8_0000_0000_0000;

/// The encoding of `Infinity`.
pub const INFINITY: u64 = 0x7ff0_0000_0000_0000;

/// The exponent in an encoding. 2047 marks an infinity or a value that is not a number.
pub open spec fn exponent(bits: u64) -> nat {
    (bits / 0x10_0000_0000_0000 % 0x800) as nat
}

/// The fraction in an encoding.
pub open spec fn fraction(bits: u64) -> nat {
    (bits % 0x10_0000_0000_0000) as nat
}

pub open spec fn is_nan(bits: u64) -> bool {
    exponent(bits) == 2047 && fraction(bits) != 0
}

pub open spec fn is_infinite(bits: u64) -> bool {
    exponent(bits) == 2047 && fraction(bits) == 0
}

/// Whether the number is 1 or -1.
pub open spec fn is_plus_or_minus_one(bits: u64) -> bool {
    exponent(bits) == 1023 && fraction(bits) == 0
}

/// The significand of a finite number: a number with exponent 0 has no implicit leading bit.
pub open spec fn significand(bits: u64) -> nat {
    if exponent(bits) == 0 {
        fraction(bits)
    } else {
        0x10_0000_0000_0000 + fraction(bits)
    }
}

/// The magnitude of a finite number is its significand times two to the power of this less 1075.
pub open spec fn scale(bits: u64) -> nat {
    if exponent(bits) == 0 {
        1
    } else {
        exponent(bits)
    }
}

/// Whether the number is `n`. Both zeros are 0.
pub open spec fn denotes(bits: u64, n: nat) -> bool {
    &&& exponent(bits) < 2047
    &&& bits >= 0x8000_0000_0000_0000 ==> significand(bits) == 0
    &&& significand(bits) * pow2(scale(bits)) == n * pow2(1075)
}

/// Whether the number is an integer that JavaScript allows as the length of an array.
pub open spec fn array_length(bits: u64) -> bool {
    exists|n: nat| n <= MAXIMUM_ARRAY_LENGTH && #[trigger] denotes(bits, n)
}

/// Whether the right operand of `left ** right` is not a number, or is infinite where the left one
/// is 1 or -1. JavaScript gives `NaN` then.
pub open spec fn power_is_undefined(left: u64, right: u64) -> bool {
    is_nan(right) || (is_plus_or_minus_one(left) && is_infinite(right))
}

/// Whether JavaScript gives `NaN` for `left ** right` by a rule of its own, as for `1 ** NaN` and
/// `1 ** Infinity`, where other power functions give 1.
pub fn power_is_nan(left: u64, right: u64) -> (r: bool)
    ensures
        r == power_is_undefined(left, right),
{
    let left_exponent: u64 = left / 0x10_0000_0000_0000 % 0x800;
    let left_fraction: u64 = left % 0x10_0000_0000_0000;
    let right_exponent: u64 = right / 0x10_0000_0000_0000 % 0x800;
    let right_fraction: u64 = right % 0x10_0000_0000_0000;
    right_exponent == 2047 && (right_fraction != 0 || (left_exponent == 1023 && left_fraction == 0))
}

/// A common power of two can be divided out of both sides of an equation.
pub(crate) proof fn power_cancels(left: nat, right: nat, low: nat, difference: nat)
    ensures
        (left * pow2(low) == right * pow2(low + difference)) == (left == right * pow2(difference)),
{
    lemma_pow2_adds(low, difference);
    lemma_pow2_pos(low);
    let common = pow2(low) as int;
    let product = right * pow2(difference);
    assert(right * (pow2(low) * pow2(difference)) == (right * pow2(difference)) * pow2(low))
        by (nonlinear_arith);
    assert((left * common == product * common) == (left == product)) by (nonlinear_arith)
        requires
            common > 0,
    ;
}

/// A significand is no multiple of a power of two that is larger than it.
pub(crate) proof fn small_number_is_no_integer(significand: nat, n: nat, difference: nat)
    requires
        0 < significand < 0x20_0000_0000_0000,
        53 <= difference,
    ensures
        significand != n * pow2(difference),
{
    lemma2_to64_rest();
    if difference > 53 {
        lemma_pow2_strictly_increases(53, difference);
    }
    if n > 0 {
        assert(n * pow2(difference) >= pow2(difference)) by (nonlinear_arith)
            requires
                n > 0,
        ;
    }
}

/// A number of 2^32 or more is no length of an array.
pub(crate) proof fn large_number_is_no_length(bits: u64, n: nat)
    requires
        1054 < exponent(bits) < 2047,
        n <= MAXIMUM_ARRAY_LENGTH,
    ensures
        !denotes(bits, n),
{
    lemma2_to64();
    lemma2_to64_rest();
    let factor = significand(bits);
    if exponent(bits) <= 1075 {
        let difference = (1075 - exponent(bits)) as nat;
        power_cancels(factor, n, exponent(bits), difference);
        if difference < 20 {
            lemma_pow2_strictly_increases(difference, 20);
        }
        assert(n * pow2(difference) <= 0xffff_ffff * 0x10_0000) by (nonlinear_arith)
            requires
                n <= 0xffff_ffff,
                pow2(difference) <= 0x10_0000,
        ;
    } else {
        let difference = (exponent(bits) - 1075) as nat;
        power_cancels(n, factor, 1075, difference);
        lemma_pow2_pos(difference);
        assert(factor * pow2(difference) >= factor) by (nonlinear_arith)
            requires
                pow2(difference) > 0,
        ;
    }
}

/// The encoding of the negated number: the sign changes, and nothing else.
pub open spec fn negated(bits: u64) -> u64 {
    if bits < 0x8000_0000_0000_0000 {
        (bits + 0x8000_0000_0000_0000) as u64
    } else {
        (bits - 0x8000_0000_0000_0000) as u64
    }
}

pub fn negate(bits: u64) -> (r: u64)
    ensures
        r == negated(bits),
{
    if bits < 0x8000_0000_0000_0000 {
        bits + 0x8000_0000_0000_0000
    } else {
        bits - 0x8000_0000_0000_0000
    }
}

/// Negation keeps the magnitude, and negating twice gives the number back.
pub proof fn negation_keeps_the_magnitude(bits: u64)
    ensures
        exponent(negated(bits)) == exponent(bits),
        fraction(negated(bits)) == fraction(bits),
        negated(negated(bits)) == bits,
{
}

/// The negation of a positive number is no array length.
pub proof fn negative_number_is_no_length(bits: u64)
    requires
        0 < bits < 0x8000_0000_0000_0000,
    ensures
        !array_length(negated(bits)),
{
    negation_keeps_the_magnitude(bits);
    assert(significand(negated(bits)) != 0 || exponent(negated(bits)) == 2047);
    assert forall|n: nat| n <= MAXIMUM_ARRAY_LENGTH implies !#[trigger] denotes(
        negated(bits),
        n,
    ) by {}
}

/// `NaN`, `Infinity` and `-Infinity` are no array lengths.
pub proof fn special_values_are_no_lengths()
    ensures
        is_nan(NAN),
        is_infinite(INFINITY),
        !array_length(NAN),
        !array_length(negated(NAN)),
        !array_length(INFINITY),
        !array_length(negated(INFINITY)),
{
}

/// Two to the power of `power`.
fn power_of_two(power: u64) -> (r: u64)
    requires
        power <= 52,
    ensures
        r == pow2(power as nat),
        r > 0,
{
    proof {
        lemma2_to64_rest();
        lemma2_to64();
    }
    let mut i: u64 = 0;
    let mut r: u64 = 1;
    while i < power
        invariant
            i <= power <= 52,
            r == pow2(i as nat),
            r > 0,
            pow2(52) == 0x10_0000_0000_0000,
        decreases power - i,
    {
        proof {
            lemma_pow2_strictly_increases(i as nat, 52);
            lemma_pow2_unfold((i + 1) as nat);
        }
        r = r * 2;
        i = i + 1;
    }
    r
}

/// Whether JavaScript allows an array of this length: an integer from 0 to
/// [`MAXIMUM_ARRAY_LENGTH`].
pub fn is_array_length(bits: u64) -> (r: bool)
    ensures
        r == array_length(bits),
{
    let exponent: u64 = bits / 0x10_0000_0000_0000 % 0x800;
    let fraction: u64 = bits % 0x10_0000_0000_0000;
    let ghost factor = significand(bits);
    if exponent == 0 {
        proof {
            if fraction == 0 {
                assert(denotes(bits, 0));
            } else {
                assert forall|n: nat| n <= MAXIMUM_ARRAY_LENGTH implies !#[trigger] denotes(
                    bits,
                    n,
                ) by {
                    power_cancels(factor, n, 1, 1074);
                    small_number_is_no_integer(factor, n, 1074);
                }
            }
        }
        return fraction == 0;
    }
    if bits >= 0x8000_0000_0000_0000 || exponent == 2047 {
        return false;
    }
    if exponent < 1023 {
        proof {
            assert forall|n: nat| n <= MAXIMUM_ARRAY_LENGTH implies !#[trigger] denotes(
                bits,
                n,
            ) by {
                let difference = (1075 - exponent) as nat;
                power_cancels(factor, n, exponent as nat, difference);
                small_number_is_no_integer(factor, n, difference);
            }
        }
        return false;
    }
    if exponent > 1054 {
        proof {
            assert forall|n: nat| n <= MAXIMUM_ARRAY_LENGTH implies !#[trigger] denotes(
                bits,
                n,
            ) by {
                large_number_is_no_length(bits, n);
            }
        }
        return false;
    }
    let unit: u64 = power_of_two(1075 - exponent);
    let value: u64 = 0x10_0000_0000_0000 + fraction;
    proof {
        let difference = (1075 - exponent) as nat;
        let quotient = (value / unit) as nat;
        lemma2_to64();
        if difference > 21 {
            lemma_pow2_strictly_increases(21, difference);
        }
        assert(value == quotient * unit + value % unit && quotient <= 0xffff_ffff)
            by (nonlinear_arith)
            requires
                quotient == value / unit,
                value < 0x20_0000_0000_0000,
                unit >= 0x20_0000,
        ;
        power_cancels(factor, quotient, exponent as nat, difference);
        if value % unit == 0 {
            assert(denotes(bits, quotient));
        } else {
            assert forall|n: nat| n <= MAXIMUM_ARRAY_LENGTH implies !#[trigger] denotes(
                bits,
                n,
            ) by {
                power_cancels(factor, n, exponent as nat, difference);
                if factor == n * pow2(difference) {
                    assert(value % unit == 0) by (nonlinear_arith)
                        requires
                            value == n * unit,
                            unit > 0,
                    ;
                }
            }
        }
    }
    value % unit == 0
}

} // verus!
