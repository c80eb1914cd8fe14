//! Scalar energy arithmetic.
//!
//! An energy is an IEEE-754 single-precision number carried as its raw
//! 32-bit pattern, so that verified code can store, compare and route
//! energies while the floating-point operations themselves run behind
//! trusted wrappers.  Each wrapper's result is given a name by an
//! uninterpreted spec function of the operand patterns: the operations are
//! deterministic functions of their operands, and every contract in the
//! crate speaks of those names, never of an approximation.
//!
//! Negation and absolute value are the two operations the format defines as
//! plain bit manipulations (flip or clear the sign bit), so they are
//! implemented and specified directly here, with no trust involved.

use vstd::prelude::*;
use rustc_apfloat::Float;
use rustc_apfloat::ieee::Single;

verus! {

/// An energy scalar: the raw bit pattern of an IEEE-754 single-precision value.
pub type Energy = u32;

/// Bit pattern of `0.0`.
pub const ZERO: Energy = 0x0000_0000;

/// Bit pattern of `1.0`.
pub const ONE: Energy = 0x3f80_0000;

/// Bit pattern of `-1.0`.
pub const NEG_ONE: Energy = 0xbf80_0000;

/// Bit pattern of `2.0`.
pub const TWO: Energy = 0x4000_0000;

/// Bit pattern of `0.5`.
pub const HALF: Energy = 0x3f00_0000;

/// Bit pattern of `-0.5`.
pub const NEG_HALF: Energy = 0xbf00_0000;

/// Bit pattern of `-1/3`, rounded to single precision.
pub const NEG_THIRD: Energy = 0xbeaa_aaab;

/// Bit pattern of the single-precision machine epsilon, `2^-23`.
pub const EPSILON: Energy = 0x3400_0000;

/// Bit pattern of `2^-24`, the scale that turns 24 random bits into a
/// uniform value in `[0, 1)`.
pub const UNIT_SCALE: Energy = 0x3380_0000;

/// The sign bit of the single-precision format.
pub const SIGN_BIT: Energy = 0x8000_0000;

/// The sum of two energies, rounded to nearest, ties to even.
pub uninterp spec fn sum_of(a: Energy, b: Energy) -> Energy;

/// The difference `a - b`, rounded to nearest, ties to even.
pub uninterp spec fn diff_of(a: Energy, b: Energy) -> Energy;

/// The product of two energies, rounded to nearest, ties to even.
pub uninterp spec fn prod_of(a: Energy, b: Energy) -> Energy;

/// The quotient `a / b`, rounded to nearest, ties to even.
pub uninterp spec fn quot_of(a: Energy, b: Energy) -> Energy;

/// The base-e exponential of an energy.
pub uninterp spec fn exp_of(a: Energy) -> Energy;

/// `a` raised to the power `b`.
pub uninterp spec fn pow_of(a: Energy, b: Energy) -> Energy;

/// Whether `a < b` in the IEEE-754 partial order.
pub uninterp spec fn is_lt(a: Energy, b: Energy) -> bool;

/// Whether `a <= b` in the IEEE-754 partial order.
pub uninterp spec fn is_le(a: Energy, b: Energy) -> bool;

/// Whether `a == b` as IEEE-754 values (so both zeros are equal).
pub uninterp spec fn is_eq(a: Energy, b: Energy) -> bool;

/// The nearest single-precision value to the integer `x`.
pub uninterp spec fn float_of(x: u64) -> Energy;

/// The negation of an energy: the same value with the sign flipped.
pub open spec fn neg_of(a: Energy) -> Energy {
    a ^ SIGN_BIT
}

/// The absolute value of an energy: the same value with the sign cleared.
pub open spec fn abs_of(a: Energy) -> Energy {
    a & !SIGN_BIT
}

/// Relies on `rustc_apfloat::ieee::Single`: correctly rounded IEEE-754
/// single-precision addition of the two bit patterns.
#[verifier::external_body]
pub(crate) fn add_energy(a: Energy, b: Energy) -> (r: Energy)
    ensures
        r == sum_of(a, b),
{
    (Single::from_bits(a as u128) + Single::from_bits(b as u128)).value.to_bits() as u32
}

/// Relies on `rustc_apfloat::ieee::Single`: correctly rounded IEEE-754
/// single-precision subtraction of the two bit patterns.
#[verifier::external_body]
pub(crate) fn sub_energy(a: Energy, b: Energy) -> (r: Energy)
    ensures
        r == diff_of(a, b),
{
    (Single::from_bits(a as u128) - Single::from_bits(b as u128)).value.to_bits() as u32
}

/// Relies on `rustc_apfloat::ieee::Single`: correctly rounded IEEE-754
/// single-precision multiplication of the two bit patterns.
#[verifier::external_body]
pub(crate) fn mul_energy(a: Energy, b: Energy) -> (r: Energy)
    ensures
        r == prod_of(a, b),
{
    (Single::from_bits(a as u128) * Single::from_bits(b as u128)).value.to_bits() as u32
}

/// Relies on `rustc_apfloat::ieee::Single`: correctly rounded IEEE-754
/// single-precision division of the two bit patterns.
#[verifier::external_body]
pub(crate) fn div_energy(a: Energy, b: Energy) -> (r: Energy)
    ensures
        r == quot_of(a, b),
{
    (Single::from_bits(a as u128) / Single::from_bits(b as u128)).value.to_bits() as u32
}

/// Relies on `libm::expf`: the single-precision exponential, a deterministic
/// function of the argument's bit pattern; `bytemuck::cast` reinterprets the
/// pattern as a float and back.
#[verifier::external_body]
pub(crate) fn exp_energy(a: Energy) -> (r: Energy)
    ensures
        r == exp_of(a),
{
    bytemuck::cast(libm::expf(bytemuck::cast(a)))
}

/// Relies on `libm::powf`: the single-precision power function, a
/// deterministic function of the arguments' bit patterns; `bytemuck::cast`
/// reinterprets the patterns as floats and back.
#[verifier::external_body]
pub(crate) fn pow_energy(a: Energy, b: Energy) -> (r: Energy)
    ensures
        r == pow_of(a, b),
{
    bytemuck::cast(libm::powf(bytemuck::cast(a), bytemuck::cast(b)))
}

/// Relies on `rustc_apfloat::ieee::Single`: the IEEE-754 `<` comparison of
/// the two bit patterns (false whenever either operand is a NaN).
#[verifier::external_body]
pub(crate) fn lt_energy(a: Energy, b: Energy) -> (r: bool)
    ensures
        r == is_lt(a, b),
{
    Single::from_bits(a as u128) < Single::from_bits(b as u128)
}

/// Relies on `rustc_apfloat::ieee::Single`: the IEEE-754 `<=` comparison of
/// the two bit patterns (false whenever either operand is a NaN).
#[verifier::external_body]
pub(crate) fn le_energy(a: Energy, b: Energy) -> (r: bool)
    ensures
        r == is_le(a, b),
{
    Single::from_bits(a as u128) <= Single::from_bits(b as u128)
}

/// Relies on `rustc_apfloat::ieee::Single`: the IEEE-754 `==` comparison of
/// the two bit patterns (both zeros are equal; NaN equals nothing).
#[verifier::external_body]
pub(crate) fn eq_energy(a: Energy, b: Energy) -> (r: bool)
    ensures
        r == is_eq(a, b),
{
    Single::from_bits(a as u128) == Single::from_bits(b as u128)
}

/// Relies on `rustc_apfloat::ieee::Single`: conversion of an unsigned
/// integer to the nearest single-precision value (ties to even).
#[verifier::external_body]
pub(crate) fn energy_of_u64(x: u64) -> (r: Energy)
    ensures
        r == float_of(x),
{
    Single::from_u128(x as u128).value.to_bits() as u32
}

/// Negates an energy by flipping its sign bit.
pub(crate) fn neg_energy(a: Energy) -> (r: Energy)
    ensures
        r == neg_of(a),
{
    a ^ SIGN_BIT
}

/// Takes the absolute value of an energy by clearing its sign bit.
pub(crate) fn abs_energy(a: Energy) -> (r: Energy)
    ensures
        r == abs_of(a),
{
    a & !SIGN_BIT
}

} // verus!
