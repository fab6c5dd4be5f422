//! Trusted access to `num_bigint::BigInt`.
//!
//! The type is declared opaque; `big_value` names the integer a `BigInt`
//! holds, and each wrapper states over it what the one `num_bigint`
//! operation in its body computes. Everything else in the crate is verified
//! against these contracts.

use vstd::prelude::*;
use vstd::arithmetic::power::pow;
use vstd::arithmetic::power2::pow2;
use num_bigint::BigInt;
use num_traits::Euclid;
use crate::arith::{has_inverse, bit_of};

verus! {

/// `num_bigint::BigInt`, visible to the verifier only as an opaque value.
#[verifier::external_type_specification]
#[verifier::external_body]
pub struct ExBigInt(BigInt);

/// The integer that a `BigInt` holds.
pub uninterp spec fn big_value(v: BigInt) -> int;

/// Relies on `BigInt: From<i64>`: the result holds exactly the given value.
#[verifier::external_body]
pub(crate) fn big_from_i64(v: i64) -> (r: BigInt)
    ensures
        big_value(r) == v as int,
{
    BigInt::from(v)
}

/// Relies on `BigInt: PartialEq`: sign and magnitude are canonical, so
/// `==` decides equality of the held integers.
#[verifier::external_body]
pub(crate) fn big_eq(a: &BigInt, b: &BigInt) -> (r: bool)
    ensures
        r == (big_value(*a) == big_value(*b)),
{
    a == b
}

/// Relies on `BigInt: Ord`: comparison orders the held integers.
#[verifier::external_body]
pub(crate) fn big_gt(a: &BigInt, b: &BigInt) -> (r: bool)
    ensures
        r == (big_value(*a) > big_value(*b)),
{
    a > b
}

/// Relies on `BigInt: Clone`: the clone holds the same integer.
#[verifier::external_body]
pub(crate) fn big_clone(a: &BigInt) -> (r: BigInt)
    ensures
        big_value(r) == big_value(*a),
{
    a.clone()
}

/// Relies on `Add for &BigInt`: exact arbitrary-precision addition.
#[verifier::external_body]
pub(crate) fn big_add(a: &BigInt, b: &BigInt) -> (r: BigInt)
    ensures
        big_value(r) == big_value(*a) + big_value(*b),
{
    a + b
}

/// Relies on `Sub for &BigInt`: exact arbitrary-precision subtraction.
#[verifier::external_body]
pub(crate) fn big_sub(a: &BigInt, b: &BigInt) -> (r: BigInt)
    ensures
        big_value(r) == big_value(*a) - big_value(*b),
{
    a - b
}

/// Relies on `Mul for &BigInt`: exact arbitrary-precision multiplication.
#[verifier::external_body]
pub(crate) fn big_mul(a: &BigInt, b: &BigInt) -> (r: BigInt)
    ensures
        big_value(r) == big_value(*a) * big_value(*b),
{
    a * b
}

/// Relies on `Div for &BigInt`: truncating division, which on a
/// non-negative dividend and positive divisor is Euclidean division.
#[verifier::external_body]
pub(crate) fn big_div(a: &BigInt, b: &BigInt) -> (r: BigInt)
    requires
        big_value(*a) >= 0,
        big_value(*b) > 0,
    ensures
        big_value(r) == big_value(*a) / big_value(*b),
{
    a / b
}

/// Relies on `Euclid::rem_euclid for BigInt`: for a positive modulus the
/// result is the remainder in `[0, m)`.
#[verifier::external_body]
pub(crate) fn big_rem_euclid(a: &BigInt, m: &BigInt) -> (r: BigInt)
    requires
        big_value(*m) > 0,
    ensures
        big_value(r) == big_value(*a) % big_value(*m),
{
    a.rem_euclid(m)
}

/// Relies on `BigInt::modpow`: for a non-negative exponent and positive
/// modulus it returns `base^exp mod m`, normalized into `[0, m)`.
#[verifier::external_body]
pub(crate) fn big_modpow(base: &BigInt, exp: &BigInt, m: &BigInt) -> (r: BigInt)
    requires
        big_value(*exp) >= 0,
        big_value(*m) > 0,
    ensures
        big_value(r) == pow(big_value(*base), big_value(*exp) as nat) % big_value(*m),
{
    base.modpow(exp, m)
}

/// Relies on `BigInt::modinv`: for a modulus of at least 2 it returns the
/// inverse in `[0, m)` exactly when `gcd(v, m) == 1`, that is, exactly when
/// an inverse exists.
#[verifier::external_body]
pub(crate) fn big_modinv(v: &BigInt, m: &BigInt) -> (r: Option<BigInt>)
    requires
        big_value(*m) >= 2,
    ensures
        match r {
            Some(w) => 0 <= big_value(w) < big_value(*m) && (big_value(*v) * big_value(w))
                % big_value(*m) == 1,
            None => !has_inverse(big_value(*v), big_value(*m)),
        },
{
    v.modinv(m)
}

/// Relies on `BigInt::bit`: on a non-negative value it reads the magnitude's
/// binary digit at the given position.
#[verifier::external_body]
pub(crate) fn big_bit(v: &BigInt, i: u64) -> (r: bool)
    requires
        big_value(*v) >= 0,
    ensures
        r == bit_of(big_value(*v), i as nat),
{
    v.bit(i)
}

/// Relies on `BigInt::bits`: the fewest bits needed for the magnitude, so on
/// a positive value the bit length `r` with `2^(r-1) <= v < 2^r`, and 0 on 0.
#[verifier::external_body]
pub(crate) fn big_bits(v: &BigInt) -> (r: u64)
    requires
        big_value(*v) >= 0,
    ensures
        big_value(*v) == 0 ==> r == 0,
        big_value(*v) > 0 ==> 1 <= r && pow2((r - 1) as nat) <= big_value(*v) < pow2(r as nat),
{
    v.bits()
}

} // verus!
