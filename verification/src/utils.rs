//! Modular square roots, for the point-compression codec.

use vstd::prelude::*;
use vstd::arithmetic::power::pow;
use num_bigint::BigInt;
use crate::bignum::{
    big_value, big_from_i64, big_eq, big_gt, big_add, big_div, big_rem_euclid, big_modpow,
};

verus! {

/// The candidate square root that the closed form yields for a prime
/// `p == 3 (mod 4)`: `v^((p+1)/4) mod p`.
pub open spec fn sqrt_candidate(v: int, p: int) -> int {
    pow(v, (((p + 1) / 4)) as nat) % p
}

/// Modular square root by the closed form for moduli `== 3 (mod 4)`:
/// returns `square^((modulus+1)/4) mod modulus`, and `None` for any other
/// modulus. The candidate is not checked to square back to `square`;
/// callers re-validate, e.g. through the curve membership check.
pub fn modsqrt(square: &BigInt, modulus: &BigInt) -> (r: Option<BigInt>)
    ensures
        match r {
            Some(root) => big_value(*modulus) > 0 && big_value(*modulus) % 4 == 3 && big_value(
                root,
            ) == sqrt_candidate(big_value(*square), big_value(*modulus)),
            None => !(big_value(*modulus) > 0 && big_value(*modulus) % 4 == 3),
        },
{
    let zero = big_from_i64(0);
    let four = big_from_i64(4);
    let three = big_from_i64(3);
    if big_gt(modulus, &zero) && big_eq(&big_rem_euclid(modulus, &four), &three) {
        let one = big_from_i64(1);
        let e = big_div(&big_add(modulus, &one), &four);
        Some(big_modpow(square, &e, modulus))
    } else {
        None
    }
}

} // verus!
