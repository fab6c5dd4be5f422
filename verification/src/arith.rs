//! Ghost-level modular arithmetic: modular inverses, bits of a scalar, and
//! the congruence lemmas the group law needs.

use vstd::prelude::*;
use vstd::arithmetic::div_mod::{
    lemma_small_mod, lemma_mod_multiples_vanish, lemma_sub_mod_noop, lemma_mul_mod_noop_right,
};
use vstd::arithmetic::mul::{lemma_mul_is_associative, lemma_mul_is_commutative};
use vstd::arithmetic::power::pow;
use vstd::arithmetic::power2::pow2;

verus! {

/// Holds when `d` has a multiplicative inverse modulo `p`.
pub open spec fn has_inverse(d: int, p: int) -> bool {
    exists|w: int| 0 <= w < p && #[trigger] ((d * w) % p) == 1
}

/// The multiplicative inverse of `d` modulo `p`, normalized into `[0, p)`.
/// Meaningful only when `has_inverse(d, p)` holds; it is then unique.
pub open spec fn inverse_mod(d: int, p: int) -> int {
    choose|w: int| 0 <= w < p && #[trigger] ((d * w) % p) == 1
}

/// Bit `i` of the binary expansion of a non-negative integer `k`.
pub open spec fn bit_of(k: int, i: nat) -> bool {
    (k / pow2(i) as int) % 2 == 1
}

/// A modular inverse is unique within `[0, p)`: any witness equals
/// `inverse_mod(d, p)`.
pub proof fn lemma_inverse_unique(d: int, p: int, w: int)
    requires
        p > 0,
        0 <= w < p,
        (d * w) % p == 1,
    ensures
        has_inverse(d, p),
        inverse_mod(d, p) == w,
{
    assert(has_inverse(d, p));
    let v = inverse_mod(d, p);
    assert(0 <= v < p && (d * v) % p == 1);
    lemma_small_mod(w as nat, p as nat);
    lemma_mul_mod_noop_right(w, d * v, p);
    assert((w * ((d * v) % p)) % p == (w * (d * v)) % p);
    assert(w * ((d * v) % p) == w);
    lemma_small_mod(v as nat, p as nat);
    lemma_mul_mod_noop_right(v, d * w, p);
    assert((v * ((d * w) % p)) % p == (v * (d * w)) % p);
    assert(v * ((d * w) % p) == v);
    lemma_mul_is_associative(w, d, v);
    lemma_mul_is_associative(v, d, w);
    lemma_mul_is_commutative(w, d);
    lemma_mul_is_commutative(v, d);
    lemma_mul_is_commutative(w * d, v);
    assert(w * (d * v) == v * (d * w)) by {
        assert(w * (d * v) == (w * d) * v);
        assert(v * (d * w) == (v * d) * w);
        assert((v * d) * w == (d * v) * w);
        lemma_mul_is_commutative(d * v, w);
        assert((d * v) * w == w * (d * v));
        assert((w * d) * v == (d * w) * v);
        lemma_mul_is_commutative(d * w, v);
    }
    assert(w == (w * (d * v)) % p);
    assert(v == (v * (d * w)) % p);
}

/// Negating `d` negates its inverse modulo `p`: the inverse of `-d` is
/// `p - inverse_mod(d, p)`.
pub proof fn lemma_inverse_negate(d: int, p: int)
    requires
        p > 0,
        has_inverse(d, p),
    ensures
        has_inverse(-d, p),
        inverse_mod(-d, p) == p - inverse_mod(d, p),
{
    let w = inverse_mod(d, p);
    assert(0 <= w < p && (d * w) % p == 1);
    assert(w != 0) by {
        if w == 0 {
            assert(d * 0 == 0);
            lemma_small_mod(0nat, p as nat);
        }
    }
    assert((-d) * (p - w) == p * (-d) + d * w) by (nonlinear_arith);
    lemma_mod_multiples_vanish(-d, d * w, p);
    assert((p * (-d) + d * w) % p == (d * w) % p);
    lemma_inverse_unique(-d, p, p - w);
}

/// Two integers congruent modulo `p` stay congruent after subtracting the
/// same value.
pub proof fn lemma_congruent_sub(a1: int, a2: int, b: int, p: int)
    requires
        p > 0,
        a1 % p == a2 % p,
    ensures
        (a1 - b) % p == (a2 - b) % p,
{
    lemma_sub_mod_noop(a1, b, p);
    lemma_sub_mod_noop(a2, b, p);
}

/// `pow` at the small exponents the curve equation uses.
pub proof fn lemma_pow_small(b: int)
    ensures
        pow(b, 2) == b * b,
        pow(b, 3) == b * b * b,
{
    reveal_with_fuel(pow, 4);
    lemma_mul_is_associative(b, b, 1);
    assert(pow(b, 2) == b * (b * 1));
    assert(pow(b, 3) == b * (b * (b * 1)));
    lemma_mul_is_associative(b, b, b * 1);
}

} // verus!
