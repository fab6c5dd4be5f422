//! The algebraic laws of the group law, proved over the models that the
//! operations' contracts speak of: identity, inverses, commutativity,
//! scalar-multiplication base cases, compression round trips and curve
//! mismatch rejection.

use vstd::prelude::*;
use vstd::arithmetic::div_mod::{
    lemma_mod_bound, lemma_mod_self_0, lemma_small_mod, lemma_mod_mod, lemma_sub_mod_noop,
    lemma_mod_multiples_vanish, lemma_mul_mod_noop_left, lemma_mul_mod_noop_right,
    lemma_mod_equivalence,
};
use vstd::arithmetic::power::pow;
use crate::arith::{has_inverse, inverse_mod, lemma_inverse_negate, lemma_congruent_sub};
use crate::curve::CurveModel;
use crate::point::{
    PointModel, EcError, inf_model, affine_model, spec_add, spec_mul, spec_decompress,
};
use crate::utils::sqrt_candidate;

verus! {

/// Identity: adding the point at infinity of a point's own curve, on either
/// side, returns the point unchanged.
pub proof fn lemma_add_identity(pm: PointModel, c: CurveModel)
    requires
        pm.curve() == c,
    ensures
        spec_add(pm, inf_model(c)) == Ok::<PointModel, EcError>(pm),
        spec_add(inf_model(c), pm) == Ok::<PointModel, EcError>(pm),
{
}

/// Inverse: a finite point `(x, y)` with `0 < y < p` plus the opposite
/// point `(x, p - y)` on the same curve is the point at infinity.
pub proof fn lemma_add_inverse(c: CurveModel, x: int, y: int)
    requires
        c.wf(),
        0 < y < c.p,
    ensures
        spec_add(affine_model(c, x, y), affine_model(c, x, c.p - y)) == Ok::<
            PointModel,
            EcError,
        >(inf_model(c)),
{
    lemma_mod_self_0(c.p);
    assert((c.p - y) + y == c.p);
}

/// Curve mismatch rejection: adding points tied to distinct curve
/// descriptors fails with `CurveMismatch`.
pub proof fn lemma_curve_mismatch(pm: PointModel, qm: PointModel)
    requires
        pm.curve() != qm.curve(),
    ensures
        spec_add(pm, qm) == Err::<PointModel, EcError>(EcError::CurveMismatch),
{
}

/// Commutativity: addition of valid points on one curve does not depend on
/// the order of its operands, errors included. Excluded are only pairs with
/// equal `x` whose `y` coordinates are neither equal nor opposite modulo
/// `p`; on a curve over a true prime field no two valid points form such a
/// pair, but a composite modulus admits them and there the two orders can
/// use different tangent slopes.
pub proof fn lemma_add_commutes(pm: PointModel, qm: PointModel)
    requires
        pm.wf(),
        qm.wf(),
        pm.curve() == qm.curve(),
        !(pm is Affine && qm is Affine && pm.x() == qm.x() && pm.y() != qm.y() && (qm.y()
            + pm.y()) % pm.curve().p != 0),
    ensures
        spec_add(pm, qm) == spec_add(qm, pm),
{
    let c = pm.curve();
    let p = c.p;
    if pm is Affine && qm is Affine {
        let x1 = pm.x();
        let y1 = pm.y();
        let x2 = qm.x();
        let y2 = qm.y();
        if x1 == x2 {
            if (y2 + y1) % p != 0 {
                // only the equal-point case remains
                assert(y1 == y2);
                assert(pm == qm);
            }
        } else {
            let d = x2 - x1;
            let u = y2 - y1;
            if !has_inverse(d, p) {
                // then the reversed denominator has no inverse either
                if has_inverse(x1 - x2, p) {
                    lemma_inverse_negate(x1 - x2, p);
                    assert(-(x1 - x2) == d);
                }
            } else {
                lemma_inverse_negate(d, p);
                let w = inverse_mod(d, p);
                assert(0 <= w < p && (d * w) % p == 1);
                assert(has_inverse(x1 - x2, p) && inverse_mod(x1 - x2, p) == p - w) by {
                    assert(x1 - x2 == -d);
                }
                let m1 = (u * w) % p;
                let m2 = ((y1 - y2) * (p - w)) % p;
                assert(m2 == m1) by {
                    assert((y1 - y2) * (p - w) == p * (y1 - y2) + u * w) by (nonlinear_arith)
                        requires
                            u == y2 - y1,
                    ;
                    lemma_mod_multiples_vanish(y1 - y2, u * w, p);
                }
                let xr = (m1 * m1 - x1 - x2) % p;
                assert((m1 * m1 - x2 - x1) % p == xr);
                let yr1 = (m1 * (x1 - xr) - y1) % p;
                let yr2 = (m1 * (x2 - xr) - y2) % p;
                assert(yr1 == yr2) by {
                    // the two numerators differ by m1*(x1 - x2) - (y1 - y2),
                    // which is divisible by p since m1*(x2 - x1) == y2 - y1 (mod p)
                    lemma_mul_mod_noop_left(u * w, x1 - x2, p);
                    assert((m1 * (x1 - x2)) % p == ((u * w) * (x1 - x2)) % p);
                    lemma_congruent_sub(m1 * (x1 - x2), (u * w) * (x1 - x2), y1 - y2, p);
                    assert(((u * w) * (x1 - x2)) - (y1 - y2) == (-u) * (d * w - 1))
                        by (nonlinear_arith)
                        requires
                            d == x2 - x1,
                            u == y2 - y1,
                    ;
                    assert(((-u) * (d * w - 1)) % p == 0) by {
                        lemma_mod_equivalence(d * w, 1, p);
                        lemma_small_mod(1nat, p as nat);
                        assert((d * w - 1) % p == 0);
                        lemma_mul_mod_noop_right(-u, d * w - 1, p);
                        assert(((-u) * ((d * w - 1) % p)) % p == ((-u) * (d * w - 1)) % p);
                        assert((-u) * 0 == 0);
                        lemma_small_mod(0nat, p as nat);
                    }
                    assert((m1 * (x1 - x2) - (y1 - y2)) % p == 0);
                    assert((m1 * (x1 - xr) - y1) - (m1 * (x2 - xr) - y2) == m1 * (x1 - x2) - (y1
                        - y2)) by (nonlinear_arith);
                    lemma_mod_equivalence(m1 * (x1 - xr) - y1, m1 * (x2 - xr) - y2, p);
                }
            }
        }
    }
}

/// Scalar-multiplication base cases: multiplying by 0 yields the identity,
/// and multiplying by 1 yields the point back, unless the one doubling the
/// loop still performs fails, in which case that failure is the result.
pub proof fn lemma_mul_zero_one(pm: PointModel)
    ensures
        spec_mul(pm, 0) == Ok::<PointModel, EcError>(inf_model(pm.curve())),
        spec_mul(pm, 1) == (match spec_add(pm, pm) {
            Ok(doubled) => Ok::<PointModel, EcError>(pm),
            Err(e) => Err::<PointModel, EcError>(e),
        }),
{
    reveal_with_fuel(crate::point::spec_mul_loop, 3);
    lemma_add_identity(pm, pm.curve());
}

/// Compression round trip: on a curve whose modulus is `3 mod 4`, a valid
/// point `(x, y)` with `y` normalized into `[0, p)` decompresses back from
/// its x coordinate and parity bit, whenever the closed-form square root
/// recovers `y` or `p - y`. Over a true prime modulus it always does, by
/// Euler's criterion; a composite modulus admits points where it does not.
pub proof fn lemma_compression_round_trip(c: CurveModel, x: int, y: int)
    requires
        c.wf(),
        c.p % 4 == 3,
        0 <= y < c.p,
        c.on_curve(x, y),
        sqrt_candidate(x * x * x + c.a * x + c.b, c.p) == y || sqrt_candidate(
            x * x * x + c.a * x + c.b,
            c.p,
        ) == c.p - y,
    ensures
        spec_decompress(c, x, (y % 2) as u8) == Ok::<PointModel, EcError>(affine_model(c, x, y)),
{
    let p = c.p;
    let rhs = x * x * x + c.a * x + c.b;
    let root = sqrt_candidate(rhs, p);
    let is_odd: u8 = (y % 2) as u8;
    lemma_mod_bound(y, 2);
    assert(p % 2 == 1) by {
        lemma_mod_mod(p, 2, 2);
        assert((p % 4) % 2 == p % 2);
    }
    lemma_mod_bound(pow(rhs, (((p + 1) / 4)) as nat), p);
    assert(0 <= root < p);
    if root == y {
        lemma_mod_bound(root, 2);
        assert((root % 2 == 1) == (is_odd == 1));
    } else {
        assert(root == p - y);
        assert(y != 0);
        assert(root % 2 == (1 - y % 2)) by {
            lemma_sub_mod_noop(p, y, 2);
            assert(((p % 2) - (y % 2)) % 2 == (p - y) % 2);
            if y % 2 == 0 {
                lemma_small_mod(1nat, 2nat);
            } else {
                lemma_small_mod(0nat, 2nat);
            }
        }
        assert((root % 2 == 1) != (is_odd == 1));
        assert(p - root == y);
    }
}

} // verus!

