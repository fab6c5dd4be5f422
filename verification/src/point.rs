//! Points on a short Weierstrass curve and the group law: chord-and-tangent
//! addition with every edge case, doubling, the two scalar-multiplication
//! algorithms, and the compression codec.
//!
//! Every operation is specified against the ghost model `PointModel`; the
//! spec functions `spec_add`, `spec_mul` and friends state exactly what each
//! operation returns, success and failure alike.

use vstd::prelude::*;
use vstd::arithmetic::div_mod::{lemma_mod_bound, lemma_mod_twice};
use vstd::arithmetic::power2::{pow2, lemma_pow2_strictly_increases};
use std::rc::Rc;
use num_bigint::BigInt;
use crate::arith::{has_inverse, inverse_mod, bit_of, lemma_inverse_unique, lemma_congruent_sub,
    lemma_pow_small};
use crate::bignum::{
    big_value, big_from_i64, big_eq, big_gt, big_clone, big_add, big_sub, big_mul, big_div,
    big_rem_euclid, big_modpow, big_modinv, big_bit, big_bits,
};
use crate::curve::{Curve, CurveModel, clone_handle};
use crate::utils::{modsqrt, sqrt_candidate};

verus! {

/// The recoverable failures of the arithmetic core. Every operation returns
/// a `Result` naming one of these instead of panicking.
#[derive(Clone, Copy, Debug, PartialEq, Eq, Structural)]
pub enum EcError {
    /// Coordinates failed the curve membership check at construction.
    PointNotOnCurve,
    /// Addition was attempted between points tied to different curves.
    CurveMismatch,
    /// A required denominator is not invertible modulo `p`.
    NoModularInverse,
    /// The Montgomery ladder was given a scalar whose declared bit length
    /// does not match its true bit length.
    InvalidScalarMSB,
    /// A modular square root was requested for a modulus not `3 mod 4`.
    NoSquareRootExists,
    /// A registry lookup used an unrecognized curve name.
    UnknownCurveName,
}

/// Ghost model of a point: either the point at infinity of a curve, or an
/// affine point with its coordinates as plain integers.
pub enum PointModel {
    Infinity { curve: CurveModel },
    Affine { curve: CurveModel, x: int, y: int },
}

impl PointModel {
    /// The curve this point belongs to.
    pub open spec fn curve(self) -> CurveModel {
        match self {
            PointModel::Infinity { curve } => curve,
            PointModel::Affine { curve, .. } => curve,
        }
    }

    /// The affine x coordinate; meaningful only off infinity.
    pub open spec fn x(self) -> int
        recommends
            self is Affine,
    {
        self->Affine_x
    }

    /// The affine y coordinate; meaningful only off infinity.
    pub open spec fn y(self) -> int
        recommends
            self is Affine,
    {
        self->Affine_y
    }

    /// Point validity: the curve is well formed and an affine point lies on
    /// it. Constructors establish this and every operation preserves it.
    pub open spec fn wf(self) -> bool {
        self.curve().wf() && (self is Affine ==> self.curve().on_curve(self.x(), self.y()))
    }
}

/// The point at infinity of a curve, as a model value.
pub open spec fn inf_model(c: CurveModel) -> PointModel {
    PointModel::Infinity { curve: c }
}

/// An affine point of a curve, as a model value.
pub open spec fn affine_model(c: CurveModel, x: int, y: int) -> PointModel {
    PointModel::Affine { curve: c, x, y }
}

/// What point addition returns, stated over models: the chord-and-tangent
/// rule with every edge case. Points on different curves are rejected;
/// infinity is the identity; additive inverses (equal `x`, opposite `y`,
/// including a doubling at `y == 0`) give infinity; otherwise the slope is
/// the tangent (equal `x`) or the chord, a missing modular inverse of the
/// denominator is an error, and the resulting coordinates are normalized
/// into `[0, p)` and re-checked against the curve equation.
pub open spec fn spec_add(pm: PointModel, qm: PointModel) -> Result<PointModel, EcError> {
    if pm.curve() != qm.curve() {
        Err(EcError::CurveMismatch)
    } else if pm is Infinity {
        Ok(qm)
    } else if qm is Infinity {
        Ok(pm)
    } else {
        let c = pm.curve();
        let x1 = pm.x();
        let y1 = pm.y();
        let x2 = qm.x();
        let y2 = qm.y();
        if x1 == x2 && (y2 + y1) % c.p == 0 {
            Ok(inf_model(c))
        } else {
            let num = if x1 == x2 {
                3 * (x1 * x1) + c.a
            } else {
                y2 - y1
            };
            let den = if x1 == x2 {
                2 * y1
            } else {
                x2 - x1
            };
            if !has_inverse(den, c.p) {
                Err(EcError::NoModularInverse)
            } else {
                let m = (num * inverse_mod(den, c.p)) % c.p;
                let xr = (m * m - x1 - x2) % c.p;
                let yr = (m * (x1 - xr) - y1) % c.p;
                if c.on_curve(xr, yr) {
                    Ok(affine_model(c, xr, yr))
                } else {
                    Err(EcError::PointNotOnCurve)
                }
            }
        }
    }
}

/// One run of the double-and-add loop, stated over models: with `k > 0`, an
/// odd `k` folds the base into the accumulator, the base is always doubled,
/// and `k` is halved; the first failing addition is the result.
pub open spec fn spec_mul_loop(acc: PointModel, base: PointModel, k: int) -> Result<
    PointModel,
    EcError,
> decreases k,
{
    if k <= 0 {
        Ok(acc)
    } else {
        let folded = if k % 2 == 1 {
            spec_add(acc, base)
        } else {
            Ok(acc)
        };
        match folded {
            Err(e) => Err(e),
            Ok(acc2) => match spec_add(base, base) {
                Err(e) => Err(e),
                Ok(base2) => spec_mul_loop(acc2, base2, k / 2),
            },
        }
    }
}

/// What binary double-and-add scalar multiplication returns: the loop run
/// from the identity with base `pm`.
pub open spec fn spec_mul(pm: PointModel, k: int) -> Result<PointModel, EcError> {
    spec_mul_loop(inf_model(pm.curve()), pm, k)
}

/// One run of the Montgomery ladder over the bits of `k` below position
/// `i`, stated over models: at each bit exactly one addition and one
/// doubling, the registers receiving them selected by the bit; the first
/// failing addition is the result.
pub open spec fn spec_ladder(r0: PointModel, r1: PointModel, k: int, i: nat) -> Result<
    PointModel,
    EcError,
> decreases i,
{
    if i == 0 {
        Ok(r0)
    } else {
        let j = (i - 1) as nat;
        if !bit_of(k, j) {
            match spec_add(r0, r1) {
                Err(e) => Err(e),
                Ok(s1) => match spec_add(r0, r0) {
                    Err(e) => Err(e),
                    Ok(s0) => spec_ladder(s0, s1, k, j),
                },
            }
        } else {
            match spec_add(r0, r1) {
                Err(e) => Err(e),
                Ok(s0) => match spec_add(r1, r1) {
                    Err(e) => Err(e),
                    Ok(s1) => spec_ladder(s0, s1, k, j),
                },
            }
        }
    }
}

/// What Montgomery-ladder scalar multiplication returns: the declared bit
/// length must be the true bit length of `k` (so the most significant bit
/// is 1), else `InvalidScalarMSB`; then the ladder runs from `(P, 2P)` over
/// the remaining bits.
pub open spec fn spec_mul_montgomery(pm: PointModel, k: int, n: int) -> Result<
    PointModel,
    EcError,
> {
    if !(n >= 1 && k >= 1 && pow2((n - 1) as nat) <= k < pow2(n as nat)) {
        Err(EcError::InvalidScalarMSB)
    } else {
        match spec_add(pm, pm) {
            Err(e) => Err(e),
            Ok(r1) => spec_ladder(pm, r1, k, (n - 1) as nat),
        }
    }
}

/// What decompression returns, stated over models: off moduli `3 mod 4`
/// the square root fails; otherwise the closed-form root candidate of the
/// curve equation's right-hand side at `x` is taken, flipped to `p - root`
/// when its parity does not match the bit, and the resulting point is
/// re-checked against the curve equation.
pub open spec fn spec_decompress(c: CurveModel, x: int, is_odd: u8) -> Result<
    PointModel,
    EcError,
> {
    if !(c.p > 0 && c.p % 4 == 3) {
        Err(EcError::NoSquareRootExists)
    } else {
        let rhs = x * x * x + c.a * x + c.b;
        let root = sqrt_candidate(rhs, c.p);
        let y = if (root % 2 == 1) == (is_odd == 1) {
            root
        } else {
            c.p - root
        };
        if c.on_curve(x, y) {
            Ok(affine_model(c, x, y))
        } else {
            Err(EcError::PointNotOnCurve)
        }
    }
}

/// A point tied to exactly one curve descriptor, shared by handle. The point
/// at infinity is a distinct tagged state, not a sentinel coordinate pair.
#[derive(Debug)]
pub enum Point {
    Infinity { curve: Rc<Curve> },
    Affine { curve: Rc<Curve>, x: BigInt, y: BigInt },
}

impl View for Point {
    type V = PointModel;

    open spec fn view(&self) -> PointModel {
        match self {
            Point::Infinity { curve } => PointModel::Infinity { curve: curve@ },
            Point::Affine { curve, x, y } => PointModel::Affine {
                curve: curve@,
                x: big_value(*x),
                y: big_value(*y),
            },
        }
    }
}

/// The view of a point result, for stating contracts: `Ok` points are
/// replaced by their models, errors kept.
pub open spec fn result_model(r: Result<Point, EcError>) -> Result<PointModel, EcError> {
    match r {
        Ok(pt) => Ok(pt@),
        Err(e) => Err(e),
    }
}

impl Point {
    /// The curve handle of this point.
    pub fn curve(&self) -> (r: &Rc<Curve>)
        ensures
            r@ == self@.curve(),
    {
        match self {
            Point::Infinity { curve } => curve,
            Point::Affine { curve, .. } => curve,
        }
    }

    /// A new point equal to this one, sharing the same curve handle.
    pub fn duplicate(&self) -> (r: Point)
        ensures
            r@ == self@,
    {
        match self {
            Point::Infinity { curve } => Point::Infinity { curve: clone_handle(curve) },
            Point::Affine { curve, x, y } => Point::Affine {
                curve: clone_handle(curve),
                x: big_clone(x),
                y: big_clone(y),
            },
        }
    }

    /// The additive identity of the given curve's group: its point at
    /// infinity.
    pub fn inf(curve: &Rc<Curve>) -> (r: Point)
        ensures
            r@ == inf_model(curve@),
    {
        Point::Infinity { curve: clone_handle(curve) }
    }

    /// Constructs the affine point `(x, y)` on `curve`, admitting it only if
    /// it satisfies the curve equation; otherwise `PointNotOnCurve`.
    pub fn new(curve: &Rc<Curve>, x: BigInt, y: BigInt) -> (r: Result<Point, EcError>)
        requires
            curve@.wf(),
        ensures
            curve@.on_curve(big_value(x), big_value(y)) ==> (r matches Ok(pt) && pt@
                == affine_model(curve@, big_value(x), big_value(y))),
            !curve@.on_curve(big_value(x), big_value(y)) ==> (r matches Err(e) && e
                == EcError::PointNotOnCurve),
            r matches Ok(pt) ==> pt@.wf(),
    {
        if curve.on_curve(&x, &y) {
            Ok(Point::Affine { curve: clone_handle(curve), x, y })
        } else {
            Err(EcError::PointNotOnCurve)
        }
    }

    /// Whether this is the point at infinity.
    pub fn is_infinity(&self) -> (r: bool)
        ensures
            r == (self@ is Infinity),
    {
        matches!(self, Point::Infinity { .. })
    }

    /// Borrows the affine coordinates of a finite point.
    pub fn coords(&self) -> (r: (&BigInt, &BigInt))
        requires
            self@ is Affine,
        ensures
            big_value(*r.0) == self@.x(),
            big_value(*r.1) == self@.y(),
    {
        match self {
            Point::Affine { x, y, .. } => (x, y),
            Point::Infinity { .. } => unreached(),
        }
    }

    /// Point addition by the chord-and-tangent rule; doubling is the same
    /// code path. Returns exactly what `spec_add` states: `CurveMismatch`
    /// across curves, the other operand against infinity, infinity for
    /// additive inverses, `NoModularInverse` when the slope's denominator is
    /// not invertible, and otherwise the new point, re-validated against the
    /// curve equation.
    pub fn add(this: &Point, other: &Point) -> (r: Result<Point, EcError>)
        requires
            this@.curve().wf(),
            other@.curve().wf(),
        ensures
            result_model(r) == spec_add(this@, other@),
            r matches Ok(pt) ==> pt@.curve() == this@.curve(),
            this@.wf() ==> other@.wf() ==> (r matches Ok(pt) ==> pt@.wf()),
    {
        if !(&**this.curve() == &**other.curve()) {
            return Err(EcError::CurveMismatch);
        }
        if this.is_infinity() {
            return Ok(other.duplicate());
        }
        if other.is_infinity() {
            return Ok(this.duplicate());
        }
        let (x1, y1) = this.coords();
        let (x2, y2) = other.coords();
        let p = &this.curve().field.p;
        let zero = big_from_i64(0);
        let xs_equal = big_eq(x1, x2);
        if xs_equal && big_eq(&big_rem_euclid(&big_add(y2, y1), p), &zero) {
            return Ok(Point::inf(this.curve()));
        }
        let (num, den) = if xs_equal {
            let three = big_from_i64(3);
            let two = big_from_i64(2);
            (big_add(&big_mul(&three, &big_mul(x1, x1)), &this.curve().a), big_mul(&two, y1))
        } else {
            (big_sub(y2, y1), big_sub(x2, x1))
        };
        let w = match big_modinv(&den, p) {
            Some(w) => w,
            None => {
                return Err(EcError::NoModularInverse);
            },
        };
        proof {
            lemma_inverse_unique(big_value(den), big_value(*p), big_value(w));
        }
        let m = big_rem_euclid(&big_mul(&num, &w), p);
        let two = big_from_i64(2);
        let m2 = big_modpow(&m, &two, p);
        let xr = big_rem_euclid(&big_sub(&big_sub(&m2, x1), x2), p);
        let yr = big_rem_euclid(&big_sub(&big_mul(&m, &big_sub(x1, &xr)), y1), p);
        proof {
            let pv = big_value(*p);
            let mv = big_value(m);
            let x1v = big_value(*x1);
            let x2v = big_value(*x2);
            lemma_pow_small(mv);
            let sq = mv * mv;
            lemma_mod_twice(sq, pv);
            lemma_congruent_sub(sq % pv, sq, x1v, pv);
            lemma_congruent_sub(sq % pv - x1v, sq - x1v, x2v, pv);
            assert((sq % pv - x1v - x2v) % pv == (sq - x1v - x2v) % pv);
        }
        Point::new(this.curve(), xr, yr)
    }

    /// Doubling is addition of a point with itself: the same code path, by
    /// construction.
    pub fn double(p: &Point) -> (r: Result<Point, EcError>)
        requires
            p@.curve().wf(),
        ensures
            result_model(r) == spec_add(p@, p@),
            r matches Ok(pt) ==> pt@.curve() == p@.curve(),
            p@.wf() ==> (r matches Ok(pt) ==> pt@.wf()),
    {
        Point::add(p, p)
    }

    /// Scalar multiplication of `p` by a non-negative `n`, by the standard
    /// binary double-and-add method: `0 * p` is infinity, and each failing
    /// intermediate addition surfaces unchanged.
    pub fn mul_double_and_add(p: &Point, n: BigInt) -> (r: Result<Point, EcError>)
        requires
            p@.curve().wf(),
            big_value(n) >= 0,
        ensures
            result_model(r) == spec_mul(p@, big_value(n)),
            p@.wf() ==> (r matches Ok(pt) ==> pt@.wf()),
    {
        let mut q = p.duplicate();
        let mut acc = Point::inf(p.curve());
        let mut rem = big_clone(&n);
        let zero = big_from_i64(0);
        let two = big_from_i64(2);
        while big_gt(&rem, &zero)
            invariant
                big_value(rem) >= 0,
                big_value(two) == 2,
                big_value(zero) == 0,
                q@.curve() == p@.curve(),
                acc@.curve() == p@.curve(),
                p@.curve().wf(),
                p@.wf() ==> q@.wf() && acc@.wf(),
                spec_mul_loop(acc@, q@, big_value(rem)) == spec_mul(p@, big_value(n)),
            decreases big_value(rem),
        {
            proof {
                vstd::arithmetic::power2::lemma2_to64();
                vstd::arithmetic::div_mod::lemma_div_basics(big_value(rem));
                assert(bit_of(big_value(rem), 0) == (big_value(rem) % 2 == 1));
            }
            if big_bit(&rem, 0) {
                match Point::add(&acc, &q) {
                    Ok(folded) => {
                        acc = folded;
                    },
                    Err(e) => {
                        return Err(e);
                    },
                }
            }
            match Point::add(&q, &q) {
                Ok(doubled) => {
                    q = doubled;
                },
                Err(e) => {
                    return Err(e);
                },
            }
            rem = big_div(&rem, &two);
        }
        Ok(acc)
    }

    /// Scalar multiplication by the Montgomery ladder: `n` must be the true
    /// bit length of `k` (most significant bit 1), else `InvalidScalarMSB`.
    /// Each remaining bit costs exactly one addition and one doubling,
    /// whatever its value; only which register receives which result depends
    /// on the bit.
    pub fn mul_montgomery(p: &Point, k: BigInt, n: usize) -> (r: Result<Point, EcError>)
        requires
            p@.curve().wf(),
            big_value(k) >= 0,
        ensures
            result_model(r) == spec_mul_montgomery(p@, big_value(k), n as int),
            p@.wf() ==> (r matches Ok(pt) ==> pt@.wf()),
    {
        let bl = big_bits(&k);
        if n == 0 || bl != n as u64 {
            proof {
                let kv = big_value(k);
                if n >= 1 && kv >= 1 && pow2((n - 1) as nat) <= kv < pow2(n as nat) {
                    // the declared length then has to be the true bit length
                    if (bl as int) < (n as int) {
                        if (bl as int) < (n - 1) as int {
                            lemma_pow2_strictly_increases(bl as nat, (n - 1) as nat);
                        }
                        assert(pow2(bl as nat) <= pow2((n - 1) as nat));
                    } else {
                        if (n as int) < (bl - 1) as int {
                            lemma_pow2_strictly_increases(n as nat, (bl - 1) as nat);
                        }
                        assert(pow2(n as nat) <= pow2((bl - 1) as nat));
                    }
                    assert(false);
                }
            }
            return Err(EcError::InvalidScalarMSB);
        }
        proof {
            let kv = big_value(k);
            assert(kv > 0);
            assert(pow2((n - 1) as nat) <= kv < pow2(n as nat));
        }
        let mut r0 = p.duplicate();
        let mut r1 = match Point::double(p) {
            Ok(d) => d,
            Err(e) => {
                return Err(e);
            },
        };
        let mut i: usize = n - 1;
        while i > 0
            invariant
                big_value(k) >= 0,
                r0@.curve() == p@.curve(),
                r1@.curve() == p@.curve(),
                p@.curve().wf(),
                p@.wf() ==> r0@.wf() && r1@.wf(),
                spec_ladder(r0@, r1@, big_value(k), i as nat) == spec_mul_montgomery(
                    p@,
                    big_value(k),
                    n as int,
                ),
            decreases i,
        {
            i = i - 1;
            if !big_bit(&k, i as u64) {
                let s1 = match Point::add(&r0, &r1) {
                    Ok(s) => s,
                    Err(e) => {
                        return Err(e);
                    },
                };
                let s0 = match Point::add(&r0, &r0) {
                    Ok(s) => s,
                    Err(e) => {
                        return Err(e);
                    },
                };
                r0 = s0;
                r1 = s1;
            } else {
                let s0 = match Point::add(&r0, &r1) {
                    Ok(s) => s,
                    Err(e) => {
                        return Err(e);
                    },
                };
                let s1 = match Point::add(&r1, &r1) {
                    Ok(s) => s,
                    Err(e) => {
                        return Err(e);
                    },
                };
                r0 = s0;
                r1 = s1;
            }
        }
        Ok(r0)
    }

    /// Compresses a finite point to its x coordinate and the parity bit of
    /// its y coordinate.
    pub fn compress(&self) -> (r: (BigInt, u8))
        requires
            self@ is Affine,
            self@.y() >= 0,
        ensures
            big_value(r.0) == self@.x(),
            r.1 as int == self@.y() % 2,
    {
        match self {
            Point::Affine { x, y, .. } => {
                let odd = big_bit(y, 0);
                proof {
                    vstd::arithmetic::power2::lemma2_to64();
                    vstd::arithmetic::div_mod::lemma_div_basics(big_value(*y));
                    lemma_mod_bound(big_value(*y), 2);
                }
                (big_clone(x), if odd {
                    1u8
                } else {
                    0u8
                })
            },
            Point::Infinity { .. } => unreached(),
        }
    }

    /// Recovers the point with the given x coordinate and y parity:
    /// evaluates the curve equation's right-hand side at `x`, takes its
    /// closed-form modular square root (`NoSquareRootExists` off primes
    /// `3 mod 4`), flips the root to `p - root` when its parity does not
    /// match the bit, and validates the result as a new point.
    pub fn decompress(curve: &Rc<Curve>, x: BigInt, is_odd: u8) -> (r: Result<Point, EcError>)
        requires
            curve@.wf(),
        ensures
            result_model(r) == spec_decompress(curve@, big_value(x), is_odd),
            r matches Ok(pt) ==> pt@.wf(),
    {
        let p = &curve.field.p;
        let x3 = big_mul(&big_mul(&x, &x), &x);
        let rhs = big_add(&big_add(&x3, &big_mul(&curve.a, &x)), &curve.b);
        let root = match modsqrt(&rhs, p) {
            Some(root) => root,
            None => {
                return Err(EcError::NoSquareRootExists);
            },
        };
        proof {
            lemma_mod_bound(
                vstd::arithmetic::power::pow(
                    big_value(rhs),
                    (((big_value(*p) + 1) / 4)) as nat,
                ),
                big_value(*p),
            );
            vstd::arithmetic::power2::lemma2_to64();
            vstd::arithmetic::div_mod::lemma_div_basics(big_value(root));
            lemma_mod_bound(big_value(root), 2);
        }
        let root_odd = big_bit(&root, 0);
        let y = if root_odd == (is_odd == 1) {
            root
        } else {
            big_sub(p, &root)
        };
        Point::new(curve, x, y)
    }
}

impl PartialEq for Point {
    /// Two points are equal when both are infinity on the same curve, or
    /// both are finite with equal coordinates on the same curve.
    fn eq(&self, other: &Point) -> (r: bool) {
        match (self, other) {
            (Point::Infinity { curve: c1 }, Point::Infinity { curve: c2 }) => (&**c1) == (&**c2),
            (
                Point::Affine { curve: c1, x: x1, y: y1 },
                Point::Affine { curve: c2, x: x2, y: y2 },
            ) => big_eq(x1, x2) && big_eq(y1, y2) && (&**c1) == (&**c2),
            _ => false,
        }
    }
}

impl vstd::std_specs::cmp::PartialEqSpecImpl for Point {
    open spec fn obeys_eq_spec() -> bool {
        true
    }

    open spec fn eq_spec(&self, other: &Point) -> bool {
        self@ == other@
    }
}

impl Eq for Point {

}

} // verus!
