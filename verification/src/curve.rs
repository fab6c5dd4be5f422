//! Short Weierstrass curve descriptors `y^2 = x^3 + a*x + b` over a prime
//! field, with the subgroup data (prime, generator, order, cofactor) and the
//! validation predicates: singularity and curve membership.

use vstd::prelude::*;
use vstd::arithmetic::div_mod::{lemma_add_mod_noop, lemma_mul_mod_noop_right};
use std::rc::Rc;
use num_bigint::BigInt;
use crate::arith::{lemma_congruent_sub, lemma_pow_small};
use crate::bignum::{
    big_value, big_from_i64, big_eq, big_add, big_sub, big_mul, big_rem_euclid, big_modpow,
};

verus! {

/// Ghost model of a curve descriptor: the coefficients, the field prime, the
/// generator coordinates, the subgroup order and the cofactor, as plain
/// integers. The display name of a curve is not part of the model; two
/// descriptors are the same curve exactly when their models are equal.
pub struct CurveModel {
    pub a: int,
    pub b: int,
    pub p: int,
    pub gx: int,
    pub gy: int,
    pub n: int,
    pub h: int,
}

impl CurveModel {
    /// The modulus is large enough to be a prime: every arithmetic operation
    /// of the group law is defined under this bound.
    pub open spec fn wf(self) -> bool {
        self.p >= 2
    }

    /// The singularity test: `4*a^3 + 27*b^2 == 0 (mod p)`.
    pub open spec fn singular(self) -> bool {
        (4 * (self.a * self.a * self.a) + 27 * (self.b * self.b)) % self.p == 0
    }

    /// Curve membership: `y^2 - x^3 - a*x - b == 0 (mod p)`.
    pub open spec fn on_curve(self, x: int, y: int) -> bool {
        (y * y - x * x * x - self.a * x - self.b) % self.p == 0
    }
}

/// The subgroup data attached to a curve: field prime `p`, generator
/// coordinates `g`, subgroup order `n` and cofactor `h`.
#[derive(Debug)]
pub struct SubGroup {
    pub p: BigInt,
    pub g: (BigInt, BigInt),
    pub n: BigInt,
    pub h: BigInt,
}

/// A short Weierstrass curve `y^2 = x^3 + a*x + b` over the prime field of
/// its subgroup, with a display name. Constructed once and then shared
/// read-only among the points built on it.
#[derive(Debug)]
pub struct Curve {
    pub a: BigInt,
    pub b: BigInt,
    pub field: SubGroup,
    pub name: String,
}

impl View for Curve {
    type V = CurveModel;

    open spec fn view(&self) -> CurveModel {
        CurveModel {
            a: big_value(self.a),
            b: big_value(self.b),
            p: big_value(self.field.p),
            gx: big_value(self.field.g.0),
            gy: big_value(self.field.g.1),
            n: big_value(self.field.n),
            h: big_value(self.field.h),
        }
    }
}

/// Relies on `std::rc::Rc::clone`: a new handle to the same shared curve.
#[verifier::external_body]
pub(crate) fn clone_handle(c: &Rc<Curve>) -> (r: Rc<Curve>)
    ensures
        r == *c,
{
    Rc::clone(c)
}

impl Curve {
    /// Packs the given coefficients, subgroup and name into a descriptor,
    /// unchanged. Non-singularity is not enforced here; callers validate
    /// through `is_singular` before relying on the group law.
    pub fn new(a: BigInt, b: BigInt, field: SubGroup, name: String) -> (c: Curve)
        ensures
            c@ == (CurveModel {
                a: big_value(a),
                b: big_value(b),
                p: big_value(field.p),
                gx: big_value(field.g.0),
                gy: big_value(field.g.1),
                n: big_value(field.n),
                h: big_value(field.h),
            }),
            c.name@ == name@,
    {
        Curve { a, b, field, name }
    }

    /// Whether the curve is singular, i.e. `4*a^3 + 27*b^2 == 0 (mod p)`;
    /// the group law is only meaningful on a non-singular curve.
    pub fn is_singular(&self) -> (r: bool)
        requires
            self@.wf(),
        ensures
            r == self@.singular(),
    {
        let p = &self.field.p;
        let two = big_from_i64(2);
        let three = big_from_i64(3);
        let a3 = big_modpow(&self.a, &three, p);
        let b2 = big_modpow(&self.b, &two, p);
        let four = big_from_i64(4);
        let twenty_seven = big_from_i64(27);
        let t = big_add(&big_mul(&four, &a3), &big_mul(&twenty_seven, &b2));
        let r = big_rem_euclid(&t, p);
        let zero = big_from_i64(0);
        proof {
            let av = big_value(self.a);
            let bv = big_value(self.b);
            let pv = big_value(self.field.p);
            lemma_pow_small(av);
            lemma_pow_small(bv);
            let c3 = av * av * av;
            let c2 = bv * bv;
            lemma_mul_mod_noop_right(4, c3, pv);
            lemma_mul_mod_noop_right(27, c2, pv);
            lemma_add_mod_noop(4 * (c3 % pv), 27 * (c2 % pv), pv);
            lemma_add_mod_noop(4 * c3, 27 * c2, pv);
            assert((4 * (c3 % pv)) % pv == (4 * c3) % pv);
            assert((27 * (c2 % pv)) % pv == (27 * c2) % pv);
            assert((4 * (c3 % pv) + 27 * (c2 % pv)) % pv == (4 * c3 + 27 * c2) % pv);
        }
        big_eq(&r, &zero)
    }

    /// Whether `(x, y)` satisfies the curve equation modulo `p`. This is the
    /// sole admission check for point construction.
    pub fn on_curve(&self, x: &BigInt, y: &BigInt) -> (r: bool)
        requires
            self@.wf(),
        ensures
            r == self@.on_curve(big_value(*x), big_value(*y)),
    {
        let p = &self.field.p;
        let two = big_from_i64(2);
        let three = big_from_i64(3);
        let y2 = big_modpow(y, &two, p);
        let x3 = big_modpow(x, &three, p);
        let t = big_sub(&big_sub(&big_sub(&y2, &x3), &big_mul(&self.a, x)), &self.b);
        let r = big_rem_euclid(&t, p);
        let zero = big_from_i64(0);
        proof {
            let xv = big_value(*x);
            let yv = big_value(*y);
            let av = big_value(self.a);
            let bv = big_value(self.b);
            let pv = big_value(self.field.p);
            lemma_pow_small(xv);
            lemma_pow_small(yv);
            let sy = yv * yv;
            let sx = xv * xv * xv;
            // peel the subtractions: each step keeps congruence modulo p
            vstd::arithmetic::div_mod::lemma_sub_mod_noop(sy, sx, pv);
            assert(((sy % pv) - (sx % pv)) % pv == (sy - sx) % pv);
            lemma_congruent_sub((sy % pv) - (sx % pv), sy - sx, av * xv, pv);
            lemma_congruent_sub((sy % pv) - (sx % pv) - av * xv, sy - sx - av * xv, bv, pv);
            assert(((sy % pv) - (sx % pv) - av * xv - bv) % pv == (sy - sx - av * xv - bv) % pv);
        }
        big_eq(&r, &zero)
    }
}

impl PartialEq for Curve {
    /// Curve descriptors are equal when every scalar field and the generator
    /// match; the display name is not compared.
    fn eq(&self, other: &Curve) -> (r: bool) {
        big_eq(&self.a, &other.a) && big_eq(&self.b, &other.b) && big_eq(
            &self.field.p,
            &other.field.p,
        ) && big_eq(&self.field.g.0, &other.field.g.0) && big_eq(&self.field.g.1, &other.field.g.1)
            && big_eq(&self.field.n, &other.field.n) && big_eq(&self.field.h, &other.field.h)
    }
}

impl vstd::std_specs::cmp::PartialEqSpecImpl for Curve {
    open spec fn obeys_eq_spec() -> bool {
        true
    }

    open spec fn eq_spec(&self, other: &Curve) -> bool {
        self@ == other@
    }
}

impl Eq for Curve {

}

} // verus!
