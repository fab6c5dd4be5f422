use std::rc::Rc;
use num_bigint::BigInt;
use tiny_ec::curve::{Curve, SubGroup};
use tiny_ec::point::{EcError, Point};

fn curve_97() -> Rc<Curve> {
    let field = SubGroup {
        p: BigInt::from(97),
        g: (BigInt::from(1), BigInt::from(2)),
        n: BigInt::from(5),
        h: BigInt::from(1),
    };
    Rc::new(Curve::new(BigInt::from(2), BigInt::from(3), field, "testCurve".to_string()))
}

#[test]
fn test_addition_on_curve() {
    let curve = curve_97();

    let p1 = Point::new(&curve, BigInt::from(22), BigInt::from(5)).unwrap();
    let p2 = Point::new(&curve, BigInt::from(95), BigInt::from(31)).unwrap();
    let expected = Point::new(&curve, BigInt::from(29), BigInt::from(43)).unwrap();
    assert_eq!(expected, Point::add(&p1, &p2).unwrap());

    let p3 = Point::new(&curve, BigInt::from(24), BigInt::from(2)).unwrap();
    let p4 = Point::new(&curve, BigInt::from(96), BigInt::from(0)).unwrap();
    let expected2 = Point::new(&curve, BigInt::from(38), BigInt::from(90)).unwrap();
    assert_eq!(expected2, Point::add(&p3, &p4).unwrap());
}

#[test]
fn test_warning_on_invalid_point() {
    let curve = curve_97();

    let _p1 = Point::new(&curve, BigInt::from(22), BigInt::from(5)).unwrap();

    let result = Point::new(&curve, BigInt::from(94), BigInt::from(31));
    assert!(result.is_err());
}

#[test]
fn test_addition_with_infinity() {
    let curve = curve_97();

    let p1 = Point::new(&curve, BigInt::from(22), BigInt::from(5)).unwrap();
    let inf = Point::inf(&curve);

    assert_eq!(p1, Point::add(&p1, &inf).unwrap());
    assert_eq!(p1, Point::add(&inf, &p1).unwrap());
}

#[test]
fn test_doubling_on_curve() {
    let curve = curve_97();

    let p1 = Point::new(&curve, BigInt::from(24), BigInt::from(2)).unwrap();
    let expected = Point::new(&curve, BigInt::from(65), BigInt::from(65)).unwrap();
    assert_eq!(expected, Point::add(&p1, &p1).unwrap());
}

#[test]
fn test_opposite_ordinates() {
    let curve = curve_97();

    let p1 = Point::new(&curve, BigInt::from(12), BigInt::from(3)).unwrap();
    let p2 = Point::new(&curve, BigInt::from(12), BigInt::from(94)).unwrap();
    let inf = Point::inf(&curve);
    assert_eq!(inf, Point::add(&p1, &p2).unwrap());
}

#[test]
fn test_construction_error_kind() {
    let curve = curve_97();
    assert_eq!(
        Point::new(&curve, BigInt::from(94), BigInt::from(31)).unwrap_err(),
        EcError::PointNotOnCurve
    );
}

#[test]
fn test_addition_commutes() {
    let curve = curve_97();
    let p1 = Point::new(&curve, BigInt::from(22), BigInt::from(5)).unwrap();
    let p2 = Point::new(&curve, BigInt::from(95), BigInt::from(31)).unwrap();
    assert_eq!(Point::add(&p1, &p2).unwrap(), Point::add(&p2, &p1).unwrap());
}

#[test]
fn test_double_matches_add() {
    let curve = curve_97();
    let p1 = Point::new(&curve, BigInt::from(24), BigInt::from(2)).unwrap();
    assert_eq!(Point::double(&p1).unwrap(), Point::add(&p1, &p1).unwrap());
}

#[test]
fn test_curve_mismatch_rejected() {
    let curve = curve_97();
    let other = Rc::new(Curve::new(
        BigInt::from(1),
        BigInt::from(1),
        SubGroup {
            p: BigInt::from(23),
            g: (BigInt::from(0), BigInt::from(1)),
            n: BigInt::from(5),
            h: BigInt::from(1),
        },
        "otherCurve".to_string(),
    ));
    let p1 = Point::new(&curve, BigInt::from(22), BigInt::from(5)).unwrap();
    let q1 = Point::new(&other, BigInt::from(0), BigInt::from(1)).unwrap();
    assert_eq!(Point::add(&p1, &q1).unwrap_err(), EcError::CurveMismatch);
}

#[test]
fn test_no_modular_inverse() {
    // a composite modulus where the tangent's denominator 2*y shares a
    // factor with it: doubling (0, 3) on y^2 = x^3 (mod 9) needs 6^-1 mod 9
    let curve = Rc::new(Curve::new(
        BigInt::from(0),
        BigInt::from(0),
        SubGroup {
            p: BigInt::from(9),
            g: (BigInt::from(0), BigInt::from(0)),
            n: BigInt::from(1),
            h: BigInt::from(1),
        },
        "residueRing".to_string(),
    ));
    let p1 = Point::new(&curve, BigInt::from(0), BigInt::from(3)).unwrap();
    assert_eq!(Point::add(&p1, &p1).unwrap_err(), EcError::NoModularInverse);
}

#[test]
fn test_mul_by_zero_and_one() {
    let curve = curve_97();
    let p1 = Point::new(&curve, BigInt::from(22), BigInt::from(5)).unwrap();
    let inf = Point::inf(&curve);
    assert_eq!(inf, Point::mul_double_and_add(&p1, BigInt::from(0)).unwrap());
    assert_eq!(p1, Point::mul_double_and_add(&p1, BigInt::from(1)).unwrap());
}

#[test]
fn test_mul_double_and_add_values() {
    let curve = curve_97();
    let p1 = Point::new(&curve, BigInt::from(22), BigInt::from(5)).unwrap();
    // 2*(22,5) and 3*(22,5), checked against repeated addition
    let doubled = Point::add(&p1, &p1).unwrap();
    let tripled = Point::add(&doubled, &p1).unwrap();
    assert_eq!(doubled, Point::mul_double_and_add(&p1, BigInt::from(2)).unwrap());
    assert_eq!(tripled, Point::mul_double_and_add(&p1, BigInt::from(3)).unwrap());
}

#[test]
fn test_montgomery_matches_double_and_add() {
    let curve = curve_97();
    let p1 = Point::new(&curve, BigInt::from(22), BigInt::from(5)).unwrap();
    // 5 = 101 in binary: bit length 3
    let expected = Point::mul_double_and_add(&p1, BigInt::from(5)).unwrap();
    assert_eq!(expected, Point::mul_montgomery(&p1, BigInt::from(5), 3).unwrap());
}

#[test]
fn test_mul_of_infinity() {
    let curve = curve_97();
    let inf = Point::inf(&curve);
    assert_eq!(inf, Point::mul_double_and_add(&inf, BigInt::from(5)).unwrap());
}

#[test]
fn test_scalar_multiplication_larger_curve() {
    let field = SubGroup {
        p: BigInt::from(9739),
        g: (BigInt::from(1), BigInt::from(2)),
        n: BigInt::from(5),
        h: BigInt::from(1),
    };
    let curve = Rc::new(Curve::new(
        BigInt::from(497),
        BigInt::from(1768),
        field,
        "largerCurve".to_string(),
    ));
    let p1 = Point::new(&curve, BigInt::from(5323), BigInt::from(5438)).unwrap();
    let by_doubling = Point::mul_double_and_add(&p1, BigInt::from(1337)).unwrap();
    // 1337 = 10100111001 in binary: bit length 11
    let by_ladder = Point::mul_montgomery(&p1, BigInt::from(1337), 11).unwrap();
    assert_eq!(by_doubling, by_ladder);
}

#[test]
fn test_montgomery_rejects_wrong_bit_length() {
    let curve = curve_97();
    let p1 = Point::new(&curve, BigInt::from(22), BigInt::from(5)).unwrap();
    assert_eq!(
        Point::mul_montgomery(&p1, BigInt::from(5), 4).unwrap_err(),
        EcError::InvalidScalarMSB
    );
    assert_eq!(
        Point::mul_montgomery(&p1, BigInt::from(0), 0).unwrap_err(),
        EcError::InvalidScalarMSB
    );
}
