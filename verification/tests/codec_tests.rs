use std::rc::Rc;
use num_bigint::BigInt;
use tiny_ec::curve::{Curve, SubGroup};
use tiny_ec::point::{EcError, Point};
use tiny_ec::utils::modsqrt;

// a curve over 23, which is 3 mod 4, so the closed-form square root applies
fn curve_23() -> Rc<Curve> {
    let field = SubGroup {
        p: BigInt::from(23),
        g: (BigInt::from(0), BigInt::from(1)),
        n: BigInt::from(5),
        h: BigInt::from(1),
    };
    Rc::new(Curve::new(BigInt::from(1), BigInt::from(1), field, "smallCurve".to_string()))
}

#[test]
fn test_compress_values() {
    let curve = curve_23();
    let p1 = Point::new(&curve, BigInt::from(0), BigInt::from(1)).unwrap();
    let (x, parity) = p1.compress();
    assert_eq!(x, BigInt::from(0));
    assert_eq!(parity, 1);

    let p2 = Point::new(&curve, BigInt::from(0), BigInt::from(22)).unwrap();
    let (x2, parity2) = p2.compress();
    assert_eq!(x2, BigInt::from(0));
    assert_eq!(parity2, 0);
}

#[test]
fn test_compression_round_trip() {
    let curve = curve_23();
    let odd = Point::new(&curve, BigInt::from(0), BigInt::from(1)).unwrap();
    let (x, parity) = odd.compress();
    assert_eq!(odd, Point::decompress(&curve, x, parity).unwrap());

    let even = Point::new(&curve, BigInt::from(0), BigInt::from(22)).unwrap();
    let (x2, parity2) = even.compress();
    assert_eq!(even, Point::decompress(&curve, x2, parity2).unwrap());
}

#[test]
fn test_decompress_needs_three_mod_four() {
    // 13 is 1 mod 4: the closed-form square root does not apply
    let field = SubGroup {
        p: BigInt::from(13),
        g: (BigInt::from(1), BigInt::from(2)),
        n: BigInt::from(5),
        h: BigInt::from(1),
    };
    let curve = Rc::new(Curve::new(
        BigInt::from(1),
        BigInt::from(1),
        field,
        "oneModFour".to_string(),
    ));
    assert_eq!(
        Point::decompress(&curve, BigInt::from(1), 1).unwrap_err(),
        EcError::NoSquareRootExists
    );
}

#[test]
fn test_modsqrt_values() {
    // 3^2 = 9, and 9^((23+1)/4) = 9^6 == 3 (mod 23)
    let root = modsqrt(&BigInt::from(9), &BigInt::from(23)).unwrap();
    assert_eq!(root, BigInt::from(3));
    assert!(modsqrt(&BigInt::from(9), &BigInt::from(13)).is_none());
}
