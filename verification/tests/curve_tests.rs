use num_bigint::BigInt;
use tiny_ec::curve::{Curve, SubGroup};

fn field_23() -> SubGroup {
    SubGroup {
        p: BigInt::from(23),
        g: (BigInt::from(1), BigInt::from(2)),
        n: BigInt::from(5),
        h: BigInt::from(1),
    }
}

#[test]
fn test_curve_is_singular() {
    let curve1 = Curve {
        a: BigInt::from(0),
        b: BigInt::from(0),
        field: field_23(),
        name: String::from("test_curve"),
    };
    assert!(curve1.is_singular());

    let curve2 = Curve {
        a: BigInt::from(-3),
        b: BigInt::from(2),
        field: field_23(),
        name: String::from("test_curve"),
    };
    assert!(curve2.is_singular());

    let curve3 = Curve {
        a: BigInt::from(-3),
        b: BigInt::from(1),
        field: field_23(),
        name: String::from("test_curve"),
    };
    assert!(!curve3.is_singular());

    let curve4 = Curve {
        a: BigInt::from(2),
        b: BigInt::from(2),
        field: field_23(),
        name: String::from("test_curve"),
    };
    assert!(!curve4.is_singular());
}

#[test]
fn test_curve_equality_ignores_name() {
    let c1 = Curve::new(
        BigInt::from(2),
        BigInt::from(3),
        SubGroup {
            p: BigInt::from(97),
            g: (BigInt::from(1), BigInt::from(2)),
            n: BigInt::from(5),
            h: BigInt::from(1),
        },
        "one".to_string(),
    );
    let c2 = Curve::new(
        BigInt::from(2),
        BigInt::from(3),
        SubGroup {
            p: BigInt::from(97),
            g: (BigInt::from(1), BigInt::from(2)),
            n: BigInt::from(5),
            h: BigInt::from(1),
        },
        "two".to_string(),
    );
    assert!(c1 == c2);

    let c3 = Curve::new(
        BigInt::from(2),
        BigInt::from(4),
        SubGroup {
            p: BigInt::from(97),
            g: (BigInt::from(1), BigInt::from(2)),
            n: BigInt::from(5),
            h: BigInt::from(1),
        },
        "one".to_string(),
    );
    assert!(c1 != c3);
}

#[test]
fn test_on_curve_check() {
    let curve = Curve::new(
        BigInt::from(2),
        BigInt::from(3),
        SubGroup {
            p: BigInt::from(97),
            g: (BigInt::from(1), BigInt::from(2)),
            n: BigInt::from(5),
            h: BigInt::from(1),
        },
        "testCurve".to_string(),
    );
    assert!(curve.on_curve(&BigInt::from(22), &BigInt::from(5)));
    assert!(!curve.on_curve(&BigInt::from(94), &BigInt::from(31)));
}
