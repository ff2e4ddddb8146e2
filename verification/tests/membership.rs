use weierstrass::curve::signed;
use weierstrass::point::{CurveMembershipError, Point, Value};

type PointI32 = Point<5, 7, i32>;

#[test]
fn test_new_accepts_points_of_the_curve() {
    // 25 = 8 + 10 + 7, 1 = -1 - 5 + 7, 49 = 27 + 15 + 7, 5929 = 5832 + 90 + 7
    for (x, y) in [(2, 5), (2, -5), (-1, -1), (-1, 1), (3, 7), (3, -7), (18, 77), (18, -77)] {
        assert!(PointI32::new(Value::Number(x), Value::Number(y)).is_ok());
    }
}

#[test]
fn test_new_accepts_the_identity() {
    assert!(PointI32::new(Value::Inf, Value::Inf).is_ok());
    assert!(Point::<0, 0, i64>::new(Value::Inf, Value::Inf).is_ok());
}

#[test]
fn test_new_rejects_the_origin() {
    // 0 is not 7
    assert_eq!(PointI32::new(Value::Number(0), Value::Number(0)), Err(CurveMembershipError));
}

#[test]
fn test_new_rejects_points_off_the_curve() {
    for (x, y) in [(2, 4), (2, 6), (1, 1), (-1, 0), (3, 8), (18, 76), (0, -3), (5, 2)] {
        assert_eq!(
            PointI32::new(Value::Number(x), Value::Number(y)),
            Err(CurveMembershipError)
        );
    }
}

#[test]
fn test_new_rejects_a_single_infinity() {
    assert_eq!(PointI32::new(Value::Number(2), Value::Inf), Err(CurveMembershipError));
    assert_eq!(PointI32::new(Value::Inf, Value::Number(5)), Err(CurveMembershipError));
    assert_eq!(PointI32::new(Value::Inf, Value::Number(0)), Err(CurveMembershipError));
}

#[test]
fn test_new_keeps_the_coordinates() {
    let p = PointI32::new(Value::Number(2), Value::Number(5)).unwrap();
    assert_eq!(format!("{:?}", p), "Point { x: Number(2), y: Number(5) }");
    let i = PointI32::new(Value::Inf, Value::Inf).unwrap();
    assert_eq!(format!("{:?}", i), "Point { x: Inf, y: Inf }");
}

#[test]
fn test_new_tells_points_apart() {
    let p = PointI32::new(Value::Number(2), Value::Number(5)).unwrap();
    let q = PointI32::new(Value::Number(2), Value::Number(-5)).unwrap();
    let i = PointI32::new(Value::Inf, Value::Inf).unwrap();
    assert_ne!(p, q);
    assert_ne!(p, i);
    assert_eq!(p, PointI32::new(Value::Number(2), Value::Number(5)).unwrap());
}

#[test]
fn test_new_reads_a_negative_coefficient() {
    // y² = x³ - 3x + 7 at x = 2: 8 - 6 + 7 = 9
    type Curve = Point<{ -3i32 as u32 }, 7, i64>;
    assert!(Curve::new(Value::Number(2), Value::Number(3)).is_ok());
    assert!(Curve::new(Value::Number(2), Value::Number(-3)).is_ok());
    assert!(Curve::new(Value::Number(2), Value::Number(5)).is_err());
    // with +3 in place of -3 the same abscissa gives 8 + 6 + 7 = 21, no square
    assert!(Point::<3, 7, i64>::new(Value::Number(2), Value::Number(3)).is_err());
}

#[test]
fn test_new_reads_a_negative_constant() {
    // y² = x³ - 4 at x = 2: 8 - 4 = 4
    type Curve = Point<0, { -4i32 as u32 }, i64>;
    assert!(Curve::new(Value::Number(2), Value::Number(2)).is_ok());
    assert!(Curve::new(Value::Number(2), Value::Number(-2)).is_ok());
    assert!(Curve::new(Value::Number(0), Value::Number(2)).is_err());
}

#[test]
fn test_error_message() {
    let e = PointI32::new(Value::Number(0), Value::Number(0)).unwrap_err();
    assert_eq!(e.message(), "point is not on the curve");
    assert_eq!(e, CurveMembershipError);
}

#[test]
fn test_value_clones() {
    assert_eq!(Value::Number(7).clone(), Value::Number(7));
    assert_eq!(Value::<i32>::Inf.clone(), Value::Inf);
    assert_eq!(Value::Number(String::from("seven")).clone(), Value::Number(String::from("seven")));
}

#[test]
fn test_value_is_copied_and_compared() {
    let v = Value::Number(7);
    let w = v;
    assert_eq!(v, w);
    assert_ne!(v, Value::Number(8));
    assert_ne!(v, Value::Inf);
    assert_eq!(Value::<i32>::Inf, Value::Inf);
}

#[test]
fn test_signed_reads_two_complement() {
    assert_eq!(signed(0), 0);
    assert_eq!(signed(5), 5);
    assert_eq!(signed(0x7fff_ffff), i32::MAX);
    assert_eq!(signed(0x8000_0000), i32::MIN);
    assert_eq!(signed(u32::MAX), -1);
    assert_eq!(signed(-3i32 as u32), -3);
    assert_eq!(signed(4294967293), -3);
}

#[test]
fn test_new_goes_by_the_coefficients_of_the_type() {
    // 0 = -1 + 0 + 1 on y² = x³ + 1, but 0 is not -1 - 5 + 7
    assert!(Point::<0, 1, i32>::new(Value::Number(-1), Value::Number(0)).is_ok());
    assert!(Point::<5, 7, i32>::new(Value::Number(-1), Value::Number(0)).is_err());
}

#[test]
fn test_new_at_the_edge_of_the_range() {
    // the largest coordinates whose square and cube still fit 32 bits
    assert!(PointI32::new(Value::Number(1290), Value::Number(46340)).is_err());
    assert!(PointI32::new(Value::Number(-1290), Value::Number(-46340)).is_err());
}
