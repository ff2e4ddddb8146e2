use weierstrass::point::{Point, Value};

type PointI32 = Point<5, 7, i32>;

fn finite(x: i32, y: i32) -> PointI32 {
    PointI32::new(Value::Number(x), Value::Number(y)).unwrap()
}

fn identity() -> PointI32 {
    PointI32::new(Value::Inf, Value::Inf).unwrap()
}

#[test]
fn test_add_case_x1_dif_x2() {
    let p1 = PointI32::new(Value::Number(2), Value::Number(5)).unwrap();
    let p2 = PointI32::new(Value::Number(-1), Value::Number(-1)).unwrap();
    let s = p1 + p2;
    let expt = PointI32::new(Value::Number(3), Value::Number(-7)).unwrap();
    assert_eq!(s, expt);
}

#[test]
fn test_add_case_p1_eq_p2() {
    let p1 = PointI32::new(Value::Number(-1), Value::Number(-1)).unwrap();
    let p2 = PointI32::new(Value::Number(-1), Value::Number(-1)).unwrap();
    let s = p1 + p2;
    let expt = PointI32::new(Value::Number(18), Value::Number(77)).unwrap();
    assert_eq!(s, expt);
}

#[test]
fn test_add_is_symmetric_on_a_chord() {
    assert_eq!(finite(-1, -1) + finite(2, 5), finite(3, -7));
    assert_eq!(finite(2, 5) + finite(-1, -1), finite(3, -7));
}

#[test]
fn test_add_identity_on_the_left() {
    assert_eq!(identity() + finite(2, 5), finite(2, 5));
    assert_eq!(identity() + finite(18, 77), finite(18, 77));
}

#[test]
fn test_add_identity_on_the_right() {
    assert_eq!(finite(2, 5) + identity(), finite(2, 5));
    assert_eq!(finite(-1, 1) + identity(), finite(-1, 1));
}

#[test]
fn test_add_identity_to_identity() {
    assert_eq!(identity() + identity(), identity());
}

#[test]
fn test_add_opposite_points() {
    assert_eq!(finite(2, 5) + finite(2, -5), identity());
    assert_eq!(finite(2, -5) + finite(2, 5), identity());
    assert_eq!(finite(-1, -1) + finite(-1, 1), identity());
    assert_eq!(finite(18, 77) + finite(18, -77), identity());
}

#[test]
fn test_add_chord_with_exact_slope() {
    // slope (7 - 5) / (3 - 2) = 2, x3 = 4 - 2 - 3, y3 = 2 * (2 + 1) - 5
    assert_eq!(finite(2, 5) + finite(3, 7), finite(-1, 1));
    // slope (-7 - 5) / (3 - 2) = -12, x3 = 144 - 2 - 3, y3 = -12 * (2 - 139) - 5
    assert_eq!(finite(2, 5) + finite(3, -7), finite(139, 1639));
}

#[test]
fn test_add_doubling_with_exact_slope() {
    // slope (3 * 1 + 5) / (2 * 1) = 4, x3 = 16 + 2, y3 = 4 * (-1 - 18) - 1
    assert_eq!(finite(-1, 1) + finite(-1, 1), finite(18, -77));
}

#[test]
fn test_add_uses_the_division_of_the_coordinate_type() {
    // On `i32` the slope (1 - 5) / (-1 - 2) is cut down to 1, so the result is
    // the pair (1 - 2 + 1, 1 * (2 - 0) - 5), which misses the curve.
    let s = finite(2, 5) + finite(-1, 1);
    assert_eq!(format!("{:?}", s), "Point { x: Number(0), y: Number(-3) }");
    assert!(PointI32::new(Value::Number(0), Value::Number(-3)).is_err());
}

#[test]
fn test_add_result_prints_its_coordinates() {
    let s = finite(2, 5) + finite(-1, -1);
    assert_eq!(format!("{:?}", s), "Point { x: Number(3), y: Number(-7) }");
    let d = finite(-1, -1) + finite(-1, -1);
    assert_eq!(format!("{:?}", d), "Point { x: Number(18), y: Number(77) }");
    assert_eq!(format!("{:?}", identity()), "Point { x: Inf, y: Inf }");
}

#[test]
fn test_add_on_a_wider_integer() {
    let p = Point::<5, 7, i64>::new(Value::Number(2), Value::Number(5)).unwrap();
    let q = Point::<5, 7, i64>::new(Value::Number(-1), Value::Number(-1)).unwrap();
    let expected = Point::<5, 7, i64>::new(Value::Number(3), Value::Number(-7)).unwrap();
    assert_eq!(p + q, expected);
}

#[test]
fn test_add_doubling_on_the_axis() {
    // y² = x³ - x has the three points (-1, 0), (0, 0) and (1, 0) on the x-axis.
    type OnAxis = Point<{ -1i32 as u32 }, 0, i64>;
    for x in [-1i64, 0, 1] {
        let p = OnAxis::new(Value::Number(x), Value::Number(0)).unwrap();
        let q = OnAxis::new(Value::Number(x), Value::Number(0)).unwrap();
        assert_eq!(p + q, OnAxis::new(Value::Inf, Value::Inf).unwrap());
    }
}

#[test]
fn test_add_with_a_negative_coefficient() {
    // y² = x³ - 3x + 7: doubling (2, 3) has slope (3 * 4 - 3) / (2 * 3) = 1 on
    // integers, x3 = 1 - 4, y3 = 1 * (2 + 3) - 3.
    type Curve = Point<{ -3i32 as u32 }, 7, i64>;
    let p = Curve::new(Value::Number(2), Value::Number(3)).unwrap();
    let q = Curve::new(Value::Number(2), Value::Number(3)).unwrap();
    assert_eq!(format!("{:?}", p + q), "Point { x: Number(-3), y: Number(2) }");
}

#[test]
fn test_add_twice_with_exact_slopes() {
    // (2, 5) + (3, 7) = (-1, 1); then slope (-5 - 1) / (2 + 1) = -2,
    // x3 = 4 + 1 - 2, y3 = -2 * (-1 - 3) - 1
    let sum = finite(2, 5) + finite(3, 7);
    assert_eq!(sum, finite(-1, 1));
    assert_eq!(sum + finite(2, -5), finite(3, 7));
}

#[test]
fn test_add_doubling_on_the_axis_of_a_cubic() {
    // y² = x³ + 1 meets the x-axis at (-1, 0)
    type Cubic = Point<0, 1, i32>;
    let p = Cubic::new(Value::Number(-1), Value::Number(0)).unwrap();
    let q = Cubic::new(Value::Number(-1), Value::Number(0)).unwrap();
    assert_eq!(p + q, Cubic::new(Value::Inf, Value::Inf).unwrap());
}
