use std::ops::{Add, Div, Mul, Sub};
use weierstrass::point::{Point, Value};

const P: i32 = 13;

/// An element of the field of integers modulo 13.
#[derive(Debug, Clone, Copy, PartialEq, Eq)]
struct Fp(i32);

impl From<i32> for Fp {
    fn from(n: i32) -> Fp {
        Fp(n.rem_euclid(P))
    }
}

impl Add for Fp {
    type Output = Fp;

    fn add(self, rhs: Fp) -> Fp {
        Fp((self.0 + rhs.0) % P)
    }
}

impl Sub for Fp {
    type Output = Fp;

    fn sub(self, rhs: Fp) -> Fp {
        Fp((self.0 - rhs.0).rem_euclid(P))
    }
}

impl Mul for Fp {
    type Output = Fp;

    fn mul(self, rhs: Fp) -> Fp {
        Fp((self.0 * rhs.0) % P)
    }
}

impl Div for Fp {
    type Output = Fp;

    fn div(self, rhs: Fp) -> Fp {
        assert!(rhs.0 != 0);
        let mut inverse = Fp(1);
        for _ in 0..P - 2 {
            inverse = inverse * rhs;
        }
        self * inverse
    }
}

type Curve = Point<5, 7, Fp>;

fn finite(x: i32, y: i32) -> Curve {
    Curve::new(Value::Number(Fp::from(x)), Value::Number(Fp::from(y))).unwrap()
}

fn identity() -> Curve {
    Curve::new(Value::Inf, Value::Inf).unwrap()
}

/// The coordinates of every finite point of the curve.
fn finite_points() -> Vec<(i32, i32)> {
    let mut found = Vec::new();
    for x in 0..P {
        for y in 0..P {
            if Curve::new(Value::Number(Fp(x)), Value::Number(Fp(y))).is_ok() {
                found.push((x, y));
            }
        }
    }
    found
}

fn is_on_curve(p: &Curve) -> bool {
    *p == identity() || finite_points().iter().any(|&(x, y)| *p == finite(x, y))
}

#[test]
fn test_field_membership_follows_the_equation() {
    for x in 0..P {
        for y in 0..P {
            let holds = (y * y - (x * x * x + 5 * x + 7)).rem_euclid(P) == 0;
            assert_eq!(Curve::new(Value::Number(Fp(x)), Value::Number(Fp(y))).is_ok(), holds);
        }
    }
}

#[test]
fn test_field_curve_has_the_expected_points() {
    let points = finite_points();
    assert!(points.contains(&(1, 0)));
    assert!(points.contains(&(2, 5)));
    assert!(points.contains(&(2, 8)));
    assert!(!points.contains(&(0, 0)));
    for &(x, y) in &points {
        assert!(points.contains(&(x, (P - y) % P)));
    }
}

#[test]
fn test_field_sum_stays_on_the_curve() {
    let points = finite_points();
    for &(x1, y1) in &points {
        for &(x2, y2) in &points {
            let sum = finite(x1, y1) + finite(x2, y2);
            assert!(is_on_curve(&sum), "({x1}, {y1}) + ({x2}, {y2}) = {sum:?}");
        }
    }
}

#[test]
fn test_field_identity_is_neutral() {
    for &(x, y) in &finite_points() {
        assert_eq!(finite(x, y) + identity(), finite(x, y));
        assert_eq!(identity() + finite(x, y), finite(x, y));
    }
    assert_eq!(identity() + identity(), identity());
}

#[test]
fn test_field_opposite_points_cancel() {
    for &(x, y) in &finite_points() {
        if y != 0 {
            assert_eq!(finite(x, y) + finite(x, -y), identity());
        }
    }
}

#[test]
fn test_field_doubling_on_the_axis() {
    // 1 + 5 + 7 = 13, which is zero in the field
    assert_eq!(finite(1, 0) + finite(1, 0), identity());
    for &(x, y) in &finite_points() {
        if y == 0 {
            assert_eq!(finite(x, y) + finite(x, y), identity());
        }
    }
}

#[test]
fn test_field_sum_is_commutative() {
    let points = finite_points();
    for &(x1, y1) in &points {
        for &(x2, y2) in &points {
            assert_eq!(finite(x1, y1) + finite(x2, y2), finite(x2, y2) + finite(x1, y1));
        }
    }
}

#[test]
fn test_field_sum_is_associative() {
    let points = finite_points();
    for &(x1, y1) in &points {
        for &(x2, y2) in &points {
            for &(x3, y3) in &points {
                let left = (finite(x1, y1) + finite(x2, y2)) + finite(x3, y3);
                let right = finite(x1, y1) + (finite(x2, y2) + finite(x3, y3));
                assert_eq!(left, right);
            }
        }
    }
}

#[test]
fn test_field_chord_exact_value() {
    // slope (7 - 5) / (3 - 2) = 2, x3 = 4 - 2 - 3 = -1 = 12,
    // y3 = 2 * (2 - 12) - 5 = -25 = 1
    assert_eq!(finite(2, 5) + finite(3, 7), finite(12, 1));
}

#[test]
fn test_field_tangent_exact_value() {
    // slope (3 * 4 + 5) / (2 * 5) = 17 / 10 = 4 / 10 = 3 (since 3 * 10 = 30 = 4),
    // x3 = 9 - 4 = 5, y3 = 3 * (2 - 5) - 5 = -14 = 12
    assert_eq!(finite(2, 5) + finite(2, 5), finite(5, 12));
}
