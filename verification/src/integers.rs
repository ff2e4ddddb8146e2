//! The group law over a coordinate type that computes with integers, as the
//! machine integers do while nothing overflows: opposite points cancel, a
//! point on the x-axis is its own opposite, and where the slope divides
//! exactly, the sum of two points of the curve lies on the curve.

use crate::curve::{
    chord_slope, coefficient, curve_sum, equation_defined, identity, sum_defined, sum_lifts,
    tangent_slope, valid,
};
use crate::field::negated;
use crate::laws::{lemma_doubling_on_axis, lemma_opposite_points_cancel};
use crate::lifting::{lift, liftable};
use crate::point::{Point, Value};
use std::ops::{Add, Div, Mul, Sub};
use vstd::prelude::*;
use vstd::std_specs::cmp::PartialEqSpec;
use vstd::std_specs::ops::{AddSpec, MulSpec, SubSpec};

verus! {

/// `x³ + a·x + b` over the integers.
pub open spec fn cubic_int(a: int, b: int, x: int) -> int {
    x * x * x + a * x + b
}

/// `cubic_int(a, b, x) - cubic_int(a, b, w) == (x - w)·(x² + x·w + w² + a)`.
proof fn lemma_cubic_difference(a: int, b: int, x: int, w: int)
    ensures
        cubic_int(a, b, x) - cubic_int(a, b, w) == (x - w) * (x * x + x * w + w * w + a),
{
    assert(x * x * x - w * w * w == (x - w) * (x * x + x * w + w * w)) by (nonlinear_arith);
    assert((x - w) * (x * x + x * w + w * w + a) == (x - w) * (x * x + x * w + w * w) + (x - w)
        * a) by (nonlinear_arith);
    assert(a * x - a * w == (x - w) * a) by (nonlinear_arith);
}

/// A line of slope `s` through the point `(x1, y1)` of the curve meets the
/// curve again at `(x3, -y3)`, once `s` solves
/// `x3² + x3·x1 + x1² + a + s²·(x1 - x3) == 2·s·y1`.
proof fn lemma_mirror_over_integers(a: int, b: int, x1: int, y1: int, s: int, x3: int)
    requires
        y1 * y1 == cubic_int(a, b, x1),
        x3 * x3 + x3 * x1 + x1 * x1 + a + s * s * (x1 - x3) == 2 * (s * y1),
    ensures
        ({
            let y3 = s * (x1 - x3) - y1;
            y3 * y3 == cubic_int(a, b, x3)
        }),
{
    let u = x1 - x3;
    let y3 = s * u - y1;
    let k = x3 * x3 + x3 * x1 + x1 * x1 + a;
    lemma_cubic_difference(a, b, x3, x1);
    // y3² - y1² == s·u·(s·u - 2·y1)
    assert(y3 * y3 - y1 * y1 == (s * u) * (s * u - 2 * y1)) by (nonlinear_arith)
        requires
            y3 == s * u - y1,
    ;
    // k == 2·s·y1 - s²·u, so u·k == -(s·u)·(s·u - 2·y1)
    assert(u * k == -((s * u) * (s * u - 2 * y1))) by (nonlinear_arith)
        requires
            k + s * s * u == 2 * (s * y1),
    ;
    assert((x3 - x1) * k == -(u * k)) by (nonlinear_arith)
        requires
            u == x1 - x3,
    ;
}

/// Over the integers, the chord through two points of the curve with
/// different abscissas, where its slope `s` divides exactly, meets the curve
/// in the mirror image of the sum.
pub proof fn lemma_chord_over_integers(a: int, b: int, x1: int, y1: int, x2: int, y2: int, s: int)
    requires
        y1 * y1 == cubic_int(a, b, x1),
        y2 * y2 == cubic_int(a, b, x2),
        x1 != x2,
        s * (x2 - x1) == y2 - y1,
    ensures
        ({
            let x3 = s * s - x1 - x2;
            let y3 = s * (x1 - x3) - y1;
            y3 * y3 == cubic_int(a, b, x3)
        }),
{
    let e = x2 - x1;
    let x3 = s * s - x1 - x2;
    let k = x2 * x2 + x2 * x1 + x1 * x1 + a;
    lemma_cubic_difference(a, b, x2, x1);
    assert(y2 * y2 - y1 * y1 == (s * e) * (y2 + y1)) by (nonlinear_arith)
        requires
            s * e == y2 - y1,
    ;
    assert(e * (k - s * (y2 + y1)) == 0) by (nonlinear_arith)
        requires
            e * k == (s * e) * (y2 + y1),
    ;
    assert(k == s * (y2 + y1)) by (nonlinear_arith)
        requires
            e * (k - s * (y2 + y1)) == 0,
            e != 0,
    ;
    // k3 + s²·(x2 - x3) == k
    let k3 = x3 * x3 + x3 * x1 + x1 * x1 + a;
    assert(k3 + (x3 + x2 + x1) * (x2 - x3) == k) by (nonlinear_arith)
        requires
            k3 == x3 * x3 + x3 * x1 + x1 * x1 + a,
            k == x2 * x2 + x2 * x1 + x1 * x1 + a,
    ;
    assert(k3 + s * s * (x1 - x3) == 2 * (s * y1)) by (nonlinear_arith)
        requires
            k3 + (s * s) * (x2 - x3) == k,
            k == s * (y2 + y1),
            s * (x2 - x1) == y2 - y1,
    ;
    lemma_mirror_over_integers(a, b, x1, y1, s, x3);
}

/// Over the integers, the tangent at a point of the curve, where its slope
/// `s` divides exactly, meets the curve in the mirror image of the double.
pub proof fn lemma_tangent_over_integers(a: int, b: int, x1: int, y1: int, s: int)
    requires
        y1 * y1 == cubic_int(a, b, x1),
        s * (2 * y1) == 3 * x1 * x1 + a,
    ensures
        ({
            let x3 = s * s - 2 * x1;
            let y3 = s * (x1 - x3) - y1;
            y3 * y3 == cubic_int(a, b, x3)
        }),
{
    let x3 = s * s - 2 * x1;
    let k3 = x3 * x3 + x3 * x1 + x1 * x1 + a;
    assert(k3 + (x3 + x1 + x1) * (x1 - x3) == 3 * x1 * x1 + a) by (nonlinear_arith)
        requires
            k3 == x3 * x3 + x3 * x1 + x1 * x1 + a,
    ;
    assert(s * (2 * y1) == 2 * (s * y1)) by (nonlinear_arith);
    lemma_mirror_over_integers(a, b, x1, y1, s, x3);
}

/// `T` computes with integers: `value` gives the integer that a value of `T`
/// stands for, `==` compares those integers, an integer lifts to a value that
/// stands for it, and wherever `T` admits a sum, a difference or a product,
/// the result stands for the sum, the difference or the product of the
/// integers.
pub open spec fn integer_arithmetic<T>(value: spec_fn(T) -> int) -> bool where
    T: Add<Output = T> + Mul<Output = T> + Sub<Output = T> + Div<Output = T> + From<i32>
        + PartialEq,
 {
    &&& forall|a: T, b: T| #[trigger] a.eq_spec(&b) <==> value(a) == value(b)
    &&& forall|n: i32| #[trigger] liftable::<T>(n) ==> value(lift::<T>(n)) == n
    &&& forall|a: T, b: T| #[trigger] a.add_req(b) ==> value(a.add_spec(b)) == value(a) + value(b)
    &&& forall|a: T, b: T| #[trigger] a.sub_req(b) ==> value(a.sub_spec(b)) == value(a) - value(b)
    &&& forall|a: T, b: T| #[trigger] a.mul_req(b) ==> value(a.mul_spec(b)) == value(a) * value(b)
}

/// The slope that adding `p` and `q` takes divides exactly: times its
/// divisor, it gives its dividend.
pub open spec fn slope_exact<const A: u32, const B: u32, T>(
    value: spec_fn(T) -> int,
    p: (Value<T>, Value<T>),
    q: (Value<T>, Value<T>),
) -> bool where
    T: Add<Output = T> + Mul<Output = T> + Sub<Output = T> + Div<Output = T> + From<i32>
        + PartialEq,
 {
    match (p, q) {
        ((Value::Number(x1), Value::Number(y1)), (Value::Number(x2), Value::Number(y2))) => {
            let chord = value(chord_slope(x1, y1, x2, y2));
            let tangent = value(tangent_slope::<A, T>(x1, y1));
            if !x1.eq_spec(&x2) {
                chord * (value(x2) - value(x1)) == value(y2) - value(y1)
            } else if y1.eq_spec(&y2) && !y1.eq_spec(&lift::<T>(0)) {
                tangent * (2 * value(y1)) == 3 * value(x1) * value(x1) + coefficient(A)
            } else {
                true
            }
        },
        _ => true,
    }
}

/// `T` can evaluate the curve equation at the numbers among the coordinates
/// `p`.
pub open spec fn equation_defined_at<const A: u32, const B: u32, T>(
    p: (Value<T>, Value<T>),
) -> bool where T: Add<Output = T> + Mul<Output = T> + From<i32> {
    p matches (Value::Number(x), Value::Number(y)) ==> equation_defined::<A, B, T>(x, y)
}

/// Where `T` can evaluate the curve equation at `(x, y)`, the pair satisfies
/// it in `T` exactly if the integers that it stands for satisfy it.
proof fn lemma_equation_over_integers<const A: u32, const B: u32, T>(
    value: spec_fn(T) -> int,
    x: T,
    y: T,
) where
    T: Add<Output = T> + Mul<Output = T> + Sub<Output = T> + Div<Output = T> + From<i32>
        + PartialEq,

    requires
        integer_arithmetic(value),
        liftable::<T>(coefficient(A)),
        liftable::<T>(coefficient(B)),
        equation_defined::<A, B, T>(x, y),
    ensures
        valid::<A, B, T>((Value::Number(x), Value::Number(y))) <==> value(y) * value(y)
            == cubic_int(coefficient(A) as int, coefficient(B) as int, value(x)),
{
}

/// Over a coordinate type that computes with integers, the sum of two points
/// of the curve is a point of the curve, where the slope divides exactly and
/// `T` can evaluate the curve equation at both points and at their sum.
pub proof fn lemma_sum_on_curve_over_integers<const A: u32, const B: u32, T>(
    value: spec_fn(T) -> int,
    p: Point<A, B, T>,
    q: Point<A, B, T>,
) where
    T: Add<Output = T> + Mul<Output = T> + Sub<Output = T> + Div<Output = T> + From<i32>
        + PartialEq + Copy,

    requires
        integer_arithmetic(value),
        liftable::<T>(coefficient(A)),
        liftable::<T>(coefficient(B)),
        p.wf(),
        q.wf(),
        sum_defined::<A, B, T>(p@, q@),
        sum_lifts::<A, B, T>(p@, q@),
        slope_exact::<A, B, T>(value, p@, q@),
        equation_defined_at::<A, B, T>(p@),
        equation_defined_at::<A, B, T>(q@),
        equation_defined_at::<A, B, T>(curve_sum::<A, B, T>(p@, q@)),
    ensures
        valid::<A, B, T>(curve_sum::<A, B, T>(p@, q@)),
{
    let a = coefficient(A) as int;
    let b = coefficient(B) as int;
    match (p@, q@) {
        ((Value::Number(x1), Value::Number(y1)), (Value::Number(x2), Value::Number(y2))) => {
            lemma_equation_over_integers::<A, B, T>(value, x1, y1);
            lemma_equation_over_integers::<A, B, T>(value, x2, y2);
            if x1.eq_spec(&x2) && !y1.eq_spec(&y2) {
            } else if !x1.eq_spec(&x2) {
                let s = chord_slope(x1, y1, x2, y2);
                lemma_chord_over_integers(
                    a,
                    b,
                    value(x1),
                    value(y1),
                    value(x2),
                    value(y2),
                    value(s),
                );
                let sum = curve_sum::<A, B, T>(p@, q@);
                lemma_equation_over_integers::<A, B, T>(value, sum.0->Number_0, sum.1->Number_0);
            } else if y1.eq_spec(&lift::<T>(0)) {
            } else {
                let s = tangent_slope::<A, T>(x1, y1);
                lemma_tangent_over_integers(a, b, value(x1), value(y1), value(s));
                let sum = curve_sum::<A, B, T>(p@, q@);
                lemma_equation_over_integers::<A, B, T>(value, sum.0->Number_0, sum.1->Number_0);
            }
        },
        _ => {},
    }
}

/// Over a coordinate type that computes with integers, a finite point off the
/// x-axis and the point with the same abscissa and the negated ordinate add up
/// to the identity, where `T` admits the negation.
pub proof fn lemma_opposite_points_cancel_over_integers<const A: u32, const B: u32, T>(
    value: spec_fn(T) -> int,
    p: Point<A, B, T>,
    q: Point<A, B, T>,
    x: T,
    y: T,
) where
    T: Add<Output = T> + Mul<Output = T> + Sub<Output = T> + Div<Output = T> + From<i32>
        + PartialEq + Copy,

    requires
        integer_arithmetic(value),
        liftable::<T>(0),
        lift::<T>(0).sub_req(y),
        p.wf(),
        q.wf(),
        p@ == (Value::Number(x), Value::Number(y)),
        q@ == (Value::Number(x), Value::Number(negated(y))),
        value(y) != 0,
    ensures
        curve_sum::<A, B, T>(p@, q@) == identity::<T>(),
{
    lemma_opposite_points_cancel(p, q, x, y);
}

/// Over a coordinate type that computes with integers, a finite point on the
/// x-axis, added to itself, gives the identity.
pub proof fn lemma_doubling_on_axis_over_integers<const A: u32, const B: u32, T>(
    value: spec_fn(T) -> int,
    p: Point<A, B, T>,
    x: T,
    y: T,
) where
    T: Add<Output = T> + Mul<Output = T> + Sub<Output = T> + Div<Output = T> + From<i32>
        + PartialEq + Copy,

    requires
        integer_arithmetic(value),
        liftable::<T>(0),
        p.wf(),
        p@ == (Value::Number(x), Value::Number(y)),
        value(y) == 0,
    ensures
        curve_sum::<A, B, T>(p@, p@) == identity::<T>(),
{
    lemma_doubling_on_axis(p, x, y);
}

/// The machine integers of 32 bits compute with integers.
pub proof fn lemma_i32_computes_with_integers()
    ensures
        integer_arithmetic(|a: i32| a as int),
{
}

/// The machine integers of 64 bits compute with integers.
pub proof fn lemma_i64_computes_with_integers()
    ensures
        integer_arithmetic(|a: i64| a as int),
{
}

} // verus!
