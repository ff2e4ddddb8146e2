//! What holds of the group law: the identity is neutral, opposite points
//! cancel, a point on the x-axis is its own opposite, and over a field the sum
//! of two points lies on the curve and does not depend on their order.
//!
//! Opposite points and doubling on the axis rest on `==` alone, and are
//! stated twice: for any
//! coordinate type whose `==` finds the abscissa equal to itself, and for a
//! field, where it always does.

use crate::curve::{
    chord_slope, chord_x, coefficient, coordinates_in, curve_sum, identity, slope_exists,
    tangent_slope, tangent_x, valid,
};
use crate::field::{
    division_laws, equality_law, field_laws, lemma_mul_cancels, lemma_mul_zero,
    lemma_negated_square, lemma_negation_differs, negated,
};
use crate::intersection::{
    lemma_chord_abscissa_symmetric, lemma_chord_slope_solves, lemma_chord_slope_symmetric,
    lemma_difference_of_distinct, lemma_mirror_on_curve, lemma_mirror_symmetric,
    lemma_tangent_slope_solves,
};
use crate::lifting::lift;
use crate::point::{Point, Value};
use std::ops::{Add, Div, Mul, Sub};
use vstd::prelude::*;
use vstd::std_specs::cmp::PartialEqSpec;
use vstd::std_specs::ops::{DivSpec, MulSpec, SubSpec};

verus! {

/// The identity is neutral: added to a point on either side, it gives that
/// point.
pub proof fn lemma_identity_is_neutral<const A: u32, const B: u32, T>(p: Point<A, B, T>) where
    T: Add<Output = T> + Mul<Output = T> + Sub<Output = T> + Div<Output = T> + From<i32>
        + PartialEq + Copy,

    requires
        p.wf(),
    ensures
        curve_sum::<A, B, T>(p@, identity()) == p@,
        curve_sum::<A, B, T>(identity(), p@) == p@,
{
}

/// A finite point and the point with the same abscissa and the negated
/// ordinate add up to the identity, wherever `T` tells the ordinate from its
/// negation and finds the abscissa equal to itself.
pub proof fn lemma_opposite_points_cancel<const A: u32, const B: u32, T>(
    p: Point<A, B, T>,
    q: Point<A, B, T>,
    x: T,
    y: T,
) where
    T: Add<Output = T> + Mul<Output = T> + Sub<Output = T> + Div<Output = T> + From<i32>
        + PartialEq + Copy,

    requires
        p.wf(),
        q.wf(),
        p@ == (Value::Number(x), Value::Number(y)),
        q@ == (Value::Number(x), Value::Number(negated(y))),
        x.eq_spec(&x),
        !y.eq_spec(&negated(y)),
    ensures
        curve_sum::<A, B, T>(p@, q@) == identity::<T>(),
{
}

/// Over a field in which `1 + 1` is not zero, the pair with the abscissa of
/// a finite point off the x-axis and with its negated ordinate is a point of
/// the curve too, and the two add up to the identity.
pub proof fn lemma_opposite_points_cancel_in_field<const A: u32, const B: u32, T>(
    elements: spec_fn(T) -> bool,
    p: Point<A, B, T>,
    q: Point<A, B, T>,
    x: T,
    y: T,
) where
    T: Add<Output = T> + Mul<Output = T> + Sub<Output = T> + Div<Output = T> + From<i32>
        + PartialEq + Copy,

    requires
        field_laws(elements),
        lift::<T>(2) != lift::<T>(0),
        elements(x),
        elements(y),
        p.wf(),
        p@ == (Value::Number(x), Value::Number(y)),
        q@ == (Value::Number(x), Value::Number(negated(y))),
        y != lift::<T>(0),
    ensures
        q.wf(),
        curve_sum::<A, B, T>(p@, q@) == identity::<T>(),
{
    reveal(equality_law);
    lemma_negated_square(elements, y);
    lemma_negation_differs(elements, y);
    lemma_opposite_points_cancel(p, q, x, y);
}

/// A finite point on the x-axis, added to itself, gives the identity,
/// wherever `T` finds its abscissa equal to itself.
pub proof fn lemma_doubling_on_axis<const A: u32, const B: u32, T>(
    p: Point<A, B, T>,
    x: T,
    y: T,
) where
    T: Add<Output = T> + Mul<Output = T> + Sub<Output = T> + Div<Output = T> + From<i32>
        + PartialEq + Copy,

    requires
        p.wf(),
        p@ == (Value::Number(x), Value::Number(y)),
        y.eq_spec(&lift::<T>(0)),
        x.eq_spec(&x),
    ensures
        curve_sum::<A, B, T>(p@, p@) == identity::<T>(),
{
}

/// Over a field, a finite point on the x-axis, added to itself, gives the
/// identity.
pub proof fn lemma_doubling_on_axis_in_field<const A: u32, const B: u32, T>(
    elements: spec_fn(T) -> bool,
    p: Point<A, B, T>,
    x: T,
) where
    T: Add<Output = T> + Mul<Output = T> + Sub<Output = T> + Div<Output = T> + From<i32>
        + PartialEq + Copy,

    requires
        field_laws(elements),
        elements(x),
        p.wf(),
        p@ == (Value::Number(x), Value::Number(lift::<T>(0))),
    ensures
        curve_sum::<A, B, T>(p@, p@) == identity::<T>(),
{
    reveal(equality_law);
    lemma_doubling_on_axis(p, x, lift::<T>(0));
}

/// Over a field in which `1 + 1` is not zero, the divisor of a tangent's
/// slope is never zero.
pub proof fn lemma_slope_exists_in_field<const A: u32, const B: u32, T>(
    elements: spec_fn(T) -> bool,
    p: Point<A, B, T>,
    q: Point<A, B, T>,
) where
    T: Add<Output = T> + Mul<Output = T> + Sub<Output = T> + Div<Output = T> + From<i32>
        + PartialEq + Copy,

    requires
        field_laws(elements),
        lift::<T>(2) != lift::<T>(0),
        coordinates_in(elements, p@),
        coordinates_in(elements, q@),
    ensures
        slope_exists::<A, B, T>(p@, q@),
{
    reveal(equality_law);
    match (p@, q@) {
        ((Value::Number(x1), Value::Number(y1)), (Value::Number(x2), Value::Number(y2))) => {
            if y1 != lift::<T>(0) && lift::<T>(2).mul_spec(y1) == lift::<T>(0) {
                lemma_mul_zero(elements, lift::<T>(2));
                lemma_mul_cancels(elements, lift::<T>(2), y1, lift::<T>(0));
            }
        },
        _ => {},
    }
}

/// Over a field, the sum of two points of the curve is a point of the curve:
/// the identity, or a finite point that satisfies the curve equation, with
/// its coordinates in the field.  Where the sum takes a tangent, the divisor
/// of its slope is to be other than zero, as it is in every field in which
/// `1 + 1` is not zero.
pub proof fn lemma_sum_on_curve<const A: u32, const B: u32, T>(
    elements: spec_fn(T) -> bool,
    p: Point<A, B, T>,
    q: Point<A, B, T>,
) where
    T: Add<Output = T> + Mul<Output = T> + Sub<Output = T> + Div<Output = T> + From<i32>
        + PartialEq + Copy,

    requires
        field_laws(elements),
        coordinates_in(elements, p@),
        coordinates_in(elements, q@),
        p.wf(),
        q.wf(),
        slope_exists::<A, B, T>(p@, q@),
    ensures
        valid::<A, B, T>(curve_sum::<A, B, T>(p@, q@)),
        coordinates_in(elements, curve_sum::<A, B, T>(p@, q@)),
{
    reveal(equality_law);
    let a = lift::<T>(coefficient(A));
    let b = lift::<T>(coefficient(B));
    match (p@, q@) {
        ((Value::Number(x1), Value::Number(y1)), (Value::Number(x2), Value::Number(y2))) => {
            if x1 == x2 && y1 != y2 {
            } else if x1 != x2 {
                let s = chord_slope(x1, y1, x2, y2);
                lemma_difference_of_distinct(elements, x1, x2);
                lemma_chord_slope_solves(elements, a, b, x1, y1, x2, y2);
                lemma_mirror_on_curve(elements, a, b, x1, y1, s, chord_x(s, x1, x2));
            } else if y1 == lift::<T>(0) {
            } else {
                let s = tangent_slope::<A, T>(x1, y1);
                lemma_tangent_slope_solves(elements, a, b, x1, y1);
                lemma_mirror_on_curve(elements, a, b, x1, y1, s, tangent_x(s, x1));
            }
        },
        _ => {},
    }
}

/// Over a field, the sum of two points of the curve does not depend on their
/// order.
pub proof fn lemma_sum_commutes<const A: u32, const B: u32, T>(
    elements: spec_fn(T) -> bool,
    p: Point<A, B, T>,
    q: Point<A, B, T>,
) where
    T: Add<Output = T> + Mul<Output = T> + Sub<Output = T> + Div<Output = T> + From<i32>
        + PartialEq + Copy,

    requires
        field_laws(elements),
        coordinates_in(elements, p@),
        coordinates_in(elements, q@),
        p.wf(),
        q.wf(),
    ensures
        curve_sum::<A, B, T>(p@, q@) == curve_sum::<A, B, T>(q@, p@),
{
    reveal(equality_law);
    match (p@, q@) {
        ((Value::Number(x1), Value::Number(y1)), (Value::Number(x2), Value::Number(y2))) => {
            if x1 != x2 {
                let s = chord_slope(x1, y1, x2, y2);
                lemma_difference_of_distinct(elements, x1, x2);
                lemma_chord_slope_symmetric(elements, x1, y1, x2, y2);
                lemma_chord_abscissa_symmetric(elements, s.mul_spec(s), x1, x2);
                assert(s.mul_spec(x2.sub_spec(x1)) == y2.sub_spec(y1)) by {
                    reveal(division_laws);
                }
                lemma_mirror_symmetric(elements, s, x1, y1, x2, y2, chord_x(s, x1, x2));
            }
        },
        _ => {},
    }
}

} // verus!
