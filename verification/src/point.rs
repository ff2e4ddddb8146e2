//! The points of a curve: their coordinates, the constructor that admits
//! only points of the curve, and their addition.

use crate::curve::{
    arithmetic_obeys, both_finite, coefficient, coordinates_in, curve_sum, equation_defined,
    membership_obeys, signed, slope_exists, sum_defined, sum_lifts, valid,
};
use crate::field::{division_laws, field_laws};
use crate::laws::lemma_sum_on_curve;
use crate::lifting::{liftable, lifts_to};
use std::ops::{Add, Div, Mul, Sub};
use vstd::pervasive::unreached;
use vstd::prelude::*;
use vstd::std_specs::ops::AddSpec;

verus! {

/// One coordinate of a point: a number of the coordinate type, or the marker
/// of the point at infinity.
#[derive(PartialEq, Eq, Debug, Copy)]
pub enum Value<T> {
    Number(T),
    Inf,
}

impl<T: Clone> Clone for Value<T> {
    /// The marker as it is, a number cloned.
    fn clone(&self) -> (copy: Value<T>)
        ensures
            match (*self, copy) {
                (Value::Number(n), Value::Number(m)) => cloned(n, m),
                (Value::Inf, Value::Inf) => true,
                _ => false,
            },
    {
        match self {
            Value::Number(n) => Value::Number(n.clone()),
            Value::Inf => Value::Inf,
        }
    }
}

/// A point of the curve `y² = x³ + a·x + b` over the coordinate type `T`.
///
/// The two coefficients are part of the type, so points of different curves
/// never meet.  A const parameter holds the two's-complement bits of a signed
/// 32-bit coefficient: `Point<5, 7, T>` is `y² = x³ + 5x + 7`, and
/// `Point<{ -3i32 as u32 }, 7, T>` is `y² = x³ - 3x + 7`.
///
/// A point is made by `Point::new`, which checks the curve equation, or by
/// adding two points.
#[derive(PartialEq, Eq, Debug)]
pub struct Point<const A: u32, const B: u32, T> {
    x: Value<T>,
    y: Value<T>,
}

/// Why `Point::new` turned a pair of coordinates down: they are neither the
/// identity nor a finite pair that satisfies the curve equation.
#[derive(PartialEq, Eq, Debug, Copy, Clone)]
pub struct CurveMembershipError;

impl CurveMembershipError {
    /// The error in words.
    pub fn message(&self) -> (text: &'static str)
        ensures
            text@ == "point is not on the curve"@,
    {
        "point is not on the curve"
    }
}

impl<const A: u32, const B: u32, T> View for Point<A, B, T> {
    type V = (Value<T>, Value<T>);

    /// The two coordinates of the point.
    closed spec fn view(&self) -> (Value<T>, Value<T>) {
        (self.x, self.y)
    }
}

impl<const A: u32, const B: u32, T: Add<Output = T> + Mul<Output = T>> Point<A, B, T> where
    T: From<i32> + PartialEq + Copy,
 {
    /// The invariant of a point: it is the identity or lies on the curve.
    pub open spec fn wf(self) -> bool {
        valid::<A, B, T>(self@)
    }

    /// Makes the point with the coordinates `x` and `y`, if there is one: the
    /// identity from two infinities, a finite point from two numbers that
    /// satisfy the curve equation.  Any other pair is turned down.
    ///
    /// For two numbers, `T` is to be able to evaluate both sides of the
    /// equation (`equation_defined`); of any other pair nothing is asked.  The
    /// two coefficients are lifted in either case.
    pub fn new(x: Value<T>, y: Value<T>) -> (r: Result<Point<A, B, T>, CurveMembershipError>)
        requires
            x is Number && y is Number ==> membership_obeys::<T>() && equation_defined::<A, B, T>(
                x->Number_0,
                y->Number_0,
            ),
        ensures
            r is Ok <==> valid::<A, B, T>((x, y)),
            r matches Ok(p) ==> p@ == (x, y) && p.wf(),
            liftable::<T>(coefficient(A)),
            liftable::<T>(coefficient(B)),
    {
        let a = T::from(signed(A));
        let b = T::from(signed(B));
        assert(lifts_to(coefficient(A), a) && lifts_to(coefficient(B), b));
        match (x, y) {
            (Value::Inf, Value::Inf) => Ok(Point { x: Value::Inf, y: Value::Inf }),
            (Value::Number(xv), Value::Number(yv)) => {
                if yv * yv != xv * xv * xv + a * xv + b {
                    Err(CurveMembershipError)
                } else {
                    Ok(Point { x, y })
                }
            },
            _ => Err(CurveMembershipError),
        }
    }
}

impl<const A: u32, const B: u32, T> vstd::std_specs::ops::AddSpecImpl for Point<A, B, T> where
    T: Add<Output = T> + Mul<Output = T> + Sub<Output = T> + Div<Output = T> + From<i32>
        + PartialEq + Copy,
 {
    open spec fn obeys_add_spec() -> bool {
        true
    }

    /// Both points are well formed, and where both are finite, `T` can carry
    /// out the addition.
    open spec fn add_req(self, rhs: Point<A, B, T>) -> bool {
        &&& self.wf()
        &&& rhs.wf()
        &&& both_finite(self@, rhs@) ==> arithmetic_obeys::<T>() && sum_defined::<A, B, T>(
            self@,
            rhs@,
        )
    }

    /// The point whose coordinates are the sum of the two pairs of
    /// coordinates under the group law.
    closed spec fn add_spec(self, rhs: Point<A, B, T>) -> Point<A, B, T> {
        let sum = curve_sum::<A, B, T>(self@, rhs@);
        Point { x: sum.0, y: sum.1 }
    }
}

/// The coordinates of `p.add_spec(q)` are `curve_sum` of the coordinates of
/// `p` and `q`.
pub proof fn lemma_sum_coordinates<const A: u32, const B: u32, T>(
    p: Point<A, B, T>,
    q: Point<A, B, T>,
) where
    T: Add<Output = T> + Mul<Output = T> + Sub<Output = T> + Div<Output = T> + From<i32>
        + PartialEq + Copy,

    ensures
        p.add_spec(q)@ == curve_sum::<A, B, T>(p@, q@),
{
}

impl<const A: u32, const B: u32, T> Add for Point<A, B, T> where
    T: Add<Output = T> + Mul<Output = T> + Sub<Output = T> + Div<Output = T> + From<i32>
        + PartialEq + Copy,
 {
    type Output = Point<A, B, T>;

    /// The sum of two points of the curve under the group law.
    ///
    /// Both points are to be well formed, and where both are finite, `T` is to
    /// be able to carry out the operations that the sum takes (`add_req`).
    /// The coordinates of the sum are those that `curve_sum` gives, and every
    /// integer that the sum lifts has a lift.  Where the coordinates of both
    /// points lie in a field, the sum is again a point of the curve with its
    /// coordinates in that field.
    fn add(self, rhs: Point<A, B, T>) -> (sum: Point<A, B, T>)
        ensures
            sum@ == curve_sum::<A, B, T>(self@, rhs@),
            sum_lifts::<A, B, T>(self@, rhs@),
            forall|elements: spec_fn(T) -> bool|
                #![trigger field_laws(elements)]
                field_laws(elements) && coordinates_in(elements, self@) && coordinates_in(
                    elements,
                    rhs@,
                ) ==> sum.wf() && coordinates_in(elements, sum@),
    {
        let ghost p = self@;
        let ghost q = rhs@;
        let sum = match (self.x, self.y, rhs.x, rhs.y) {
            (Value::Inf, Value::Inf, _, _) => rhs,
            (_, _, Value::Inf, Value::Inf) => self,
            (Value::Number(x1), Value::Number(y1), Value::Number(x2), Value::Number(y2)) => {
                if x1 == x2 && y1 != y2 {
                    Point { x: Value::Inf, y: Value::Inf }
                } else if x1 != x2 {
                    let s = (y2 - y1) / (x2 - x1);
                    let x3 = s * s - x1 - x2;
                    let y3 = s * (x1 - x3) - y1;
                    Point { x: Value::Number(x3), y: Value::Number(y3) }
                } else {
                    let zero = T::from(0);
                    assert(lifts_to(0, zero));
                    if y1 == zero {
                        Point { x: Value::Inf, y: Value::Inf }
                    } else {
                        let three = T::from(3);
                        let a = T::from(signed(A));
                        let two = T::from(2);
                        assert(lifts_to(3, three) && lifts_to(coefficient(A), a) && lifts_to(
                            2,
                            two,
                        ));
                        let s = (three * x1 * x1 + a) / (two * y1);
                        let x3 = s * s - two * x1;
                        let y3 = s * (x1 - x3) - y1;
                        Point { x: Value::Number(x3), y: Value::Number(y3) }
                    }
                }
            },
            _ => unreached(),
        };
        proof {
            assert forall|elements: spec_fn(T) -> bool|
                #![trigger field_laws(elements)]
                field_laws(elements) && coordinates_in(elements, p) && coordinates_in(
                    elements,
                    q,
                ) implies valid::<A, B, T>(sum@) && coordinates_in(elements, sum@) by {
                lemma_divisor_of_slope(elements, self, rhs);
                lemma_sum_on_curve(elements, self, rhs);
            }
        }
        sum
    }
}

/// Over a field, where `T` admits the division that the tangent construction
/// takes, its divisor is not zero.
proof fn lemma_divisor_of_slope<const A: u32, const B: u32, T>(
    elements: spec_fn(T) -> bool,
    p: Point<A, B, T>,
    q: Point<A, B, T>,
) where
    T: Add<Output = T> + Mul<Output = T> + Sub<Output = T> + Div<Output = T> + From<i32>
        + PartialEq + Copy,

    requires
        field_laws(elements),
        coordinates_in(elements, p@),
        coordinates_in(elements, q@),
        sum_defined::<A, B, T>(p@, q@),
        sum_lifts::<A, B, T>(p@, q@),
    ensures
        slope_exists::<A, B, T>(p@, q@),
{
    reveal(division_laws);
}

} // verus!
