//! The curve equation and the group law, on pairs of coordinates: what
//! `Point::new` accepts, what the sum of two points is, and which operations of
//! the coordinate type either of them takes.

use crate::field::cubic;
use crate::lifting::{lift, liftable, lifting_determined};
use crate::point::Value;
use std::ops::{Add, Div, Mul, Sub};
use vstd::prelude::*;
use vstd::std_specs::cmp::PartialEqSpec;
use vstd::std_specs::ops::{AddSpec, DivSpec, MulSpec, SubSpec};

verus! {

/// The signed coefficient that a const parameter stands for: the number with
/// the same 32 bits in two's complement, which is `bits` itself below 2³¹ and
/// `bits - 2³²` from there on.
pub open spec fn coefficient(bits: u32) -> i32 {
    if bits <= 0x7fff_ffff {
        bits as i32
    } else {
        (bits - 0x1_0000_0000) as i32
    }
}

/// Reads a const parameter as the signed coefficient that it stands for.
pub fn signed(bits: u32) -> (n: i32)
    ensures
        n == coefficient(bits),
{
    if bits <= 0x7fff_ffff {
        bits as i32
    } else {
        -((u32::MAX - bits) as i32) - 1
    }
}

/// The right-hand side of the curve equation at `x`: `x³ + a·x + b` in `T`'s
/// own arithmetic, with the two coefficients lifted into `T`.
pub open spec fn curve_rhs<const A: u32, const B: u32, T>(x: T) -> T where
    T: Add<Output = T> + Mul<Output = T> + From<i32>,
 {
    cubic(lift::<T>(coefficient(A)), lift::<T>(coefficient(B)), x)
}

/// `T` can carry out every operation that evaluating both sides of the curve
/// equation at `(x, y)` takes, with the two coefficients as `T::from` returns
/// them.
pub open spec fn equation_defined<const A: u32, const B: u32, T>(x: T, y: T) -> bool where
    T: Add<Output = T> + Mul<Output = T> + From<i32>,
 {
    let a = lift::<T>(coefficient(A));
    let b = lift::<T>(coefficient(B));
    let cube = x.mul_spec(x).mul_spec(x);
    liftable::<T>(coefficient(A)) && liftable::<T>(coefficient(B)) ==> {
        &&& y.mul_req(y)
        &&& x.mul_req(x)
        &&& x.mul_spec(x).mul_req(x)
        &&& a.mul_req(x)
        &&& cube.add_req(a.mul_spec(x))
        &&& cube.add_spec(a.mul_spec(x)).add_req(b)
    }
}

/// `(x, y)` satisfies `y² = x³ + a·x + b`.
pub open spec fn on_curve<const A: u32, const B: u32, T>(x: T, y: T) -> bool where
    T: Add<Output = T> + Mul<Output = T> + From<i32> + PartialEq,
 {
    y.mul_spec(y).eq_spec(&curve_rhs::<A, B, T>(x))
}

/// The pair of coordinates is the identity, or a finite pair on the curve.
pub open spec fn valid<const A: u32, const B: u32, T>(p: (Value<T>, Value<T>)) -> bool where
    T: Add<Output = T> + Mul<Output = T> + From<i32> + PartialEq,
 {
    match p {
        (Value::Inf, Value::Inf) => true,
        (Value::Number(x), Value::Number(y)) => on_curve::<A, B, T>(x, y),
        _ => false,
    }
}

/// The operations on `T` that the curve equation takes: `+`, `*` and `==`
/// compute what `add_spec`, `mul_spec` and `eq_spec` say, and `T::from`
/// returns one value only for each integer.
pub open spec fn membership_obeys<T>() -> bool where
    T: Add<Output = T> + Mul<Output = T> + From<i32> + PartialEq,
 {
    &&& <T as AddSpec>::obeys_add_spec()
    &&& <T as MulSpec>::obeys_mul_spec()
    &&& <T as PartialEqSpec>::obeys_eq_spec()
    &&& lifting_determined::<T>()
}

/// The operations on `T` that the group law takes compute what their `_spec`
/// functions say: those of the curve equation, and `-` and `/`.
pub open spec fn arithmetic_obeys<T>() -> bool where
    T: Add<Output = T> + Mul<Output = T> + Sub<Output = T> + Div<Output = T> + From<i32>
        + PartialEq,
 {
    &&& membership_obeys::<T>()
    &&& <T as SubSpec>::obeys_sub_spec()
    &&& <T as DivSpec>::obeys_div_spec()
}

/// The slope of the line through `(x1, y1)` and `(x2, y2)`.
pub open spec fn chord_slope<T>(x1: T, y1: T, x2: T, y2: T) -> T where
    T: Sub<Output = T> + Div<Output = T>,
 {
    y2.sub_spec(y1).div_spec(x2.sub_spec(x1))
}

/// The slope of the tangent to the curve at `(x1, y1)`.
pub open spec fn tangent_slope<const A: u32, T>(x1: T, y1: T) -> T where
    T: Add<Output = T> + Mul<Output = T> + Div<Output = T> + From<i32>,
 {
    lift::<T>(3).mul_spec(x1).mul_spec(x1).add_spec(lift::<T>(coefficient(A))).div_spec(
        lift::<T>(2).mul_spec(y1),
    )
}

/// Where the line of slope `s` through `(x1, y1)` meets the curve again, when
/// it also passes through a point of abscissa `x2`: `x3 = s² - x1 - x2`.
pub open spec fn chord_x<T>(s: T, x1: T, x2: T) -> T where
    T: Mul<Output = T> + Sub<Output = T>,
 {
    s.mul_spec(s).sub_spec(x1).sub_spec(x2)
}

/// The abscissa of the double of a point of abscissa `x1`, from the slope `s`
/// of its tangent: `x3 = s² - 2·x1`.
pub open spec fn tangent_x<T>(s: T, x1: T) -> T where
    T: Mul<Output = T> + Sub<Output = T> + From<i32>,
 {
    s.mul_spec(s).sub_spec(lift::<T>(2).mul_spec(x1))
}

/// The ordinate of the sum, mirrored at the x-axis from the line of slope `s`
/// through `(x1, y1)`: `y3 = s·(x1 - x3) - y1`.
pub open spec fn mirrored_y<T>(s: T, x1: T, y1: T, x3: T) -> T where
    T: Mul<Output = T> + Sub<Output = T>,
 {
    s.mul_spec(x1.sub_spec(x3)).sub_spec(y1)
}

/// `T` can carry out `s·(x1 - x3) - y1`.
pub open spec fn mirrored_y_defined<T>(s: T, x1: T, y1: T, x3: T) -> bool where
    T: Mul<Output = T> + Sub<Output = T>,
 {
    &&& x1.sub_req(x3)
    &&& s.mul_req(x1.sub_spec(x3))
    &&& s.mul_spec(x1.sub_spec(x3)).sub_req(y1)
}

/// `T` can carry out every operation of the chord construction.
pub open spec fn chord_defined<T>(x1: T, y1: T, x2: T, y2: T) -> bool where
    T: Mul<Output = T> + Sub<Output = T> + Div<Output = T>,
 {
    let s = chord_slope(x1, y1, x2, y2);
    &&& y2.sub_req(y1)
    &&& x2.sub_req(x1)
    &&& y2.sub_spec(y1).div_req(x2.sub_spec(x1))
    &&& s.mul_req(s)
    &&& s.mul_spec(s).sub_req(x1)
    &&& s.mul_spec(s).sub_spec(x1).sub_req(x2)
    &&& mirrored_y_defined(s, x1, y1, chord_x(s, x1, x2))
}

/// `T::from` returns a value for each of the three integers that the tangent
/// construction lifts: 3, the first coefficient and 2.
pub open spec fn tangent_lifts<const A: u32, T: From<i32>>() -> bool {
    liftable::<T>(3) && liftable::<T>(coefficient(A)) && liftable::<T>(2)
}

/// `T` can carry out every operation of the tangent construction, with the
/// three integers as `T::from` returns them.
pub open spec fn tangent_defined<const A: u32, T>(x1: T, y1: T) -> bool where
    T: Add<Output = T> + Mul<Output = T> + Sub<Output = T> + Div<Output = T> + From<i32>,
 {
    let three_x = lift::<T>(3).mul_spec(x1);
    let numerator = three_x.mul_spec(x1).add_spec(lift::<T>(coefficient(A)));
    let denominator = lift::<T>(2).mul_spec(y1);
    let s = tangent_slope::<A, T>(x1, y1);
    tangent_lifts::<A, T>() ==> {
        &&& lift::<T>(3).mul_req(x1)
        &&& three_x.mul_req(x1)
        &&& three_x.mul_spec(x1).add_req(lift::<T>(coefficient(A)))
        &&& lift::<T>(2).mul_req(y1)
        &&& numerator.div_req(denominator)
        &&& s.mul_req(s)
        &&& lift::<T>(2).mul_req(x1)
        &&& s.mul_spec(s).sub_req(lift::<T>(2).mul_spec(x1))
        &&& mirrored_y_defined(s, x1, y1, tangent_x(s, x1))
    }
}

/// The numbers among the coordinates `p` are in `elements`.
pub open spec fn coordinates_in<T>(
    elements: spec_fn(T) -> bool,
    p: (Value<T>, Value<T>),
) -> bool {
    &&& p.0 matches Value::Number(x) ==> elements(x)
    &&& p.1 matches Value::Number(y) ==> elements(y)
}

/// The coordinates of the identity, the point at infinity.
pub open spec fn identity<T>() -> (Value<T>, Value<T>) {
    (Value::Inf, Value::Inf)
}

/// The group law on pairs of coordinates.
///
/// The identity is neutral.  Two finite points on one vertical line with
/// different ordinates add up to the identity.  Two finite points with different
/// abscissas add up to the mirror image of the third point of their chord.  A
/// point added to itself gives the identity where its ordinate is zero, and
/// the mirror image of the second point of its tangent elsewhere.  A pair with
/// a single infinity is no point, and nothing is said of a sum with one.
pub open spec fn curve_sum<const A: u32, const B: u32, T>(
    p: (Value<T>, Value<T>),
    q: (Value<T>, Value<T>),
) -> (Value<T>, Value<T>) where
    T: Add<Output = T> + Mul<Output = T> + Sub<Output = T> + Div<Output = T> + From<i32>
        + PartialEq,
 {
    match (p, q) {
        ((Value::Inf, Value::Inf), _) => q,
        (_, (Value::Inf, Value::Inf)) => p,
        ((Value::Number(x1), Value::Number(y1)), (Value::Number(x2), Value::Number(y2))) => {
            if x1.eq_spec(&x2) && !y1.eq_spec(&y2) {
                identity()
            } else if !x1.eq_spec(&x2) {
                let s = chord_slope(x1, y1, x2, y2);
                let x3 = chord_x(s, x1, x2);
                (Value::Number(x3), Value::Number(mirrored_y(s, x1, y1, x3)))
            } else if y1.eq_spec(&lift::<T>(0)) {
                identity()
            } else {
                let s = tangent_slope::<A, T>(x1, y1);
                let x3 = tangent_x(s, x1);
                (Value::Number(x3), Value::Number(mirrored_y(s, x1, y1, x3)))
            }
        },
        _ => arbitrary(),
    }
}

/// `T` can carry out every operation that adding `p` and `q` takes: those of
/// the chord construction for two finite points with different abscissas,
/// those of the tangent construction for a point off the x-axis added to
/// itself, with zero as `T::from` returns it, and none elsewhere.
pub open spec fn sum_defined<const A: u32, const B: u32, T>(
    p: (Value<T>, Value<T>),
    q: (Value<T>, Value<T>),
) -> bool where
    T: Add<Output = T> + Mul<Output = T> + Sub<Output = T> + Div<Output = T> + From<i32>
        + PartialEq,
 {
    match (p, q) {
        ((Value::Number(x1), Value::Number(y1)), (Value::Number(x2), Value::Number(y2))) => {
            if x1.eq_spec(&x2) && !y1.eq_spec(&y2) {
                true
            } else if !x1.eq_spec(&x2) {
                chord_defined(x1, y1, x2, y2)
            } else {
                liftable::<T>(0) && !y1.eq_spec(&lift::<T>(0)) ==> tangent_defined::<A, T>(x1, y1)
            }
        },
        _ => true,
    }
}

/// `T::from` returns a value for each integer that adding `p` and `q` lifts:
/// 0 where a finite point is added to itself, and those of the tangent
/// construction where that point lies off the x-axis.
pub open spec fn sum_lifts<const A: u32, const B: u32, T>(
    p: (Value<T>, Value<T>),
    q: (Value<T>, Value<T>),
) -> bool where T: From<i32> + PartialEq {
    match (p, q) {
        ((Value::Number(x1), Value::Number(y1)), (Value::Number(x2), Value::Number(y2))) => {
            x1.eq_spec(&x2) && y1.eq_spec(&y2) ==> {
                &&& liftable::<T>(0)
                &&& !y1.eq_spec(&lift::<T>(0)) ==> tangent_lifts::<A, T>()
            }
        },
        _ => true,
    }
}

/// Where adding `p` and `q` takes the tangent at a point off the x-axis, the
/// divisor of its slope, twice the ordinate, is not zero.
pub open spec fn slope_exists<const A: u32, const B: u32, T>(
    p: (Value<T>, Value<T>),
    q: (Value<T>, Value<T>),
) -> bool where T: Mul<Output = T> + From<i32> + PartialEq {
    match (p, q) {
        ((Value::Number(x1), Value::Number(y1)), (Value::Number(x2), Value::Number(y2))) => {
            let zero = lift::<T>(0);
            let divisor = lift::<T>(2).mul_spec(y1);
            x1.eq_spec(&x2) && y1.eq_spec(&y2) && !y1.eq_spec(&zero) ==> divisor != zero
        },
        _ => true,
    }
}

/// Both pairs of coordinates are finite.
pub open spec fn both_finite<T>(p: (Value<T>, Value<T>), q: (Value<T>, Value<T>)) -> bool {
    p.0 is Number && p.1 is Number && q.0 is Number && q.1 is Number
}

} // verus!
