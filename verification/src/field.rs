//! What the curve asks of its coordinate type: the laws of a field, stated over
//! what `T`'s own operators compute (`add_spec`, `mul_spec` and the like), and
//! the algebra that follows from them.
//!
//! A type may have values that stand for no element, such as a residue that
//! is not reduced.  So the laws speak of a set `elements` of values of `T`,
//! given by its membership test, and ask nothing of the values outside it.

use crate::lifting::lift;
use std::ops::{Add, Div, Mul, Sub};
use vstd::prelude::*;
use vstd::std_specs::cmp::PartialEqSpec;
use vstd::std_specs::ops::{AddSpec, DivSpec, MulSpec, SubSpec};

verus! {

/// The negation of `y`: `0 - y`.
pub open spec fn negated<T>(y: T) -> T where T: Sub<Output = T> + From<i32> {
    lift::<T>(0).sub_spec(y)
}

/// `elements` holds every lifted integer and, with two values, their sum,
/// their difference and their product, and their quotient where the divisor is
/// not zero.
pub open spec fn closed_under_arithmetic<T>(elements: spec_fn(T) -> bool) -> bool where
    T: Add<Output = T> + Mul<Output = T> + Sub<Output = T> + Div<Output = T> + From<i32>
        + PartialEq,
 {
    &&& forall|n: i32| elements(#[trigger] lift::<T>(n))
    &&& forall|a: T, b: T| elements(a) && elements(b) ==> elements(#[trigger] a.add_spec(b))
    &&& forall|a: T, b: T| elements(a) && elements(b) ==> elements(#[trigger] a.sub_spec(b))
    &&& forall|a: T, b: T| elements(a) && elements(b) ==> elements(#[trigger] a.mul_spec(b))
    &&& forall|a: T, b: T|
        elements(a) && elements(b) && b != lift::<T>(0) ==> elements(#[trigger] a.div_spec(b))
}

/// On `elements`, `==` on `T` is equality.
#[verifier::opaque]
pub open spec fn equality_law<T>(elements: spec_fn(T) -> bool) -> bool where T: PartialEq {
    forall|a: T, b: T| elements(a) && elements(b) ==> (#[trigger] a.eq_spec(&b) <==> a == b)
}

/// On `elements`, addition is commutative and associative, `lift(0)` is
/// neutral, and `a - b` is the element that gives `a` when `b` is added to it.
#[verifier::opaque]
pub open spec fn additive_laws<T>(elements: spec_fn(T) -> bool) -> bool where
    T: Add<Output = T> + Sub<Output = T> + From<i32>,
 {
    &&& forall|a: T, b: T|
        elements(a) && elements(b) ==> #[trigger] a.add_spec(b) == b.add_spec(a)
    &&& forall|a: T, b: T, c: T|
        elements(a) && elements(b) && elements(c) ==> #[trigger] a.add_spec(b).add_spec(c)
            == a.add_spec(b.add_spec(c))
    &&& forall|a: T| elements(a) ==> #[trigger] a.add_spec(lift::<T>(0)) == a
    &&& forall|a: T, b: T|
        elements(a) && elements(b) ==> #[trigger] a.sub_spec(b).add_spec(b) == a
}

/// On `elements`, multiplication is commutative and associative, and
/// `lift(1)` is neutral.
#[verifier::opaque]
pub open spec fn multiplicative_laws<T>(elements: spec_fn(T) -> bool) -> bool where
    T: Mul<Output = T> + From<i32>,
 {
    &&& forall|a: T, b: T|
        elements(a) && elements(b) ==> #[trigger] a.mul_spec(b) == b.mul_spec(a)
    &&& forall|a: T, b: T, c: T|
        elements(a) && elements(b) && elements(c) ==> #[trigger] a.mul_spec(b).mul_spec(c)
            == a.mul_spec(b.mul_spec(c))
    &&& forall|a: T| elements(a) ==> #[trigger] a.mul_spec(lift::<T>(1)) == a
}

/// On `elements`, multiplication distributes over addition.
#[verifier::opaque]
pub open spec fn distributive_law<T>(elements: spec_fn(T) -> bool) -> bool where
    T: Add<Output = T> + Mul<Output = T>,
 {
    forall|a: T, b: T, c: T|
        elements(a) && elements(b) && elements(c) ==> #[trigger] a.mul_spec(b.add_spec(c))
            == a.mul_spec(b).add_spec(a.mul_spec(c))
}

/// On `elements`, `a / b`, for `b` other than zero, is the element that gives
/// `a` when multiplied by `b`, and `T` never admits a division by zero.
#[verifier::opaque]
pub open spec fn division_laws<T>(elements: spec_fn(T) -> bool) -> bool where
    T: Mul<Output = T> + Div<Output = T> + From<i32>,
 {
    &&& forall|a: T, b: T|
        elements(a) && elements(b) && b != lift::<T>(0) ==> #[trigger] a.div_spec(b).mul_spec(b)
            == a
    &&& forall|a: T, b: T|
        elements(a) && elements(b) && #[trigger] a.div_req(b) ==> b != lift::<T>(0)
}

/// `elements` is a field under `T`'s arithmetic, in which `lift(2)` and
/// `lift(3)` are `1 + 1` and `1 + 1 + 1`.
pub open spec fn field_laws<T>(elements: spec_fn(T) -> bool) -> bool where
    T: Add<Output = T> + Mul<Output = T> + Sub<Output = T> + Div<Output = T> + From<i32>
        + PartialEq,
 {
    &&& closed_under_arithmetic(elements)
    &&& equality_law(elements)
    &&& additive_laws(elements)
    &&& multiplicative_laws(elements)
    &&& distributive_law(elements)
    &&& division_laws(elements)
    &&& lift::<T>(2) == lift::<T>(1).add_spec(lift::<T>(1))
    &&& lift::<T>(3) == lift::<T>(1).add_spec(lift::<T>(1)).add_spec(lift::<T>(1))
}

/// `x³ + a·x + b`.
pub open spec fn cubic<T>(a: T, b: T, x: T) -> T where T: Add<Output = T> + Mul<Output = T> {
    x.mul_spec(x).mul_spec(x).add_spec(a.mul_spec(x)).add_spec(b)
}

/// `x² + x·w + w² + a`: what `cubic(a, b, x) - cubic(a, b, w)` is `x - w` times.
pub open spec fn divided_difference<T>(a: T, x: T, w: T) -> T where
    T: Add<Output = T> + Mul<Output = T>,
 {
    x.mul_spec(x).add_spec(x.mul_spec(w)).add_spec(w.mul_spec(w)).add_spec(a)
}

/// `(a - b) + b == a`.
pub proof fn lemma_sub_then_add<T>(elements: spec_fn(T) -> bool, a: T, b: T) where
    T: Add<Output = T> + Mul<Output = T> + Sub<Output = T> + Div<Output = T> + From<i32>
        + PartialEq,

    requires
        field_laws(elements),
        elements(a),
        elements(b),
    ensures
        a.sub_spec(b).add_spec(b) == a,
{
    reveal(additive_laws);
}

/// `a + b == b + a`.
pub proof fn lemma_add_commutes<T>(elements: spec_fn(T) -> bool, a: T, b: T) where
    T: Add<Output = T> + Mul<Output = T> + Sub<Output = T> + Div<Output = T> + From<i32>
        + PartialEq,

    requires
        field_laws(elements),
        elements(a),
        elements(b),
    ensures
        a.add_spec(b) == b.add_spec(a),
{
    reveal(additive_laws);
}

/// `(a + b) + c == a + (b + c)`.
pub proof fn lemma_add_associates<T>(elements: spec_fn(T) -> bool, a: T, b: T, c: T) where
    T: Add<Output = T> + Mul<Output = T> + Sub<Output = T> + Div<Output = T> + From<i32>
        + PartialEq,

    requires
        field_laws(elements),
        elements(a),
        elements(b),
        elements(c),
    ensures
        a.add_spec(b).add_spec(c) == a.add_spec(b.add_spec(c)),
{
    reveal(additive_laws);
}

/// `a + 0 == a` and `0 + a == a`.
pub proof fn lemma_add_zero<T>(elements: spec_fn(T) -> bool, a: T) where
    T: Add<Output = T> + Mul<Output = T> + Sub<Output = T> + Div<Output = T> + From<i32>
        + PartialEq,

    requires
        field_laws(elements),
        elements(a),
    ensures
        a.add_spec(lift::<T>(0)) == a,
        lift::<T>(0).add_spec(a) == a,
{
    reveal(additive_laws);
    assert(a.add_spec(lift::<T>(0)) == lift::<T>(0).add_spec(a));
}

/// Addition cancels: `a + c == b + c` only if `a == b`.
pub proof fn lemma_add_cancels<T>(elements: spec_fn(T) -> bool, a: T, b: T, c: T) where
    T: Add<Output = T> + Mul<Output = T> + Sub<Output = T> + Div<Output = T> + From<i32>
        + PartialEq,

    requires
        field_laws(elements),
        elements(a),
        elements(b),
        elements(c),
        a.add_spec(c) == b.add_spec(c),
    ensures
        a == b,
{
    reveal(additive_laws);
    let n = lift::<T>(0).sub_spec(c);
    assert(n.add_spec(c) == lift::<T>(0));
    assert(c.add_spec(n) == lift::<T>(0));
    assert(a.add_spec(c).add_spec(n) == a.add_spec(c.add_spec(n)));
    assert(b.add_spec(c).add_spec(n) == b.add_spec(c.add_spec(n)));
}

/// Multiplication by an element other than zero cancels.
pub proof fn lemma_mul_cancels<T>(elements: spec_fn(T) -> bool, e: T, a: T, b: T) where
    T: Add<Output = T> + Mul<Output = T> + Sub<Output = T> + Div<Output = T> + From<i32>
        + PartialEq,

    requires
        field_laws(elements),
        elements(e),
        elements(a),
        elements(b),
        e != lift::<T>(0),
        e.mul_spec(a) == e.mul_spec(b),
    ensures
        a == b,
{
    reveal(multiplicative_laws);
    reveal(division_laws);
    let inv = lift::<T>(1).div_spec(e);
    assert(inv.mul_spec(e) == lift::<T>(1));
    assert(inv.mul_spec(e).mul_spec(a) == inv.mul_spec(e.mul_spec(a)));
    assert(inv.mul_spec(e).mul_spec(b) == inv.mul_spec(e.mul_spec(b)));
    assert(lift::<T>(1).mul_spec(a) == a.mul_spec(lift::<T>(1)));
    assert(lift::<T>(1).mul_spec(b) == b.mul_spec(lift::<T>(1)));
}

/// Anything times zero is zero.
pub proof fn lemma_mul_zero<T>(elements: spec_fn(T) -> bool, a: T) where
    T: Add<Output = T> + Mul<Output = T> + Sub<Output = T> + Div<Output = T> + From<i32>
        + PartialEq,

    requires
        field_laws(elements),
        elements(a),
    ensures
        a.mul_spec(lift::<T>(0)) == lift::<T>(0),
{
    let zero = lift::<T>(0);
    let az = a.mul_spec(zero);
    assert(a.mul_spec(zero.add_spec(zero)) == az.add_spec(az)) by {
        reveal(distributive_law);
    }
    lemma_add_zero(elements, zero);
    lemma_add_zero(elements, az);
    lemma_add_cancels(elements, az, zero, az);
}

/// `lift(2)·x == x + x`.
pub proof fn lemma_double<T>(elements: spec_fn(T) -> bool, x: T) where
    T: Add<Output = T> + Mul<Output = T> + Sub<Output = T> + Div<Output = T> + From<i32>
        + PartialEq,

    requires
        field_laws(elements),
        elements(x),
    ensures
        lift::<T>(2).mul_spec(x) == x.add_spec(x),
{
    reveal(multiplicative_laws);
    reveal(distributive_law);
    let one = lift::<T>(1);
    assert(x.mul_spec(one.add_spec(one)) == x.mul_spec(one).add_spec(x.mul_spec(one)));
    assert(one.add_spec(one).mul_spec(x) == x.mul_spec(one.add_spec(one)));
}

/// `lift(3)·x == (x + x) + x`.
pub proof fn lemma_triple<T>(elements: spec_fn(T) -> bool, x: T) where
    T: Add<Output = T> + Mul<Output = T> + Sub<Output = T> + Div<Output = T> + From<i32>
        + PartialEq,

    requires
        field_laws(elements),
        elements(x),
    ensures
        lift::<T>(3).mul_spec(x) == x.add_spec(x).add_spec(x),
{
    reveal(multiplicative_laws);
    reveal(distributive_law);
    let one = lift::<T>(1);
    let two = one.add_spec(one);
    assert(x.mul_spec(two.add_spec(one)) == x.mul_spec(two).add_spec(x.mul_spec(one)));
    assert(x.mul_spec(one.add_spec(one)) == x.mul_spec(one).add_spec(x.mul_spec(one)));
    assert(two.add_spec(one).mul_spec(x) == x.mul_spec(two.add_spec(one)));
}

/// An element and its negation have the same square.
pub proof fn lemma_negated_square<T>(elements: spec_fn(T) -> bool, y: T) where
    T: Add<Output = T> + Mul<Output = T> + Sub<Output = T> + Div<Output = T> + From<i32>
        + PartialEq,

    requires
        field_laws(elements),
        elements(y),
    ensures
        negated(y).mul_spec(negated(y)) == y.mul_spec(y),
{
    let zero = lift::<T>(0);
    let n = negated(y);
    lemma_sub_then_add(elements, zero, y);
    lemma_mul_zero(elements, n);
    lemma_mul_zero(elements, y);
    assert(n.mul_spec(n.add_spec(y)) == n.mul_spec(n).add_spec(n.mul_spec(y)) && y.mul_spec(
        n.add_spec(y),
    ) == y.mul_spec(n).add_spec(y.mul_spec(y))) by {
        reveal(distributive_law);
    }
    assert(y.mul_spec(n) == n.mul_spec(y)) by {
        reveal(multiplicative_laws);
    }
    lemma_add_commutes(elements, n.mul_spec(y), y.mul_spec(y));
    lemma_add_cancels(elements, n.mul_spec(n), y.mul_spec(y), n.mul_spec(y));
}

/// In a field where `1 + 1` is not zero, only zero is its own negation.
pub proof fn lemma_negation_differs<T>(elements: spec_fn(T) -> bool, y: T) where
    T: Add<Output = T> + Mul<Output = T> + Sub<Output = T> + Div<Output = T> + From<i32>
        + PartialEq,

    requires
        field_laws(elements),
        elements(y),
        lift::<T>(2) != lift::<T>(0),
        y != lift::<T>(0),
    ensures
        negated(y) != y,
{
    let zero = lift::<T>(0);
    let two = lift::<T>(2);
    if negated(y) == y {
        lemma_sub_then_add(elements, zero, y);
        lemma_double(elements, y);
        lemma_mul_zero(elements, two);
        lemma_mul_cancels(elements, two, y, zero);
    }
}

/// `z²·z == e·z² + (e·(w·z) + (e·w² + w²·w))`, where `z` is `e + w`.
proof fn lemma_cube_of_sum<T>(elements: spec_fn(T) -> bool, e: T, w: T) where
    T: Add<Output = T> + Mul<Output = T> + Sub<Output = T> + Div<Output = T> + From<i32>
        + PartialEq,

    requires
        field_laws(elements),
        elements(e),
        elements(w),
    ensures
        ({
            let z = e.add_spec(w);
            let zz = z.mul_spec(z);
            let wz = w.mul_spec(z);
            let ww = w.mul_spec(w);
            zz.mul_spec(z) == e.mul_spec(zz).add_spec(
                e.mul_spec(wz).add_spec(e.mul_spec(ww).add_spec(ww.mul_spec(w))),
            )
        }),
{
    let z = e.add_spec(w);
    let zz = z.mul_spec(z);
    let wz = w.mul_spec(z);
    let ww = w.mul_spec(w);
    assert(zz.mul_spec(z) == zz.mul_spec(e).add_spec(zz.mul_spec(w)) && wz.mul_spec(z)
        == wz.mul_spec(e).add_spec(wz.mul_spec(w)) && ww.mul_spec(z) == ww.mul_spec(e).add_spec(
        ww.mul_spec(w),
    )) by {
        reveal(distributive_law);
    }
    assert(zz.mul_spec(e) == e.mul_spec(zz) && wz.mul_spec(e) == e.mul_spec(wz) && ww.mul_spec(e)
        == e.mul_spec(ww)) by {
        reveal(multiplicative_laws);
    }
    assert(zz.mul_spec(w) == wz.mul_spec(z)) by {
        reveal(multiplicative_laws);
        assert(z.mul_spec(z).mul_spec(w) == z.mul_spec(z.mul_spec(w)));
    }
    assert(wz.mul_spec(w) == ww.mul_spec(z)) by {
        reveal(multiplicative_laws);
        assert(w.mul_spec(z).mul_spec(w) == w.mul_spec(z.mul_spec(w)));
        assert(w.mul_spec(w).mul_spec(z) == w.mul_spec(w.mul_spec(z)));
    }
}

/// Two ways of adding up the same seven terms.
proof fn lemma_seven_terms<T>(
    elements: spec_fn(T) -> bool,
    t1: T,
    t2: T,
    t3: T,
    t4: T,
    t5: T,
    t6: T,
    t7: T,
) where
    T: Add<Output = T> + Mul<Output = T> + Sub<Output = T> + Div<Output = T> + From<i32>
        + PartialEq,

    requires
        field_laws(elements),
        elements(t1),
        elements(t2),
        elements(t3),
        elements(t4),
        elements(t5),
        elements(t6),
        elements(t7),
    ensures
        t1.add_spec(t2.add_spec(t3.add_spec(t4))).add_spec(t5.add_spec(t6)).add_spec(t7)
            == t4.add_spec(t6).add_spec(t7).add_spec(
            t3.add_spec(t2).add_spec(t1).add_spec(t5),
        ),
{
    reveal(additive_laws);
    let low = t3.add_spec(t2).add_spec(t1);
    assert(t1.add_spec(t2.add_spec(t3.add_spec(t4))) == low.add_spec(t4)) by {
        assert(t2.add_spec(t3).add_spec(t4) == t2.add_spec(t3.add_spec(t4)));
        assert(t1.add_spec(t2.add_spec(t3)).add_spec(t4) == t1.add_spec(
            t2.add_spec(t3).add_spec(t4),
        ));
    }
    let left = low.add_spec(t4).add_spec(t5.add_spec(t6));
    assert(left == low.add_spec(t5).add_spec(t4.add_spec(t6))) by {
        assert(low.add_spec(t4).add_spec(t5.add_spec(t6)) == low.add_spec(
            t4.add_spec(t5.add_spec(t6)),
        ));
        assert(t4.add_spec(t5).add_spec(t6) == t4.add_spec(t5.add_spec(t6)));
        assert(t5.add_spec(t4).add_spec(t6) == t5.add_spec(t4.add_spec(t6)));
        assert(low.add_spec(t5).add_spec(t4.add_spec(t6)) == low.add_spec(
            t5.add_spec(t4.add_spec(t6)),
        ));
    }
    assert(low.add_spec(t5).add_spec(t4.add_spec(t6)).add_spec(t7) == low.add_spec(t5).add_spec(
        t4.add_spec(t6).add_spec(t7),
    ));
}

/// `cubic(a, b, e + w) == cubic(a, b, w) + e·(w² + w·(e + w) + (e + w)² + a)`.
pub proof fn lemma_cubic_step<T>(elements: spec_fn(T) -> bool, a: T, b: T, w: T, e: T) where
    T: Add<Output = T> + Mul<Output = T> + Sub<Output = T> + Div<Output = T> + From<i32>
        + PartialEq,

    requires
        field_laws(elements),
        elements(a),
        elements(b),
        elements(w),
        elements(e),
    ensures
        cubic(a, b, e.add_spec(w)) == cubic(a, b, w).add_spec(
            e.mul_spec(divided_difference(a, w, e.add_spec(w))),
        ),
{
    let z = e.add_spec(w);
    let zz = z.mul_spec(z);
    let wz = w.mul_spec(z);
    let ww = w.mul_spec(w);
    lemma_cube_of_sum(elements, e, w);
    assert(a.mul_spec(z) == e.mul_spec(a).add_spec(a.mul_spec(w))) by {
        reveal(distributive_law);
        reveal(multiplicative_laws);
        assert(a.mul_spec(e.add_spec(w)) == a.mul_spec(e).add_spec(a.mul_spec(w)));
    }
    assert(e.mul_spec(divided_difference(a, w, z)) == e.mul_spec(ww).add_spec(
        e.mul_spec(wz),
    ).add_spec(e.mul_spec(zz)).add_spec(e.mul_spec(a))) by {
        reveal(distributive_law);
        assert(e.mul_spec(ww.add_spec(wz)) == e.mul_spec(ww).add_spec(e.mul_spec(wz)));
        assert(e.mul_spec(ww.add_spec(wz).add_spec(zz)) == e.mul_spec(ww.add_spec(wz)).add_spec(
            e.mul_spec(zz),
        ));
        assert(e.mul_spec(ww.add_spec(wz).add_spec(zz).add_spec(a)) == e.mul_spec(
            ww.add_spec(wz).add_spec(zz),
        ).add_spec(e.mul_spec(a)));
    }
    lemma_seven_terms(
        elements,
        e.mul_spec(zz),
        e.mul_spec(wz),
        e.mul_spec(ww),
        ww.mul_spec(w),
        e.mul_spec(a),
        a.mul_spec(w),
        b,
    );
}

/// `(f + w)² == w² + f·((f + w) + w)`.
pub proof fn lemma_square_step<T>(elements: spec_fn(T) -> bool, w: T, f: T) where
    T: Add<Output = T> + Mul<Output = T> + Sub<Output = T> + Div<Output = T> + From<i32>
        + PartialEq,

    requires
        field_laws(elements),
        elements(w),
        elements(f),
    ensures
        f.add_spec(w).mul_spec(f.add_spec(w)) == w.mul_spec(w).add_spec(
            f.mul_spec(f.add_spec(w).add_spec(w)),
        ),
{
    reveal(additive_laws);
    reveal(multiplicative_laws);
    reveal(distributive_law);
}

/// `divided_difference(a, x3, x1) + ((x3 + (v + x3)) + x1)·v`
/// `== divided_difference(a, x1, v + x3)`.
pub proof fn lemma_divided_difference_step<T>(
    elements: spec_fn(T) -> bool,
    a: T,
    x3: T,
    x1: T,
    v: T,
) where
    T: Add<Output = T> + Mul<Output = T> + Sub<Output = T> + Div<Output = T> + From<i32>
        + PartialEq,

    requires
        field_laws(elements),
        elements(a),
        elements(x3),
        elements(x1),
        elements(v),
    ensures
        divided_difference(a, x3, x1).add_spec(
            x3.add_spec(v.add_spec(x3)).add_spec(x1).mul_spec(v),
        ) == divided_difference(a, x1, v.add_spec(x3)),
{
    reveal(additive_laws);
    reveal(multiplicative_laws);
    reveal(distributive_law);
}

} // verus!
