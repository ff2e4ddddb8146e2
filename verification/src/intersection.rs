//! The algebra behind the laws of the group law, over a field: a line that
//! meets the curve in two points, or touches it in one, meets it in one point
//! more, and the chord through two points is the same from either end.

use crate::field::{
    additive_laws, cubic, distributive_law, divided_difference, division_laws, field_laws,
    lemma_add_associates, lemma_add_cancels, lemma_add_commutes, lemma_add_zero,
    lemma_cubic_step, lemma_divided_difference_step, lemma_double, lemma_mul_cancels,
    lemma_mul_zero, lemma_square_step, lemma_sub_then_add, lemma_triple, multiplicative_laws,
};
use crate::lifting::lift;
use std::ops::{Add, Div, Mul, Sub};
use vstd::prelude::*;
use vstd::std_specs::ops::{AddSpec, DivSpec, MulSpec, SubSpec};

verus! {

/// `y3 + y1 == s·u` only if `s·y3 + s·y1 == s²·u`.
proof fn lemma_scaled_line<T>(elements: spec_fn(T) -> bool, s: T, u: T, y1: T, y3: T) where
    T: Add<Output = T> + Mul<Output = T> + Sub<Output = T> + Div<Output = T> + From<i32>
        + PartialEq,

    requires
        field_laws(elements),
        elements(s),
        elements(u),
        elements(y1),
        elements(y3),
        y3.add_spec(y1) == s.mul_spec(u),
    ensures
        s.mul_spec(y3).add_spec(s.mul_spec(y1)) == s.mul_spec(s).mul_spec(u),
{
    reveal(distributive_law);
    reveal(multiplicative_laws);
    assert(s.mul_spec(y3.add_spec(y1)) == s.mul_spec(y3).add_spec(s.mul_spec(y1)));
    assert(s.mul_spec(s).mul_spec(u) == s.mul_spec(s.mul_spec(u)));
}

/// `k + s·y3 == s·y1`, from the line and from what its slope solves.
proof fn lemma_slope_relation<T>(elements: spec_fn(T) -> bool, k: T, s: T, u: T, y1: T, y3: T) where
    T: Add<Output = T> + Mul<Output = T> + Sub<Output = T> + Div<Output = T> + From<i32>
        + PartialEq,

    requires
        field_laws(elements),
        elements(k),
        elements(s),
        elements(u),
        elements(y1),
        elements(y3),
        y3.add_spec(y1) == s.mul_spec(u),
        k.add_spec(s.mul_spec(s).mul_spec(u)) == s.mul_spec(y1.add_spec(y1)),
    ensures
        k.add_spec(s.mul_spec(y3)) == s.mul_spec(y1),
{
    let sy1 = s.mul_spec(y1);
    let sy3 = s.mul_spec(y3);
    lemma_scaled_line(elements, s, u, y1, y3);
    assert(s.mul_spec(y1.add_spec(y1)) == sy1.add_spec(sy1)) by {
        reveal(distributive_law);
    }
    assert(k.add_spec(sy3).add_spec(sy1) == k.add_spec(sy3.add_spec(sy1))) by {
        reveal(additive_laws);
    }
    lemma_add_cancels(elements, k.add_spec(sy3), sy1, sy1);
}

/// `k + s·y3 == s·y1` only if `u·k + (s·u)·y3 == (s·u)·y1`.
proof fn lemma_scaled_relation<T>(
    elements: spec_fn(T) -> bool,
    k: T,
    s: T,
    u: T,
    y1: T,
    y3: T,
) where
    T: Add<Output = T> + Mul<Output = T> + Sub<Output = T> + Div<Output = T> + From<i32>
        + PartialEq,

    requires
        field_laws(elements),
        elements(k),
        elements(s),
        elements(u),
        elements(y1),
        elements(y3),
        k.add_spec(s.mul_spec(y3)) == s.mul_spec(y1),
    ensures
        u.mul_spec(k).add_spec(s.mul_spec(u).mul_spec(y3)) == s.mul_spec(u).mul_spec(y1),
{
    assert(u.mul_spec(k.add_spec(s.mul_spec(y3))) == u.mul_spec(k).add_spec(
        u.mul_spec(s.mul_spec(y3)),
    )) by {
        reveal(distributive_law);
    }
    assert(u.mul_spec(s.mul_spec(y3)) == s.mul_spec(u).mul_spec(y3)) by {
        reveal(multiplicative_laws);
        assert(u.mul_spec(s).mul_spec(y3) == u.mul_spec(s.mul_spec(y3)));
    }
    assert(u.mul_spec(s.mul_spec(y1)) == s.mul_spec(u).mul_spec(y1)) by {
        reveal(multiplicative_laws);
        assert(u.mul_spec(s).mul_spec(y1) == u.mul_spec(s.mul_spec(y1)));
    }
}

/// `y3² + y1·(y3 + y1) == y1² + y3·(y3 + y1)`.
proof fn lemma_squares_apart<T>(elements: spec_fn(T) -> bool, y1: T, y3: T) where
    T: Add<Output = T> + Mul<Output = T> + Sub<Output = T> + Div<Output = T> + From<i32>
        + PartialEq,

    requires
        field_laws(elements),
        elements(y1),
        elements(y3),
    ensures
        y3.mul_spec(y3).add_spec(y1.mul_spec(y3.add_spec(y1))) == y1.mul_spec(y1).add_spec(
            y3.mul_spec(y3.add_spec(y1)),
        ),
{
    reveal(additive_laws);
    reveal(multiplicative_laws);
    reveal(distributive_law);
}

/// From `a + p == y + q`, `u + q == p` and `y == c + u`: `a == c`.
proof fn lemma_balance<T>(elements: spec_fn(T) -> bool, a: T, c: T, p: T, q: T, u: T, y: T) where
    T: Add<Output = T> + Mul<Output = T> + Sub<Output = T> + Div<Output = T> + From<i32>
        + PartialEq,

    requires
        field_laws(elements),
        elements(a),
        elements(c),
        elements(p),
        elements(q),
        elements(u),
        elements(y),
        a.add_spec(p) == y.add_spec(q),
        u.add_spec(q) == p,
        y == c.add_spec(u),
    ensures
        a == c,
{
    assert(a.add_spec(u).add_spec(p) == y.add_spec(p)) by {
        reveal(additive_laws);
        assert(a.add_spec(u).add_spec(p) == a.add_spec(u.add_spec(p)));
        assert(a.add_spec(p).add_spec(u) == a.add_spec(p.add_spec(u)));
        assert(y.add_spec(q).add_spec(u) == y.add_spec(q.add_spec(u)));
    }
    lemma_add_cancels(elements, a.add_spec(u), y, p);
    lemma_add_cancels(elements, a, c, u);
}

/// From `c1 == c3 + u·k` and `k + s²·u == s·(y1 + y1)`: if `y1² == c1` and
/// `y3 + y1 == s·u`, then `y3² == c3`.
proof fn lemma_mirror_step<T>(
    elements: spec_fn(T) -> bool,
    k: T,
    u: T,
    s: T,
    y1: T,
    y3: T,
    c1: T,
    c3: T,
) where
    T: Add<Output = T> + Mul<Output = T> + Sub<Output = T> + Div<Output = T> + From<i32>
        + PartialEq,

    requires
        field_laws(elements),
        elements(k),
        elements(u),
        elements(s),
        elements(y1),
        elements(y3),
        elements(c1),
        elements(c3),
        y1.mul_spec(y1) == c1,
        c1 == c3.add_spec(u.mul_spec(k)),
        y3.add_spec(y1) == s.mul_spec(u),
        k.add_spec(s.mul_spec(s).mul_spec(u)) == s.mul_spec(y1.add_spec(y1)),
    ensures
        y3.mul_spec(y3) == c3,
{
    let t = s.mul_spec(u);
    lemma_slope_relation(elements, k, s, u, y1, y3);
    lemma_scaled_relation(elements, k, s, u, y1, y3);
    lemma_squares_apart(elements, y1, y3);
    assert(y1.mul_spec(t) == t.mul_spec(y1) && y3.mul_spec(t) == t.mul_spec(y3)) by {
        reveal(multiplicative_laws);
    }
    lemma_balance(elements, y3.mul_spec(y3), c3, t.mul_spec(y1), t.mul_spec(y3), u.mul_spec(k), c1);
}

/// A line of slope `s` through the point `(x1, y1)` of the curve meets the
/// curve again at `(x3, -y3)`, once `s` solves
/// `x3² + x3·x1 + x1² + a + s²·(x1 - x3) == s·(y1 + y1)`.
pub proof fn lemma_mirror_on_curve<T>(
    elements: spec_fn(T) -> bool,
    a: T,
    b: T,
    x1: T,
    y1: T,
    s: T,
    x3: T,
) where
    T: Add<Output = T> + Mul<Output = T> + Sub<Output = T> + Div<Output = T> + From<i32>
        + PartialEq,

    requires
        field_laws(elements),
        elements(a),
        elements(b),
        elements(x1),
        elements(y1),
        elements(s),
        elements(x3),
        y1.mul_spec(y1) == cubic(a, b, x1),
        divided_difference(a, x3, x1).add_spec(s.mul_spec(s).mul_spec(x1.sub_spec(x3)))
            == s.mul_spec(y1.add_spec(y1)),
    ensures
        ({
            let y3 = s.mul_spec(x1.sub_spec(x3)).sub_spec(y1);
            y3.mul_spec(y3) == cubic(a, b, x3)
        }),
{
    let u = x1.sub_spec(x3);
    let y3 = s.mul_spec(u).sub_spec(y1);
    lemma_sub_then_add(elements, x1, x3);
    lemma_sub_then_add(elements, s.mul_spec(u), y1);
    lemma_cubic_step(elements, a, b, x3, u);
    lemma_mirror_step(
        elements,
        divided_difference(a, x3, x1),
        u,
        s,
        y1,
        y3,
        cubic(a, b, x1),
        cubic(a, b, x3),
    );
}

/// From `c2 == c1 + e·k` and `y2² == y1² + f·m`, where `y1² == c1`,
/// `y2² == c2` and `f == s·e` with `e` other than zero: `k == s·m`.
proof fn lemma_quotient_of_chord<T>(
    elements: spec_fn(T) -> bool,
    c1: T,
    c2: T,
    e: T,
    f: T,
    k: T,
    m: T,
    s: T,
    sq1: T,
    sq2: T,
) where
    T: Add<Output = T> + Mul<Output = T> + Sub<Output = T> + Div<Output = T> + From<i32>
        + PartialEq,

    requires
        field_laws(elements),
        elements(c1),
        elements(c2),
        elements(e),
        elements(f),
        elements(k),
        elements(m),
        elements(s),
        elements(sq1),
        elements(sq2),
        e != lift::<T>(0),
        s.mul_spec(e) == f,
        sq1 == c1,
        sq2 == c2,
        c2 == c1.add_spec(e.mul_spec(k)),
        sq2 == sq1.add_spec(f.mul_spec(m)),
    ensures
        k == s.mul_spec(m),
{
    assert(e.mul_spec(k).add_spec(c1) == f.mul_spec(m).add_spec(c1)) by {
        reveal(additive_laws);
    }
    lemma_add_cancels(elements, e.mul_spec(k), f.mul_spec(m), c1);
    assert(s.mul_spec(e).mul_spec(m) == e.mul_spec(s.mul_spec(m))) by {
        reveal(multiplicative_laws);
        assert(e.mul_spec(s).mul_spec(m) == e.mul_spec(s.mul_spec(m)));
    }
    lemma_mul_cancels(elements, e, k, s.mul_spec(m));
}

/// From `v + x3 == x2`, `e + x1 == x2` and `u + x3 == x1`: `v == u + e`.
proof fn lemma_steps_add_up<T>(
    elements: spec_fn(T) -> bool,
    e: T,
    u: T,
    v: T,
    x1: T,
    x2: T,
    x3: T,
) where
    T: Add<Output = T> + Mul<Output = T> + Sub<Output = T> + Div<Output = T> + From<i32>
        + PartialEq,

    requires
        field_laws(elements),
        elements(e),
        elements(u),
        elements(v),
        elements(x1),
        elements(x2),
        elements(x3),
        v.add_spec(x3) == x2,
        e.add_spec(x1) == x2,
        u.add_spec(x3) == x1,
    ensures
        v == u.add_spec(e),
{
    assert(u.add_spec(e).add_spec(x3) == x2) by {
        reveal(additive_laws);
        assert(e.add_spec(u).add_spec(x3) == e.add_spec(u.add_spec(x3)));
    }
    lemma_add_cancels(elements, v, u.add_spec(e), x3);
}

/// From `k3 + s²·(u + e) == s·((f + y1) + y1)` and `f == s·e`:
/// `k3 + s²·u == s·(y1 + y1)`.
proof fn lemma_chord_to_mirror<T>(
    elements: spec_fn(T) -> bool,
    e: T,
    f: T,
    k3: T,
    s: T,
    u: T,
    y1: T,
) where
    T: Add<Output = T> + Mul<Output = T> + Sub<Output = T> + Div<Output = T> + From<i32>
        + PartialEq,

    requires
        field_laws(elements),
        elements(e),
        elements(f),
        elements(k3),
        elements(s),
        elements(u),
        elements(y1),
        s.mul_spec(e) == f,
        k3.add_spec(s.mul_spec(s).mul_spec(u.add_spec(e))) == s.mul_spec(
            f.add_spec(y1).add_spec(y1),
        ),
    ensures
        k3.add_spec(s.mul_spec(s).mul_spec(u)) == s.mul_spec(y1.add_spec(y1)),
{
    let ss = s.mul_spec(s);
    let se = ss.mul_spec(e);
    let su = ss.mul_spec(u);
    let d = s.mul_spec(y1.add_spec(y1));
    assert(ss.mul_spec(u.add_spec(e)) == su.add_spec(se)) by {
        reveal(distributive_law);
    }
    assert(s.mul_spec(f) == se) by {
        reveal(multiplicative_laws);
    }
    assert(s.mul_spec(f.add_spec(y1).add_spec(y1)) == d.add_spec(se)) by {
        reveal(additive_laws);
        reveal(distributive_law);
        assert(f.add_spec(y1).add_spec(y1) == f.add_spec(y1.add_spec(y1)));
        assert(s.mul_spec(f.add_spec(y1.add_spec(y1))) == s.mul_spec(f).add_spec(d));
    }
    assert(k3.add_spec(su).add_spec(se) == k3.add_spec(su.add_spec(se))) by {
        reveal(additive_laws);
    }
    lemma_add_cancels(elements, k3.add_spec(su), d, se);
}

/// The slope of the chord through two points of the curve with different
/// abscissas solves what `lemma_mirror_on_curve` asks of a slope.
pub proof fn lemma_chord_slope_solves<T>(
    elements: spec_fn(T) -> bool,
    a: T,
    b: T,
    x1: T,
    y1: T,
    x2: T,
    y2: T,
) where
    T: Add<Output = T> + Mul<Output = T> + Sub<Output = T> + Div<Output = T> + From<i32>
        + PartialEq,

    requires
        field_laws(elements),
        elements(a),
        elements(b),
        elements(x1),
        elements(y1),
        elements(x2),
        elements(y2),
        y1.mul_spec(y1) == cubic(a, b, x1),
        y2.mul_spec(y2) == cubic(a, b, x2),
        x1 != x2,
    ensures
        ({
            let s = y2.sub_spec(y1).div_spec(x2.sub_spec(x1));
            let x3 = s.mul_spec(s).sub_spec(x1).sub_spec(x2);
            divided_difference(a, x3, x1).add_spec(s.mul_spec(s).mul_spec(x1.sub_spec(x3)))
                == s.mul_spec(y1.add_spec(y1))
        }),
{
    let e = x2.sub_spec(x1);
    let f = y2.sub_spec(y1);
    let s = f.div_spec(e);
    let ss = s.mul_spec(s);
    let x3 = ss.sub_spec(x1).sub_spec(x2);
    let u = x1.sub_spec(x3);
    let v = x2.sub_spec(x3);
    lemma_difference_of_distinct(elements, x1, x2);
    lemma_sub_then_add(elements, x2, x1);
    lemma_sub_then_add(elements, y2, y1);
    lemma_sub_then_add(elements, x1, x3);
    lemma_sub_then_add(elements, x2, x3);
    lemma_sub_then_add(elements, ss.sub_spec(x1), x2);
    lemma_sub_then_add(elements, ss, x1);
    assert(s.mul_spec(e) == f) by {
        reveal(division_laws);
    }
    lemma_cubic_step(elements, a, b, x1, e);
    lemma_square_step(elements, y1, f);
    lemma_quotient_of_chord(
        elements,
        cubic(a, b, x1),
        cubic(a, b, x2),
        e,
        f,
        divided_difference(a, x1, x2),
        y2.add_spec(y1),
        s,
        y1.mul_spec(y1),
        y2.mul_spec(y2),
    );
    lemma_divided_difference_step(elements, a, x3, x1, v);
    lemma_steps_add_up(elements, e, u, v, x1, x2, x3);
    lemma_chord_to_mirror(elements, e, f, divided_difference(a, x3, x1), s, u, y1);
}

/// `(lift(3)·x)·x + a == x² + x·x + x² + a`.
proof fn lemma_tangent_numerator<T>(elements: spec_fn(T) -> bool, a: T, x: T) where
    T: Add<Output = T> + Mul<Output = T> + Sub<Output = T> + Div<Output = T> + From<i32>
        + PartialEq,

    requires
        field_laws(elements),
        elements(a),
        elements(x),
    ensures
        lift::<T>(3).mul_spec(x).mul_spec(x).add_spec(a) == divided_difference(a, x, x),
{
    let xx = x.mul_spec(x);
    lemma_triple(elements, xx);
    assert(lift::<T>(3).mul_spec(x).mul_spec(x) == lift::<T>(3).mul_spec(xx)) by {
        reveal(multiplicative_laws);
    }
}

/// The slope of the tangent at a point of the curve solves what
/// `lemma_mirror_on_curve` asks of a slope, where twice the point's ordinate
/// is not zero.
pub proof fn lemma_tangent_slope_solves<T>(
    elements: spec_fn(T) -> bool,
    a: T,
    b: T,
    x1: T,
    y1: T,
) where
    T: Add<Output = T> + Mul<Output = T> + Sub<Output = T> + Div<Output = T> + From<i32>
        + PartialEq,

    requires
        field_laws(elements),
        elements(a),
        elements(b),
        elements(x1),
        elements(y1),
        lift::<T>(2).mul_spec(y1) != lift::<T>(0),
    ensures
        ({
            let s = lift::<T>(3).mul_spec(x1).mul_spec(x1).add_spec(a).div_spec(
                lift::<T>(2).mul_spec(y1),
            );
            let x3 = s.mul_spec(s).sub_spec(lift::<T>(2).mul_spec(x1));
            divided_difference(a, x3, x1).add_spec(s.mul_spec(s).mul_spec(x1.sub_spec(x3)))
                == s.mul_spec(y1.add_spec(y1))
        }),
{
    let n = lift::<T>(3).mul_spec(x1).mul_spec(x1).add_spec(a);
    let d = lift::<T>(2).mul_spec(y1);
    let s = n.div_spec(d);
    let ss = s.mul_spec(s);
    let x3 = ss.sub_spec(lift::<T>(2).mul_spec(x1));
    let u = x1.sub_spec(x3);
    lemma_double(elements, x1);
    lemma_double(elements, y1);
    lemma_tangent_numerator(elements, a, x1);
    lemma_sub_then_add(elements, x1, x3);
    lemma_sub_then_add(elements, ss, lift::<T>(2).mul_spec(x1));
    lemma_add_associates(elements, x3, x1, x1);
    assert(s.mul_spec(d) == n) by {
        reveal(division_laws);
    }
    lemma_divided_difference_step(elements, a, x3, x1, u);
}

/// The difference of two elements that differ is not zero.
pub proof fn lemma_difference_of_distinct<T>(elements: spec_fn(T) -> bool, x1: T, x2: T) where
    T: Add<Output = T> + Mul<Output = T> + Sub<Output = T> + Div<Output = T> + From<i32>
        + PartialEq,

    requires
        field_laws(elements),
        elements(x1),
        elements(x2),
        x1 != x2,
    ensures
        x2.sub_spec(x1) != lift::<T>(0),
{
    lemma_sub_then_add(elements, x2, x1);
    lemma_add_zero(elements, x1);
}

/// `(x2 - x1) + (x1 - x2)` is zero.
proof fn lemma_opposite_differences<T>(elements: spec_fn(T) -> bool, x1: T, x2: T) where
    T: Add<Output = T> + Mul<Output = T> + Sub<Output = T> + Div<Output = T> + From<i32>
        + PartialEq,

    requires
        field_laws(elements),
        elements(x1),
        elements(x2),
    ensures
        x2.sub_spec(x1).add_spec(x1.sub_spec(x2)) == lift::<T>(0),
{
    let e = x2.sub_spec(x1);
    let back = x1.sub_spec(x2);
    lemma_sub_then_add(elements, x2, x1);
    lemma_sub_then_add(elements, x1, x2);
    lemma_add_associates(elements, e, back, x2);
    lemma_add_zero(elements, x2);
    lemma_add_cancels(elements, e.add_spec(back), lift::<T>(0), x2);
}

/// The slope of a chord does not depend on which of its two points comes
/// first.
pub proof fn lemma_chord_slope_symmetric<T>(
    elements: spec_fn(T) -> bool,
    x1: T,
    y1: T,
    x2: T,
    y2: T,
) where
    T: Add<Output = T> + Mul<Output = T> + Sub<Output = T> + Div<Output = T> + From<i32>
        + PartialEq,

    requires
        field_laws(elements),
        elements(x1),
        elements(y1),
        elements(x2),
        elements(y2),
        x1 != x2,
    ensures
        y2.sub_spec(y1).div_spec(x2.sub_spec(x1)) == y1.sub_spec(y2).div_spec(x1.sub_spec(x2)),
{
    let e = x2.sub_spec(x1);
    let f = y2.sub_spec(y1);
    let e_back = x1.sub_spec(x2);
    let f_back = y1.sub_spec(y2);
    let s = f.div_spec(e);
    let s_back = f_back.div_spec(e_back);
    lemma_opposite_differences(elements, x1, x2);
    lemma_opposite_differences(elements, y1, y2);
    lemma_difference_of_distinct(elements, x1, x2);
    lemma_difference_of_distinct(elements, x2, x1);
    assert(s.mul_spec(e) == f && s_back.mul_spec(e_back) == f_back) by {
        reveal(division_laws);
    }
    lemma_mul_zero(elements, s);
    assert(s.mul_spec(e.add_spec(e_back)) == f.add_spec(s.mul_spec(e_back))) by {
        reveal(distributive_law);
    }
    lemma_add_commutes(elements, f, s.mul_spec(e_back));
    lemma_add_commutes(elements, f, f_back);
    lemma_add_cancels(elements, s.mul_spec(e_back), f_back, f);
    assert(e_back.mul_spec(s) == e_back.mul_spec(s_back)) by {
        reveal(multiplicative_laws);
    }
    lemma_mul_cancels(elements, e_back, s, s_back);
}

/// `(t - x1) - x2 == (t - x2) - x1`.
pub proof fn lemma_chord_abscissa_symmetric<T>(
    elements: spec_fn(T) -> bool,
    t: T,
    x1: T,
    x2: T,
) where
    T: Add<Output = T> + Mul<Output = T> + Sub<Output = T> + Div<Output = T> + From<i32>
        + PartialEq,

    requires
        field_laws(elements),
        elements(t),
        elements(x1),
        elements(x2),
    ensures
        t.sub_spec(x1).sub_spec(x2) == t.sub_spec(x2).sub_spec(x1),
{
    let one_way = t.sub_spec(x1).sub_spec(x2);
    let other_way = t.sub_spec(x2).sub_spec(x1);
    lemma_sub_then_add(elements, t.sub_spec(x1), x2);
    lemma_sub_then_add(elements, t, x1);
    lemma_sub_then_add(elements, t.sub_spec(x2), x1);
    lemma_sub_then_add(elements, t, x2);
    lemma_add_associates(elements, one_way, x2, x1);
    lemma_add_associates(elements, other_way, x1, x2);
    lemma_add_commutes(elements, x1, x2);
    lemma_add_cancels(elements, one_way, other_way, x2.add_spec(x1));
}

/// The line of slope `s` through `(x1, y1)`, where it also passes through
/// `(x2, y2)`, gives the same ordinate at `x3` from either point.
pub proof fn lemma_mirror_symmetric<T>(
    elements: spec_fn(T) -> bool,
    s: T,
    x1: T,
    y1: T,
    x2: T,
    y2: T,
    x3: T,
) where
    T: Add<Output = T> + Mul<Output = T> + Sub<Output = T> + Div<Output = T> + From<i32>
        + PartialEq,

    requires
        field_laws(elements),
        elements(s),
        elements(x1),
        elements(y1),
        elements(x2),
        elements(y2),
        elements(x3),
        s.mul_spec(x2.sub_spec(x1)) == y2.sub_spec(y1),
    ensures
        s.mul_spec(x1.sub_spec(x3)).sub_spec(y1) == s.mul_spec(x2.sub_spec(x3)).sub_spec(y2),
{
    let e = x2.sub_spec(x1);
    let f = y2.sub_spec(y1);
    let u1 = x1.sub_spec(x3);
    let u2 = x2.sub_spec(x3);
    let from_first = s.mul_spec(u1).sub_spec(y1);
    let from_second = s.mul_spec(u2).sub_spec(y2);
    lemma_sub_then_add(elements, x2, x1);
    lemma_sub_then_add(elements, y2, y1);
    lemma_sub_then_add(elements, x1, x3);
    lemma_sub_then_add(elements, x2, x3);
    lemma_sub_then_add(elements, s.mul_spec(u1), y1);
    lemma_sub_then_add(elements, s.mul_spec(u2), y2);
    lemma_steps_add_up(elements, e, u1, u2, x1, x2, x3);
    assert(s.mul_spec(u1.add_spec(e)) == s.mul_spec(u1).add_spec(f)) by {
        reveal(distributive_law);
    }
    lemma_add_associates(elements, from_first, y1, f);
    lemma_add_commutes(elements, y1, f);
    lemma_add_cancels(elements, from_first, from_second, y2);
}

} // verus!
