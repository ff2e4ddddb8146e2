//! The lifting of an integer into the coordinate type: what `T::from` returns
//! for it.

use vstd::prelude::*;
use vstd::std_specs::convert::FromSpec;

verus! {

/// `std`'s conversion of a value into its own type, `impl<T> From<T> for T`:
/// it returns its argument unchanged.  Verus takes this on trust from `std`'s
/// documentation; with it, an `i32` lifts to itself.
pub assume_specification<W>[ <W as std::convert::From<W>>::from ](t: W) -> (r: W)
    ensures
        r == t,
;

/// `T::from` may return `t` for `n`.
pub open spec fn lifts_to<T: From<i32>>(n: i32, t: T) -> bool {
    call_ensures(<T as From<i32>>::from, (n,), t)
}

/// The element of `T` that the integer `n` is lifted to: what `T::from`
/// returns for `n`, where it returns anything.
pub open spec fn lift<T: From<i32>>(n: i32) -> T {
    choose|t: T| lifts_to(n, t)
}

/// `T::from` does return a value for `n`, so that `lift(n)` is that value.
pub open spec fn liftable<T: From<i32>>(n: i32) -> bool {
    lifts_to(n, lift::<T>(n))
}

/// `T::from` returns one value only for each integer.
pub open spec fn lifting_determined<T: From<i32>>() -> bool {
    forall|n: i32, t: T| #[trigger] lifts_to(n, t) ==> t == lift::<T>(n)
}

/// An `i32` lifts to itself.
pub proof fn lemma_lifting_into_i32()
    ensures
        lifting_determined::<i32>(),
        forall|n: i32| #[trigger] liftable::<i32>(n) ==> lift::<i32>(n) == n,
{
}

/// Where `T::from` does what `from_spec` says, an integer lifts to what
/// `from_spec` gives for it.
pub proof fn lemma_lifting_as_specified<T: From<i32>>()
    requires
        <T as FromSpec<i32>>::obeys_from_spec(),
    ensures
        lifting_determined::<T>(),
        forall|n: i32| #[trigger] liftable::<T>(n) ==> lift::<T>(n) == T::from_spec(n),
{
}

} // verus!
