//! Sample declarations of the shapes the checker accepts: a marker
//! trait, functions taking and returning opaque `impl` types, a bounded
//! generic function, and a function returning a closure.  They mirror
//! the constructs that fixtures exercise.

use vstd::prelude::*;

verus! {

/// A marker capability with no required methods; any type satisfies it
/// trivially.
pub trait Trait {

}

impl Trait for () {

}

/// Accepts any value whose type carries the capability.
pub fn foo(arg: impl Trait) {
}

/// Yields some value known to the caller only by its capability.
pub fn bar() -> impl Trait {
}

/// The bounded-generic spelling of [`foo`].
pub fn foo2<T: Trait>(arg: T) {
}

/// Yields the successor function on `i32` as a closure; the closure
/// asks its argument to leave room for the increment.
pub fn returns_closure() -> (f: impl Fn(i32) -> i32)
    ensures
        forall|x: i32| x < i32::MAX ==> #[trigger] call_requires(f, (x,)),
        forall|x: i32, y: i32| #[trigger] call_ensures(f, (x,), y) ==> y == x + 1,
{
    (|x: i32| -> (y: i32)
        requires
            x < i32::MAX,
        ensures
            y == x + 1,
        {
            x + 1
        })
}

} // verus!
