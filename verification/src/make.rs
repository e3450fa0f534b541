//! Creating values of a type from values of another.

use vstd::prelude::*;

verus! {

/// A type with an initializer that takes a single value of type `A`.
pub trait Make<A>: Sized {
    /// Creates a value from `a`.
    fn make(a: A) -> Self;
}

/// A type that can be created from a reference to a value of type `A`.
///
/// The value that is created may outlive the reference and holds no
/// reference to `v`.
pub trait RefMake<A>: Sized {
    /// Creates a value from what `v` refers to.
    fn make_from(v: &A) -> Self;
}

/// A type whose creation from a value of type `A` can fail with an `E`.
pub trait TryMake<A, E>: Sized {
    /// Creates a value from `a`, or says why none could be created.
    fn try_make(a: A) -> Result<Self, E>;
}

/// What can always be made can be made without failing.
impl<A, R: Make<A>> TryMake<A, ()> for R {
    /// Never fails: the result is a value that `make` gives for `a`.
    fn try_make(a: A) -> (r: Result<R, ()>)
        ensures
            r matches Ok(made) && call_ensures(R::make, (a,), made),
    {
        Ok(R::make(a))
    }
}

} // verus!
