//! Type-level helpers.
use vstd::prelude::*;

verus! {

/// Names a type as an associated type, so that a bound can require
/// `Self` to be some other type written out (`TypeIdent<Type = Option<T>>`).
pub trait TypeIdent {
    type Type: ?Sized;

    /// The value itself, seen as `Self::Type`.
    fn into_type(self) -> Self::Type
        where Self: Sized, Self::Type: Sized
    ;
}

impl<T: ?Sized> TypeIdent for T {
    type Type = T;

    fn into_type(self) -> (r: T)
        where Self: Sized, T: Sized
        ensures
            r == self,
    {
        self
    }
}

} // verus!
