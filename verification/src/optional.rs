//! Taking the value out of an optional one, or the type's default.
use vstd::prelude::*;

verus! {

/// A value that may be missing.
pub trait Optional<T> {
    /// The value, or `T`'s default where it is missing.
    fn or_default(self) -> T where T: Default;
}

impl<T> Optional<T> for Option<T> {
    fn or_default(self) -> (r: T) where T: Default
        ensures
            self matches Some(v) ==> r == v,
    {
        match self {
            Some(v) => v,
            None => T::default(),
        }
    }
}

} // verus!
