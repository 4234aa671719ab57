//! The seal on trait registrations.

use vstd::prelude::*;

verus! {

/// A type is sealed for a trait where its implementation of the trait is registered.
pub trait Sealed<Trait: ?Sized> {

}

} // verus!
