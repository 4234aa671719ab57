//! The version of the library.

use vstd::prelude::*;

verus! {

/// The version of the library. The wire container has a major of its own.
pub fn version() -> (r: &'static str)
    ensures
        r@ == "0.1.0-beta.4"@,
{
    "0.1.0-beta.4"
}

} // verus!
