//! Keeps the storage traits closed to other crates.

use vstd::prelude::*;

verus! {

/// Implemented by the storage types of this crate only.
pub trait Sealed {

}

} // verus!
