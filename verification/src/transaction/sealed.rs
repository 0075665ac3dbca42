//! Keeps a trait from being implemented outside this crate.

use vstd::prelude::*;

verus! {

/// Can be named inside this crate only.
pub trait Sealed {

}

} // verus!
