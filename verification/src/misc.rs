//! Marker traits.

use vstd::prelude::*;

verus! {

/// Seals the traits of this crate that outside code is not meant to
/// implement.
pub trait Sealed {

}

impl Sealed for crate::config::RTConfig {

}

impl Sealed for crate::config::CTConfig {

}

} // verus!
