//! Marker traits for what can be stored.

use vstd::prelude::*;

verus! {

/// Indicates that a type can be stored in a world, one instance per
/// entity.
pub trait Component: Sized {

}

/// Indicates that a type can be stored in a world a single time.
pub trait Unique: Sized {

}

/// Indicates that a type can be stored a single time, privately to one
/// system.
pub trait Local: Sized {

}

} // verus!
