//! Memory representations across frameworks, and the element types device
//! memory can hold. Memory is allocated by a device so that it is accessible
//! for the device's computations.

use vstd::prelude::*;

verus! {

/// Marker for a memory representation of some framework.
pub trait Memory {

}

/// An element type a device copy can hold: plain scalar data with a designated
/// zero, the value a freshly allocated copy is filled with.
pub trait Scalar: Sized {
    /// The zero of the element type.
    spec fn spec_zero() -> Self;

    /// Returns the zero of the element type.
    fn zero() -> (r: Self)
        ensures
            r == Self::spec_zero(),
    ;
}

impl Scalar for u64 {
    open spec fn spec_zero() -> u64 {
        0
    }

    fn zero() -> u64 {
        0
    }
}

impl Scalar for u32 {
    open spec fn spec_zero() -> u32 {
        0
    }

    fn zero() -> u32 {
        0
    }
}

impl Scalar for i64 {
    open spec fn spec_zero() -> i64 {
        0
    }

    fn zero() -> i64 {
        0
    }
}

impl Scalar for usize {
    open spec fn spec_zero() -> usize {
        0
    }

    fn zero() -> usize {
        0
    }
}

} // verus!
