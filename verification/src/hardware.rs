//! A representation for a collection of available compute units, e.g. CPUs or
//! GPUs. To execute code on hardware, turn hardware into a device.

use vstd::prelude::*;

verus! {

/// The available hardware classes.
#[derive(Debug, Copy, Clone, PartialEq, Eq, Structural, Hash)]
pub enum HardwareType {
    /// CPU devices
    CPU,
    /// GPU devices
    GPU,
    /// Hardware accelerator devices
    ACCELERATOR,
    /// Used for anything else
    OTHER,
}

/// Hardware behavior across frameworks.
pub trait Hardware {
    /// Returns the name of the hardware.
    fn name(&self) -> &str;

    /// Returns the class of the hardware.
    fn hardware_type(&self) -> HardwareType;

    /// Returns the number of compute units of the hardware.
    fn compute_units(&self) -> usize;
}

} // verus!
