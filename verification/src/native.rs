//! The native (host CPU) backend: its error kind, typed memory regions,
//! hardware description, device identity, framework and backend front door.

use vstd::prelude::*;
use vstd::slice::slice_to_vec;
use crate::hardware;
use crate::hardware::HardwareType;
use crate::memory;
use crate::memory::Scalar;

verus! {

/// Failures of the native backend.
#[derive(Debug, Clone, Copy, PartialEq, Eq, Structural)]
pub enum Error {
    /// A host vector's length does not match the region it must fill, or a
    /// region would not fit the elements asked of it.
    OutOfMemory,
}

/// A native memory region: one device-resident copy of a buffer's elements,
/// readable and writable only through checked, typed operations.
#[derive(Debug, Clone)]
pub struct Memory<T> {
    buf: Vec<T>,
}

impl<T> View for Memory<T> {
    type V = Seq<T>;

    closed spec fn view(&self) -> Seq<T> {
        self.buf@
    }
}

impl<T> Memory<T> {
    /// Allocates a region of `size` elements, all zero.
    pub fn allocate(size: usize) -> (r: Memory<T>) where T: Scalar + Copy
        ensures
            r@.len() == size,
            forall|j: int| 0 <= j < size ==> r@[j] == T::spec_zero(),
    {
        let mut buf: Vec<T> = Vec::new();
        let mut i: usize = 0;
        while i < size
            invariant
                0 <= i <= size,
                buf@.len() == i,
                forall|j: int| 0 <= j < i ==> buf@[j] == T::spec_zero(),
            decreases size - i,
        {
            buf.push(T::zero());
            i += 1;
        }
        Memory { buf }
    }

    /// Number of elements the region holds.
    pub fn len(&self) -> (r: usize)
        ensures
            r == self@.len(),
    {
        self.buf.len()
    }

    /// The checked typed view of the region. The region is stored typed, so
    /// the view always succeeds.
    pub fn try_as_slice(&self) -> (r: Result<&[T], Error>)
        ensures
            r matches Ok(s) && s@ == self@,
    {
        Ok(self.buf.as_slice())
    }

    /// The checked typed mutable view of the region: what the borrower
    /// leaves in the view is what the region then holds. The region is
    /// stored typed, so the view always succeeds.
    pub fn try_as_mut_slice(&mut self) -> (r: Result<&mut [T], Error>)
        ensures
            (r matches Ok(s) && s@ == old(self)@ && final(self)@ == final(s)@),
    {
        Ok(self.buf.as_mut_slice())
    }

    /// Overwrites the region from a host vector. Fails `OutOfMemory`, leaving
    /// the region unchanged, exactly when the vector's length does not match
    /// the region's.
    pub fn copy_from(&mut self, vs: &[T]) -> (r: Result<(), Error>) where T: Copy
        ensures
            vs@.len() == old(self)@.len() ==> r is Ok && final(self)@ == vs@,
            vs@.len() != old(self)@.len() ==> r == Err::<(), Error>(Error::OutOfMemory)
                && *final(self) == *old(self),
    {
        if self.buf.len() != vs.len() {
            return Err(Error::OutOfMemory);
        }
        self.buf = slice_to_vec(vs);
        Ok(())
    }

    /// Consumes the region into a host vector of its elements.
    pub fn into_vec(self) -> (r: Result<Vec<T>, Error>) where T: Copy
        ensures
            r matches Ok(v) && v@ == self@,
    {
        Ok(self.buf)
    }
}

impl<T> memory::Memory for Memory<T> {

}

/// The native hardware: the host CPU.
#[derive(Debug, Clone)]
pub struct Hardware {
    name: String,
    compute_units: usize,
}

impl Hardware {
    /// The number of compute units the hardware reports.
    pub closed spec fn spec_compute_units(self) -> usize {
        self.compute_units
    }

    /// Describes the host CPU as one compute unit.
    pub fn new() -> (r: Hardware)
        ensures
            r.spec_compute_units() == 1,
    {
        Hardware { name: "cpu".to_string(), compute_units: 1 }
    }
}

impl hardware::Hardware for Hardware {
    fn name(&self) -> &str {
        self.name.as_str()
    }

    fn hardware_type(&self) -> HardwareType {
        HardwareType::CPU
    }

    fn compute_units(&self) -> usize {
        self.compute_units
    }
}

/// Identity of a native device. Devices are equal exactly when their stable
/// ids are; the worker pool a running device owns is execution machinery
/// outside this library, keyed by the same id.
#[derive(Debug, Clone, Copy, PartialEq, Eq, Structural, Hash)]
pub struct Device {
    id: isize,
}

impl Device {
    /// The stable id of the device.
    pub closed spec fn spec_id(self) -> isize {
        self.id
    }

    /// Makes the identity of the device with the given stable id.
    pub fn new(id: isize) -> (r: Device)
        ensures
            r.spec_id() == id,
    {
        Device { id }
    }

    /// Returns the stable id of the device.
    pub fn id(&self) -> (r: isize)
        ensures
            r == self.spec_id(),
    {
        self.id
    }
}

/// The native framework: enumerates the host hardware and makes devices of it.
pub struct Framework {}

impl Framework {
    /// The name of the framework.
    pub fn name() -> (r: &'static str)
        ensures
            r@ == "native"@,
    {
        "native"
    }

    /// Initializes the framework.
    pub fn new() -> Framework {
        Framework {  }
    }

    /// The hardware a device is made of by default: the host CPU.
    pub fn default_hardware(&self) -> (r: Hardware)
        ensures
            r.spec_compute_units() == 1,
    {
        Hardware::new()
    }

    /// The device the backend uses when none is chosen: id 0 on the host CPU.
    pub fn default_device(&self) -> (r: Device)
        ensures
            r.spec_id() == 0,
    {
        match self.new_device(&self.default_hardware()) {
            Ok(dev) => dev,
            Err(_) => vstd::pervasive::unreached(),
        }
    }

    /// Enumerates the available hardware: the host CPU alone.
    pub fn load_hardwares(&self) -> (r: Result<Vec<Hardware>, Error>)
        ensures
            r matches Ok(v) && v@.len() == 1,
    {
        let cpu = Hardware::new();
        let mut v: Vec<Hardware> = Vec::new();
        v.push(cpu);
        Ok(v)
    }

    /// Makes a device of the given hardware. The single native device carries
    /// the stable id 0; making it cannot fail.
    pub fn new_device(&self, _hardware: &Hardware) -> (r: Result<Device, Error>)
        ensures
            r matches Ok(d) && d.spec_id() == 0,
    {
        Ok(Device::new(0))
    }
}

/// The native backend: a device to run operations on.
pub struct Backend {
    device: Device,
}

impl Backend {
    /// The device the backend schedules on.
    pub closed spec fn spec_device(self) -> Device {
        self.device
    }

    /// The backend on the framework's default device.
    pub fn default() -> (r: Backend)
        ensures
            r.spec_device().spec_id() == 0,
    {
        Backend { device: Framework::new().default_device() }
    }

    /// Returns the device the backend schedules on.
    pub fn device(&self) -> (r: &Device)
        ensures
            *r == self.spec_device(),
    {
        &self.device
    }
}

} // verus!
