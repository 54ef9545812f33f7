//! The buffer coherence core: a logical tensor handle owning one device
//! memory copy per resident device, a marker for which copy is authoritative,
//! and the exclusivity guard that makes mutation single-owner.

use vstd::prelude::*;
use vstd::slice::slice_to_vec;
use crate::lock::{Lock, LockGuard};
use crate::memory::Scalar;
use crate::native;

verus! {

/// The backend class a copy lives in.
#[derive(Debug, Clone, Copy, PartialEq, Eq, Structural)]
pub enum BufferSource {
    /// The native (host CPU) backend.
    Native,
}

/// A device a copy can be resident on.
#[derive(Debug, Clone, Copy, PartialEq, Eq, Structural, Hash)]
pub enum BufferDevice {
    /// A native device.
    Native(native::Device),
}

/// One device-resident memory copy of a buffer.
#[derive(Debug, Clone)]
pub enum BufferMemory<T> {
    /// A copy in native memory.
    Native(native::Memory<T>),
}

impl<T> View for BufferMemory<T> {
    type V = Seq<T>;

    open spec fn view(&self) -> Seq<T> {
        match self {
            BufferMemory::Native(m) => m@,
        }
    }
}

/// Buffer errors.
#[derive(Debug, Clone, Copy, PartialEq, Eq, Structural)]
pub enum Error {
    /// A failure of the native backend, wrapped with its origin.
    Native(native::Error),
    /// A raw buffer handle was not in a usable state.
    InvalidRawBuffer,
    /// No copy is resident on the requested device.
    InvalidDevice,
    /// Two shapes fail right-aligned broadcast compatibility.
    InvalidBroadcast,
}

/// The backend class a device belongs to.
pub open spec fn spec_device_source(dev: BufferDevice) -> BufferSource {
    match dev {
        BufferDevice::Native(_) => BufferSource::Native,
    }
}

/// The underlying state of a logical tensor: its element count, its resident
/// copies keyed by device, and the marker for the authoritative copy's class.
#[derive(Debug)]
pub struct RawBuffer<T> {
    size: usize,
    copies: Vec<(BufferDevice, BufferMemory<T>)>,
    latest_source: BufferSource,
}

impl<T> RawBuffer<T> {
    /// Element count of the buffer.
    pub closed spec fn spec_size(self) -> usize {
        self.size
    }

    /// The class of the authoritative copy.
    pub closed spec fn spec_source(self) -> BufferSource {
        self.latest_source
    }

    /// Whether a copy is resident on `dev`.
    pub closed spec fn has_copy(self, dev: BufferDevice) -> bool {
        exists|i: int| 0 <= i < self.copies@.len() && self.copies@[i].0 == dev
    }

    /// The position of the copy resident on `dev`.
    closed spec fn spec_index_of(self, dev: BufferDevice) -> int {
        choose|i: int| 0 <= i < self.copies@.len() && self.copies@[i].0 == dev
    }

    /// The elements of the copy resident on `dev`.
    pub closed spec fn copy_at(self, dev: BufferDevice) -> Seq<T> {
        self.copies@[self.spec_index_of(dev)].1@
    }

    /// Well-formedness: at least one copy is resident, no device holds two
    /// copies, and every copy holds exactly `size` elements.
    pub closed spec fn wf(self) -> bool {
        &&& self.copies@.len() >= 1
        &&& forall|i: int, j: int|
            0 <= i < j < self.copies@.len() ==> self.copies@[i].0 != self.copies@[j].0
        &&& forall|i: int| 0 <= i < self.copies@.len() ==> (#[trigger] self.copies@[i].1)@.len()
            == self.size
    }

    proof fn lemma_found_index(self, dev: BufferDevice, i: int)
        requires
            self.wf(),
            0 <= i < self.copies@.len(),
            self.copies@[i].0 == dev,
        ensures
            self.has_copy(dev),
            self.spec_index_of(dev) == i,
            self.copy_at(dev) == self.copies@[i].1@,
    {
        assert(self.has_copy(dev));
        let c = self.spec_index_of(dev);
        if c != i {
            assert(self.copies@[c].0 != self.copies@[i].0);
        }
    }

    /// Finds the position of the copy resident on `dev`, if any.
    fn find_index(&self, dev: &BufferDevice) -> (r: Option<usize>)
        ensures
            match r {
                Some(i) => 0 <= i < self.copies@.len() && self.copies@[i as int].0 == *dev,
                None => !self.has_copy(*dev),
            },
    {
        let n = self.copies.len();
        let mut i: usize = 0;
        while i < n
            invariant
                0 <= i <= n,
                n == self.copies@.len(),
                forall|j: int| 0 <= j < i ==> self.copies@[j].0 != *dev,
            decreases n - i,
        {
            if self.copies[i].0 == *dev {
                return Some(i);
            }
            i += 1;
        }
        None
    }

    /// The backend class a device belongs to.
    pub fn device_source(dev: &BufferDevice) -> (r: BufferSource)
        ensures
            r == spec_device_source(*dev),
    {
        match *dev {
            BufferDevice::Native(_) => BufferSource::Native,
        }
    }

    /// The class of the authoritative copy.
    pub fn source(&self) -> (r: BufferSource)
        ensures
            r == self.spec_source(),
    {
        self.latest_source
    }

    fn alloc_on_device(dev: &BufferDevice, size: usize) -> (r: Result<BufferMemory<T>, Error>) where
        T: Scalar + Copy,

        ensures
            r matches Ok(m) && m@ == Seq::new(size as nat, |j: int| T::spec_zero()),
    {
        match *dev {
            BufferDevice::Native(ref dev_n) => Self::alloc_on_device_native(dev_n, size),
        }
    }

    fn alloc_on_device_native(_dev: &native::Device, size: usize) -> (r: Result<
        BufferMemory<T>,
        Error,
    >) where T: Scalar + Copy
        ensures
            r matches Ok(m) && m@ == Seq::new(size as nat, |j: int| T::spec_zero()),
    {
        let m = native::Memory::<T>::allocate(size);
        proof {
            assert(m@ =~= Seq::new(size as nat, |j: int| T::spec_zero()));
        }
        Ok(BufferMemory::Native(m))
    }

    /// Creates the state of a buffer of `size` elements with one zeroed copy,
    /// resident on `dev` and marked authoritative.
    pub fn new(dev: BufferDevice, size: usize) -> (r: Result<RawBuffer<T>, Error>) where
        T: Scalar + Copy,

        ensures
            r matches Ok(rb) && {
                &&& rb.wf()
                &&& rb.spec_size() == size
                &&& forall|d: BufferDevice| rb.has_copy(d) <==> d == dev
                &&& rb.copy_at(dev) == Seq::new(size as nat, |j: int| T::spec_zero())
                &&& rb.spec_source() == spec_device_source(dev)
            },
    {
        let latest_source = Self::device_source(&dev);
        let copy = match Self::alloc_on_device(&dev, size) {
            Ok(c) => c,
            Err(e) => {
                return Err(e);
            },
        };
        let mut copies: Vec<(BufferDevice, BufferMemory<T>)> = Vec::new();
        copies.push((dev, copy));
        let rb = RawBuffer { size, copies, latest_source };
        proof {
            rb.lemma_found_index(dev, 0);
            assert forall|d: BufferDevice| rb.has_copy(d) implies d == dev by {
                let i = choose|i: int| 0 <= i < rb.copies@.len() && rb.copies@[i].0 == d;
                assert(rb.copies@[i].0 == d);
            }
        }
        Ok(rb)
    }

    /// The native memory copy resident on `dev`; fails `InvalidDevice` when
    /// no copy is resident there.
    pub fn native_memory(&self, dev: &native::Device) -> (r: Result<&native::Memory<T>, Error>)
        requires
            self.wf(),
        ensures
            match r {
                Ok(m) => self.has_copy(BufferDevice::Native(*dev)) && m@ == self.copy_at(
                    BufferDevice::Native(*dev),
                ),
                Err(e) => e == Error::InvalidDevice && !self.has_copy(BufferDevice::Native(*dev)),
            },
    {
        let key = BufferDevice::Native(*dev);
        match self.find_index(&key) {
            Some(i) => {
                proof {
                    self.lemma_found_index(key, i as int);
                }
                let p = &self.copies[i];
                match &p.1 {
                    BufferMemory::Native(m) => Ok(m),
                }
            },
            None => Err(Error::InvalidDevice),
        }
    }
}

/// What handing out mutable access to one device's copy does to a buffer's
/// state once the borrow ends with the copy holding `mem`: that copy holds
/// `mem`, and everything else — element count, authoritative class, which
/// devices hold copies, the other copies' contents — is unchanged. The
/// buffer stays well-formed as long as the borrower kept the copy's length.
pub open spec fn spec_retarget<T>(
    pre: RawBuffer<T>,
    post: RawBuffer<T>,
    dev: BufferDevice,
    mem: Seq<T>,
) -> bool {
    &&& post.spec_size() == pre.spec_size()
    &&& post.spec_source() == pre.spec_source()
    &&& forall|d: BufferDevice| post.has_copy(d) <==> pre.has_copy(d)
    &&& post.copy_at(dev) == mem
    &&& forall|d: BufferDevice| d != dev && pre.has_copy(d) ==> post.copy_at(d) == pre.copy_at(d)
    &&& mem.len() == pre.spec_size() ==> post.wf()
}

impl<T> RawBuffer<T> {
    /// Replacing the contents of the copy at position `i` — and nothing else —
    /// retargets that copy: stated as a quantified fact so it covers whatever
    /// a mutable borrow of the copy ends up leaving there.
    proof fn lemma_retarget_after_update(self, i: int)
        requires
            self.wf(),
            0 <= i < self.copies@.len(),
        ensures
            forall|post: RawBuffer<T>, s: Seq<T>|
                (post.copies@.len() == self.copies@.len() && post.copies@[i].0 == self.copies@[i].0
                    && post.copies@[i].1@ == s && (forall|j: int|
                    0 <= j < self.copies@.len() && j != i ==> post.copies@[j] == self.copies@[j])
                    && post.size == self.size && post.latest_source == self.latest_source)
                    ==> #[trigger] spec_retarget(self, post, self.copies@[i].0, s),
    {
        let dev = self.copies@[i].0;
        assert forall|post: RawBuffer<T>, s: Seq<T>|
            (post.copies@.len() == self.copies@.len() && post.copies@[i].0 == self.copies@[i].0
                && post.copies@[i].1@ == s && (forall|j: int|
                0 <= j < self.copies@.len() && j != i ==> post.copies@[j] == self.copies@[j])
                && post.size == self.size && post.latest_source
                == self.latest_source) implies #[trigger] spec_retarget(
            self,
            post,
            self.copies@[i].0,
            s,
        ) by {
            assert forall|j: int| 0 <= j < post.copies@.len() implies post.copies@[j].0
                == self.copies@[j].0 by {
                if j != i {
                    assert(post.copies@[j] == self.copies@[j]);
                }
            }
            assert forall|d: BufferDevice| post.has_copy(d) <==> self.has_copy(d) by {
                if post.has_copy(d) {
                    let k = choose|k: int|
                        0 <= k < post.copies@.len() && post.copies@[k].0 == d;
                    assert(self.copies@[k].0 == d);
                    assert(self.has_copy(d));
                }
                if self.has_copy(d) {
                    let k = choose|k: int|
                        0 <= k < self.copies@.len() && self.copies@[k].0 == d;
                    assert(post.copies@[k].0 == d);
                    assert(post.has_copy(d));
                }
            }
            assert(post.has_copy(dev));
            let c = post.spec_index_of(dev);
            assert(0 <= c < post.copies@.len() && post.copies@[c].0 == dev);
            if c != i {
                assert(self.copies@[c].0 != self.copies@[i].0);
            }
            assert(post.copy_at(dev) == s);
            assert forall|d: BufferDevice|
                d != dev && self.has_copy(d) implies post.copy_at(d) == self.copy_at(d) by {
                let kp = self.spec_index_of(d);
                assert(0 <= kp < self.copies@.len() && self.copies@[kp].0 == d);
                let kq = post.spec_index_of(d);
                assert(0 <= kq < post.copies@.len() && post.copies@[kq].0 == d);
                if kp != kq {
                    assert(self.copies@[kp].0 != self.copies@[kq].0);
                }
                assert(kp != i);
                assert(post.copies@[kq] == self.copies@[kp]);
            }
            if s.len() == self.size {
                assert forall|j: int|
                    0 <= j < post.copies@.len() implies (#[trigger] post.copies@[j].1)@.len()
                    == post.size by {
                    if j != i {
                        assert(post.copies@[j] == self.copies@[j]);
                        assert(self.copies@[j].1@.len() == self.size);
                    }
                }
                assert forall|ii: int, jj: int|
                    0 <= ii < jj < post.copies@.len() implies post.copies@[ii].0
                    != post.copies@[jj].0 by {
                    assert(self.copies@[ii].0 != self.copies@[jj].0);
                }
                assert(post.wf());
            }
        }
    }

    /// Mutable access to the native memory copy resident on `dev`; fails
    /// `InvalidDevice`, changing nothing, when no copy is resident there.
    /// Whatever the borrower leaves in the copy is what the buffer then
    /// holds on `dev`; the other copies, the element count and the
    /// authoritative marker stay as they were.
    pub fn native_memory_mut(&mut self, dev: &native::Device) -> (r: Result<
        &mut native::Memory<T>,
        Error,
    >)
        requires
            old(self).wf(),
        ensures
            !old(self).has_copy(BufferDevice::Native(*dev)) ==> r == Err::<
                &mut native::Memory<T>,
                Error,
            >(Error::InvalidDevice) && *final(self) == *old(self),
            old(self).has_copy(BufferDevice::Native(*dev)) ==> (r matches Ok(m) && m@ == old(
                self,
            ).copy_at(BufferDevice::Native(*dev)) && spec_retarget(
                *old(self),
                *final(self),
                BufferDevice::Native(*dev),
                final(m)@,
            )),
    {
        let key = BufferDevice::Native(*dev);
        match self.find_index(&key) {
            Some(i) => {
                proof {
                    self.lemma_found_index(key, i as int);
                    self.lemma_retarget_after_update(i as int);
                }
                match &mut self.copies[i].1 {
                    BufferMemory::Native(m) => Ok(m),
                }
            },
            None => Err(Error::InvalidDevice),
        }
    }
}

/// What a successful ingest of host data does to a buffer's state: the copy
/// on `dev` now holds exactly the ingested elements, `dev`'s class becomes the
/// authoritative one, and everything else — element count, which devices hold
/// copies, the other copies' contents — is unchanged.
pub open spec fn spec_ingest<T>(
    pre: RawBuffer<T>,
    post: RawBuffer<T>,
    dev: BufferDevice,
    v: Seq<T>,
) -> bool {
    &&& post.wf()
    &&& post.spec_size() == pre.spec_size()
    &&& forall|d: BufferDevice| post.has_copy(d) <==> pre.has_copy(d)
    &&& post.copy_at(dev) == v
    &&& forall|d: BufferDevice| d != dev && pre.has_copy(d) ==> post.copy_at(d) == pre.copy_at(d)
    &&& post.spec_source() == spec_device_source(dev)
}

/// A logical tensor handle: the exclusivity guard of its underlying state.
/// Holding the `Buffer` is proof of unique live access to that state.
pub struct Buffer<T> {
    guard: LockGuard<RawBuffer<T>>,
}

impl<T> Buffer<T> {
    /// The underlying buffer state the handle guards.
    pub closed spec fn raw(self) -> RawBuffer<T> {
        self.guard.data
    }

    /// Well-formedness of the underlying state.
    pub open spec fn wf(self) -> bool {
        self.raw().wf()
    }

    /// Creates a buffer of `size` elements with one zeroed copy resident on
    /// `dev` and marked authoritative, guarded by a fresh exclusivity guard.
    pub fn new(dev: BufferDevice, size: usize) -> (r: Result<Buffer<T>, Error>) where
        T: Scalar + Copy,

        ensures
            r matches Ok(b) && {
                &&& b.wf()
                &&& b.raw().spec_size() == size
                &&& forall|d: BufferDevice| b.raw().has_copy(d) <==> d == dev
                &&& b.raw().copy_at(dev) == Seq::new(size as nat, |j: int| T::spec_zero())
                &&& b.raw().spec_source() == spec_device_source(dev)
            },
    {
        let raw = match RawBuffer::<T>::new(dev, size) {
            Ok(rb) => rb,
            Err(e) => {
                return Err(e);
            },
        };
        let mut lock: Lock<RawBuffer<T>> = Lock::new(raw);
        match lock.try_lock() {
            Ok(guard) => Ok(Buffer::from_guard(guard)),
            Err(_) => Err(Error::InvalidRawBuffer),
        }
    }

    /// Wraps an already-acquired exclusivity guard as a buffer handle.
    pub fn from_guard(guard: LockGuard<RawBuffer<T>>) -> (r: Buffer<T>)
        ensures
            r.raw() == guard.data,
    {
        Buffer { guard }
    }

    /// The class of the authoritative copy.
    pub fn source(&self) -> (r: BufferSource)
        ensures
            r == self.raw().spec_source(),
    {
        self.guard.data.source()
    }

    /// The native memory copy resident on `dev`; fails `InvalidDevice` when
    /// no copy is resident there.
    pub fn native_memory(&self, dev: &native::Device) -> (r: Result<&native::Memory<T>, Error>)
        requires
            self.wf(),
        ensures
            match r {
                Ok(m) => self.raw().has_copy(BufferDevice::Native(*dev)) && m@
                    == self.raw().copy_at(BufferDevice::Native(*dev)),
                Err(e) => e == Error::InvalidDevice && !self.raw().has_copy(
                    BufferDevice::Native(*dev),
                ),
            },
    {
        self.guard.data.native_memory(dev)
    }

    /// Mutable access to the native memory copy resident on `dev`; fails
    /// `InvalidDevice`, changing nothing, when no copy is resident there.
    /// Whatever the borrower leaves in the copy is what the buffer then holds
    /// on `dev`; everything else stays as it was.
    pub fn native_memory_mut(&mut self, dev: &native::Device) -> (r: Result<
        &mut native::Memory<T>,
        Error,
    >)
        requires
            old(self).wf(),
        ensures
            !old(self).raw().has_copy(BufferDevice::Native(*dev)) ==> r == Err::<
                &mut native::Memory<T>,
                Error,
            >(Error::InvalidDevice) && *final(self) == *old(self),
            old(self).raw().has_copy(BufferDevice::Native(*dev)) ==> (r matches Ok(m) && m@ == old(
                self,
            ).raw().copy_at(BufferDevice::Native(*dev)) && spec_retarget(
                old(self).raw(),
                final(self).raw(),
                BufferDevice::Native(*dev),
                final(m)@,
            )),
    {
        self.guard.data.native_memory_mut(dev)
    }

    /// Ingests a host vector into the copy resident on `dev`, which becomes
    /// the authoritative copy. Fails `InvalidDevice`, leaving the buffer
    /// unchanged, exactly when no copy is resident on `dev`; fails with the
    /// backend's out-of-memory kind, leaving the buffer unchanged, exactly
    /// when the vector's length does not match the buffer's element count.
    pub fn sync_from_vec(&mut self, vec: Vec<T>, dev: &BufferDevice) -> (r: Result<(), Error>) where
        T: Copy,

        requires
            old(self).wf(),
        ensures
            final(self).wf(),
            !old(self).raw().has_copy(*dev) ==> r == Err::<(), Error>(Error::InvalidDevice)
                && *final(self) == *old(self),
            old(self).raw().has_copy(*dev) && vec@.len() != old(self).raw().spec_size() ==> r
                == Err::<(), Error>(Error::Native(native::Error::OutOfMemory)) && *final(self)
                == *old(self),
            old(self).raw().has_copy(*dev) && vec@.len() == old(self).raw().spec_size() ==> r
                == Ok::<(), Error>(()) && spec_ingest(old(self).raw(), final(self).raw(), *dev, vec@),
    {
        let raw = &mut self.guard.data;
        let i = match raw.find_index(dev) {
            Some(i) => i,
            None => {
                return Err(Error::InvalidDevice);
            },
        };
        proof {
            raw.lemma_found_index(*dev, i as int);
        }
        if vec.len() != raw.size {
            return Err(Error::Native(native::Error::OutOfMemory));
        }
        let (d, m) = raw.copies.remove(i);
        let mut nm = match m {
            BufferMemory::Native(nm) => nm,
        };
        match nm.copy_from(vec.as_slice()) {
            Ok(()) => {},
            Err(_) => {
                proof {
                    assert(false);
                }
            },
        }
        raw.copies.insert(i, (d, BufferMemory::Native(nm)));
        raw.latest_source = RawBuffer::<T>::device_source(dev);
        proof {
            let pre = old(self).raw();
            let post = self.raw();
            assert(post.copies@ =~= pre.copies@.update(
                i as int,
                (*dev, post.copies@[i as int].1),
            ));
            assert(post.copies@[i as int].1@ == vec@);
            assert forall|ii: int, jj: int|
                0 <= ii < jj < post.copies@.len() implies post.copies@[ii].0
                != post.copies@[jj].0 by {
                assert(pre.copies@[ii].0 != pre.copies@[jj].0);
            }
            post.lemma_found_index(*dev, i as int);
            assert forall|d2: BufferDevice| post.has_copy(d2) <==> pre.has_copy(d2) by {
                if post.has_copy(d2) {
                    let k = choose|k: int|
                        0 <= k < post.copies@.len() && post.copies@[k].0 == d2;
                    assert(pre.copies@[k].0 == d2);
                }
                if pre.has_copy(d2) {
                    let k = choose|k: int| 0 <= k < pre.copies@.len() && pre.copies@[k].0 == d2;
                    assert(post.copies@[k].0 == d2);
                }
            }
            assert forall|d2: BufferDevice|
                d2 != *dev && pre.has_copy(d2) implies post.copy_at(d2) == pre.copy_at(d2) by {
                let k = choose|k: int| 0 <= k < pre.copies@.len() && pre.copies@[k].0 == d2;
                pre.lemma_found_index(d2, k);
                post.lemma_found_index(d2, k);
            }
        }
        Ok(())
    }

    /// Extracts the copy resident on `dev` into a host vector, leaving the
    /// buffer unchanged. Fails `InvalidDevice` exactly when no copy is
    /// resident on `dev`.
    pub fn sync_to_vec(&self, dev: &BufferDevice) -> (r: Result<Vec<T>, Error>) where T: Copy
        requires
            self.wf(),
        ensures
            match r {
                Ok(v) => self.raw().has_copy(*dev) && v@ == self.raw().copy_at(*dev),
                Err(e) => e == Error::InvalidDevice && !self.raw().has_copy(*dev),
            },
    {
        let raw = &self.guard.data;
        let i = match raw.find_index(dev) {
            Some(i) => i,
            None => {
                return Err(Error::InvalidDevice);
            },
        };
        proof {
            raw.lemma_found_index(*dev, i as int);
        }
        let p = &raw.copies[i];
        match &p.1 {
            BufferMemory::Native(m) => {
                match m.try_as_slice() {
                    Ok(s) => Ok(slice_to_vec(s)),
                    Err(_) => vstd::pervasive::unreached(),
                }
            },
        }
    }

    /// Ensures currency on `dev`: when the authoritative copy's backend class
    /// equals `dev`'s class the buffer is already current there and nothing is
    /// copied. In the single-backend core the classes always agree, so this
    /// always succeeds and changes nothing.
    pub fn sync(&self, dev: &BufferDevice) -> (r: Result<(), Error>)
        ensures
            r == Ok::<(), Error>(()),
    {
        match self.source() {
            BufferSource::Native => match *dev {
                BufferDevice::Native(_) => Ok(()),
            },
        }
    }
}

/// Every resident copy of a well-formed buffer holds exactly the buffer's
/// element count.
pub proof fn lemma_copy_len<T>(rb: RawBuffer<T>, dev: BufferDevice)
    requires
        rb.wf(),
        rb.has_copy(dev),
    ensures
        rb.copy_at(dev).len() == rb.spec_size(),
{
}

/// Round trip: ingesting a host vector `v` of matching length into a device's
/// copy and then extracting that device's copy returns `v` unchanged, for any
/// `v` — the extraction reads exactly what the ingest wrote.
pub proof fn lemma_sync_round_trip<T>(
    pre: RawBuffer<T>,
    post: RawBuffer<T>,
    dev: BufferDevice,
    v: Seq<T>,
)
    requires
        pre.wf(),
        pre.has_copy(dev),
        v.len() == pre.spec_size(),
        spec_ingest(pre, post, dev, v),
    ensures
        post.has_copy(dev),
        post.copy_at(dev) == v,
{
}

} // verus!
