//! The operation dispatcher: syncs every operand buffer to the execution
//! device, plans the broadcast of the two operand shapes excluding the
//! innermost axis (consumed whole by the reduction kernel), walks the two
//! operands' iterators in lockstep reducing each aligned pair to one scalar,
//! and writes the result shape and values back into the output buffers —
//! both or neither, never a partial write-back.

use vstd::prelude::*;
use crate::broadcast::{
    lemma_broadcast_reads_within_data, lemma_plan_targets, lemma_targets_prod_congruent,
    nat_strides_usize, offset_at, spec_chopped_len, spec_plan, spec_plan_fits, spec_slice_len,
    spec_strides_fit, targets_prod, try_new_broadcast, DenseBroadcastIter,
};
use crate::buffer::{
    lemma_copy_len, spec_device_source, spec_ingest, Buffer, BufferDevice, Error,
};
use crate::dot::Dot;
use crate::native;
use crate::shape::{axes_compatible, padded_axis, spec_compatible, spec_target_shape};

verus! {

/// The shape the dispatcher writes into the output shape buffer: the
/// broadcast shape of the operands with its innermost axis, consumed by the
/// kernel, replaced by 1.
pub open spec fn spec_out_shape(sa: Seq<usize>, sb: Seq<usize>) -> Seq<usize> {
    let bs = spec_target_shape(sa, sb);
    let m = spec_chopped_len(bs.len() as int, 1);
    bs.take(m).push(1)
}

/// How many scalars the dispatcher writes into the output data buffer: one
/// per position of the chopped broadcast shape.
pub open spec fn spec_dot_total(sa: Seq<usize>, sb: Seq<usize>) -> int {
    let bs = spec_target_shape(sa, sb);
    let m = spec_chopped_len(bs.len() as int, 1);
    targets_prod(spec_plan(sa, bs, m), 0)
}

/// The scalars the dispatcher writes into the output data buffer: position
/// `n` holds the kernel's reduction of the two aligned slices the operands'
/// broadcast walks read at step `n`.
pub open spec fn spec_dot_values<T: Dot>(
    sa: Seq<usize>,
    va: Seq<T>,
    sb: Seq<usize>,
    vb: Seq<T>,
) -> Seq<T> {
    let bs = spec_target_shape(sa, sb);
    let m = spec_chopped_len(bs.len() as int, 1);
    let da = spec_plan(sa, bs, m);
    let db = spec_plan(sb, bs, m);
    Seq::new(
        targets_prod(da, 0) as nat,
        |n: int|
            T::spec_dot(
                va.subrange(offset_at(da, n), offset_at(da, n) + spec_slice_len(da)),
                vb.subrange(offset_at(db, n), offset_at(db, n) + spec_slice_len(db)),
            ),
    )
}

/// Whether the machine can hold the broadcast of the two operands: every
/// stride and step count fits a machine word and every step reads inside its
/// operand's data.
pub open spec fn spec_dot_fits(
    sa: Seq<usize>,
    va_len: int,
    sb: Seq<usize>,
    vb_len: int,
) -> bool {
    let bs = spec_target_shape(sa, sb);
    let m = spec_chopped_len(bs.len() as int, 1);
    &&& spec_strides_fit(sa)
    &&& spec_strides_fit(sb)
    &&& spec_plan_fits(spec_plan(sa, bs, m), va_len)
    &&& spec_plan_fits(spec_plan(sb, bs, m), vb_len)
}

/// Success is owed for exact operands: when the two shapes are compatible,
/// every axis is at least 1, each operand's data exactly fills its shape
/// (its length is the product of its axis lengths), every stride fits a
/// machine word and so does every step count, then the broadcast of the two
/// operands fits — a dispatch on such operands cannot fail for want of room.
pub proof fn lemma_dot_fits_for_exact_data(
    sa: Seq<usize>,
    va_len: int,
    sb: Seq<usize>,
    vb_len: int,
)
    requires
        spec_compatible(sa, sb),
        forall|k: int| 0 <= k < sa.len() ==> sa[k] >= 1,
        forall|k: int| 0 <= k < sb.len() ==> sb[k] >= 1,
        spec_strides_fit(sa),
        spec_strides_fit(sb),
        va_len == crate::shape::suffix_prod(sa, 0),
        vb_len == crate::shape::suffix_prod(sb, 0),
        ({
            let bs = spec_target_shape(sa, sb);
            let m = spec_chopped_len(bs.len() as int, 1);
            forall|k: int|
                0 <= k <= m ==> targets_prod(spec_plan(sa, bs, m), k) <= usize::MAX
        }),
    ensures
        spec_dot_fits(sa, va_len, sb, vb_len),
{
    let bs = spec_target_shape(sa, sb);
    let mr = bs.len() as int;
    let m = spec_chopped_len(mr, 1);
    let da = spec_plan(sa, bs, m);
    let db = spec_plan(sb, bs, m);
    lemma_broadcast_reads_within_data(sa, sb, m);
    assert(spec_compatible(sb, sa)) by {
        assert forall|j: int|
            0 <= j < mr implies axes_compatible(
            padded_axis(sb, mr, j),
            padded_axis(sa, mr, j),
        ) by {
            assert(axes_compatible(padded_axis(sa, mr, j), padded_axis(sb, mr, j)));
        }
    }
    assert(spec_target_shape(sb, sa) =~= bs);
    lemma_broadcast_reads_within_data(sb, sa, m);
    assert(da.len() == m && db.len() == m);
    assert forall|j: int| 0 <= j < mr implies padded_axis(sa, mr, j) <= bs[j] by {
        assert(bs[j] == spec_target_shape(sa, sb)[j]);
    }
    assert forall|j: int| 0 <= j < mr implies padded_axis(sb, mr, j) <= bs[j] by {
        assert(bs[j] == spec_target_shape(sa, sb)[j]);
    }
    lemma_plan_targets(sa, bs, nat_strides_usize(sa), m);
    lemma_plan_targets(sb, bs, nat_strides_usize(sb), m);
    assert forall|k: int| 0 <= k <= m implies targets_prod(db, k) <= usize::MAX by {
        lemma_targets_prod_congruent(da, db, k);
    }
}

/// Walks two lockstep broadcast iterators from their start, reducing each
/// aligned slice pair to one scalar with the kernel.
fn reduce_pairs<'a, T: Dot + Copy>(
    ia: &mut DenseBroadcastIter<'a, T>,
    ib: &mut DenseBroadcastIter<'a, T>,
) -> (r: Vec<T>)
    requires
        old(ia).wf(),
        old(ib).wf(),
        old(ia).spec_pos() == 0,
        old(ib).spec_pos() == 0,
        old(ia).spec_total() == old(ib).spec_total(),
    ensures
        r@.len() == old(ia).spec_total(),
        forall|n: int|
            0 <= n < r@.len() ==> r@[n] == T::spec_dot(
                old(ia).spec_yield(n),
                old(ib).spec_yield(n),
            ),
{
    let total = ia.total();
    let mut out: Vec<T> = Vec::new();
    let mut i: usize = 0;
    while i < total
        invariant
            0 <= i <= total,
            ia.wf(),
            ib.wf(),
            ia.spec_pos() == i,
            ib.spec_pos() == i,
            total == ia.spec_total(),
            total == ib.spec_total(),
            ia.spec_dims() == old(ia).spec_dims(),
            ia.spec_data() == old(ia).spec_data(),
            ib.spec_dims() == old(ib).spec_dims(),
            ib.spec_data() == old(ib).spec_data(),
            out@.len() == i,
            forall|n: int|
                0 <= n < i ==> out@[n] == T::spec_dot(
                    old(ia).spec_yield(n),
                    old(ib).spec_yield(n),
                ),
        decreases total - i,
    {
        let sa = match ia.next() {
            Some(s) => s,
            None => vstd::pervasive::unreached(),
        };
        let sb = match ib.next() {
            Some(s) => s,
            None => vstd::pervasive::unreached(),
        };
        out.push(T::dot(sa, sb));
        i += 1;
    }
    out
}

/// A backend able to dispatch the broadcast dot operation.
pub trait DotOperation<T: Dot + Copy> {
    /// The device the operation syncs its operands to and executes on.
    spec fn spec_exec_device(&self) -> BufferDevice;

    /// Syncs every operand to the execution device, reduces the two operands
    /// under broadcasting (innermost axis consumed whole by the kernel), and
    /// writes the result shape and values into the output buffers — both or
    /// neither. Fails `InvalidDevice` exactly when some buffer has no copy on
    /// the execution device; `InvalidBroadcast` exactly when the operand
    /// shapes are incompatible; the backend's out-of-memory kind exactly when
    /// the broadcast does not fit the machine or the operands' data, or the
    /// output buffers are not sized for the result. A failed dispatch leaves
    /// the output buffers unchanged.
    fn bcast_dot(
        &self,
        shape_a: &Buffer<usize>,
        a: &Buffer<T>,
        shape_b: &Buffer<usize>,
        b: &Buffer<T>,
        shape_c: &mut Buffer<usize>,
        c: &mut Buffer<T>,
    ) -> (r: Result<(), Error>)
        requires
            shape_a.wf(),
            a.wf(),
            shape_b.wf(),
            b.wf(),
            old(shape_c).wf(),
            old(c).wf(),
        ensures
            final(shape_c).wf(),
            final(c).wf(),
            ({
                let dev = self.spec_exec_device();
                let devices_ok = shape_a.raw().has_copy(dev) && a.raw().has_copy(dev)
                    && shape_b.raw().has_copy(dev) && b.raw().has_copy(dev) && old(
                    shape_c,
                ).raw().has_copy(dev) && old(c).raw().has_copy(dev);
                let sa = shape_a.raw().copy_at(dev);
                let va = a.raw().copy_at(dev);
                let sb = shape_b.raw().copy_at(dev);
                let vb = b.raw().copy_at(dev);
                let compat = spec_compatible(sa, sb);
                let fits = spec_dot_fits(sa, va.len() as int, sb, vb.len() as int);
                let sizes_ok = old(shape_c).raw().spec_size() == spec_out_shape(sa, sb).len()
                    && old(c).raw().spec_size() == spec_dot_total(sa, sb);
                &&& !devices_ok ==> r == Err::<(), Error>(Error::InvalidDevice) && *final(shape_c)
                    == *old(shape_c) && *final(c) == *old(c)
                &&& devices_ok && !compat ==> r == Err::<(), Error>(Error::InvalidBroadcast)
                    && *final(shape_c) == *old(shape_c) && *final(c) == *old(c)
                &&& devices_ok && compat && !(fits && sizes_ok) ==> r == Err::<(), Error>(
                    Error::Native(native::Error::OutOfMemory),
                ) && *final(shape_c) == *old(shape_c) && *final(c) == *old(c)
                &&& devices_ok && compat && fits && sizes_ok ==> r == Ok::<(), Error>(())
                    && spec_ingest(
                    old(shape_c).raw(),
                    final(shape_c).raw(),
                    dev,
                    spec_out_shape(sa, sb),
                ) && spec_ingest(
                    old(c).raw(),
                    final(c).raw(),
                    dev,
                    spec_dot_values(sa, va, sb, vb),
                )
            }),
    ;
}

impl<T: Dot + Copy> DotOperation<T> for native::Backend {
    open spec fn spec_exec_device(&self) -> BufferDevice {
        BufferDevice::Native(self.spec_device())
    }

    fn bcast_dot(
        &self,
        shape_a: &Buffer<usize>,
        a: &Buffer<T>,
        shape_b: &Buffer<usize>,
        b: &Buffer<T>,
        shape_c: &mut Buffer<usize>,
        c: &mut Buffer<T>,
    ) -> (r: Result<(), Error>) {
        let dev_n: native::Device = *self.device();
        let bdev = BufferDevice::Native(dev_n);
        let ghost dev = <native::Backend as DotOperation<T>>::spec_exec_device(self);
        proof {
            assert(bdev == dev);
        }
        match shape_a.sync(&bdev) {
            Ok(()) => {},
            Err(e) => {
                return Err(e);
            },
        }
        match a.sync(&bdev) {
            Ok(()) => {},
            Err(e) => {
                return Err(e);
            },
        }
        match shape_b.sync(&bdev) {
            Ok(()) => {},
            Err(e) => {
                return Err(e);
            },
        }
        match b.sync(&bdev) {
            Ok(()) => {},
            Err(e) => {
                return Err(e);
            },
        }
        let sa = match shape_a.sync_to_vec(&bdev) {
            Ok(v) => v,
            Err(e) => {
                return Err(e);
            },
        };
        let va = match a.sync_to_vec(&bdev) {
            Ok(v) => v,
            Err(e) => {
                return Err(e);
            },
        };
        let sb = match shape_b.sync_to_vec(&bdev) {
            Ok(v) => v,
            Err(e) => {
                return Err(e);
            },
        };
        let vb = match b.sync_to_vec(&bdev) {
            Ok(v) => v,
            Err(e) => {
                return Err(e);
            },
        };
        let out_shape_len = match shape_c.native_memory(&dev_n) {
            Ok(m) => m.len(),
            Err(e) => {
                return Err(e);
            },
        };
        let out_len = match c.native_memory(&dev_n) {
            Ok(m) => m.len(),
            Err(e) => {
                return Err(e);
            },
        };
        proof {
            lemma_copy_len(shape_c.raw(), dev);
            lemma_copy_len(c.raw(), dev);
        }
        let (mut bshape, mut ia, mut ib) = match try_new_broadcast(
            sa.as_slice(),
            va.as_slice(),
            sb.as_slice(),
            vb.as_slice(),
            1,
        ) {
            Ok(t) => t,
            Err(e) => {
                return Err(e);
            },
        };
        let total = ia.total();
        if out_shape_len < 1 || out_shape_len - 1 != bshape.len() || out_len != total {
            return Err(Error::Native(native::Error::OutOfMemory));
        }
        let values = reduce_pairs(&mut ia, &mut ib);
        proof {
            assert(values@ =~= spec_dot_values(sa@, va@, sb@, vb@));
        }
        bshape.push(1);
        proof {
            assert(bshape@ =~= spec_out_shape(sa@, sb@));
        }
        match shape_c.sync_from_vec(bshape, &bdev) {
            Ok(()) => {},
            Err(_) => {
                proof {
                    assert(false);
                }
            },
        }
        match c.sync_from_vec(values, &bdev) {
            Ok(()) => {},
            Err(_) => {
                proof {
                    assert(false);
                }
            },
        }
        Ok(())
    }
}

} // verus!
