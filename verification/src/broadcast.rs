//! The broadcast iterator: consumes a broadcast plan and a source buffer and
//! lazily yields one aligned slice per step, in row-major order (rightmost
//! axis fastest). On a broadcast axis (stride 0) the same slice is yielded on
//! every one of that axis's `target` iterations instead of advancing through
//! the source.

use vstd::prelude::*;
use vstd::arithmetic::div_mod::lemma_div_denominator;
use vstd::slice::slice_subrange;
use crate::buffer::Error;
use crate::native;
use crate::shape::BroadcastDimension;
use crate::shape::{
    axes_compatible, compatible, padded_axis, spec_broadcast_dim, spec_compatible,
    spec_derive_dims, spec_target_shape, suffix_prod, target_shape, try_natural_strides,
};

verus! {

/// Product of the `target` fields of `dims` from position `k` to the end:
/// the number of iterations the axes from `k` onward contribute.
pub open spec fn targets_prod(dims: Seq<BroadcastDimension>, k: int) -> int
    decreases dims.len() - k,
{
    if k < 0 {
        0
    } else if k >= dims.len() {
        1
    } else {
        dims[k].target * targets_prod(dims, k + 1)
    }
}

/// How often the axis `k` digit of a row-major step counter advances: once
/// every `weight(dims, k)` steps.
pub open spec fn weight(dims: Seq<BroadcastDimension>, k: int) -> int {
    targets_prod(dims, k + 1)
}

/// The axis `k` position of step `n`, counting row-major with the rightmost
/// axis fastest.
pub open spec fn digit(dims: Seq<BroadcastDimension>, n: int, k: int) -> int {
    (n / weight(dims, k)) % dims[k].target as int
}

/// The source offset contribution of the axes from `k` onward at step `n`:
/// each axis contributes its position times its stride, so a broadcast axis
/// (stride 0) contributes nothing however far along it is.
pub open spec fn offset_from(dims: Seq<BroadcastDimension>, n: int, k: int) -> int
    decreases dims.len() - k,
{
    if k < 0 || k >= dims.len() {
        0
    } else {
        digit(dims, n, k) * dims[k].stride + offset_from(dims, n, k + 1)
    }
}

/// The source offset read at step `n` of a row-major walk of the plan.
pub open spec fn offset_at(dims: Seq<BroadcastDimension>, n: int) -> int {
    offset_from(dims, n, 0)
}

/// The largest offset contribution the axes from `k` onward can make.
pub open spec fn max_offset_from(dims: Seq<BroadcastDimension>, k: int) -> int
    decreases dims.len() - k,
{
    if k < 0 || k >= dims.len() {
        0
    } else {
        (dims[k].target - 1) * dims[k].stride + max_offset_from(dims, k + 1)
    }
}

/// The largest source offset a row-major walk of the plan can read.
pub open spec fn max_offset(dims: Seq<BroadcastDimension>) -> int {
    max_offset_from(dims, 0)
}

/// The length of each yielded slice: the natural stride of the last kept
/// axis, which is the number of contiguous source elements the axes chopped
/// off the plan cover; 1 when no axis is left (a scalar walk).
pub open spec fn spec_slice_len(dims: Seq<BroadcastDimension>) -> int {
    if dims.len() == 0 {
        1
    } else {
        dims[dims.len() - 1].size as int
    }
}

/// A positive iteration count means every axis iterates at least once.
pub proof fn lemma_targets_prod_pos(dims: Seq<BroadcastDimension>, k: int)
    requires
        0 <= k <= dims.len(),
        targets_prod(dims, 0) > 0,
    ensures
        targets_prod(dims, k) > 0,
        k < dims.len() ==> dims[k].target >= 1,
    decreases k,
{
    if k > 0 {
        lemma_targets_prod_pos(dims, k - 1);
        assert(targets_prod(dims, k - 1) == dims[k - 1].target * targets_prod(dims, k));
        assert(targets_prod(dims, k) > 0) by (nonlinear_arith)
            requires
                targets_prod(dims, k - 1) == dims[k - 1].target * targets_prod(dims, k),
                targets_prod(dims, k - 1) > 0,
                dims[k - 1].target >= 0,
        ;
    }
    if k < dims.len() && dims[k].target == 0 {
        assert(targets_prod(dims, k) == 0) by (nonlinear_arith)
            requires
                k < dims.len(),
                targets_prod(dims, k) == dims[k].target * targets_prod(dims, k + 1),
                dims[k].target == 0,
        ;
    }
}

proof fn lemma_max_offset_from_nonneg(dims: Seq<BroadcastDimension>, k: int)
    requires
        0 <= k <= dims.len(),
        forall|j: int| 0 <= j < dims.len() ==> (#[trigger] dims[j]).target >= 1,
    ensures
        0 <= max_offset_from(dims, k),
    decreases dims.len() - k,
{
    if k < dims.len() {
        lemma_max_offset_from_nonneg(dims, k + 1);
        vstd::arithmetic::mul::lemma_mul_nonnegative(dims[k].target - 1, dims[k].stride as int);
    }
}

/// Later-axis maxima never exceed the whole plan's maximum offset.
pub proof fn lemma_max_offset_from_le(dims: Seq<BroadcastDimension>, k: int)
    requires
        0 <= k <= dims.len(),
        forall|j: int| 0 <= j < dims.len() ==> (#[trigger] dims[j]).target >= 1,
    ensures
        0 <= max_offset_from(dims, k),
        max_offset_from(dims, k) <= max_offset(dims),
    decreases k,
{
    lemma_max_offset_from_nonneg(dims, k);
    if k > 0 {
        lemma_max_offset_from_le(dims, k - 1);
        vstd::arithmetic::mul::lemma_mul_nonnegative(
            dims[k - 1].target - 1,
            dims[k - 1].stride as int,
        );
        assert(max_offset_from(dims, k - 1) == (dims[k - 1].target - 1) * dims[k - 1].stride
            + max_offset_from(dims, k));
    }
}

/// Offsets stay within the plan's maximum: each axis position is below the
/// axis's `target`, so each axis contributes at most `(target - 1) * stride`.
pub proof fn lemma_offset_from_bounds(dims: Seq<BroadcastDimension>, n: int, k: int)
    requires
        0 <= k <= dims.len(),
        0 <= n,
        forall|j: int| 0 <= j < dims.len() ==> (#[trigger] dims[j]).target >= 1,
    ensures
        0 <= offset_from(dims, n, k) <= max_offset_from(dims, k),
    decreases dims.len() - k,
{
    if k < dims.len() {
        lemma_offset_from_bounds(dims, n, k + 1);
        let t = dims[k].target as int;
        let d = digit(dims, n, k);
        assert(0 <= d < t) by {
            vstd::arithmetic::div_mod::lemma_mod_bound(n / weight(dims, k), t);
        }
        vstd::arithmetic::mul::lemma_mul_nonnegative(d, dims[k].stride as int);
        vstd::arithmetic::mul::lemma_mul_inequality(d, t - 1, dims[k].stride as int);
    }
}

/// Every offset a row-major walk reads stays within the plan's maximum.
pub proof fn lemma_offset_in_bounds(dims: Seq<BroadcastDimension>, n: int)
    requires
        0 <= n < targets_prod(dims, 0),
    ensures
        0 <= offset_at(dims, n) <= max_offset(dims),
{
    lemma_targets_prod_pos(dims, dims.len() as int);
    assert forall|j: int| 0 <= j < dims.len() implies (#[trigger] dims[j]).target >= 1 by {
        lemma_targets_prod_pos(dims, j);
    }
    lemma_offset_from_bounds(dims, n, 0);
}

/// A broadcast axis (stride 0) always reads the same source element: two
/// steps whose positions agree on every non-broadcast axis read the same
/// offset, however far along the broadcast axes they are.
pub proof fn lemma_broadcast_axis_reuses_element(
    dims: Seq<BroadcastDimension>,
    n1: int,
    n2: int,
)
    requires
        forall|k: int|
            0 <= k < dims.len() && (#[trigger] dims[k]).stride != 0 ==> digit(dims, n1, k)
                == digit(dims, n2, k),
    ensures
        offset_at(dims, n1) == offset_at(dims, n2),
{
    lemma_broadcast_axis_reuses_element_from(dims, n1, n2, 0);
}

proof fn lemma_broadcast_axis_reuses_element_from(
    dims: Seq<BroadcastDimension>,
    n1: int,
    n2: int,
    k: int,
)
    requires
        0 <= k <= dims.len(),
        forall|j: int|
            0 <= j < dims.len() && (#[trigger] dims[j]).stride != 0 ==> digit(dims, n1, j)
                == digit(dims, n2, j),
    ensures
        offset_from(dims, n1, k) == offset_from(dims, n2, k),
    decreases dims.len() - k,
{
    if k < dims.len() {
        lemma_broadcast_axis_reuses_element_from(dims, n1, n2, k + 1);
    }
}

/// Walks a broadcast plan over a borrowed source buffer, yielding one aligned
/// slice per step in row-major order. The walk is single-pass and finite: it
/// is not restartable, and reuse requires building a fresh iterator from the
/// plan.
pub struct DenseBroadcastIter<'a, T> {
    dims: Vec<BroadcastDimension>,
    data: &'a [T],
    n: usize,
    total: usize,
    slice_len: usize,
}

impl<'a, T> DenseBroadcastIter<'a, T> {
    /// The plan the iterator walks.
    pub closed spec fn spec_dims(self) -> Seq<BroadcastDimension> {
        self.dims@
    }

    /// The source elements the iterator reads.
    pub closed spec fn spec_data(self) -> Seq<T> {
        self.data@
    }

    /// How many steps have been taken.
    pub closed spec fn spec_pos(self) -> int {
        self.n as int
    }

    /// How many steps the whole walk has.
    pub closed spec fn spec_total(self) -> int {
        self.total as int
    }

    /// Well-formedness: the step bound and slice length agree with the plan,
    /// and every step's slice lies within the source.
    pub closed spec fn wf(self) -> bool {
        &&& self.total == targets_prod(self.dims@, 0)
        &&& self.slice_len == spec_slice_len(self.dims@)
        &&& self.n <= self.total
        &&& self.total > 0 ==> max_offset(self.dims@) + spec_slice_len(self.dims@)
            <= self.data@.len()
    }

    /// The slice yielded at step `n`: `slice_len` contiguous source elements
    /// starting at the step's offset.
    pub open spec fn spec_yield(self, n: int) -> Seq<T> {
        self.spec_data().subrange(
            offset_at(self.spec_dims(), n),
            offset_at(self.spec_dims(), n) + spec_slice_len(self.spec_dims()),
        )
    }

    /// Builds the iterator over `data` for a plan, positioned at the first
    /// step. Refuses the plan — `None` — exactly when counting its steps
    /// would overflow a machine word or some step would read past the end of
    /// `data`.
    pub fn new(dims: Vec<BroadcastDimension>, data: &'a [T]) -> (r: Option<
        DenseBroadcastIter<'a, T>,
    >)
        ensures
            match r {
                Some(it) => {
                    &&& it.wf()
                    &&& it.spec_dims() == dims@
                    &&& it.spec_data() == data@
                    &&& it.spec_pos() == 0
                    &&& it.spec_total() == targets_prod(dims@, 0)
                    &&& spec_plan_fits(dims@, data@.len() as int)
                },
                None => (exists|k: int|
                    0 <= k <= dims@.len() && targets_prod(dims@, k) > usize::MAX) || (targets_prod(
                    dims@,
                    0,
                ) > 0 && max_offset(dims@) + spec_slice_len(dims@) > data@.len()),
            },
    {
        let dlen = data.len();
        let len = dims.len();
        let mut total: usize = 1;
        let mut k: usize = len;
        while k > 0
            invariant
                0 <= k <= len,
                len == dims@.len(),
                total == targets_prod(dims@, k as int),
                forall|j: int| k <= j <= len ==> targets_prod(dims@, j) <= usize::MAX,
            decreases k,
        {
            match total.checked_mul(dims[k - 1].target) {
                Some(t) => {
                    total = t;
                },
                None => {
                    proof {
                        assert(targets_prod(dims@, k - 1) == dims@[k - 1].target * targets_prod(
                            dims@,
                            k as int,
                        ));
                    }
                    return None;
                },
            }
            k -= 1;
        }
        let slice_len: usize = if len == 0 {
            1
        } else {
            dims[len - 1].size
        };
        if total > 0 {
            proof {
                assert forall|j: int| 0 <= j < dims@.len() implies (#[trigger] dims@[j]).target
                    >= 1 by {
                    lemma_targets_prod_pos(dims@, j);
                }
            }
            let mut mo: usize = 0;
            let mut kk: usize = len;
            while kk > 0
                invariant
                    0 <= kk <= len,
                    len == dims@.len(),
                    dlen == data@.len(),
                    total == targets_prod(dims@, 0),
                    total > 0,
                    forall|j: int| 0 <= j < dims@.len() ==> (#[trigger] dims@[j]).target >= 1,
                    mo == max_offset_from(dims@, kk as int),
                decreases kk,
            {
                let d = dims[kk - 1];
                let axis_max = match (d.target - 1).checked_mul(d.stride) {
                    Some(c) => c,
                    None => {
                        proof {
                            lemma_max_offset_bail(dims@, kk - 1);
                            assert(max_offset(dims@) + spec_slice_len(dims@) > data@.len());
                        }
                        return None;
                    },
                };
                match mo.checked_add(axis_max) {
                    Some(v) => {
                        mo = v;
                    },
                    None => {
                        proof {
                            lemma_max_offset_bail(dims@, kk - 1);
                            assert(max_offset(dims@) + spec_slice_len(dims@) > data@.len());
                        }
                        return None;
                    },
                }
                kk -= 1;
            }
            proof {
                assert(slice_len == spec_slice_len(dims@));
                lemma_max_offset_from_le(dims@, 0);
            }
            if data.len() < slice_len || mo > data.len() - slice_len {
                return None;
            }
            proof {
                assert(max_offset(dims@) + spec_slice_len(dims@) <= data@.len());
            }
        }
        Some(DenseBroadcastIter { dims, data, n: 0, total, slice_len })
    }

    /// How many steps the whole walk has.
    pub fn total(&self) -> (r: usize)
        ensures
            r == self.spec_total(),
    {
        self.total
    }

    /// Takes one step: yields the slice at the current step and advances, or
    /// yields nothing once all steps are done.
    pub fn next(&mut self) -> (r: Option<&'a [T]>)
        requires
            old(self).wf(),
        ensures
            final(self).wf(),
            final(self).spec_dims() == old(self).spec_dims(),
            final(self).spec_data() == old(self).spec_data(),
            final(self).spec_total() == old(self).spec_total(),
            old(self).spec_pos() < old(self).spec_total() ==> (r matches Some(s) && s@ == old(
                self,
            ).spec_yield(old(self).spec_pos()) && final(self).spec_pos() == old(self).spec_pos()
                + 1),
            old(self).spec_pos() >= old(self).spec_total() ==> r is None && final(self).spec_pos()
                == old(self).spec_pos(),
    {
        if self.n >= self.total {
            return None;
        }
        let ghost dims = self.dims@;
        let ghost nn = self.n as int;
        proof {
            lemma_targets_prod_pos(dims, dims.len() as int);
            assert forall|j: int| 0 <= j < dims.len() implies (#[trigger] dims[j]).target >= 1 by {
                lemma_targets_prod_pos(dims, j);
            }
        }
        let dlen = self.data.len();
        proof {
            assert(targets_prod(dims, 0) == self.total as int);
            lemma_max_offset_from_le(dims, 0);
        }
        let len = self.dims.len();
        let mut off: usize = 0;
        let mut m: usize = self.n;
        let mut k: usize = len;
        while k > 0
            invariant
                0 <= k <= len,
                len == dims.len(),
                dims == self.dims@,
                dlen == self.data@.len(),
                self.slice_len == spec_slice_len(dims),
                0 <= nn,
                forall|j: int| 0 <= j < dims.len() ==> (#[trigger] dims[j]).target >= 1,
                0 < targets_prod(dims, 0) <= usize::MAX,
                max_offset(dims) + spec_slice_len(dims) <= dlen,
                0 <= max_offset(dims) <= usize::MAX,
                m == nn / targets_prod(dims, k as int),
                off == offset_from(dims, nn, k as int),
            decreases k,
        {
            let d = self.dims[k - 1];
            let i = m % d.target;
            proof {
                assert(weight(dims, k - 1) == targets_prod(dims, k as int));
                assert(i == digit(dims, nn, k - 1));
                lemma_offset_from_bounds(dims, nn, k - 1);
                lemma_max_offset_from_le(dims, k - 1);
                assert(offset_from(dims, nn, k - 1) == digit(dims, nn, k - 1) * d.stride
                    + offset_from(dims, nn, k as int));
            }
            off = off + i * d.stride;
            proof {
                lemma_targets_prod_pos(dims, k as int);
                lemma_div_denominator(nn, targets_prod(dims, k as int), d.target as int);
                assert(d.target * targets_prod(dims, k as int) == targets_prod(dims, k - 1));
            }
            m = m / d.target;
            k -= 1;
        }
        proof {
            lemma_offset_from_bounds(dims, nn, 0);
        }
        let s = slice_subrange(self.data, off, off + self.slice_len);
        self.n += 1;
        Some(s)
    }
}

proof fn lemma_max_offset_bail(dims: Seq<BroadcastDimension>, k: int)
    requires
        0 <= k < dims.len(),
        forall|j: int| 0 <= j < dims.len() ==> (#[trigger] dims[j]).target >= 1,
        (dims[k].target - 1) * dims[k].stride + max_offset_from(dims, k + 1) > usize::MAX,
    ensures
        max_offset(dims) > usize::MAX,
{
    lemma_max_offset_from_le(dims, k);
    assert(max_offset_from(dims, k) == (dims[k].target - 1) * dims[k].stride + max_offset_from(
        dims,
        k + 1,
    ));
}


/// How many leading plan axes survive chopping `chop` trailing axes: never
/// below 1 while any axis exists, so a reduction cannot consume a whole plan.
pub open spec fn spec_chopped_len(len: int, chop: int) -> int {
    if len == 0 {
        0
    } else if chop >= len {
        1
    } else {
        len - chop
    }
}

/// The natural strides of a shape as machine words; meaningful when every
/// stride fits in one.
pub open spec fn nat_strides_usize(s: Seq<usize>) -> Seq<usize> {
    Seq::new(s.len(), |k: int| suffix_prod(s, k + 1) as usize)
}

/// Whether every natural stride of a shape fits in a machine word.
pub open spec fn spec_strides_fit(s: Seq<usize>) -> bool {
    forall|k: int| 1 <= k < s.len() ==> suffix_prod(s, k) <= usize::MAX
}

/// The broadcast plan of source shape `s` against broadcast shape `bs`,
/// chopped to its first `m` axes.
pub open spec fn spec_plan(s: Seq<usize>, bs: Seq<usize>, m: int) -> Seq<BroadcastDimension> {
    spec_derive_dims(s, bs, nat_strides_usize(s)).take(m)
}

/// Whether a plan can be walked over `data_len` source elements: counting its
/// steps stays within a machine word and, when there is any step at all,
/// every step's slice lies within the source.
pub open spec fn spec_plan_fits(dims: Seq<BroadcastDimension>, data_len: int) -> bool {
    &&& forall|k: int| 0 <= k <= dims.len() ==> targets_prod(dims, k) <= usize::MAX
    &&& targets_prod(dims, 0) > 0 ==> max_offset(dims) + spec_slice_len(dims) <= data_len
}

/// Every axis of a source's plan iterates exactly as often as the broadcast
/// shape's axis says, whichever operand the plan was derived for.
pub proof fn lemma_plan_targets(s: Seq<usize>, bs: Seq<usize>, st: Seq<usize>, m: int)
    requires
        0 <= m <= bs.len(),
        s.len() <= bs.len(),
        st.len() == s.len(),
        forall|j: int| 0 <= j < bs.len() ==> padded_axis(s, bs.len() as int, j) <= bs[j],
    ensures
        forall|j: int|
            0 <= j < m ==> (#[trigger] spec_derive_dims(s, bs, st).take(m)[j]).target == bs[j],
{
    assert forall|j: int|
        0 <= j < m implies (#[trigger] spec_derive_dims(s, bs, st).take(m)[j]).target
        == bs[j] by {
        let pad = bs.len() - s.len();
        if j >= pad {
            assert(padded_axis(s, bs.len() as int, j) == s[j - pad] as int);
        }
    }
}

/// Two plans whose axes iterate equally often have equally many steps.
pub proof fn lemma_targets_prod_congruent(
    d1: Seq<BroadcastDimension>,
    d2: Seq<BroadcastDimension>,
    k: int,
)
    requires
        0 <= k <= d1.len(),
        d1.len() == d2.len(),
        forall|j: int| 0 <= j < d1.len() ==> (#[trigger] d1[j]).target == d2[j].target,
    ensures
        targets_prod(d1, k) == targets_prod(d2, k),
    decreases d1.len() - k,
{
    if k < d1.len() {
        lemma_targets_prod_congruent(d1, d2, k + 1);
    }
}

/// Plans a broadcast of two operands and hands back the broadcast shape and
/// one iterator per operand, the last `chop` axes excluded from iteration
/// (they are consumed whole by a reduction kernel, as each yielded slice).
/// Fails `InvalidBroadcast` exactly when the shapes are incompatible, and
/// with the backend's out-of-memory kind exactly when a stride or step count
/// overflows a machine word or a step would read outside an operand.
pub fn try_new_broadcast<'a, T>(
    shape_a: &[usize],
    a: &'a [T],
    shape_b: &[usize],
    b: &'a [T],
    chop: usize,
) -> (r: Result<(Vec<usize>, DenseBroadcastIter<'a, T>, DenseBroadcastIter<'a, T>), Error>)
    ensures
        ({
            let bs = spec_target_shape(shape_a@, shape_b@);
            let m = spec_chopped_len(bs.len() as int, chop as int);
            let da = spec_plan(shape_a@, bs, m);
            let db = spec_plan(shape_b@, bs, m);
            let ok = spec_strides_fit(shape_a@) && spec_strides_fit(shape_b@) && spec_plan_fits(
                da,
                a@.len() as int,
            ) && spec_plan_fits(db, b@.len() as int);
            &&& !spec_compatible(shape_a@, shape_b@) ==> (r matches Err(e) && e
                == Error::InvalidBroadcast)
            &&& spec_compatible(shape_a@, shape_b@) && !ok ==> (r matches Err(e) && e
                == Error::Native(native::Error::OutOfMemory))
            &&& spec_compatible(shape_a@, shape_b@) && ok ==> (r matches Ok(t) && {
                &&& t.0@ == bs.take(m)
                &&& t.1.wf()
                &&& t.1.spec_dims() == da
                &&& t.1.spec_data() == a@
                &&& t.1.spec_pos() == 0
                &&& t.2.wf()
                &&& t.2.spec_dims() == db
                &&& t.2.spec_data() == b@
                &&& t.2.spec_pos() == 0
                &&& t.1.spec_total() == targets_prod(da, 0)
                &&& t.2.spec_total() == t.1.spec_total()
            })
        }),
{
    let ghost gbs = spec_target_shape(shape_a@, shape_b@);
    let ghost gm = spec_chopped_len(gbs.len() as int, chop as int);
    if !compatible(shape_a, shape_b) {
        return Err(Error::InvalidBroadcast);
    }
    let mut bshape = target_shape(shape_a, shape_b);
    let strides_a = match try_natural_strides(shape_a) {
        Some(v) => v,
        None => {
            return Err(Error::Native(native::Error::OutOfMemory));
        },
    };
    let strides_b = match try_natural_strides(shape_b) {
        Some(v) => v,
        None => {
            return Err(Error::Native(native::Error::OutOfMemory));
        },
    };
    proof {
        assert(strides_a@ =~= nat_strides_usize(shape_a@));
        assert(strides_b@ =~= nat_strides_usize(shape_b@));
    }
    let mut bdims_a = BroadcastDimension::shape_from_iters(
        shape_a,
        bshape.as_slice(),
        strides_a.as_slice(),
    );
    let mut bdims_b = BroadcastDimension::shape_from_iters(
        shape_b,
        bshape.as_slice(),
        strides_b.as_slice(),
    );
    let len = bdims_a.len();
    let m: usize = if len == 0 {
        0
    } else if chop >= len {
        1
    } else {
        len - chop
    };
    bdims_a.truncate(m);
    bdims_b.truncate(m);
    bshape.truncate(m);
    proof {
        assert(m as int == gm);
        assert(bdims_a@ == spec_plan(shape_a@, gbs, gm));
        assert(bdims_b@ == spec_plan(shape_b@, gbs, gm));
        assert(bshape@ == gbs.take(gm));
        assert forall|j: int| 0 <= j < gbs.len() implies padded_axis(
            shape_a@,
            gbs.len() as int,
            j,
        ) <= gbs[j] by {
            assert(gbs[j] == spec_target_shape(shape_a@, shape_b@)[j]);
        }
        lemma_plan_targets(shape_a@, gbs, nat_strides_usize(shape_a@), gm);
        lemma_plan_targets(shape_b@, gbs, nat_strides_usize(shape_b@), gm);
        lemma_targets_prod_congruent(bdims_a@, bdims_b@, 0);
    }
    let ia = match DenseBroadcastIter::new(bdims_a, a) {
        Some(it) => it,
        None => {
            return Err(Error::Native(native::Error::OutOfMemory));
        },
    };
    let ib = match DenseBroadcastIter::new(bdims_b, b) {
        Some(it) => it,
        None => {
            return Err(Error::Native(native::Error::OutOfMemory));
        },
    };
    proof {
        assert(spec_strides_fit(shape_a@)) by {
            assert forall|k: int| 1 <= k < shape_a@.len() implies suffix_prod(shape_a@, k)
                <= usize::MAX by {
                assert(strides_a@[k - 1] == suffix_prod(shape_a@, k));
            }
        }
        assert(spec_strides_fit(shape_b@)) by {
            assert forall|k: int| 1 <= k < shape_b@.len() implies suffix_prod(shape_b@, k)
                <= usize::MAX by {
                assert(strides_b@[k - 1] == suffix_prod(shape_b@, k));
            }
        }
        assert(spec_plan_fits(spec_plan(shape_a@, gbs, gm), a@.len() as int));
        assert(spec_plan_fits(spec_plan(shape_b@, gbs, gm), b@.len() as int));
        assert(bshape@ == gbs.take(gm));
    }
    Ok((bshape, ia, ib))
}


/// The source axis a target axis `j` of a plan falls on, counting the
/// left-padding: 0 while `j` is still within the padded prefix.
pub open spec fn source_axis(s: Seq<usize>, bs: Seq<usize>, j: int) -> int {
    let pad = bs.len() - s.len();
    if j <= pad {
        0
    } else {
        j - pad
    }
}

proof fn lemma_suffix_prod_pos(s: Seq<usize>, k: int)
    requires
        0 <= k <= s.len(),
        forall|i: int| 0 <= i < s.len() ==> s[i] >= 1,
    ensures
        suffix_prod(s, k) >= 1,
    decreases s.len() - k,
{
    if k < s.len() {
        lemma_suffix_prod_pos(s, k + 1);
        assert(suffix_prod(s, k) == s[k] * suffix_prod(s, k + 1));
        assert(s[k] * suffix_prod(s, k + 1) >= 1) by (nonlinear_arith)
            requires
                s[k] >= 1,
                suffix_prod(s, k + 1) >= 1,
        ;
    }
}

proof fn lemma_plan_max_offset_bound(s: Seq<usize>, bs: Seq<usize>, j: int, m: int)
    requires
        s.len() <= bs.len(),
        0 <= j <= m <= bs.len(),
        spec_strides_fit(s),
        forall|i: int| 0 <= i < s.len() ==> s[i] >= 1,
        forall|jj: int|
            0 <= jj < bs.len() ==> padded_axis(s, bs.len() as int, jj) <= bs[jj],
        forall|jj: int|
            0 <= jj < bs.len() && padded_axis(s, bs.len() as int, jj) > 1 ==> bs[jj]
                == padded_axis(s, bs.len() as int, jj),
    ensures
        max_offset_from(spec_plan(s, bs, m), j) <= suffix_prod(s, source_axis(s, bs, j))
            - suffix_prod(s, source_axis(s, bs, m)),
    decreases m - j,
{
    let da = spec_plan(s, bs, m);
    let pad = bs.len() - s.len();
    if j == m {
        assert(max_offset_from(da, j) == 0);
    } else {
        lemma_plan_max_offset_bound(s, bs, j + 1, m);
        let d = da[j];
        assert(d == spec_broadcast_dim(s, bs, nat_strides_usize(s), j));
        if j < pad {
            assert(d.stride == 0);
            assert((d.target - 1) * 0 == 0) by (nonlinear_arith);
            assert(source_axis(s, bs, j) == 0 && source_axis(s, bs, j + 1) == 0);
        } else {
            let i = j - pad;
            assert(padded_axis(s, bs.len() as int, j) == s[i] as int);
            assert(source_axis(s, bs, j) == i && source_axis(s, bs, j + 1) == i + 1);
            lemma_suffix_prod_pos(s, i + 1);
            assert(nat_strides_usize(s)[i] as int == suffix_prod(s, i + 1)) by {
                if i + 1 < s.len() {
                    assert(suffix_prod(s, i + 1) <= usize::MAX);
                }
            }
            if s[i] == 1 {
                assert(d.stride == 0);
                assert((d.target - 1) * 0 == 0) by (nonlinear_arith);
                assert(suffix_prod(s, i) == 1 * suffix_prod(s, i + 1));
                assert(1 * suffix_prod(s, i + 1) == suffix_prod(s, i + 1)) by (nonlinear_arith);
            } else {
                assert(s[i] > 1);
                assert(bs[j] == s[i] as int);
                assert(d.target == s[i]);
                assert(d.stride as int == suffix_prod(s, i + 1));
                assert(suffix_prod(s, i) == s[i] * suffix_prod(s, i + 1));
                assert((s[i] - 1) * suffix_prod(s, i + 1) + suffix_prod(s, i + 1) == s[i]
                    * suffix_prod(s, i + 1)) by (nonlinear_arith);
            }
        }
    }
}

/// A broadcast walk over a source whose data exactly fills its shape never
/// reads outside that data: when every source axis is at least 1, every
/// stride fits a machine word, the plan is derived against the broadcast
/// shape of the source and a compatible operand, and at least one axis is
/// kept while any exists, then every step's slice — the largest offset plus
/// the slice length — stays within the product of the source's axis lengths,
/// the source's element count.
pub proof fn lemma_broadcast_reads_within_data(sa: Seq<usize>, sb: Seq<usize>, m: int)
    requires
        spec_compatible(sa, sb),
        forall|k: int| 0 <= k < sa.len() ==> sa[k] >= 1,
        spec_strides_fit(sa),
        0 <= m <= spec_target_shape(sa, sb).len(),
        spec_target_shape(sa, sb).len() > 0 ==> m >= 1,
    ensures
        max_offset(spec_plan(sa, spec_target_shape(sa, sb), m)) + spec_slice_len(
            spec_plan(sa, spec_target_shape(sa, sb), m),
        ) <= suffix_prod(sa, 0),
{
    let bs = spec_target_shape(sa, sb);
    let mr = bs.len() as int;
    let pad = bs.len() - sa.len();
    assert(sa.len() <= bs.len());
    assert forall|j: int| 0 <= j < bs.len() implies padded_axis(sa, mr, j) <= bs[j] by {
        assert(bs[j] == spec_target_shape(sa, sb)[j]);
    }
    assert forall|j: int|
        0 <= j < bs.len() && padded_axis(sa, mr, j) > 1 implies bs[j] == padded_axis(
        sa,
        mr,
        j,
    ) by {
        assert(axes_compatible(padded_axis(sa, mr, j), padded_axis(sb, mr, j)));
    }
    lemma_plan_max_offset_bound(sa, bs, 0, m);
    let da = spec_plan(sa, bs, m);
    lemma_suffix_prod_pos(sa, 0);
    if m == 0 {
        lemma_suffix_prod_pos(sa, source_axis(sa, bs, 0));
    } else {
        let d = da[m - 1];
        assert(d == spec_broadcast_dim(sa, bs, nat_strides_usize(sa), m - 1));
        if m - 1 < pad {
            assert(d.size == 1);
            assert(source_axis(sa, bs, m) == 0);
        } else {
            let i = m - 1 - pad;
            lemma_suffix_prod_pos(sa, i + 1);
            assert(d.size == nat_strides_usize(sa)[i]);
            assert(nat_strides_usize(sa)[i] as int == suffix_prod(sa, i + 1)) by {
                if i + 1 < sa.len() {
                    assert(suffix_prod(sa, i + 1) <= usize::MAX);
                }
            }
            assert(source_axis(sa, bs, m) == i + 1);
        }
    }
}

} // verus!
