//! Broadcast shape planning: compatibility of two shapes under right-aligned
//! broadcasting, the broadcast (target) shape, natural row-major strides, and
//! the per-axis descriptors that drive the broadcast iterator.

use vstd::prelude::*;

verus! {

/// One axis of a broadcast plan: how a source axis is stepped while the
/// broadcast target shape is iterated.
#[derive(Debug, Clone, Copy, PartialEq, Eq, Structural)]
pub struct BroadcastDimension {
    /// Natural row-major stride of this axis in the source data; for the last
    /// kept axis this is also the length of the slice handed to a kernel.
    pub size: usize,
    /// Step applied to the source offset per iteration of this axis; 0 on a
    /// broadcast axis, whose single element is reused.
    pub stride: usize,
    /// Number of iterations of this axis: the broadcast axis length.
    pub target: usize,
}

/// Axis length of `s` once left-padded with 1s to rank `m`, at position `j`.
pub open spec fn padded_axis(s: Seq<usize>, m: int, j: int) -> int {
    if j < m - s.len() {
        1
    } else {
        s[j - (m - s.len())] as int
    }
}

/// Two aligned axis lengths broadcast together iff they are equal or either is 1.
pub open spec fn axes_compatible(x: int, y: int) -> bool {
    x == y || x == 1 || y == 1
}

/// The common rank of two shapes compared right-aligned.
pub open spec fn broadcast_rank(a: Seq<usize>, b: Seq<usize>) -> int {
    if a.len() >= b.len() {
        a.len() as int
    } else {
        b.len() as int
    }
}

/// Right-aligned broadcast compatibility: every aligned axis pair is equal or
/// one of the pair is 1, the shorter shape being conceptually left-padded with 1s.
pub open spec fn spec_compatible(a: Seq<usize>, b: Seq<usize>) -> bool {
    let m = broadcast_rank(a, b);
    forall|j: int|
        0 <= j < m ==> axes_compatible(padded_axis(a, m, j), padded_axis(b, m, j))
}

/// The broadcast shape of two shapes: rank is the larger of the two ranks, and
/// each axis is the larger of the two (left-padded) axis lengths.
pub open spec fn spec_target_shape(a: Seq<usize>, b: Seq<usize>) -> Seq<usize> {
    let m = broadcast_rank(a, b);
    Seq::new(
        m as nat,
        |j: int|
            if padded_axis(a, m, j) >= padded_axis(b, m, j) {
                padded_axis(a, m, j) as usize
            } else {
                padded_axis(b, m, j) as usize
            },
    )
}

/// Product of the axis lengths of `s` from position `k` (inclusive) to the end.
pub open spec fn suffix_prod(s: Seq<usize>, k: int) -> int
    decreases s.len() - k,
{
    if k < 0 {
        0
    } else if k >= s.len() {
        1
    } else {
        s[k] * suffix_prod(s, k + 1)
    }
}

/// The natural row-major strides of a shape: the stride of each axis is the
/// product of all following axis lengths, so the stride of the last axis is 1.
pub open spec fn spec_natural_strides(s: Seq<usize>) -> Seq<int> {
    Seq::new(s.len(), |k: int| suffix_prod(s, k + 1))
}

/// Equal shapes are always broadcast-compatible: every aligned axis pair is equal.
pub proof fn lemma_compatible_reflexive(s: Seq<usize>)
    ensures
        spec_compatible(s, s),
{
}

/// Decides right-aligned broadcast compatibility of two shapes.
pub fn compatible(shape1: &[usize], shape2: &[usize]) -> (r: bool)
    ensures
        r == spec_compatible(shape1@, shape2@),
{
    let l1 = shape1.len();
    let l2 = shape2.len();
    let lmin = if l1 < l2 { l1 } else { l2 };
    let ghost m: int = broadcast_rank(shape1@, shape2@);
    let mut i: usize = 0;
    while i < lmin
        invariant
            0 <= i <= lmin,
            lmin <= l1 == shape1@.len(),
            lmin <= l2 == shape2@.len(),
            m == broadcast_rank(shape1@, shape2@),
            forall|k: int|
                0 <= k < i ==> axes_compatible(
                    #[trigger] padded_axis(shape1@, m, m - 1 - k),
                    padded_axis(shape2@, m, m - 1 - k),
                ),
        decreases lmin - i,
    {
        let x = shape1[l1 - 1 - i];
        let y = shape2[l2 - 1 - i];
        if !(x == y || x == 1 || y == 1) {
            proof {
                assert(padded_axis(shape1@, m, m - 1 - i) == x as int);
                assert(padded_axis(shape2@, m, m - 1 - i) == y as int);
            }
            return false;
        }
        proof {
            assert(padded_axis(shape1@, m, m - 1 - i) == x as int);
            assert(padded_axis(shape2@, m, m - 1 - i) == y as int);
        }
        i += 1;
    }
    proof {
        assert forall|j: int| 0 <= j < m implies axes_compatible(
            padded_axis(shape1@, m, j),
            padded_axis(shape2@, m, j),
        ) by {
            let k = m - 1 - j;
            if k < lmin {
                assert(axes_compatible(
                    padded_axis(shape1@, m, m - 1 - k),
                    padded_axis(shape2@, m, m - 1 - k),
                ));
            } else {
                assert(padded_axis(shape1@, m, j) == 1 || padded_axis(shape2@, m, j) == 1);
            }
        }
    }
    true
}

/// Computes the natural row-major strides of a shape, refusing shapes whose
/// strides would not fit in a machine word: `None` exactly when some suffix
/// product of axis lengths (other than the full product) exceeds `usize::MAX`.
pub fn try_natural_strides(shape: &[usize]) -> (r: Option<Vec<usize>>)
    ensures
        match r {
            Some(v) => {
                &&& v@.len() == shape@.len()
                &&& forall|k: int|
                    0 <= k < shape@.len() ==> v@[k] == suffix_prod(shape@, k + 1)
            },
            None => exists|k: int| 1 <= k < shape@.len() && suffix_prod(shape@, k) > usize::MAX,
        },
{
    let n = shape.len();
    let mut rev: Vec<usize> = Vec::new();
    let mut acc: usize = 1;
    let mut k: usize = n;
    while k > 0
        invariant
            0 <= k <= n,
            n == shape@.len(),
            rev@.len() == n - k,
            k > 0 ==> acc == suffix_prod(shape@, k as int),
            forall|i: int| 0 <= i < n - k ==> rev@[i] == suffix_prod(shape@, n - i),
        decreases k,
    {
        rev.push(acc);
        if k > 1 {
            match acc.checked_mul(shape[k - 1]) {
                Some(a) => {
                    acc = a;
                },
                None => {
                    proof {
                        assert(suffix_prod(shape@, k - 1) == shape@[k - 1] * suffix_prod(
                            shape@,
                            k as int,
                        ));
                    }
                    return None;
                },
            }
        }
        k -= 1;
    }
    let mut out: Vec<usize> = Vec::new();
    let mut i: usize = 0;
    while i < n
        invariant
            0 <= i <= n,
            n == shape@.len(),
            rev@.len() == n,
            forall|j: int| 0 <= j < n ==> rev@[j] == suffix_prod(shape@, n - j),
            out@.len() == i,
            forall|j: int| 0 <= j < i ==> out@[j] == suffix_prod(shape@, j + 1),
        decreases n - i,
    {
        out.push(rev[n - 1 - i]);
        i += 1;
    }
    Some(out)
}

/// Computes the natural row-major strides of a shape: the stride of the last
/// axis is 1 and the stride of each preceding axis is the product of all
/// following axis lengths.
pub fn natural_strides(shape: &[usize]) -> (r: Vec<usize>)
    requires
        forall|k: int| 1 <= k < shape@.len() ==> suffix_prod(shape@, k) <= usize::MAX,
    ensures
        r@.len() == shape@.len(),
        forall|k: int| 0 <= k < shape@.len() ==> r@[k] == suffix_prod(shape@, k + 1),
{
    match try_natural_strides(shape) {
        Some(v) => v,
        None => vstd::pervasive::unreached(),
    }
}

/// The per-axis broadcast descriptor of source shape `s` (with natural strides
/// `st`) against the broadcast shape `bs`, at target axis `j`; axes of `s` are
/// aligned right, and the leading axes `s` lacks behave as axes of length 1.
pub open spec fn spec_broadcast_dim(
    s: Seq<usize>,
    bs: Seq<usize>,
    st: Seq<usize>,
    j: int,
) -> BroadcastDimension {
    let pad = bs.len() - s.len();
    if j < pad {
        BroadcastDimension { size: 1, stride: 0, target: bs[j] }
    } else {
        BroadcastDimension {
            size: st[j - pad],
            stride: if s[j - pad] == 1 {
                0
            } else {
                st[j - pad]
            },
            target: if s[j - pad] >= bs[j] {
                s[j - pad]
            } else {
                bs[j]
            },
        }
    }
}

/// The full broadcast plan: one descriptor per axis of the broadcast shape.
pub open spec fn spec_derive_dims(s: Seq<usize>, bs: Seq<usize>, st: Seq<usize>) -> Seq<
    BroadcastDimension,
> {
    Seq::new(bs.len(), |j: int| spec_broadcast_dim(s, bs, st, j))
}

impl BroadcastDimension {
    /// Derives the per-axis broadcast descriptors of a source shape against
    /// the broadcast shape `bshape`, given the source's natural strides: the
    /// stride is 0 on an axis the source holds only one element of (its single
    /// element is reused, never re-read from a different offset), else the
    /// natural stride; the target is the larger of the two aligned axis lengths.
    pub fn shape_from_iters(
        shape: &[usize],
        bshape: &[usize],
        strides: &[usize],
    ) -> (r: Vec<BroadcastDimension>)
        requires
            shape@.len() <= bshape@.len(),
            strides@.len() == shape@.len(),
        ensures
            r@ == spec_derive_dims(shape@, bshape@, strides@),
    {
        let n = shape.len();
        let m = bshape.len();
        let pad = m - n;
        let mut out: Vec<BroadcastDimension> = Vec::new();
        let mut j: usize = 0;
        while j < m
            invariant
                0 <= j <= m,
                n == shape@.len(),
                m == bshape@.len(),
                n == strides@.len(),
                n <= m,
                pad == m - n,
                out@.len() == j,
                forall|k: int|
                    0 <= k < j ==> out@[k] == spec_broadcast_dim(shape@, bshape@, strides@, k),
            decreases m - j,
        {
            let d = if j < pad {
                BroadcastDimension { size: 1, stride: 0, target: bshape[j] }
            } else {
                let i = j - pad;
                BroadcastDimension {
                    size: strides[i],
                    stride: if shape[i] == 1 {
                        0
                    } else {
                        strides[i]
                    },
                    target: if shape[i] >= bshape[j] {
                        shape[i]
                    } else {
                        bshape[j]
                    },
                }
            };
            out.push(d);
            j += 1;
        }
        proof {
            assert(out@ =~= spec_derive_dims(shape@, bshape@, strides@));
        }
        out
    }
}

/// Computes the broadcast shape of two shapes, left-padding the shorter one
/// with 1s and taking the axis-wise maximum.
pub fn target_shape(shape1: &[usize], shape2: &[usize]) -> (r: Vec<usize>)
    ensures
        r@ == spec_target_shape(shape1@, shape2@),
{
    let l1 = shape1.len();
    let l2 = shape2.len();
    let m = if l1 >= l2 { l1 } else { l2 };
    let mut out: Vec<usize> = Vec::new();
    let mut j: usize = 0;
    while j < m
        invariant
            0 <= j <= m,
            l1 == shape1@.len(),
            l2 == shape2@.len(),
            m == broadcast_rank(shape1@, shape2@),
            out@.len() == j,
            forall|k: int| 0 <= k < j ==> out@[k] == spec_target_shape(shape1@, shape2@)[k],
        decreases m - j,
    {
        let x = if j >= m - l1 { shape1[j - (m - l1)] } else { 1 };
        let y = if j >= m - l2 { shape2[j - (m - l2)] } else { 1 };
        proof {
            assert(x as int == padded_axis(shape1@, m as int, j as int));
            assert(y as int == padded_axis(shape2@, m as int, j as int));
        }
        out.push(if x >= y { x } else { y });
        j += 1;
    }
    proof {
        assert(out@ =~= spec_target_shape(shape1@, shape2@));
    }
    out
}

} // verus!
