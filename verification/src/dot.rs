//! The elementwise reduction kernel: a pure dot-product primitive reducing a
//! pair of aligned slices to one scalar, defined per element type.

use vstd::prelude::*;

verus! {

/// An element type with a dot-product reduction kernel.
pub trait Dot: Sized {
    /// The scalar the kernel reduces a pair of aligned slices to.
    spec fn spec_dot(a: Seq<Self>, b: Seq<Self>) -> Self;

    /// Reduces a pair of aligned slices to one scalar.
    fn dot(a: &[Self], b: &[Self]) -> (r: Self)
        ensures
            r == Self::spec_dot(a@, b@),
    ;
}

/// The number of aligned positions a pair of slices reduces over: the length
/// of the shorter slice.
pub open spec fn dot_len<X>(a: Seq<X>, b: Seq<X>) -> int {
    if a.len() <= b.len() {
        a.len() as int
    } else {
        b.len() as int
    }
}

/// Wrapping dot product of unsigned 64-bit slices: the sum over aligned
/// positions of the products, sum and products taken modulo 2^64.
pub open spec fn spec_dot_u64(a: Seq<u64>, b: Seq<u64>) -> u64
    decreases dot_len(a, b),
{
    if a.len() == 0 || b.len() == 0 {
        0u64
    } else {
        let m = dot_len(a, b);
        ((spec_dot_u64(a.take(m - 1), b.take(m - 1)) + a[m - 1] * b[m - 1])
            % 0x10000000000000000) as u64
    }
}

/// Reducing a pair of slices only reads their aligned prefixes: the result
/// over the prefixes of the common length is the result over the slices.
pub proof fn lemma_spec_dot_u64_take(a: Seq<u64>, b: Seq<u64>)
    ensures
        spec_dot_u64(a.take(dot_len(a, b)), b.take(dot_len(a, b))) == spec_dot_u64(a, b),
{
    let m = dot_len(a, b);
    if a.len() == 0 || b.len() == 0 {
        assert(a.take(m).len() == 0 || b.take(m).len() == 0);
    } else {
        assert(a.take(m).take(m - 1) =~= a.take(m - 1));
        assert(b.take(m).take(m - 1) =~= b.take(m - 1));
        assert(a.take(m)[m - 1] == a[m - 1]);
        assert(b.take(m)[m - 1] == b[m - 1]);
        assert(dot_len(a.take(m), b.take(m)) == m);
    }
}

impl Dot for u64 {
    open spec fn spec_dot(a: Seq<u64>, b: Seq<u64>) -> u64 {
        spec_dot_u64(a, b)
    }

    fn dot(a: &[u64], b: &[u64]) -> (r: u64) {
        let la = a.len();
        let lb = b.len();
        let m = if la <= lb {
            la
        } else {
            lb
        };
        let mut acc: u64 = 0;
        let mut i: usize = 0;
        while i < m
            invariant
                0 <= i <= m,
                m == dot_len(a@, b@),
                m <= a@.len(),
                m <= b@.len(),
                acc == spec_dot_u64(a@.take(i as int), b@.take(i as int)),
            decreases m - i,
        {
            let av = a[i];
            let bv = b[i];
            proof {
                assert((av as int) * (bv as int) <= 0xffffffffffffffff * 0xffffffffffffffff)
                    by (nonlinear_arith)
                    requires
                        0 <= av as int <= 0xffffffffffffffff,
                        0 <= bv as int <= 0xffffffffffffffff,
                ;
            }
            let p128: u128 = (av as u128) * (bv as u128);
            let acc128: u128 = acc as u128 + p128;
            let acc_new: u64 = (acc128 % 0x10000000000000000u128) as u64;
            proof {
                let ii = i as int;
                assert(a@.take(ii + 1).take(ii) =~= a@.take(ii));
                assert(b@.take(ii + 1).take(ii) =~= b@.take(ii));
                assert(a@.take(ii + 1)[ii] == a@[ii]);
                assert(b@.take(ii + 1)[ii] == b@[ii]);
                assert(dot_len(a@.take(ii + 1), b@.take(ii + 1)) == ii + 1);
                assert(acc128 == acc + a@[ii] * b@[ii]);
                assert(acc_new == (acc + a@[ii] * b@[ii]) % 0x10000000000000000);
            }
            acc = acc_new;
            i += 1;
        }
        proof {
            lemma_spec_dot_u64_take(a@, b@);
            assert(a@.take(m as int) == a@.take(dot_len(a@, b@)));
        }
        acc
    }
}

} // verus!
