//! Histogram-gap destretch.
//!
//! Sensor quantization leaves gaps in the histogram of the raw data.  The
//! destretch stage closes them: every sample is replaced by the plane's
//! least value plus the number of distinct values in use below the sample.
//! The remap keeps the least value, keeps the order of samples and makes
//! the set of used values contiguous.

use vstd::prelude::*;

use crate::raster::Raster;
use crate::stages::seq_min_u32;

verus! {

/// How many distinct values below `v` occur in the plane.
pub open spec fn distinct_below(s: Seq<u32>, v: int) -> int
    decreases v,
{
    if v <= 0 {
        0
    } else {
        distinct_below(s, v - 1) + if s.contains((v - 1) as u32) {
            1int
        } else {
            0int
        }
    }
}

/// A plane destretched: each sample becomes the plane's least value plus
/// the rank of the sample among the distinct values in use.
pub open spec fn destretch_seq(s: Seq<u32>) -> Seq<u32> {
    Seq::new(s.len(), |i: int| (seq_min_u32(s) + distinct_below(s, s[i] as int)) as u32)
}

proof fn lemma_distinct_below_bound(s: Seq<u32>, v: int)
    ensures
        0 <= distinct_below(s, v) <= (if v >= 0 {
            v
        } else {
            0
        }),
    decreases v,
{
    if v > 0 {
        lemma_distinct_below_bound(s, v - 1);
    }
}

proof fn lemma_distinct_below_mono(s: Seq<u32>, a: int, b: int)
    requires
        a <= b,
    ensures
        distinct_below(s, a) <= distinct_below(s, b),
    decreases b - a,
{
    if a < b {
        lemma_distinct_below_mono(s, a, b - 1);
    }
}

/// The destretch keeps the order of samples: on a 16-bit-bounded plane, a
/// sample no greater than another is remapped to a value no greater, so
/// closing the histogram's gaps never reorders the data.
pub proof fn lemma_destretch_preserves_order(s: Seq<u32>, i: int, j: int)
    requires
        0 <= i < s.len(),
        0 <= j < s.len(),
        s[i] <= s[j],
        forall|k: int| 0 <= k < s.len() ==> s[k] <= 65535,
    ensures
        destretch_seq(s)[i] <= destretch_seq(s)[j],
{
    lemma_distinct_below_mono(s, s[i] as int, s[j] as int);
    lemma_distinct_below_bound(s, s[i] as int);
    lemma_distinct_below_bound(s, s[j] as int);
    assert(seq_min_u32(s) <= 65535) by {
        lemma_seq_min_is_element(s);
    }
}

proof fn lemma_seq_min_is_element(s: Seq<u32>)
    requires
        s.len() > 0,
    ensures
        exists|k: int| 0 <= k < s.len() && s[k] == seq_min_u32(s),
    decreases s.len(),
{
    if s.len() <= 1 {
        assert(s[0] == seq_min_u32(s));
    } else {
        lemma_seq_min_is_element(s.drop_last());
        if s.last() < seq_min_u32(s.drop_last()) {
            assert(s[s.len() - 1] == seq_min_u32(s));
        } else {
            let k = choose|k: int|
                0 <= k < s.drop_last().len() && s.drop_last()[k] == seq_min_u32(s.drop_last());
            assert(s[k] == seq_min_u32(s));
        }
    }
}

/// Applies the histogram-gap destretch to a 16-bit-bounded raster.
pub fn destretch_raster(r: &Raster) -> (out: Raster)
    requires
        r.wf(),
        r.samples@.len() > 0,
        forall|j: int| 0 <= j < r.samples@.len() ==> r.samples@[j] <= 65535,
    ensures
        out.wf(),
        out.same_dims(r),
        out.samples@ == destretch_seq(r.samples@),
{
    let n = r.samples.len();
    let mn = crate::stages::raster_min(r);
    assert(mn <= 65535) by {
        assert(mn <= r.samples@[0]);
    }
    let mut present: Vec<bool> = Vec::new();
    let mut u: usize = 0;
    while u < 65536
        invariant
            u <= 65536,
            present@.len() == u,
            forall|x: int| 0 <= x < u ==> present@[x] == false,
        decreases 65536 - u,
    {
        present.push(false);
        u = u + 1;
    }
    let mut i: usize = 0;
    while i < n
        invariant
            i <= n,
            n == r.samples@.len(),
            present@.len() == 65536,
            forall|j: int| 0 <= j < n ==> r.samples@[j] <= 65535,
            forall|x: int|
                0 <= x < 65536 ==> (#[trigger] present@[x] <==> exists|j: int|
                    #![auto]
                    0 <= j < i && r.samples@[j] == x),
        decreases n - i,
    {
        let v = r.samples[i];
        let ghost oldp = present@;
        present[v as usize] = true;
        proof {
            assert forall|x: int|
                0 <= x < 65536 implies (#[trigger] present@[x] <==> exists|j: int|
                #![auto]
                0 <= j < i + 1 && r.samples@[j] == x) by {
                if x == v {
                    assert(r.samples@[i as int] == x);
                } else {
                    assert(present@[x] == oldp[x]);
                    assert forall|j: int| 0 <= j < i + 1 && r.samples@[j] == x implies j
                        < i by {}
                }
            }
        }
        i = i + 1;
    }
    proof {
        assert forall|x: int| 0 <= x < 65536 implies (#[trigger] present@[x]
            <==> r.samples@.contains(x as u32)) by {
            if present@[x] {
                let j = choose|j: int| #![auto] 0 <= j < n && r.samples@[j] == x;
                assert(r.samples@[j] == x as u32);
            }
            if r.samples@.contains(x as u32) {
                let j = choose|j: int| 0 <= j < n && r.samples@[j] == x as u32;
                assert(0 <= j < n && r.samples@[j] == x);
            }
        }
    }
    let mut remap: Vec<u32> = Vec::new();
    let mut c: u32 = 0;
    let mut v: usize = 0;
    while v < 65536
        invariant
            v <= 65536,
            c <= v,
            mn <= 65535,
            present@.len() == 65536,
            forall|x: int| 0 <= x < 65536 ==> (#[trigger] present@[x] <==> r.samples@.contains(
                x as u32,
            )),
            c == distinct_below(r.samples@, v as int),
            remap@.len() == v,
            forall|x: int|
                0 <= x < v ==> #[trigger] remap@[x] == mn + distinct_below(r.samples@, x),
        decreases 65536 - v,
    {
        proof {
            lemma_distinct_below_bound(r.samples@, v as int);
        }
        remap.push(mn + c);
        if present[v] {
            c = c + 1;
        }
        v = v + 1;
    }
    let mut samples: Vec<u32> = Vec::new();
    let mut i2: usize = 0;
    while i2 < n
        invariant
            i2 <= n,
            n == r.samples@.len(),
            mn == seq_min_u32(r.samples@),
            remap@.len() == 65536,
            forall|j: int| 0 <= j < n ==> r.samples@[j] <= 65535,
            forall|x: int|
                0 <= x < 65536 ==> #[trigger] remap@[x] == mn + distinct_below(r.samples@, x),
            samples@.len() == i2,
            forall|j: int|
                0 <= j < i2 ==> #[trigger] samples@[j] == (seq_min_u32(r.samples@)
                    + distinct_below(r.samples@, r.samples@[j] as int)) as u32,
        decreases n - i2,
    {
        let sv = r.samples[i2];
        samples.push(remap[sv as usize]);
        i2 = i2 + 1;
    }
    let out = Raster { width: r.width, height: r.height, samples };
    proof {
        assert(out.samples@ =~= destretch_seq(r.samples@));
    }
    out
}

} // verus!
