//! Per-sample transform stages of the calibration pipeline.
//!
//! Every stage is a pure map over a raster's samples; each exec function
//! returns a fresh raster whose contents equal the corresponding sequence
//! spec exactly.

use vstd::prelude::*;

use vstd::arithmetic::div_mod::lemma_div_is_ordered;
use vstd::arithmetic::div_mod::lemma_div_multiples_vanish;
use vstd::arithmetic::mul::lemma_mul_inequality;

use crate::decompanding::LookUpTable;
use crate::raster::Raster;

verus! {

/// The strict binarization threshold: a mask sample above it counts as
/// kept, anything at or below it as excluded.  The bias toward exclusion
/// absorbs interpolation artifacts introduced by resizing.
pub const MASK_THRESHOLD: u32 = 200;

/// One mask sample binarized: 1 exactly when the sample exceeds the
/// threshold, else 0.
pub open spec fn binarize_sample(v: u32) -> u32 {
    if v > MASK_THRESHOLD {
        1u32
    } else {
        0u32
    }
}

/// A mask raster's samples binarized.
pub open spec fn binarize_seq(s: Seq<u32>) -> Seq<u32> {
    Seq::new(s.len(), |i: int| binarize_sample(s[i]))
}

/// One sample decompanded: the table entry indexed by the sample, with
/// out-of-range samples pinned to the last entry.
pub open spec fn decompand_sample(v: u32, lut: Seq<u32>) -> u32 {
    if v <= 255 {
        lut[v as int]
    } else {
        lut[255]
    }
}

/// A plane decompanded through a lookup table.
pub open spec fn decompand_seq(s: Seq<u32>, lut: Seq<u32>) -> Seq<u32> {
    Seq::new(s.len(), |i: int| decompand_sample(s[i], lut))
}

/// One sample under a binarized multiplicative mask: kept where the mask
/// is set, zeroed where it is not.
pub open spec fn mask_sample(v: u32, m: u32) -> u32 {
    if m > 0 {
        v
    } else {
        0u32
    }
}

/// A plane multiplied by a binarized mask.
pub open spec fn mask_seq(s: Seq<u32>, m: Seq<u32>) -> Seq<u32> {
    Seq::new(s.len(), |i: int| mask_sample(s[i], m[i]))
}

/// One sample scaled by a fixed-point weight in thousandths, saturating at
/// the sample type's ceiling.
pub open spec fn weight_sample(v: u32, milli: u32) -> u32 {
    let p = (v as int) * (milli as int) / 1000;
    if p > u32::MAX {
        u32::MAX
    } else {
        p as u32
    }
}

/// A plane scaled by a fixed-point color weight.
pub open spec fn weight_seq(s: Seq<u32>, milli: u32) -> Seq<u32> {
    Seq::new(s.len(), |i: int| weight_sample(s[i], milli))
}

/// The sum of a plane's samples.
pub open spec fn sum_of(s: Seq<u32>) -> int
    decreases s.len(),
{
    if s.len() == 0 {
        0
    } else {
        sum_of(s.drop_last()) + s.last()
    }
}

/// The mean of a plane's samples, rounded down.
pub open spec fn mean_of(s: Seq<u32>) -> int
    recommends
        s.len() > 0,
{
    sum_of(s) / (s.len() as int)
}

/// One sample flat-fielded: divided by the flat sample after scaling by the
/// flat's mean response, saturating at the sample type's ceiling.  A zero
/// flat sample yields zero.
pub open spec fn ff_sample(v: u32, f: u32, mean: int) -> u32 {
    if f == 0 {
        0u32
    } else {
        let p = (v as int) * mean / (f as int);
        if p > u32::MAX {
            u32::MAX
        } else {
            p as u32
        }
    }
}

/// A plane corrected by a flat-field raster.
pub open spec fn flatfield_seq(s: Seq<u32>, f: Seq<u32>) -> Seq<u32> {
    Seq::new(s.len(), |i: int| ff_sample(s[i], f[i], mean_of(f)))
}

/// One sample scaled into the 16-bit output range against a fixed ceiling,
/// clipping at the top; a zero ceiling acts as one.
pub open spec fn norm_corr_sample(v: u32, ceiling: u32) -> u32 {
    let d: int = if ceiling == 0 {
        1
    } else {
        ceiling as int
    };
    let p = (v as int) * 65535 / d;
    if p > 65535 {
        65535u32
    } else {
        p as u32
    }
}

/// A plane normalized uniformly against the pipeline's dynamic-range
/// ceiling (the correlated strategy).
pub open spec fn norm_corr_seq(s: Seq<u32>, ceiling: u32) -> Seq<u32> {
    Seq::new(s.len(), |i: int| norm_corr_sample(s[i], ceiling))
}

/// The least sample of a non-empty plane.
pub open spec fn seq_min_u32(s: Seq<u32>) -> u32
    recommends
        s.len() > 0,
    decreases s.len(),
{
    if s.len() <= 1 {
        s[0]
    } else {
        let m = seq_min_u32(s.drop_last());
        if s.last() < m {
            s.last()
        } else {
            m
        }
    }
}

/// The greatest sample of a non-empty plane.
pub open spec fn seq_max_u32(s: Seq<u32>) -> u32
    recommends
        s.len() > 0,
    decreases s.len(),
{
    if s.len() <= 1 {
        s[0]
    } else {
        let m = seq_max_u32(s.drop_last());
        if s.last() > m {
            s.last()
        } else {
            m
        }
    }
}

/// One sample stretched to the full 16-bit range of its own channel (the
/// decorrelated strategy); a constant channel collapses to zero.
pub open spec fn norm_decorr_sample(v: u32, mn: u32, mx: u32) -> u32 {
    if mx > mn {
        ((v - mn) * 65535 / (mx as int - mn as int)) as u32
    } else {
        0u32
    }
}

/// A plane independently stretched over its own dynamic range.
pub open spec fn norm_decorr_seq(s: Seq<u32>) -> Seq<u32> {
    Seq::new(s.len(), |i: int| norm_decorr_sample(s[i], seq_min_u32(s), seq_max_u32(s)))
}

/// Converts an 8-bit-equivalent mask raster into a strict 0/1
/// multiplicative mask.
pub fn binarize_raster(r: &Raster) -> (out: Raster)
    requires
        r.wf(),
    ensures
        out.wf(),
        out.same_dims(r),
        out.samples@ == binarize_seq(r.samples@),
{
    let n = r.samples.len();
    let mut samples: Vec<u32> = Vec::new();
    let mut i: usize = 0;
    while i < n
        invariant
            i <= n,
            n == r.samples@.len(),
            samples@.len() == i,
            forall|j: int| 0 <= j < i ==> samples@[j] == binarize_sample(r.samples@[j]),
        decreases n - i,
    {
        let v = r.samples[i];
        if v > MASK_THRESHOLD {
            samples.push(1);
        } else {
            samples.push(0);
        }
        i = i + 1;
    }
    let out = Raster { width: r.width, height: r.height, samples };
    proof {
        assert(out.samples@ =~= binarize_seq(r.samples@));
    }
    out
}

/// Decompands a plane sample-wise through a lookup table.
pub fn decompand_raster(r: &Raster, lut: &LookUpTable) -> (out: Raster)
    requires
        r.wf(),
        lut.well_formed(),
    ensures
        out.wf(),
        out.same_dims(r),
        out.samples@ == decompand_seq(r.samples@, lut.lut@),
{
    let n = r.samples.len();
    let mut samples: Vec<u32> = Vec::new();
    let mut i: usize = 0;
    while i < n
        invariant
            i <= n,
            n == r.samples@.len(),
            lut.well_formed(),
            samples@.len() == i,
            forall|j: int| 0 <= j < i ==> samples@[j] == decompand_sample(r.samples@[j], lut.lut@),
        decreases n - i,
    {
        let v = r.samples[i];
        let idx: usize = if v > 255 {
            255
        } else {
            v as usize
        };
        samples.push(lut.lut[idx]);
        i = i + 1;
    }
    let out = Raster { width: r.width, height: r.height, samples };
    proof {
        assert(out.samples@ =~= decompand_seq(r.samples@, lut.lut@));
    }
    out
}

/// Zeroes a plane wherever the binarized mask excludes a pixel.
pub fn apply_mask_raster(r: &Raster, m: &Raster) -> (out: Raster)
    requires
        r.wf(),
        m.wf(),
        r.same_dims(m),
    ensures
        out.wf(),
        out.same_dims(r),
        out.samples@ == mask_seq(r.samples@, m.samples@),
{
    let n = r.samples.len();
    let mut samples: Vec<u32> = Vec::new();
    let mut i: usize = 0;
    while i < n
        invariant
            i <= n,
            n == r.samples@.len(),
            m.samples@.len() == n,
            samples@.len() == i,
            forall|j: int|
                0 <= j < i ==> samples@[j] == mask_sample(r.samples@[j], m.samples@[j]),
        decreases n - i,
    {
        let v = r.samples[i];
        let mv = m.samples[i];
        if mv > 0 {
            samples.push(v);
        } else {
            samples.push(0);
        }
        i = i + 1;
    }
    let out = Raster { width: r.width, height: r.height, samples };
    proof {
        assert(out.samples@ =~= mask_seq(r.samples@, m.samples@));
    }
    out
}

/// Scales a plane by a fixed-point color weight in thousandths.
pub fn weight_raster(r: &Raster, milli: u32) -> (out: Raster)
    requires
        r.wf(),
    ensures
        out.wf(),
        out.same_dims(r),
        out.samples@ == weight_seq(r.samples@, milli),
{
    let n = r.samples.len();
    let mut samples: Vec<u32> = Vec::new();
    let mut i: usize = 0;
    while i < n
        invariant
            i <= n,
            n == r.samples@.len(),
            samples@.len() == i,
            forall|j: int| 0 <= j < i ==> samples@[j] == weight_sample(r.samples@[j], milli),
        decreases n - i,
    {
        let v = r.samples[i];
        proof {
            assert((v as int) * (milli as int) <= 0xFFFF_FFFF * 0xFFFF_FFFF)
                by (nonlinear_arith);
        }
        let p: u64 = (v as u64) * (milli as u64) / 1000;
        if p > 0xFFFF_FFFFu64 {
            samples.push(u32::MAX);
        } else {
            samples.push(p as u32);
        }
        i = i + 1;
    }
    let out = Raster { width: r.width, height: r.height, samples };
    proof {
        assert(out.samples@ =~= weight_seq(r.samples@, milli));
    }
    out
}

/// The sum of a raster's samples.
fn raster_sum(r: &Raster) -> (s: u64)
    requires
        r.wf(),
    ensures
        s == sum_of(r.samples@),
{
    let n = r.samples.len();
    proof {
        lemma_mul_inequality(r.width as int, 65535, r.height as int);
        lemma_mul_inequality(r.height as int, 65535, 65535);
    }
    let mut acc: u64 = 0;
    let mut i: usize = 0;
    while i < n
        invariant
            i <= n,
            n == r.samples@.len(),
            acc == sum_of(r.samples@.take(i as int)),
            acc <= (i as int) * 0xFFFF_FFFFu64,
            n <= 0xFFFF_FFFFu64,
        decreases n - i,
    {
        proof {
            assert(r.samples@.take(i + 1 as int).drop_last() =~= r.samples@.take(i as int));
            assert((i + 1 as int) * 0xFFFF_FFFFu64 == (i as int) * 0xFFFF_FFFFu64
                + 0xFFFF_FFFFu64) by (nonlinear_arith);
            lemma_mul_inequality(i + 1 as int, n as int, 0xFFFF_FFFFu64 as int);
            lemma_mul_inequality(n as int, 0xFFFF_FFFFu64 as int, 0xFFFF_FFFFu64 as int);
        }
        acc = acc + (r.samples[i] as u64);
        i = i + 1;
    }
    proof {
        assert(r.samples@.take(n as int) =~= r.samples@);
    }
    acc
}

proof fn lemma_sum_nonneg(s: Seq<u32>)
    ensures
        sum_of(s) >= 0,
    decreases s.len(),
{
    if s.len() > 0 {
        lemma_sum_nonneg(s.drop_last());
    }
}

/// Corrects a plane's per-pixel sensitivity by the aligned flat field:
/// each sample is scaled by the flat's mean response and divided by the
/// flat sample under it.
pub fn flatfield_raster(r: &Raster, flat: &Raster) -> (out: Raster)
    requires
        r.wf(),
        flat.wf(),
        r.same_dims(flat),
        r.samples@.len() > 0,
    ensures
        out.wf(),
        out.same_dims(r),
        out.samples@ == flatfield_seq(r.samples@, flat.samples@),
{
    let n = r.samples.len();
    let sum = raster_sum(flat);
    proof {
        lemma_sum_nonneg(flat.samples@);
    }
    let mean: u64 = sum / (n as u64);
    assert(mean == mean_of(flat.samples@));
    let mut samples: Vec<u32> = Vec::new();
    let mut i: usize = 0;
    while i < n
        invariant
            i <= n,
            n == r.samples@.len(),
            flat.samples@.len() == n,
            n > 0,
            mean == mean_of(flat.samples@),
            samples@.len() == i,
            forall|j: int|
                0 <= j < i ==> samples@[j] == ff_sample(
                    r.samples@[j],
                    flat.samples@[j],
                    mean_of(flat.samples@),
                ),
        decreases n - i,
    {
        let v = r.samples[i];
        let f = flat.samples[i];
        if f == 0 {
            samples.push(0);
        } else {
            proof {
                assert((v as int) * (mean as int) <= 0xFFFF_FFFFu128 * 0xFFFF_FFFF_FFFF_FFFFu128)
                    by (nonlinear_arith);
            }
            let p: u128 = (v as u128) * (mean as u128) / (f as u128);
            if p > 0xFFFF_FFFFu128 {
                samples.push(u32::MAX);
            } else {
                samples.push(p as u32);
            }
        }
        i = i + 1;
    }
    let out = Raster { width: r.width, height: r.height, samples };
    proof {
        assert(out.samples@ =~= flatfield_seq(r.samples@, flat.samples@));
    }
    out
}

/// Scales a plane uniformly into the 16-bit output range against the
/// pipeline's dynamic-range ceiling (the correlated strategy).
pub fn normalize_correlated_raster(r: &Raster, ceiling: u32) -> (out: Raster)
    requires
        r.wf(),
    ensures
        out.wf(),
        out.same_dims(r),
        out.samples@ == norm_corr_seq(r.samples@, ceiling),
        forall|j: int| 0 <= j < out.samples@.len() ==> out.samples@[j] <= 65535,
{
    let d: u32 = if ceiling == 0 {
        1
    } else {
        ceiling
    };
    let n = r.samples.len();
    let mut samples: Vec<u32> = Vec::new();
    let mut i: usize = 0;
    while i < n
        invariant
            i <= n,
            n == r.samples@.len(),
            d == (if ceiling == 0 {
                1u32
            } else {
                ceiling
            }),
            d >= 1,
            samples@.len() == i,
            forall|j: int| 0 <= j < i ==> samples@[j] == norm_corr_sample(r.samples@[j], ceiling),
            forall|j: int| 0 <= j < i ==> samples@[j] <= 65535,
        decreases n - i,
    {
        let v = r.samples[i];
        let p: u64 = (v as u64) * 65535 / (d as u64);
        if p > 65535 {
            samples.push(65535);
        } else {
            samples.push(p as u32);
        }
        i = i + 1;
    }
    let out = Raster { width: r.width, height: r.height, samples };
    proof {
        assert(out.samples@ =~= norm_corr_seq(r.samples@, ceiling));
    }
    out
}

/// The least sample of a non-empty raster.
pub fn raster_min(r: &Raster) -> (mn: u32)
    requires
        r.wf(),
        r.samples@.len() > 0,
    ensures
        mn == seq_min_u32(r.samples@),
        forall|j: int| 0 <= j < r.samples@.len() ==> mn <= r.samples@[j],
{
    let n = r.samples.len();
    let mut mn = r.samples[0];
    let mut i: usize = 1;
    while i < n
        invariant
            1 <= i <= n,
            n == r.samples@.len(),
            mn == seq_min_u32(r.samples@.take(i as int)),
            forall|j: int| 0 <= j < i ==> mn <= r.samples@[j],
        decreases n - i,
    {
        proof {
            assert(r.samples@.take(i + 1 as int).drop_last() =~= r.samples@.take(i as int));
        }
        let v = r.samples[i];
        if v < mn {
            mn = v;
        }
        i = i + 1;
    }
    proof {
        assert(r.samples@.take(n as int) =~= r.samples@);
    }
    mn
}

/// The greatest sample of a non-empty raster.
pub fn raster_max(r: &Raster) -> (mx: u32)
    requires
        r.wf(),
        r.samples@.len() > 0,
    ensures
        mx == seq_max_u32(r.samples@),
        forall|j: int| 0 <= j < r.samples@.len() ==> mx >= r.samples@[j],
{
    let n = r.samples.len();
    let mut mx = r.samples[0];
    let mut i: usize = 1;
    while i < n
        invariant
            1 <= i <= n,
            n == r.samples@.len(),
            mx == seq_max_u32(r.samples@.take(i as int)),
            forall|j: int| 0 <= j < i ==> mx >= r.samples@[j],
        decreases n - i,
    {
        proof {
            assert(r.samples@.take(i + 1 as int).drop_last() =~= r.samples@.take(i as int));
        }
        let v = r.samples[i];
        if v > mx {
            mx = v;
        }
        i = i + 1;
    }
    proof {
        assert(r.samples@.take(n as int) =~= r.samples@);
    }
    mx
}

/// Stretches a plane independently over its own dynamic range into the
/// 16-bit output range (the decorrelated strategy).
pub fn normalize_decorrelated_raster(r: &Raster) -> (out: Raster)
    requires
        r.wf(),
        r.samples@.len() > 0,
    ensures
        out.wf(),
        out.same_dims(r),
        out.samples@ == norm_decorr_seq(r.samples@),
        forall|j: int| 0 <= j < out.samples@.len() ==> out.samples@[j] <= 65535,
{
    let n = r.samples.len();
    let mn = raster_min(r);
    let mx = raster_max(r);
    let mut samples: Vec<u32> = Vec::new();
    let mut i: usize = 0;
    while i < n
        invariant
            i <= n,
            n == r.samples@.len(),
            n > 0,
            mn == seq_min_u32(r.samples@),
            mx == seq_max_u32(r.samples@),
            forall|j: int| 0 <= j < n ==> mn <= r.samples@[j] && r.samples@[j] <= mx,
            samples@.len() == i,
            forall|j: int| 0 <= j < i ==> samples@[j] == norm_decorr_sample(r.samples@[j], mn, mx),
            forall|j: int| 0 <= j < i ==> samples@[j] <= 65535,
        decreases n - i,
    {
        let v = r.samples[i];
        if mx > mn {
            let diff: u64 = (v - mn) as u64;
            let den: u64 = (mx - mn) as u64;
            let p: u64 = diff * 65535 / den;
            proof {
                lemma_mul_inequality(diff as int, den as int, 65535);
                lemma_div_is_ordered(
                    (diff as int) * 65535,
                    (den as int) * 65535,
                    den as int,
                );
                lemma_div_multiples_vanish(65535, den as int);
                assert((den as int) * 65535 == 65535 * (den as int)) by (nonlinear_arith);
            }
            assert(p <= 65535);
            samples.push(p as u32);
        } else {
            samples.push(0);
        }
        i = i + 1;
    }
    let out = Raster { width: r.width, height: r.height, samples };
    proof {
        assert(out.samples@ =~= norm_decorr_seq(r.samples@));
    }
    out
}

} // verus!
