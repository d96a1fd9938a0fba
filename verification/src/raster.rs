//! The integer raster the pipeline operates on: a rectangular grid of
//! samples stored row by row.
//!
//! Sample values are plain unsigned integers (raw data numbers and the
//! values derived from them); side lengths are bounded so that every index
//! and sum computation stays within machine integers.

use vstd::prelude::*;

use vstd::arithmetic::div_mod::lemma_div_pos_is_pos;
use vstd::arithmetic::div_mod::lemma_fundamental_div_mod;
use vstd::arithmetic::div_mod::lemma_mod_bound;
use vstd::arithmetic::div_mod::lemma_multiply_divide_lt;
use vstd::arithmetic::mul::lemma_mul_inequality;
use vstd::arithmetic::mul::lemma_mul_strict_inequality;

use crate::error::CalError;

verus! {

/// The largest accepted side length of a raster.
pub const MAX_DIM: usize = 65535;

/// A position inside a raster's bounds maps to a row-major index inside the
/// sample vector.
pub proof fn lemma_row_index(x: int, y: int, w: int, h: int)
    requires
        0 <= x < w,
        0 <= y < h,
    ensures
        0 <= y * w + x < w * h,
{
    lemma_mul_inequality(y, h - 1, w);
    assert((h - 1) * w == h * w - w) by (nonlinear_arith);
}

/// The sample of a row-major sequence of row length `w` at column `x` of
/// row `y`.
pub open spec fn cell(s: Seq<u32>, w: int, x: int, y: int) -> u32 {
    s[y * w + x]
}

/// A raster whose sample at every position equals a pointwise formula has,
/// as its row-major sample sequence, exactly that formula laid out row by
/// row.
pub proof fn lemma_grid_seq(r: Raster, f: spec_fn(int, int) -> u32)
    requires
        r.wf(),
        forall|x: int, y: int| 0 <= x < r.width && 0 <= y < r.height ==> r.at(x, y) == f(x, y),
    ensures
        r.samples@ =~= Seq::new(
            (r.width * r.height) as nat,
            |i: int| f(i % (r.width as int), i / (r.width as int)),
        ),
{
    let w = r.width as int;
    let h = r.height as int;
    assert forall|i: int| 0 <= i < r.samples@.len() implies r.samples@[i] == f(i % w, i / w) by {
        lemma_fundamental_div_mod(i, w);
        lemma_mod_bound(i, w);
        lemma_multiply_divide_lt(i, w, h);
        lemma_div_pos_is_pos(i, w);
        let x = i % w;
        let y = i / w;
        assert(i == y * w + x) by (nonlinear_arith)
            requires
                i == w * y + x,
        ;
        assert(r.at(x, y) == r.samples@[i]);
    }
}

/// A rectangular grid of integer samples, stored row by row.
#[derive(Debug)]
pub struct Raster {
    pub width: usize,
    pub height: usize,
    pub samples: Vec<u32>,
}

impl Raster {
    /// The structural invariant: bounded sides, and exactly one sample per
    /// grid cell.
    pub open spec fn wf(&self) -> bool {
        &&& self.width <= MAX_DIM
        &&& self.height <= MAX_DIM
        &&& self.samples@.len() == self.width * self.height
    }

    /// The sample at column `x` of row `y`.
    pub open spec fn at(&self, x: int, y: int) -> u32 {
        self.samples@[y * self.width + x]
    }

    /// Two rasters share their grid dimensions.
    pub open spec fn same_dims(&self, other: &Raster) -> bool {
        self.width == other.width && self.height == other.height
    }

    /// A raster of the given dimensions with every sample set to `value`.
    pub fn new_filled(width: usize, height: usize, value: u32) -> (r: Raster)
        requires
            width <= MAX_DIM,
            height <= MAX_DIM,
        ensures
            r.wf(),
            r.width == width,
            r.height == height,
            forall|i: int| 0 <= i < r.samples@.len() ==> r.samples@[i] == value,
    {
        proof {
            lemma_mul_inequality(width as int, MAX_DIM as int, height as int);
            lemma_mul_inequality(MAX_DIM as int, MAX_DIM as int, MAX_DIM as int);
        }
        let total: usize = width * height;
        let mut samples: Vec<u32> = Vec::new();
        let mut i: usize = 0;
        while i < total
            invariant
                i <= total,
                samples@.len() == i,
                forall|j: int| 0 <= j < i ==> samples@[j] == value,
            decreases total - i,
        {
            samples.push(value);
            i = i + 1;
        }
        Raster { width, height, samples }
    }

    /// A raster assembled from a row-major sample vector; the sample count
    /// must match the dimensions exactly.
    pub fn from_vec(width: usize, height: usize, samples: Vec<u32>) -> (r: Result<
        Raster,
        CalError,
    >)
        ensures
            r is Ok <==> (width <= MAX_DIM && height <= MAX_DIM && samples@.len() == width
                * height),
            r matches Ok(t) ==> t.wf() && t.width == width && t.height == height && t.samples@
                == samples@,
            r matches Err(e) ==> e == CalError::DimensionMismatch,
    {
        if width > MAX_DIM || height > MAX_DIM {
            return Err(CalError::DimensionMismatch);
        }
        proof {
            lemma_mul_inequality(width as int, MAX_DIM as int, height as int);
            lemma_mul_inequality(MAX_DIM as int, MAX_DIM as int, MAX_DIM as int);
        }
        let total: usize = width * height;
        if samples.len() != total {
            return Err(CalError::DimensionMismatch);
        }
        Ok(Raster { width, height, samples })
    }

    /// An owned copy of the raster.
    pub fn duplicate(&self) -> (r: Raster)
        requires
            self.wf(),
        ensures
            r.wf(),
            r.same_dims(self),
            r.samples@ == self.samples@,
    {
        let n = self.samples.len();
        let mut samples: Vec<u32> = Vec::new();
        let mut i: usize = 0;
        while i < n
            invariant
                i <= n,
                n == self.samples@.len(),
                samples@.len() == i,
                forall|j: int| 0 <= j < i ==> samples@[j] == self.samples@[j],
            decreases n - i,
        {
            samples.push(self.samples[i]);
            i = i + 1;
        }
        let r = Raster { width: self.width, height: self.height, samples };
        proof {
            assert(r.samples@ =~= self.samples@);
        }
        r
    }

    /// The sample at column `x` of row `y`.
    pub fn get(&self, x: usize, y: usize) -> (r: u32)
        requires
            self.wf(),
            x < self.width,
            y < self.height,
        ensures
            r == self.at(x as int, y as int),
    {
        proof {
            lemma_row_index(x as int, y as int, self.width as int, self.height as int);
            lemma_mul_inequality(self.width as int, MAX_DIM as int, self.height as int);
            lemma_mul_inequality(self.height as int, MAX_DIM as int, MAX_DIM as int);
        }
        self.samples[y * self.width + x]
    }

    /// The sub-raster of size `w` by `h` whose origin lies at `(x, y)`.
    pub fn crop(&self, x: usize, y: usize, w: usize, h: usize) -> (r: Raster)
        requires
            self.wf(),
            x + w <= self.width,
            y + h <= self.height,
        ensures
            r.wf(),
            r.width == w,
            r.height == h,
            forall|xx: int, yy: int|
                0 <= xx < w && 0 <= yy < h ==> r.at(xx, yy) == self.at(x + xx, y + yy),
    {
        let mut samples: Vec<u32> = Vec::new();
        let mut yy: usize = 0;
        while yy < h
            invariant
                self.wf(),
                x + w <= self.width,
                y + h <= self.height,
                yy <= h,
                samples@.len() == yy * w,
                forall|xx2: int, yy2: int|
                    0 <= xx2 < w && 0 <= yy2 < yy ==> #[trigger] cell(samples@, w as int, xx2, yy2)
                        == self.at(x + xx2, y + yy2),
            decreases h - yy,
        {
            let mut xx: usize = 0;
            while xx < w
                invariant
                    self.wf(),
                    x + w <= self.width,
                    y + h <= self.height,
                    yy < h,
                    xx <= w,
                    samples@.len() == yy * w + xx,
                    forall|xx2: int, yy2: int|
                        0 <= xx2 < w && 0 <= yy2 < yy ==> #[trigger] cell(
                            samples@,
                            w as int,
                            xx2,
                            yy2,
                        ) == self.at(x + xx2, y + yy2),
                    forall|xx2: int|
                        0 <= xx2 < xx ==> #[trigger] cell(samples@, w as int, xx2, yy as int)
                            == self.at(x + xx2, y + yy),
                decreases w - xx,
            {
                let v = self.get(x + xx, y + yy);
                let ghost olds = samples@;
                samples.push(v);
                proof {
                    assert forall|xx2: int, yy2: int|
                        0 <= xx2 < w && 0 <= yy2 < yy implies #[trigger] cell(
                        samples@,
                        w as int,
                        xx2,
                        yy2,
                    ) == self.at(x + xx2, y + yy2) by {
                        lemma_mul_inequality(yy2 + 1, yy as int, w as int);
                        assert((yy2 + 1) * (w as int) == yy2 * (w as int) + w)
                            by (nonlinear_arith);
                        assert(cell(olds, w as int, xx2, yy2) == self.at(x + xx2, y + yy2));
                    }
                    assert forall|xx2: int| 0 <= xx2 < xx + 1 implies #[trigger] cell(
                        samples@,
                        w as int,
                        xx2,
                        yy as int,
                    ) == self.at(x + xx2, y + yy) by {
                        if xx2 < xx {
                            assert(cell(olds, w as int, xx2, yy as int) == self.at(
                                x + xx2,
                                y + yy,
                            ));
                        } else {
                            assert(yy * w + xx2 == olds.len());
                        }
                    }
                }
                xx = xx + 1;
            }
            yy = yy + 1;
            proof {
                assert(yy * w == (yy - 1) * w + w) by (nonlinear_arith);
            }
        }
        proof {
            lemma_mul_inequality(h as int, MAX_DIM as int, w as int);
            lemma_mul_inequality(MAX_DIM as int, MAX_DIM as int, MAX_DIM as int);
            assert(h * w == w * h) by (nonlinear_arith);
        }
        let result = Raster { width: w, height: h, samples };
        proof {
            assert forall|xx: int, yy: int| 0 <= xx < w && 0 <= yy < h implies result.at(xx, yy)
                == self.at(x + xx, y + yy) by {
                assert(cell(result.samples@, w as int, xx, yy) == self.at(x + xx, y + yy));
            }
        }
        result
    }

    /// Nearest-neighbour resampling to the given dimensions.  Each output
    /// cell takes the sample whose coordinates scale back to it.
    pub fn resize_nn(&self, nw: usize, nh: usize) -> (r: Raster)
        requires
            self.wf(),
            self.width >= 1,
            self.height >= 1,
            nw <= MAX_DIM,
            nh <= MAX_DIM,
        ensures
            r.wf(),
            r.width == nw,
            r.height == nh,
            forall|xx: int, yy: int|
                0 <= xx < nw && 0 <= yy < nh ==> r.at(xx, yy) == self.at(
                    (xx * self.width) / (nw as int),
                    (yy * self.height) / (nh as int),
                ),
    {
        let mut samples: Vec<u32> = Vec::new();
        let mut yy: usize = 0;
        while yy < nh
            invariant
                self.wf(),
                self.width >= 1,
                self.height >= 1,
                nw <= MAX_DIM,
                nh <= MAX_DIM,
                yy <= nh,
                samples@.len() == yy * nw,
                forall|xx2: int, yy2: int|
                    0 <= xx2 < nw && 0 <= yy2 < yy ==> #[trigger] cell(
                        samples@,
                        nw as int,
                        xx2,
                        yy2,
                    ) == self.at((xx2 * self.width) / (nw as int), (yy2 * self.height) / (nh as int)),
            decreases nh - yy,
        {
            let mut xx: usize = 0;
            proof {
                lemma_mul_strict_inequality(yy as int, nh as int, self.height as int);
                assert((yy as int) * (self.height as int) < (nh as int) * (self.height as int));
                assert(nh as int * self.height as int == self.height as int * nh as int)
                    by (nonlinear_arith);
                lemma_multiply_divide_lt(
                    yy as int * self.height as int,
                    nh as int,
                    self.height as int,
                );
                lemma_mul_inequality(yy as int, MAX_DIM as int, self.height as int);
                lemma_mul_inequality(MAX_DIM as int, MAX_DIM as int, MAX_DIM as int);
            }
            let sy: usize = (yy * self.height) / nh;
            while xx < nw
                invariant
                    self.wf(),
                    self.width >= 1,
                    self.height >= 1,
                    nw <= MAX_DIM,
                    nh <= MAX_DIM,
                    yy < nh,
                    xx <= nw,
                    sy == (yy * self.height) / (nh as int),
                    sy < self.height,
                    samples@.len() == yy * nw + xx,
                    forall|xx2: int, yy2: int|
                        0 <= xx2 < nw && 0 <= yy2 < yy ==> #[trigger] cell(
                            samples@,
                            nw as int,
                            xx2,
                            yy2,
                        ) == self.at(
                            (xx2 * self.width) / (nw as int),
                            (yy2 * self.height) / (nh as int),
                        ),
                    forall|xx2: int|
                        0 <= xx2 < xx ==> #[trigger] cell(samples@, nw as int, xx2, yy as int)
                            == self.at(
                            (xx2 * self.width) / (nw as int),
                            (yy * self.height) / (nh as int),
                        ),
                decreases nw - xx,
            {
                proof {
                    lemma_mul_strict_inequality(xx as int, nw as int, self.width as int);
                    assert((xx as int) * (self.width as int) < (nw as int) * (self.width as int));
                    assert(nw as int * self.width as int == self.width as int * nw as int)
                        by (nonlinear_arith);
                    lemma_multiply_divide_lt(
                        xx as int * self.width as int,
                        nw as int,
                        self.width as int,
                    );
                    lemma_mul_inequality(xx as int, MAX_DIM as int, self.width as int);
                    lemma_mul_inequality(MAX_DIM as int, MAX_DIM as int, MAX_DIM as int);
                }
                let sx: usize = (xx * self.width) / nw;
                let v = self.get(sx, sy);
                let ghost olds = samples@;
                samples.push(v);
                proof {
                    assert forall|xx2: int, yy2: int|
                        0 <= xx2 < nw && 0 <= yy2 < yy implies #[trigger] cell(
                        samples@,
                        nw as int,
                        xx2,
                        yy2,
                    ) == self.at(
                        (xx2 * self.width) / (nw as int),
                        (yy2 * self.height) / (nh as int),
                    ) by {
                        lemma_mul_inequality(yy2 + 1, yy as int, nw as int);
                        assert((yy2 + 1) * (nw as int) == yy2 * (nw as int) + nw)
                            by (nonlinear_arith);
                        assert(cell(olds, nw as int, xx2, yy2) == self.at(
                            (xx2 * self.width) / (nw as int),
                            (yy2 * self.height) / (nh as int),
                        ));
                    }
                    assert forall|xx2: int| 0 <= xx2 < xx + 1 implies #[trigger] cell(
                        samples@,
                        nw as int,
                        xx2,
                        yy as int,
                    ) == self.at(
                        (xx2 * self.width) / (nw as int),
                        (yy * self.height) / (nh as int),
                    ) by {
                        if xx2 < xx {
                            assert(cell(olds, nw as int, xx2, yy as int) == self.at(
                                (xx2 * self.width) / (nw as int),
                                (yy * self.height) / (nh as int),
                            ));
                        } else {
                            assert(yy * nw + xx2 == olds.len());
                        }
                    }
                }
                xx = xx + 1;
            }
            yy = yy + 1;
            proof {
                assert(yy * nw == (yy - 1) * nw + nw) by (nonlinear_arith);
            }
        }
        proof {
            lemma_mul_inequality(nh as int, MAX_DIM as int, nw as int);
            lemma_mul_inequality(MAX_DIM as int, MAX_DIM as int, MAX_DIM as int);
            assert(nh * nw == nw * nh) by (nonlinear_arith);
        }
        let result = Raster { width: nw, height: nh, samples };
        proof {
            assert forall|xx: int, yy: int| 0 <= xx < nw && 0 <= yy < nh implies result.at(xx, yy)
                == self.at(
                (xx * self.width) / (nw as int),
                (yy * self.height) / (nh as int),
            ) by {
                assert(cell(result.samples@, nw as int, xx, yy) == self.at(
                    (xx * self.width) / (nw as int),
                    (yy * self.height) / (nh as int),
                ));
            }
        }
        result
    }
}

} // verus!
