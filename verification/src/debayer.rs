//! Integer demosaic of a Bayer-mosaiced plane.
//!
//! The mosaic is taken as the RGGB pattern: each 2-by-2 cell holds a red
//! sample at its even/even corner, green beside it and blue diagonally.
//! Every output pixel takes its channel's sample from its own cell (the
//! nearest sample site), with cells clipped at the right and bottom edges.

use vstd::prelude::*;

use crate::raster::Raster;
use crate::raster::cell;

verus! {

/// The red sample of the cell covering `(x, y)`.
pub open spec fn bayer_red_at(p: Raster, x: int, y: int) -> u32 {
    p.at(x - x % 2, y - y % 2)
}

/// The first green sample of the cell covering `(x, y)`.
pub open spec fn bayer_green_at(p: Raster, x: int, y: int) -> u32 {
    let ex = x - x % 2;
    let ey = y - y % 2;
    if ex + 1 < p.width {
        p.at(ex + 1, ey)
    } else {
        p.at(ex, ey)
    }
}

/// The blue sample of the cell covering `(x, y)`.
pub open spec fn bayer_blue_at(p: Raster, x: int, y: int) -> u32 {
    let ex = x - x % 2;
    let ey = y - y % 2;
    let gx = if ex + 1 < p.width {
        ex + 1
    } else {
        ex
    };
    let by = if ey + 1 < p.height {
        ey + 1
    } else {
        ey
    };
    p.at(gx, by)
}

/// Demosaics a single Bayer-mosaiced plane into red, green and blue planes
/// of the same dimensions.
pub fn debayer_raster(p: &Raster) -> (out: (Raster, Raster, Raster))
    requires
        p.wf(),
    ensures
        out.0.wf() && out.0.same_dims(p),
        out.1.wf() && out.1.same_dims(p),
        out.2.wf() && out.2.same_dims(p),
        forall|x: int, y: int|
            0 <= x < p.width && 0 <= y < p.height ==> out.0.at(x, y) == bayer_red_at(*p, x, y),
        forall|x: int, y: int|
            0 <= x < p.width && 0 <= y < p.height ==> out.1.at(x, y) == bayer_green_at(*p, x, y),
        forall|x: int, y: int|
            0 <= x < p.width && 0 <= y < p.height ==> out.2.at(x, y) == bayer_blue_at(*p, x, y),
{
    let w = p.width;
    let h = p.height;
    let mut reds: Vec<u32> = Vec::new();
    let mut greens: Vec<u32> = Vec::new();
    let mut blues: Vec<u32> = Vec::new();
    let mut y: usize = 0;
    while y < h
        invariant
            p.wf(),
            w == p.width,
            h == p.height,
            y <= h,
            reds@.len() == y * w,
            greens@.len() == y * w,
            blues@.len() == y * w,
            forall|x2: int, y2: int|
                0 <= x2 < w && 0 <= y2 < y ==> #[trigger] cell(reds@, w as int, x2, y2)
                    == bayer_red_at(*p, x2, y2),
            forall|x2: int, y2: int|
                0 <= x2 < w && 0 <= y2 < y ==> #[trigger] cell(greens@, w as int, x2, y2)
                    == bayer_green_at(*p, x2, y2),
            forall|x2: int, y2: int|
                0 <= x2 < w && 0 <= y2 < y ==> #[trigger] cell(blues@, w as int, x2, y2)
                    == bayer_blue_at(*p, x2, y2),
        decreases h - y,
    {
        let ey = y - y % 2;
        let by = if ey + 1 < h {
            ey + 1
        } else {
            ey
        };
        let mut x: usize = 0;
        while x < w
            invariant
                p.wf(),
                w == p.width,
                h == p.height,
                y < h,
                ey == y - y % 2,
                by == (if y - y % 2 + 1 < h {
                    y - y % 2 + 1
                } else {
                    y - y % 2
                }),
                x <= w,
                reds@.len() == y * w + x,
                greens@.len() == y * w + x,
                blues@.len() == y * w + x,
                forall|x2: int, y2: int|
                    0 <= x2 < w && 0 <= y2 < y ==> #[trigger] cell(reds@, w as int, x2, y2)
                        == bayer_red_at(*p, x2, y2),
                forall|x2: int, y2: int|
                    0 <= x2 < w && 0 <= y2 < y ==> #[trigger] cell(greens@, w as int, x2, y2)
                        == bayer_green_at(*p, x2, y2),
                forall|x2: int, y2: int|
                    0 <= x2 < w && 0 <= y2 < y ==> #[trigger] cell(blues@, w as int, x2, y2)
                        == bayer_blue_at(*p, x2, y2),
                forall|x2: int|
                    0 <= x2 < x ==> #[trigger] cell(reds@, w as int, x2, y as int)
                        == bayer_red_at(*p, x2, y as int),
                forall|x2: int|
                    0 <= x2 < x ==> #[trigger] cell(greens@, w as int, x2, y as int)
                        == bayer_green_at(*p, x2, y as int),
                forall|x2: int|
                    0 <= x2 < x ==> #[trigger] cell(blues@, w as int, x2, y as int)
                        == bayer_blue_at(*p, x2, y as int),
            decreases w - x,
        {
            let ex = x - x % 2;
            let gx = if ex + 1 < w {
                ex + 1
            } else {
                ex
            };
            let rv = p.get(ex, ey);
            let gv = p.get(gx, ey);
            let bv = p.get(gx, by);
            let ghost oldr = reds@;
            let ghost oldg = greens@;
            let ghost oldb = blues@;
            reds.push(rv);
            greens.push(gv);
            blues.push(bv);
            proof {
                lemma_band_extend(oldr, reds@, w as int, x as int, y as int);
                lemma_band_extend(oldg, greens@, w as int, x as int, y as int);
                lemma_band_extend(oldb, blues@, w as int, x as int, y as int);
            }
            x = x + 1;
        }
        y = y + 1;
        proof {
            assert(y * w == (y - 1) * w + w) by (nonlinear_arith);
        }
    }
    proof {
        vstd::arithmetic::mul::lemma_mul_inequality(h as int, 65535, w as int);
        vstd::arithmetic::mul::lemma_mul_inequality(65535, 65535, 65535);
        assert(h * w == w * h) by (nonlinear_arith);
    }
    let red = Raster { width: w, height: h, samples: reds };
    let green = Raster { width: w, height: h, samples: greens };
    let blue = Raster { width: w, height: h, samples: blues };
    proof {
        assert forall|x: int, y: int| 0 <= x < w && 0 <= y < h implies red.at(x, y)
            == bayer_red_at(*p, x, y) && green.at(x, y) == bayer_green_at(*p, x, y) && blue.at(
            x,
            y,
        ) == bayer_blue_at(*p, x, y) by {
            assert(cell(red.samples@, w as int, x, y) == bayer_red_at(*p, x, y));
            assert(cell(green.samples@, w as int, x, y) == bayer_green_at(*p, x, y));
            assert(cell(blue.samples@, w as int, x, y) == bayer_blue_at(*p, x, y));
        }
    }
    (red, green, blue)
}

/// Appending one sample at `(x, y)` to a row-major band keeps every cell
/// already written and fills the new one.
proof fn lemma_band_extend(olds: Seq<u32>, news: Seq<u32>, w: int, x: int, y: int)
    requires
        0 <= x < w,
        0 <= y,
        olds.len() == y * w + x,
        news == olds.push(news.last()),
        news.len() == olds.len() + 1,
    ensures
        forall|x2: int, y2: int|
            0 <= x2 < w && 0 <= y2 < y ==> #[trigger] cell(news, w, x2, y2) == cell(
                olds,
                w,
                x2,
                y2,
            ),
        forall|x2: int|
            0 <= x2 < x ==> #[trigger] cell(news, w, x2, y) == cell(olds, w, x2, y),
        cell(news, w, x, y) == news.last(),
{
    assert forall|x2: int, y2: int| 0 <= x2 < w && 0 <= y2 < y implies #[trigger] cell(
        news,
        w,
        x2,
        y2,
    ) == cell(olds, w, x2, y2) by {
        vstd::arithmetic::mul::lemma_mul_inequality(y2 + 1, y, w);
        assert((y2 + 1) * w == y2 * w + w) by (nonlinear_arith);
    }
}

} // verus!
