//! Geometric alignment of auxiliary correction products.
//!
//! A flat field or mask is loaded at the sensor's native geometry; the
//! aligner crops it to the frame's subframe rectangle (1-indexed in the
//! metadata, converted here to a 0-indexed origin) and, when the frame was
//! returned at reduced resolution, resizes the result to the frame's exact
//! pixel dimensions — in that order.  Any remaining dimension mismatch is a
//! fatal error, never silently ignored.

use vstd::prelude::*;

use vstd::arithmetic::div_mod::lemma_multiply_divide_lt;
use vstd::arithmetic::mul::lemma_mul_strict_inequality;

use crate::error::CalError;
use crate::frame::RawFrame;
use crate::frame::SubframeRect;
use crate::raster::Raster;

verus! {

/// The 0-indexed horizontal origin the product is cropped to.
pub open spec fn crop_origin_x(rect: Option<SubframeRect>) -> int {
    match rect {
        Some(r) => r.x - 1,
        None => 0,
    }
}

/// The 0-indexed vertical origin the product is cropped to.
pub open spec fn crop_origin_y(rect: Option<SubframeRect>) -> int {
    match rect {
        Some(r) => r.y - 1,
        None => 0,
    }
}

/// The product's width after the crop step.
pub open spec fn cropped_width(product: Raster, rect: Option<SubframeRect>) -> int {
    match rect {
        Some(r) => r.width as int,
        None => product.width as int,
    }
}

/// The product's height after the crop step.
pub open spec fn cropped_height(product: Raster, rect: Option<SubframeRect>) -> int {
    match rect {
        Some(r) => r.height as int,
        None => product.height as int,
    }
}

/// Whether the subframe rectangle names a region of the product: a
/// 1-indexed origin inside it and an extent that fits.
pub open spec fn crop_geometry_ok(product: Raster, rect: Option<SubframeRect>) -> bool {
    match rect {
        Some(r) => r.x >= 1 && r.y >= 1 && r.x - 1 + r.width <= product.width && r.y - 1
            + r.height <= product.height,
        None => true,
    }
}

/// Whether alignment of the product against a frame of the given geometry
/// succeeds: the crop region must fit, a resize must have something to
/// sample from, and the result must land exactly on the frame's grid.
pub open spec fn align_ok(
    product: Raster,
    rect: Option<SubframeRect>,
    scale: u32,
    fw: int,
    fh: int,
) -> bool {
    &&& crop_geometry_ok(product, rect)
    &&& (if scale > 1 {
        cropped_width(product, rect) >= 1 && cropped_height(product, rect) >= 1
    } else {
        cropped_width(product, rect) == fw && cropped_height(product, rect) == fh
    })
}

/// The aligned product's sample at `(x, y)`: the crop is applied first,
/// then — only for a reduced-resolution frame — the nearest-neighbour
/// resize onto the frame's grid.
pub open spec fn aligned_at(
    product: Raster,
    rect: Option<SubframeRect>,
    scale: u32,
    fw: int,
    fh: int,
    x: int,
    y: int,
) -> u32 {
    let ox = crop_origin_x(rect);
    let oy = crop_origin_y(rect);
    let cw = cropped_width(product, rect);
    let ch = cropped_height(product, rect);
    if scale > 1 {
        product.at(ox + (x * cw) / fw, oy + (y * ch) / fh)
    } else {
        product.at(ox + x, oy + y)
    }
}

/// Aligns an auxiliary product to a frame's acquisition geometry: crop to
/// the subframe rectangle when one is present, then resize to the frame's
/// dimensions when the scale factor exceeds one.  A region or result that
/// does not match the frame's grid is a dimension-mismatch error.
pub fn align_product(product: &Raster, frame: &RawFrame) -> (r: Result<Raster, CalError>)
    requires
        product.wf(),
        frame.wf(),
    ensures
        r is Ok <==> align_ok(
            *product,
            frame.subframe_rect,
            frame.scale_factor,
            frame.width_spec(),
            frame.height_spec(),
        ),
        r matches Ok(a) ==> a.wf() && a.width == frame.width_spec() && a.height
            == frame.height_spec() && (forall|x: int, y: int|
            0 <= x < a.width && 0 <= y < a.height ==> a.at(x, y) == aligned_at(
                *product,
                frame.subframe_rect,
                frame.scale_factor,
                frame.width_spec(),
                frame.height_spec(),
                x,
                y,
            )),
        r matches Err(e) ==> e == CalError::DimensionMismatch,
{
    let fw = frame.width();
    let fh = frame.height();
    let cropped: Raster = match frame.subframe_rect {
        Some(rect) => {
            if rect.x < 1 || rect.y < 1 {
                return Err(CalError::DimensionMismatch);
            }
            if rect.width > product.width || rect.x - 1 > product.width - rect.width {
                return Err(CalError::DimensionMismatch);
            }
            if rect.height > product.height || rect.y - 1 > product.height - rect.height {
                return Err(CalError::DimensionMismatch);
            }
            product.crop(rect.x - 1, rect.y - 1, rect.width, rect.height)
        },
        None => product.crop(0, 0, product.width, product.height),
    };
    let ghost ox = crop_origin_x(frame.subframe_rect);
    let ghost oy = crop_origin_y(frame.subframe_rect);
    assert(cropped.width == cropped_width(*product, frame.subframe_rect));
    assert(cropped.height == cropped_height(*product, frame.subframe_rect));
    if frame.scale_factor > 1 {
        if cropped.width == 0 || cropped.height == 0 {
            return Err(CalError::DimensionMismatch);
        }
        let resized = cropped.resize_nn(fw, fh);
        proof {
            assert forall|x: int, y: int| 0 <= x < resized.width && 0 <= y < resized.height
                implies resized.at(x, y) == aligned_at(
                *product,
                frame.subframe_rect,
                frame.scale_factor,
                frame.width_spec(),
                frame.height_spec(),
                x,
                y,
            ) by {
                lemma_mul_strict_inequality(x, fw as int, cropped.width as int);
                assert(x * (cropped.width as int) < (fw as int) * (cropped.width as int));
                assert((fw as int) * (cropped.width as int) == (cropped.width as int) * (
                fw as int)) by (nonlinear_arith);
                lemma_multiply_divide_lt(x * (cropped.width as int), fw as int,
                    cropped.width as int);
                lemma_mul_strict_inequality(y, fh as int, cropped.height as int);
                assert(y * (cropped.height as int) < (fh as int) * (cropped.height as int));
                assert((fh as int) * (cropped.height as int) == (cropped.height as int) * (
                fh as int)) by (nonlinear_arith);
                lemma_multiply_divide_lt(y * (cropped.height as int), fh as int,
                    cropped.height as int);
                assert(resized.at(x, y) == cropped.at(
                    (x * cropped.width) / (fw as int),
                    (y * cropped.height) / (fh as int),
                ));
            }
        }
        Ok(resized)
    } else {
        if cropped.width != fw || cropped.height != fh {
            return Err(CalError::DimensionMismatch);
        }
        Ok(cropped)
    }
}

/// Aligning against a frame with no subframe rectangle and unit scale
/// factor is the identity: it succeeds exactly when the product already
/// has the frame's dimensions, and changes no sample.
pub proof fn lemma_align_noop(product: Raster, frame: RawFrame)
    requires
        frame.subframe_rect is None,
        frame.scale_factor == 1,
    ensures
        align_ok(
            product,
            frame.subframe_rect,
            frame.scale_factor,
            frame.width_spec(),
            frame.height_spec(),
        ) <==> (product.width == frame.width_spec() && product.height == frame.height_spec()),
        forall|x: int, y: int|
            aligned_at(
                product,
                frame.subframe_rect,
                frame.scale_factor,
                frame.width_spec(),
                frame.height_spec(),
                x,
                y,
            ) == product.at(x, y),
{
}

/// With both a subframe rectangle and a scale factor above one, the crop
/// always precedes the resize: every aligned sample is read from the
/// cropped region at nearest-neighbour coordinates, and the result carries
/// the frame's exact dimensions.
pub proof fn lemma_align_crop_before_resize(
    product: Raster,
    rect: SubframeRect,
    scale: u32,
    fw: int,
    fh: int,
)
    requires
        scale > 1,
    ensures
        forall|x: int, y: int|
            aligned_at(product, Some(rect), scale, fw, fh, x, y) == product.at(
                (rect.x - 1) + (x * (rect.width as int)) / fw,
                (rect.y - 1) + (y * (rect.height as int)) / fh,
            ),
{
}

} // verus!
