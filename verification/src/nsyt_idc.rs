//! Calibrator for the lander's instrument deployment camera.
//!
//! The pipeline shape, in fixed order: conditional decompand, flat-field
//! correction against a required full-frame flat, color weighting, the
//! fixed sensor crop, and normalization into the 16-bit output range.

use vstd::prelude::*;

use crate::calprofile::CalProfile;
use crate::decompanding::LookUpTable;
use crate::decompanding::opt_text;
use crate::decompanding::resolve_lut;
use crate::decompanding::resolved_lut_spec;
use crate::enums::Instrument;
use crate::error::CalError;
use crate::frame::RawFrame;
use crate::m20_ecam::ceiling_spec;
use crate::m20_ecam::channel_milli;
use crate::m20_ecam::lut_fail_spec;
use crate::m20_ecam::opt_val;
use crate::raster::Raster;
use crate::raster::cell;
use crate::raster::lemma_grid_seq;
use crate::stages::decompand_raster;
use crate::stages::decompand_seq;
use crate::stages::flatfield_raster;
use crate::stages::flatfield_seq;
use crate::stages::norm_corr_seq;
use crate::stages::norm_decorr_seq;
use crate::stages::normalize_correlated_raster;
use crate::stages::normalize_decorrelated_raster;
use crate::stages::weight_raster;
use crate::stages::weight_seq;

verus! {

/// Calibrator for the instrument deployment camera.
#[derive(Clone, Copy)]
pub struct NsytIdc {}

/// The fixed sensor crop applied after correction: origin and size.
pub const IDC_CROP_X: usize = 0;

pub const IDC_CROP_Y: usize = 3;

pub const IDC_CROP_WIDTH: usize = 1024;

pub const IDC_CROP_HEIGHT: usize = 1018;

/// The instruments this calibrator claims.
pub open spec fn nsyt_idc_accepts(instrument: Instrument) -> bool {
    instrument == Instrument::NsytIDC
}

/// A sub-rectangle of a row-major plane of row length `w`, laid out row by
/// row.
pub open spec fn crop_seq(s: Seq<u32>, w: int, x0: int, y0: int, cw: int, ch: int) -> Seq<u32> {
    Seq::new((cw * ch) as nat, |i: int| cell(s, w, x0 + i % cw, y0 + i / cw))
}

/// One plane of the deployment-camera pipeline after decompanding:
/// flat-fielded, weighted, cropped to the fixed sensor window, then
/// normalized by the selected strategy.
pub open spec fn nsyt_chain(
    s: Seq<u32>,
    flat: Seq<u32>,
    w: int,
    milli: Option<u32>,
    decorrelate: bool,
    ceiling: u32,
) -> Seq<u32> {
    let flatted = flatfield_seq(s, flat);
    let weighted = match milli {
        Some(m) => weight_seq(flatted, m),
        None => flatted,
    };
    let cropped = crop_seq(
        weighted,
        w,
        IDC_CROP_X as int,
        IDC_CROP_Y as int,
        IDC_CROP_WIDTH as int,
        IDC_CROP_HEIGHT as int,
    );
    if decorrelate {
        norm_decorr_seq(cropped)
    } else {
        norm_corr_seq(cropped, ceiling)
    }
}

/// The weight applied to plane `c`: the channel's scalar for a
/// color-separated frame, nothing for a single-plane frame.
pub open spec fn nsyt_milli(frame: RawFrame, profile: CalProfile, c: int) -> Option<u32> {
    if frame.planes@.len() == 3 {
        Some(channel_milli(profile, c))
    } else {
        None
    }
}

/// The output plane of index `c` of the whole deployment-camera pipeline.
pub open spec fn nsyt_output_plane(
    frame: RawFrame,
    flat: Raster,
    lut_text: Option<Seq<u8>>,
    profile: CalProfile,
    c: int,
) -> Seq<u32> {
    let lut = resolved_lut_spec(lut_text, Instrument::NsytIDC);
    let prepped = if profile.apply_ilt {
        decompand_seq(frame.planes@[c].samples@, lut)
    } else {
        frame.planes@[c].samples@
    };
    nsyt_chain(
        prepped,
        flat.samples@,
        frame.width_spec(),
        nsyt_milli(frame, profile, c),
        profile.decorrelate_color,
        ceiling_spec(lut_text, Instrument::NsytIDC, profile),
    )
}

/// Whether the required flat field is unusable: absent, or not matching
/// the frame's dimensions exactly.
pub open spec fn nsyt_flat_missing(flat: Option<Raster>) -> bool {
    flat is None
}

pub open spec fn nsyt_flat_mismatch(flat: Option<Raster>, frame: RawFrame) -> bool {
    match flat {
        Some(f) => f.width != frame.width_spec() || f.height != frame.height_spec(),
        None => false,
    }
}

/// Whether the frame is too small for the fixed sensor crop.
pub open spec fn nsyt_crop_fail(frame: RawFrame) -> bool {
    frame.width_spec() < IDC_CROP_X + IDC_CROP_WIDTH || frame.height_spec() < IDC_CROP_Y
        + IDC_CROP_HEIGHT
}

/// The complete contract of the deployment-camera pipeline.
pub open spec fn nsyt_process_post(
    frame: RawFrame,
    flat: Option<Raster>,
    lut_text: Option<Seq<u8>>,
    profile: CalProfile,
    r: Result<RawFrame, CalError>,
) -> bool {
    &&& (r is Err <==> lut_fail_spec(lut_text, profile) || nsyt_flat_missing(flat)
        || nsyt_flat_mismatch(flat, frame) || nsyt_crop_fail(frame))
    &&& (lut_fail_spec(lut_text, profile) ==> r == Result::<RawFrame, CalError>::Err(
        CalError::InvalidLookupTable,
    ))
    &&& (!lut_fail_spec(lut_text, profile) && nsyt_flat_missing(flat) ==> r == Result::<
        RawFrame,
        CalError,
    >::Err(CalError::MissingCalibrationResource))
    &&& (!lut_fail_spec(lut_text, profile) && !nsyt_flat_missing(flat) && (nsyt_flat_mismatch(
        flat,
        frame,
    ) || nsyt_crop_fail(frame)) ==> r == Result::<RawFrame, CalError>::Err(
        CalError::DimensionMismatch,
    ))
    &&& (r matches Ok(out) ==> {
        &&& out.wf()
        &&& out.planes@.len() == frame.planes@.len()
        &&& out.width_spec() == IDC_CROP_WIDTH
        &&& out.height_spec() == IDC_CROP_HEIGHT
        &&& out.subframe_rect == frame.subframe_rect
        &&& out.scale_factor == frame.scale_factor
        &&& out.is_16bit()
        &&& (forall|c: int|
            0 <= c < out.planes@.len() ==> (#[trigger] out.planes@[c]).samples@
                == nsyt_output_plane(frame, flat->0, lut_text, profile, c))
    })
}

/// One plane of the pipeline executed.
fn nsyt_plane(
    p: &Raster,
    lut_opt: &Option<LookUpTable>,
    flat: &Raster,
    milli: Option<u32>,
    decorrelate: bool,
    ceiling: u32,
) -> (out: Raster)
    requires
        p.wf(),
        p.samples@.len() > 0,
        flat.wf(),
        flat.width == p.width,
        flat.height == p.height,
        p.width >= IDC_CROP_X + IDC_CROP_WIDTH,
        p.height >= IDC_CROP_Y + IDC_CROP_HEIGHT,
        (*lut_opt) matches Some(l) ==> l.well_formed(),
    ensures
        out.wf(),
        out.width == IDC_CROP_WIDTH,
        out.height == IDC_CROP_HEIGHT,
        out.samples@ == nsyt_chain(
            (match *lut_opt {
                Some(l) => decompand_seq(p.samples@, l.lut@),
                None => p.samples@,
            }),
            flat.samples@,
            p.width as int,
            milli,
            decorrelate,
            ceiling,
        ),
        forall|j: int| 0 <= j < out.samples@.len() ==> out.samples@[j] <= 65535,
{
    let prepped: Raster = match lut_opt {
        Some(l) => decompand_raster(p, l),
        None => p.duplicate(),
    };
    let flatted = flatfield_raster(&prepped, flat);
    let weighted: Raster = match milli {
        Some(m) => weight_raster(&flatted, m),
        None => flatted,
    };
    let cropped = weighted.crop(IDC_CROP_X, IDC_CROP_Y, IDC_CROP_WIDTH, IDC_CROP_HEIGHT);
    proof {
        lemma_grid_seq(
            cropped,
            |x: int, y: int| weighted.at(IDC_CROP_X + x, IDC_CROP_Y + y),
        );
        assert(cropped.samples@ =~= crop_seq(
            weighted.samples@,
            p.width as int,
            IDC_CROP_X as int,
            IDC_CROP_Y as int,
            IDC_CROP_WIDTH as int,
            IDC_CROP_HEIGHT as int,
        ));
    }
    if decorrelate {
        normalize_decorrelated_raster(&cropped)
    } else {
        normalize_correlated_raster(&cropped, ceiling)
    }
}

impl NsytIdc {
    /// Whether this calibrator claims the instrument.
    pub fn accepts_instrument(&self, instrument: Instrument) -> (r: bool)
        ensures
            r == nsyt_idc_accepts(instrument),
    {
        match instrument {
            Instrument::NsytIDC => true,
            _ => false,
        }
    }

    /// Runs the deployment-camera pipeline over an in-memory frame.  The
    /// flat field is required: its absence, or any dimension that does not
    /// match the frame, is fatal.
    pub fn process_frame(
        &self,
        frame: &RawFrame,
        flat: Option<&Raster>,
        lut_text: Option<&Vec<u8>>,
        profile: &CalProfile,
    ) -> (r: Result<RawFrame, CalError>)
        requires
            frame.wf(),
            flat matches Some(f) ==> f.wf(),
            lut_text matches Some(t) ==> t@.len() < usize::MAX,
        ensures
            nsyt_process_post(*frame, opt_val(flat), opt_text(lut_text), *profile, r),
    {
        let w = frame.width();
        let h = frame.height();
        proof {
            assert((frame.planes@[0].width as int) * (frame.planes@[0].height as int)
                >= 1) by (nonlinear_arith)
                requires
                    frame.planes@[0].width >= 1,
                    frame.planes@[0].height >= 1,
            ;
        }

        let mut lut_opt: Option<LookUpTable> = None;
        if profile.apply_ilt {
            match resolve_lut(Instrument::NsytIDC, lut_text) {
                Ok(l) => {
                    lut_opt = Some(l);
                },
                Err(e) => {
                    return Err(e);
                },
            }
        }
        let ghost lutseq = resolved_lut_spec(opt_text(lut_text), Instrument::NsytIDC);
        proof {
            assert(lut_opt matches Some(l) ==> l.lut@ == lutseq && l.well_formed());
            assert(lut_opt is Some <==> profile.apply_ilt);
        }

        let flat_r: &Raster = match flat {
            Some(f) => f,
            None => {
                return Err(CalError::MissingCalibrationResource);
            },
        };
        if flat_r.width != w || flat_r.height != h {
            return Err(CalError::DimensionMismatch);
        }
        if w < IDC_CROP_X + IDC_CROP_WIDTH || h < IDC_CROP_Y + IDC_CROP_HEIGHT {
            return Err(CalError::DimensionMismatch);
        }

        let ceiling: u32 = match &lut_opt {
            Some(l) => l.max(),
            None => 255,
        };
        proof {
            assert(ceiling == ceiling_spec(
                opt_text(lut_text),
                Instrument::NsytIDC,
                *profile,
            ));
        }

        let color = frame.planes.len() == 3;
        let mut planes: Vec<Raster> = Vec::new();
        if color {
            planes.push(
                nsyt_plane(
                    &frame.planes[0],
                    &lut_opt,
                    flat_r,
                    Some(profile.red_scalar),
                    profile.decorrelate_color,
                    ceiling,
                ),
            );
            planes.push(
                nsyt_plane(
                    &frame.planes[1],
                    &lut_opt,
                    flat_r,
                    Some(profile.green_scalar),
                    profile.decorrelate_color,
                    ceiling,
                ),
            );
            planes.push(
                nsyt_plane(
                    &frame.planes[2],
                    &lut_opt,
                    flat_r,
                    Some(profile.blue_scalar),
                    profile.decorrelate_color,
                    ceiling,
                ),
            );
        } else {
            planes.push(
                nsyt_plane(
                    &frame.planes[0],
                    &lut_opt,
                    flat_r,
                    None,
                    profile.decorrelate_color,
                    ceiling,
                ),
            );
        }
        let out = RawFrame {
            planes,
            subframe_rect: frame.subframe_rect,
            scale_factor: frame.scale_factor,
        };
        proof {
            assert forall|c: int|
                0 <= c < out.planes@.len() implies (#[trigger] out.planes@[c]).samples@
                == nsyt_output_plane(*frame, *flat_r, opt_text(lut_text), *profile, c) by {
                if c == 0 {
                    assert(out.planes@[0].samples@ == nsyt_output_plane(
                        *frame,
                        *flat_r,
                        opt_text(lut_text),
                        *profile,
                        0,
                    ));
                } else if c == 1 {
                    assert(out.planes@[1].samples@ == nsyt_output_plane(
                        *frame,
                        *flat_r,
                        opt_text(lut_text),
                        *profile,
                        1,
                    ));
                } else {
                    assert(out.planes@[2].samples@ == nsyt_output_plane(
                        *frame,
                        *flat_r,
                        opt_text(lut_text),
                        *profile,
                        2,
                    ));
                }
            }
            assert forall|i: int, j: int|
                0 <= i < out.planes@.len() && 0 <= j < out.planes@[i].samples@.len()
                    implies #[trigger] out.planes@[i].samples@[j] <= 65535 by {
                if i == 0 {
                    assert(out.planes@[0].samples@[j] <= 65535);
                } else if i == 1 {
                    assert(out.planes@[1].samples@[j] <= 65535);
                } else {
                    assert(out.planes@[2].samples@[j] <= 65535);
                }
            }
        }
        Ok(out)
    }
}

} // verus!
