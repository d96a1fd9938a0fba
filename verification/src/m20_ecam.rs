//! Calibrator for the second-generation rover engineering cameras
//! (navigation and hazard-avoidance, left and right eyes).
//!
//! The pipeline shape, in fixed order: destretch, conditional decompand,
//! conditional debayer, mask multiplication and flat-field correction on
//! the geometrically aligned auxiliary products, color weighting, and
//! normalization into the 16-bit output range.

use vstd::prelude::*;

use crate::align::align_product;
use crate::align::aligned_at;
use crate::align::align_ok;
use crate::calprofile::CalProfile;
use crate::debayer::bayer_blue_at;
use crate::debayer::bayer_green_at;
use crate::debayer::bayer_red_at;
use crate::debayer::debayer_raster;
use crate::decompanding::LookUpTable;
use crate::decompanding::lut_entries;
use crate::decompanding::opt_text;
use crate::decompanding::resolve_lut;
use crate::decompanding::resolved_lut_spec;
use crate::enums::Instrument;
use crate::error::CalError;
use crate::frame::RawFrame;
use crate::frame::SubframeRect;
use crate::raster::Raster;
use crate::raster::cell;
use crate::raster::lemma_grid_seq;
use crate::stages::binarize_raster;
use crate::stages::binarize_seq;
use crate::stages::decompand_raster;
use crate::stages::decompand_seq;
use crate::stages::apply_mask_raster;
use crate::stages::mask_seq;
use crate::stages::flatfield_raster;
use crate::stages::flatfield_seq;
use crate::stages::weight_raster;
use crate::stages::weight_seq;
use crate::stages::normalize_correlated_raster;
use crate::stages::norm_corr_seq;
use crate::stages::normalize_decorrelated_raster;
use crate::stages::norm_decorr_seq;
use crate::destretch::destretch_raster;
use crate::destretch::destretch_seq;
use crate::util::m20_instrument_from_file;
use crate::util::infer_m20_instrument;

verus! {

/// Calibrator for the rover engineering camera family.
#[derive(Clone, Copy)]
pub struct M20EECam {}

/// The instruments this calibrator claims.
pub open spec fn m20_ecam_accepts(instrument: Instrument) -> bool {
    match instrument {
        Instrument::M20FrontHazLeft => true,
        Instrument::M20FrontHazRight => true,
        Instrument::M20NavcamLeft => true,
        Instrument::M20NavcamRight => true,
        Instrument::M20RearHazLeft => true,
        Instrument::M20RearHazRight => true,
        _ => false,
    }
}

/// Whether resolving the lookup table fails: only a configured external
/// spec whose entry count is not 256 does, and only when decompanding is
/// requested at all.
pub open spec fn lut_fail_spec(lut_text: Option<Seq<u8>>, profile: CalProfile) -> bool {
    profile.apply_ilt && match lut_text {
        Some(t) => lut_entries(t).len() != 256,
        None => false,
    }
}

/// The dynamic-range ceiling recorded for normalization: the table's last
/// entry when decompanding ran, else the 8-bit ceiling.
pub open spec fn ceiling_spec(
    lut_text: Option<Seq<u8>>,
    instrument: Instrument,
    profile: CalProfile,
) -> u32 {
    if profile.apply_ilt {
        resolved_lut_spec(lut_text, instrument)[255]
    } else {
        255u32
    }
}

/// An optional raster's sample sequence.
pub open spec fn opt_samples(o: Option<Raster>) -> Option<Seq<u32>> {
    match o {
        Some(r) => Some(r.samples@),
        None => None,
    }
}

/// A single input plane destretched and, when requested, decompanded.
pub open spec fn m20_prepped(s: Seq<u32>, lut: Seq<u32>, apply_ilt: bool) -> Seq<u32> {
    if apply_ilt {
        decompand_seq(destretch_seq(s), lut)
    } else {
        destretch_seq(s)
    }
}

/// The demosaiced red plane of a prepped single-plane frame, laid out row
/// by row.
pub open spec fn bayer_red_seq(s: Seq<u32>, w: int, h: int) -> Seq<u32> {
    Seq::new(
        (w * h) as nat,
        |i: int|
            {
                let x = i % w;
                let y = i / w;
                cell(s, w, x - x % 2, y - y % 2)
            },
    )
}

/// The demosaiced green plane of a prepped single-plane frame.
pub open spec fn bayer_green_seq(s: Seq<u32>, w: int, h: int) -> Seq<u32> {
    Seq::new(
        (w * h) as nat,
        |i: int|
            {
                let x = i % w;
                let y = i / w;
                let ex = x - x % 2;
                let ey = y - y % 2;
                if ex + 1 < w {
                    cell(s, w, ex + 1, ey)
                } else {
                    cell(s, w, ex, ey)
                }
            },
    )
}

/// The demosaiced blue plane of a prepped single-plane frame.
pub open spec fn bayer_blue_seq(s: Seq<u32>, w: int, h: int) -> Seq<u32> {
    Seq::new(
        (w * h) as nat,
        |i: int|
            {
                let x = i % w;
                let y = i / w;
                let ex = x - x % 2;
                let ey = y - y % 2;
                let gx = if ex + 1 < w {
                    ex + 1
                } else {
                    ex
                };
                let by = if ey + 1 < h {
                    ey + 1
                } else {
                    ey
                };
                cell(s, w, gx, by)
            },
    )
}

/// An auxiliary product aligned to the frame's geometry, laid out row by
/// row over the frame's grid.
pub open spec fn aligned_seq(
    product: Raster,
    rect: Option<SubframeRect>,
    scale: u32,
    fw: int,
    fh: int,
) -> Seq<u32> {
    Seq::new(
        (fw * fh) as nat,
        |i: int| aligned_at(product, rect, scale, fw, fh, i % fw, i / fw),
    )
}

/// One color channel carried from the demosaiced plane to the output:
/// masked, flat-fielded, weighted, then normalized by the selected
/// strategy.
pub open spec fn m20_chain(
    s: Seq<u32>,
    bin_mask: Option<Seq<u32>>,
    aligned_flat: Option<Seq<u32>>,
    milli: u32,
    decorrelate: bool,
    ceiling: u32,
) -> Seq<u32> {
    let masked = match bin_mask {
        Some(b) => mask_seq(s, b),
        None => s,
    };
    let flatted = match aligned_flat {
        Some(f) => flatfield_seq(masked, f),
        None => masked,
    };
    let weighted = weight_seq(flatted, milli);
    if decorrelate {
        norm_decorr_seq(weighted)
    } else {
        norm_corr_seq(weighted, ceiling)
    }
}

/// The demosaiced plane of channel `c` (0 red, 1 green, 2 blue) before the
/// correction chain: the prepped input planes, demosaiced when the frame
/// was still Bayer-mosaiced.
pub open spec fn m20_rgb(
    frame: RawFrame,
    lut: Seq<u32>,
    apply_ilt: bool,
    c: int,
) -> Seq<u32> {
    let w = frame.width_spec();
    let h = frame.height_spec();
    if frame.planes@.len() == 1 {
        let d = m20_prepped(frame.planes@[0].samples@, lut, apply_ilt);
        if c == 0 {
            bayer_red_seq(d, w, h)
        } else if c == 1 {
            bayer_green_seq(d, w, h)
        } else {
            bayer_blue_seq(d, w, h)
        }
    } else {
        m20_prepped(frame.planes@[c].samples@, lut, apply_ilt)
    }
}

/// The channel weight of channel `c` in the profile.
pub open spec fn channel_milli(profile: CalProfile, c: int) -> u32 {
    if c == 0 {
        profile.red_scalar
    } else if c == 1 {
        profile.green_scalar
    } else {
        profile.blue_scalar
    }
}

/// The output plane of channel `c` of the whole engineering-camera
/// pipeline.
pub open spec fn m20_output_plane(
    frame: RawFrame,
    flat: Option<Raster>,
    mask: Option<Raster>,
    lut_text: Option<Seq<u8>>,
    profile: CalProfile,
    instrument: Instrument,
    c: int,
) -> Seq<u32> {
    let w = frame.width_spec();
    let h = frame.height_spec();
    let lut = resolved_lut_spec(lut_text, instrument);
    let bm = match mask {
        Some(m) => Some(
            binarize_seq(aligned_seq(m, frame.subframe_rect, frame.scale_factor, w, h)),
        ),
        None => None,
    };
    let af = match flat {
        Some(f) => Some(aligned_seq(f, frame.subframe_rect, frame.scale_factor, w, h)),
        None => None,
    };
    m20_chain(
        m20_rgb(frame, lut, profile.apply_ilt, c),
        bm,
        af,
        channel_milli(profile, c),
        profile.decorrelate_color,
        ceiling_spec(lut_text, instrument, profile),
    )
}

/// Whether aligning an optional auxiliary product against the frame fails.
pub open spec fn m20_align_fail(product: Option<Raster>, frame: RawFrame) -> bool {
    match product {
        Some(p) => !align_ok(
            p,
            frame.subframe_rect,
            frame.scale_factor,
            frame.width_spec(),
            frame.height_spec(),
        ),
        None => false,
    }
}

/// The complete contract of the engineering-camera pipeline, relating the
/// result to the input frame, the auxiliary products, the configured
/// decompanding text and the profile.
pub open spec fn m20_process_post(
    input_file: Seq<char>,
    frame: RawFrame,
    flat: Option<Raster>,
    mask: Option<Raster>,
    lut_text: Option<Seq<u8>>,
    profile: CalProfile,
    r: Result<RawFrame, CalError>,
) -> bool {
    let instrument = m20_instrument_from_file(input_file);
    &&& (r is Err <==> lut_fail_spec(lut_text, profile) || m20_align_fail(flat, frame)
        || m20_align_fail(mask, frame))
    &&& (lut_fail_spec(lut_text, profile) ==> r == Result::<RawFrame, CalError>::Err(
        CalError::InvalidLookupTable,
    ))
    &&& (!lut_fail_spec(lut_text, profile) && (m20_align_fail(flat, frame) || m20_align_fail(
        mask,
        frame,
    )) ==> r == Result::<RawFrame, CalError>::Err(CalError::DimensionMismatch))
    &&& (r matches Ok(out) ==> {
        &&& out.wf()
        &&& out.planes@.len() == 3
        &&& out.width_spec() == frame.width_spec()
        &&& out.height_spec() == frame.height_spec()
        &&& out.subframe_rect == frame.subframe_rect
        &&& out.scale_factor == frame.scale_factor
        &&& out.is_16bit()
        &&& (forall|c: int|
            0 <= c < 3 ==> (#[trigger] out.planes@[c]).samples@ == m20_output_plane(
                frame,
                flat,
                mask,
                lut_text,
                profile,
                instrument,
                c,
            ))
    })
}

/// An optional reference viewed as an optional value.
pub open spec fn opt_val(o: Option<&Raster>) -> Option<Raster> {
    match o {
        Some(p) => Some(*p),
        None => None,
    }
}

/// One color channel of the pipeline executed: mask, flat-field, weight,
/// normalize.
fn chain_plane(
    s: &Raster,
    bin_mask: &Option<Raster>,
    aligned_flat: &Option<Raster>,
    milli: u32,
    decorrelate: bool,
    ceiling: u32,
) -> (out: Raster)
    requires
        s.wf(),
        s.samples@.len() > 0,
        (*bin_mask) matches Some(b) ==> b.wf() && b.width == s.width && b.height == s.height,
        (*aligned_flat) matches Some(f) ==> f.wf() && f.width == s.width && f.height == s.height,
    ensures
        out.wf(),
        out.same_dims(s),
        out.samples@ == m20_chain(
            s.samples@,
            opt_samples(*bin_mask),
            opt_samples(*aligned_flat),
            milli,
            decorrelate,
            ceiling,
        ),
        forall|j: int| 0 <= j < out.samples@.len() ==> out.samples@[j] <= 65535,
{
    let masked: Raster = match bin_mask {
        Some(b) => apply_mask_raster(s, b),
        None => s.duplicate(),
    };
    let flatted: Raster = match aligned_flat {
        Some(f) => flatfield_raster(&masked, f),
        None => masked,
    };
    let weighted = weight_raster(&flatted, milli);
    if decorrelate {
        normalize_decorrelated_raster(&weighted)
    } else {
        normalize_correlated_raster(&weighted, ceiling)
    }
}

impl M20EECam {
    /// Whether this calibrator claims the instrument.
    pub fn accepts_instrument(&self, instrument: Instrument) -> (r: bool)
        ensures
            r == m20_ecam_accepts(instrument),
    {
        match instrument {
            Instrument::M20FrontHazLeft => true,
            Instrument::M20FrontHazRight => true,
            Instrument::M20NavcamLeft => true,
            Instrument::M20NavcamRight => true,
            Instrument::M20RearHazLeft => true,
            Instrument::M20RearHazRight => true,
            _ => false,
        }
    }

    /// Runs the engineering-camera pipeline over an in-memory frame.  The
    /// concrete camera variant is resolved from the input's base name; the
    /// auxiliary products, when configured, are aligned to the frame's
    /// geometry before use, and any mismatch is fatal.
    pub fn process_frame(
        &self,
        input_file: &str,
        frame: &RawFrame,
        flat: Option<&Raster>,
        mask: Option<&Raster>,
        lut_text: Option<&Vec<u8>>,
        profile: &CalProfile,
    ) -> (r: Result<RawFrame, CalError>)
        requires
            frame.wf(),
            frame.is_16bit(),
            flat matches Some(f) ==> f.wf(),
            mask matches Some(m) ==> m.wf(),
            lut_text matches Some(t) ==> t@.len() < usize::MAX,
        ensures
            m20_process_post(
                input_file@,
                *frame,
                opt_val(flat),
                opt_val(mask),
                opt_text(lut_text),
                *profile,
                r,
            ),
    {
        let instrument = infer_m20_instrument(input_file);
        let w = frame.width();
        let h = frame.height();
        proof {
            assert((frame.planes@[0].width as int) * (frame.planes@[0].height as int)
                >= 1) by (nonlinear_arith)
                requires
                    frame.planes@[0].width >= 1,
                    frame.planes@[0].height >= 1,
            ;
        }

        let mut lut_opt: Option<LookUpTable> = None;
        if profile.apply_ilt {
            match resolve_lut(instrument, lut_text) {
                Ok(l) => {
                    lut_opt = Some(l);
                },
                Err(e) => {
                    return Err(e);
                },
            }
        }
        let ghost lutseq = resolved_lut_spec(opt_text(lut_text), instrument);
        proof {
            assert(lut_opt matches Some(l) ==> l.lut@ == lutseq && l.well_formed());
            assert(lut_opt is Some <==> profile.apply_ilt);
        }

        let aligned_flat: Option<Raster> = match flat {
            Some(f) => {
                match align_product(f, frame) {
                    Ok(a) => {
                        proof {
                            lemma_grid_seq(
                                a,
                                |x: int, y: int|
                                    aligned_at(
                                        *f,
                                        frame.subframe_rect,
                                        frame.scale_factor,
                                        w as int,
                                        h as int,
                                        x,
                                        y,
                                    ),
                            );
                            assert(a.samples@ =~= aligned_seq(
                                *f,
                                frame.subframe_rect,
                                frame.scale_factor,
                                w as int,
                                h as int,
                            ));
                        }
                        Some(a)
                    },
                    Err(e) => {
                        return Err(e);
                    },
                }
            },
            None => None,
        };
        let bin_mask: Option<Raster> = match mask {
            Some(m) => {
                match align_product(m, frame) {
                    Ok(a) => {
                        proof {
                            lemma_grid_seq(
                                a,
                                |x: int, y: int|
                                    aligned_at(
                                        *m,
                                        frame.subframe_rect,
                                        frame.scale_factor,
                                        w as int,
                                        h as int,
                                        x,
                                        y,
                                    ),
                            );
                            assert(a.samples@ =~= aligned_seq(
                                *m,
                                frame.subframe_rect,
                                frame.scale_factor,
                                w as int,
                                h as int,
                            ));
                        }
                        Some(binarize_raster(&a))
                    },
                    Err(e) => {
                        return Err(e);
                    },
                }
            },
            None => None,
        };

        let gray = frame.planes.len() == 1;
        let (r0, g0, b0): (Raster, Raster, Raster) = if gray {
            let s0 = destretch_raster(&frame.planes[0]);
            let d0: Raster = match &lut_opt {
                Some(l) => decompand_raster(&s0, l),
                None => s0,
            };
            let ghost dseq = m20_prepped(frame.planes@[0].samples@, lutseq, profile.apply_ilt);
            assert(d0.samples@ == dseq);
            let bands = debayer_raster(&d0);
            proof {
                lemma_grid_seq(bands.0, |x: int, y: int| bayer_red_at(d0, x, y));
                lemma_grid_seq(bands.1, |x: int, y: int| bayer_green_at(d0, x, y));
                lemma_grid_seq(bands.2, |x: int, y: int| bayer_blue_at(d0, x, y));
                assert(bands.0.samples@ =~= bayer_red_seq(dseq, w as int, h as int));
                assert(bands.1.samples@ =~= bayer_green_seq(dseq, w as int, h as int));
                assert(bands.2.samples@ =~= bayer_blue_seq(dseq, w as int, h as int));
            }
            bands
        } else {
            let s0 = destretch_raster(&frame.planes[0]);
            let s1 = destretch_raster(&frame.planes[1]);
            let s2 = destretch_raster(&frame.planes[2]);
            match &lut_opt {
                Some(l) => (
                    decompand_raster(&s0, l),
                    decompand_raster(&s1, l),
                    decompand_raster(&s2, l),
                ),
                None => (s0, s1, s2),
            }
        };
        proof {
            assert(r0.samples@ == m20_rgb(*frame, lutseq, profile.apply_ilt, 0));
            assert(g0.samples@ == m20_rgb(*frame, lutseq, profile.apply_ilt, 1));
            assert(b0.samples@ == m20_rgb(*frame, lutseq, profile.apply_ilt, 2));
        }

        let ceiling: u32 = match &lut_opt {
            Some(l) => l.max(),
            None => 255,
        };
        proof {
            assert(ceiling == ceiling_spec(opt_text(lut_text), instrument, *profile));
        }

        let c0 = chain_plane(
            &r0,
            &bin_mask,
            &aligned_flat,
            profile.red_scalar,
            profile.decorrelate_color,
            ceiling,
        );
        let c1 = chain_plane(
            &g0,
            &bin_mask,
            &aligned_flat,
            profile.green_scalar,
            profile.decorrelate_color,
            ceiling,
        );
        let c2 = chain_plane(
            &b0,
            &bin_mask,
            &aligned_flat,
            profile.blue_scalar,
            profile.decorrelate_color,
            ceiling,
        );
        let mut planes: Vec<Raster> = Vec::new();
        planes.push(c0);
        planes.push(c1);
        planes.push(c2);
        let out = RawFrame {
            planes,
            subframe_rect: frame.subframe_rect,
            scale_factor: frame.scale_factor,
        };
        proof {
            let ghost inst = m20_instrument_from_file(input_file@);
            assert forall|c: int|
                0 <= c < 3 implies (#[trigger] out.planes@[c]).samples@ == m20_output_plane(
                *frame,
                opt_val(flat),
                opt_val(mask),
                opt_text(lut_text),
                *profile,
                inst,
                c,
            ) by {
                if c == 0 {
                    assert(out.planes@[0].samples@ == m20_chain(
                        m20_rgb(*frame, lutseq, profile.apply_ilt, 0),
                        opt_samples(bin_mask),
                        opt_samples(aligned_flat),
                        profile.red_scalar,
                        profile.decorrelate_color,
                        ceiling,
                    ));
                } else if c == 1 {
                    assert(out.planes@[1].samples@ == m20_chain(
                        m20_rgb(*frame, lutseq, profile.apply_ilt, 1),
                        opt_samples(bin_mask),
                        opt_samples(aligned_flat),
                        profile.green_scalar,
                        profile.decorrelate_color,
                        ceiling,
                    ));
                } else {
                    assert(out.planes@[2].samples@ == m20_chain(
                        m20_rgb(*frame, lutseq, profile.apply_ilt, 2),
                        opt_samples(bin_mask),
                        opt_samples(aligned_flat),
                        profile.blue_scalar,
                        profile.decorrelate_color,
                        ceiling,
                    ));
                }
            }
            assert forall|i: int, j: int|
                0 <= i < out.planes@.len() && 0 <= j < out.planes@[i].samples@.len()
                    implies #[trigger] out.planes@[i].samples@[j] <= 65535 by {
                if i == 0 {
                    assert(out.planes@[0].samples@[j] <= 65535);
                } else if i == 1 {
                    assert(out.planes@[1].samples@[j] <= 65535);
                } else {
                    assert(out.planes@[2].samples@[j] <= 65535);
                }
            }
        }
        Ok(out)
    }
}

} // verus!
