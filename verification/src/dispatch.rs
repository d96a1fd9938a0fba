//! Instrument dispatch: selecting the unique calibrator that claims a
//! detected instrument.
//!
//! The registered calibrators form a fixed, closed set whose
//! accepted-instrument sets are pairwise disjoint; an instrument claimed by
//! none fails with an unsupported-instrument error and triggers no work.

use vstd::prelude::*;

use crate::calprofile::CalProfile;
use crate::decompanding::opt_text;
use crate::enums::Instrument;
use crate::error::CalError;
use crate::frame::RawFrame;
use crate::m20_ecam::M20EECam;
use crate::m20_ecam::m20_ecam_accepts;
use crate::m20_ecam::m20_process_post;
use crate::m20_ecam::opt_val;
use crate::nsyt_idc::NsytIdc;
use crate::nsyt_idc::nsyt_idc_accepts;
use crate::nsyt_idc::nsyt_process_post;
use crate::raster::Raster;

verus! {

/// No instrument is claimed by two calibrators: the dispatch is
/// unambiguous over the whole closed instrument set.
pub proof fn lemma_acceptance_disjoint(instrument: Instrument)
    ensures
        !(m20_ecam_accepts(instrument) && nsyt_idc_accepts(instrument)),
{
}

/// Invokes the unique calibrator accepting the detected instrument on an
/// in-memory frame.  An instrument claimed by no calibrator yields the
/// unsupported-instrument error and touches nothing.
pub fn dispatch_frame(
    input_file: &str,
    instrument: Instrument,
    frame: &RawFrame,
    flat: Option<&Raster>,
    mask: Option<&Raster>,
    lut_text: Option<&Vec<u8>>,
    profile: &CalProfile,
) -> (r: Result<RawFrame, CalError>)
    requires
        frame.wf(),
        frame.is_16bit(),
        flat matches Some(f) ==> f.wf(),
        mask matches Some(m) ==> m.wf(),
        lut_text matches Some(t) ==> t@.len() < usize::MAX,
    ensures
        m20_ecam_accepts(instrument) ==> m20_process_post(
            input_file@,
            *frame,
            opt_val(flat),
            opt_val(mask),
            opt_text(lut_text),
            *profile,
            r,
        ),
        nsyt_idc_accepts(instrument) ==> nsyt_process_post(
            *frame,
            opt_val(flat),
            opt_text(lut_text),
            *profile,
            r,
        ),
        !m20_ecam_accepts(instrument) && !nsyt_idc_accepts(instrument) <==> r == Result::<
            RawFrame,
            CalError,
        >::Err(CalError::UnsupportedInstrument),
{
    let m20 = M20EECam {  };
    let nsyt = NsytIdc {  };
    if m20.accepts_instrument(instrument) {
        let r = m20.process_frame(input_file, frame, flat, mask, lut_text, profile);
        proof {
            assert(r != Result::<RawFrame, CalError>::Err(CalError::UnsupportedInstrument));
        }
        r
    } else if nsyt.accepts_instrument(instrument) {
        let r = nsyt.process_frame(frame, flat, lut_text, profile);
        proof {
            assert(r != Result::<RawFrame, CalError>::Err(CalError::UnsupportedInstrument));
        }
        r
    } else {
        Err(CalError::UnsupportedInstrument)
    }
}

} // verus!
