use marscal::calibrate::plan_invocation;
use marscal::calprofile::CalProfile;
use marscal::destretch::destretch_raster;
use marscal::dispatch::dispatch_frame;
use marscal::enums::Instrument;
use marscal::error::CalError;
use marscal::frame::RawFrame;
use marscal::m20_ecam::M20EECam;
use marscal::nsyt_idc::NsytIdc;
use marscal::raster::Raster;
use marscal::stages::{
    binarize_raster, normalize_correlated_raster, normalize_decorrelated_raster, weight_raster,
};
use marscal::util::{append_file_name, filename_char_at_pos, infer_m20_instrument};

fn gray_frame(w: usize, h: usize, samples: Vec<u32>) -> RawFrame {
    RawFrame {
        planes: vec![Raster::from_vec(w, h, samples).unwrap()],
        subframe_rect: None,
        scale_factor: 1,
    }
}

#[test]
fn binarization_is_a_pure_threshold() {
    let m = Raster::from_vec(3, 2, vec![0, 199, 200, 201, 255, 65535]).unwrap();
    let b = binarize_raster(&m);
    assert_eq!(b.samples, vec![0, 0, 0, 1, 1, 1]);
}

#[test]
fn weighting_is_fixed_point_thousandths_and_saturates() {
    let r = Raster::from_vec(2, 2, vec![0, 1000, 123, u32::MAX]).unwrap();
    let half = weight_raster(&r, 500);
    assert_eq!(half.samples, vec![0, 500, 61, 2147483647]);
    let unit = weight_raster(&r, 1000);
    assert_eq!(unit.samples, r.samples);
    let double = weight_raster(&r, 2000);
    assert_eq!(double.samples[3], u32::MAX);
}

#[test]
fn destretch_closes_histogram_gaps() {
    let r = Raster::from_vec(2, 2, vec![10, 12, 15, 10]).unwrap();
    let d = destretch_raster(&r);
    assert_eq!(d.samples, vec![10, 11, 12, 10]);
}

#[test]
fn normalization_correlated_uses_fixed_ceiling() {
    let r = Raster::from_vec(3, 1, vec![0, 100, 255]).unwrap();
    let n = normalize_correlated_raster(&r, 255);
    assert_eq!(n.samples, vec![0, 100 * 65535 / 255, 65535]);
    let clipped = normalize_correlated_raster(&Raster::from_vec(1, 1, vec![300]).unwrap(), 255);
    assert_eq!(clipped.samples, vec![65535]);
}

#[test]
fn normalization_decorrelated_stretches_each_channel() {
    let r = Raster::from_vec(3, 1, vec![10, 20, 30]).unwrap();
    let n = normalize_decorrelated_raster(&r);
    assert_eq!(n.samples, vec![0, 32767, 65535]);
    let flat = Raster::from_vec(2, 1, vec![7, 7]).unwrap();
    assert_eq!(normalize_decorrelated_raster(&flat).samples, vec![0, 0]);
}

#[test]
fn output_names_and_instrument_heuristic() {
    assert_eq!(append_file_name("a/b.png", "rjcal"), "a/b-rjcal.png");
    assert_eq!(append_file_name("noext", "rjcal"), "noext-rjcal.png");
    assert_eq!(append_file_name("a.b/c", "rjcal"), "a.b/c-rjcal.png");
    assert_eq!(filename_char_at_pos("dir/NLB_0001.png", 0), Some('N'));
    assert_eq!(filename_char_at_pos("dir/NLB_0001.png", 1), Some('L'));
    assert_eq!(filename_char_at_pos("x", 5), None);
    assert_eq!(
        infer_m20_instrument("d/NLB_1.png"),
        Instrument::M20NavcamLeft
    );
    assert_eq!(
        infer_m20_instrument("d/NRB_1.png"),
        Instrument::M20NavcamRight
    );
    assert_eq!(
        infer_m20_instrument("FLB_1.png"),
        Instrument::M20FrontHazLeft
    );
    assert_eq!(
        infer_m20_instrument("FRB_1.png"),
        Instrument::M20FrontHazRight
    );
    assert_eq!(infer_m20_instrument("RLB_1.png"), Instrument::M20RearHazLeft);
    assert_eq!(
        infer_m20_instrument("RRB_1.png"),
        Instrument::M20RearHazRight
    );
    assert_eq!(infer_m20_instrument("ZL0_1.png"), Instrument::M20NavcamRight);
}

#[test]
fn incremental_mode_plans_a_skip_only_when_output_exists() {
    let first = plan_invocation("a/b.png", "rjcal", false, true);
    assert_eq!(first.out_file, "a/b-rjcal.png");
    assert!(!first.skip);
    let second = plan_invocation("a/b.png", "rjcal", true, true);
    assert_eq!(second.out_file, "a/b-rjcal.png");
    assert!(second.skip);
    let forced = plan_invocation("a/b.png", "rjcal", true, false);
    assert!(!forced.skip);
}

#[test]
fn m20_scenario_decompand_debayer_normalize() {
    // Scenario: a grayscale Bayer-mosaiced frame, decompanding requested,
    // built-in table (max 2033), no flat or mask configured.
    let frame = gray_frame(2, 2, vec![5, 6, 7, 8]);
    let mut profile = CalProfile::default();
    profile.apply_ilt = true;
    let cam = M20EECam {};
    let out = cam
        .process_frame("NLB_0001.png", &frame, None, None, None, &profile)
        .unwrap();
    assert_eq!(out.planes.len(), 3);
    assert_eq!(out.planes[0].width, 2);
    assert_eq!(out.planes[0].height, 2);
    // Destretch is the identity on the dense value set {5,6,7,8}; the
    // built-in table maps 5,6,7,8 to 5,5,6,7; the demosaic reads red at
    // the cell's even corner, green beside it, blue diagonally; unit
    // weights; correlated normalization against ceiling 2033.
    let n = |v: u32| (v as u64 * 65535 / 2033) as u32;
    assert_eq!(out.planes[0].samples, vec![n(5); 4]);
    assert_eq!(out.planes[1].samples, vec![n(5); 4]);
    assert_eq!(out.planes[2].samples, vec![n(7); 4]);
    for plane in &out.planes {
        assert!(plane.samples.iter().all(|&v| v <= 65535));
    }
}

#[test]
fn m20_scenario_mask_zeroes_excluded_pixels() {
    // Scenario: as the decompand scenario, but a mask is configured whose
    // aligned raster mixes values above and below the threshold.
    let frame = gray_frame(2, 2, vec![5, 6, 7, 8]);
    let mask = Raster::from_vec(2, 2, vec![255, 100, 201, 200]).unwrap();
    let flat = Raster::from_vec(2, 2, vec![10, 10, 10, 10]).unwrap();
    let mut profile = CalProfile::default();
    profile.apply_ilt = true;
    let cam = M20EECam {};
    let out = cam
        .process_frame(
            "NLB_0001.png",
            &frame,
            Some(&flat),
            Some(&mask),
            None,
            &profile,
        )
        .unwrap();
    // Binarized mask is [1, 0, 1, 0]: exactly the sub-201 pixels are
    // zeroed on every plane before flat division (the uniform flat is the
    // identity correction here).
    let n = |v: u32| (v as u64 * 65535 / 2033) as u32;
    assert_eq!(out.planes[0].samples, vec![n(5), 0, n(5), 0]);
    assert_eq!(out.planes[1].samples, vec![n(5), 0, n(5), 0]);
    assert_eq!(out.planes[2].samples, vec![n(7), 0, n(7), 0]);
}

#[test]
fn m20_lut_text_with_wrong_count_is_fatal() {
    let frame = gray_frame(2, 2, vec![5, 6, 7, 8]);
    let mut profile = CalProfile::default();
    profile.apply_ilt = true;
    let cam = M20EECam {};
    let bad = b"0 1\n1 2\n".to_vec();
    assert_eq!(
        cam.process_frame("NLB_1.png", &frame, None, None, Some(&bad), &profile)
            .unwrap_err(),
        CalError::InvalidLookupTable
    );
    // Without decompanding the same text is never read.
    profile.apply_ilt = false;
    assert!(cam
        .process_frame("NLB_1.png", &frame, None, None, Some(&bad), &profile)
        .is_ok());
}

#[test]
fn nsyt_pipeline_crops_and_normalizes() {
    let w = 1024;
    let h = 1021;
    let frame = RawFrame {
        planes: vec![Raster::new_filled(w, h, 100)],
        subframe_rect: None,
        scale_factor: 1,
    };
    let flat = Raster::new_filled(w, h, 50);
    let profile = CalProfile::default();
    let cam = NsytIdc {};
    let out = cam
        .process_frame(&frame, Some(&flat), None, &profile)
        .unwrap();
    assert_eq!(out.planes.len(), 1);
    assert_eq!(out.planes[0].width, 1024);
    assert_eq!(out.planes[0].height, 1018);
    // The uniform flat (mean 50) is the identity correction; ceiling 255.
    assert!(out.planes[0]
        .samples
        .iter()
        .all(|&v| v == 100 * 65535 / 255));
}

#[test]
fn nsyt_missing_or_mismatched_flat_is_fatal() {
    let frame = RawFrame {
        planes: vec![Raster::new_filled(1024, 1021, 100)],
        subframe_rect: None,
        scale_factor: 1,
    };
    let profile = CalProfile::default();
    let cam = NsytIdc {};
    assert_eq!(
        cam.process_frame(&frame, None, None, &profile).unwrap_err(),
        CalError::MissingCalibrationResource
    );
    let wrong = Raster::new_filled(512, 512, 50);
    assert_eq!(
        cam.process_frame(&frame, Some(&wrong), None, &profile)
            .unwrap_err(),
        CalError::DimensionMismatch
    );
    let small = RawFrame {
        planes: vec![Raster::new_filled(10, 10, 100)],
        subframe_rect: None,
        scale_factor: 1,
    };
    let small_flat = Raster::new_filled(10, 10, 50);
    assert_eq!(
        cam.process_frame(&small, Some(&small_flat), None, &profile)
            .unwrap_err(),
        CalError::DimensionMismatch
    );
}

#[test]
fn dispatcher_rejects_unclaimed_instruments() {
    let frame = gray_frame(2, 2, vec![1, 2, 3, 4]);
    let profile = CalProfile::default();
    let r = dispatch_frame(
        "x.png",
        Instrument::Unknown,
        &frame,
        None,
        None,
        None,
        &profile,
    );
    assert_eq!(r.unwrap_err(), CalError::UnsupportedInstrument);
}

#[test]
fn dispatcher_routes_claimed_instruments() {
    let frame = gray_frame(2, 2, vec![1, 2, 3, 4]);
    let profile = CalProfile::default();
    let m20 = M20EECam {};
    let nsyt = NsytIdc {};
    for inst in [
        Instrument::M20FrontHazLeft,
        Instrument::M20FrontHazRight,
        Instrument::M20RearHazLeft,
        Instrument::M20RearHazRight,
        Instrument::M20NavcamLeft,
        Instrument::M20NavcamRight,
    ] {
        assert!(m20.accepts_instrument(inst));
        assert!(!nsyt.accepts_instrument(inst));
        assert!(dispatch_frame("N.png", inst, &frame, None, None, None, &profile).is_ok());
    }
    assert!(nsyt.accepts_instrument(Instrument::NsytIDC));
    assert!(!m20.accepts_instrument(Instrument::NsytIDC));
    // The deployment camera requires its flat, so dispatch surfaces that.
    assert_eq!(
        dispatch_frame(
            "D.png",
            Instrument::NsytIDC,
            &frame,
            None,
            None,
            None,
            &profile
        )
        .unwrap_err(),
        CalError::MissingCalibrationResource
    );
}
