use marscal::align::align_product;
use marscal::calprofile::CalProfile;
use marscal::enums::DebayerMethod;
use marscal::error::CalError;
use marscal::frame::{RawFrame, SubframeRect};
use marscal::raster::Raster;

fn coord_raster(w: usize, h: usize) -> Raster {
    let samples: Vec<u32> = (0..w * h)
        .map(|i| ((i / w) * 10000 + i % w) as u32)
        .collect();
    Raster::from_vec(w, h, samples).unwrap()
}

fn frame_of(w: usize, h: usize, rect: Option<SubframeRect>, scale: u32) -> RawFrame {
    RawFrame {
        planes: vec![Raster::new_filled(w, h, 0)],
        subframe_rect: rect,
        scale_factor: scale,
    }
}

#[test]
fn profile_defaults_are_total() {
    let p = CalProfile::default();
    assert_eq!(p.calfiletype, "profile");
    assert!(!p.apply_ilt);
    assert_eq!(p.red_scalar, 1000);
    assert_eq!(p.green_scalar, 1000);
    assert_eq!(p.blue_scalar, 1000);
    assert!(!p.color_noise_reduction);
    assert_eq!(p.color_noise_reduction_amount, 0);
    assert_eq!(p.hot_pixel_detection_threshold, 0);
    assert_eq!(p.hot_pixel_window_size, 10);
    assert_eq!(p.filename_suffix, "rjcal");
    assert!(!p.decorrelate_color);
    assert!(p.mission.is_none());
    assert!(p.instrument.is_none());
    assert!(p.description.is_none());
    assert_eq!(p.debayer_method, DebayerMethod::Malvar);
}

#[test]
fn alignment_is_identity_under_noop_geometry() {
    let product = coord_raster(6, 4);
    let frame = frame_of(6, 4, None, 1);
    let aligned = align_product(&product, &frame).unwrap();
    assert_eq!(aligned.width, 6);
    assert_eq!(aligned.height, 4);
    assert_eq!(aligned.samples, product.samples);
}

#[test]
fn alignment_crops_then_resizes_to_frame_dimensions() {
    // Full-sensor flat; frame acquired a 1-indexed subframe (101, 51) of
    // size 200 x 150, at scale factor 2, with frame pixels 400 x 300.
    let product = coord_raster(640, 480);
    let rect = SubframeRect {
        x: 101,
        y: 51,
        width: 200,
        height: 150,
    };
    let frame = frame_of(400, 300, Some(rect), 2);
    let aligned = align_product(&product, &frame).unwrap();
    assert_eq!(aligned.width, 400);
    assert_eq!(aligned.height, 300);
    // The crop happened first (0-indexed origin (100, 50)), then the
    // nearest-neighbour resize: out(x, y) = product(100 + x/2, 50 + y/2).
    for &(x, y) in &[(0usize, 0usize), (1, 0), (5, 7), (399, 299)] {
        let sx = 100 + (x * 200) / 400;
        let sy = 50 + (y * 150) / 300;
        assert_eq!(
            aligned.samples[y * 400 + x],
            (sy * 10000 + sx) as u32,
            "at ({}, {})",
            x,
            y
        );
    }
}

#[test]
fn alignment_crop_only_must_land_on_frame_grid() {
    let product = coord_raster(640, 480);
    let rect = SubframeRect {
        x: 11,
        y: 21,
        width: 64,
        height: 48,
    };
    let frame = frame_of(64, 48, Some(rect), 1);
    let aligned = align_product(&product, &frame).unwrap();
    assert_eq!(aligned.width, 64);
    assert_eq!(aligned.height, 48);
    assert_eq!(aligned.samples[0], 20 * 10000 + 10);
}

#[test]
fn alignment_dimension_mismatch_is_fatal() {
    let product = coord_raster(64, 48);
    // Crop region outside the product.
    let rect = SubframeRect {
        x: 60,
        y: 1,
        width: 10,
        height: 10,
    };
    let frame = frame_of(10, 10, Some(rect), 1);
    assert_eq!(
        align_product(&product, &frame).unwrap_err(),
        CalError::DimensionMismatch
    );
    // No geometry to adjust, but the product does not match the frame.
    let frame2 = frame_of(32, 48, None, 1);
    assert_eq!(
        align_product(&product, &frame2).unwrap_err(),
        CalError::DimensionMismatch
    );
    // A 1-indexed origin of zero is invalid.
    let rect3 = SubframeRect {
        x: 0,
        y: 1,
        width: 10,
        height: 10,
    };
    let frame3 = frame_of(10, 10, Some(rect3), 1);
    assert_eq!(
        align_product(&product, &frame3).unwrap_err(),
        CalError::DimensionMismatch
    );
}

#[test]
fn error_messages_name_their_kind() {
    assert_eq!(
        CalError::UnsupportedInstrument.message(),
        "Unsupported instrument"
    );
    assert_eq!(
        CalError::InvalidLookupTable.message(),
        "Invalid LUT specification length"
    );
    assert_eq!(
        CalError::MissingCalibrationResource.message(),
        "Missing calibration resource"
    );
    assert_eq!(CalError::DimensionMismatch.message(), "Dimension mismatch");
    assert_eq!(CalError::IoFailure.message(), "I/O failure");
    assert_eq!(
        CalError::ConfigurationError.message(),
        "Error parsing calibration profile file"
    );
}
