//! The validated, fully-defaulted configuration bundle driving the pipeline.
//!
//! Color weights and the hot-pixel threshold are carried as fixed-point
//! thousandths (1000 stands for a weight of one), so that the core can state
//! and prove exact integer contracts about them.

use vstd::prelude::*;

use crate::enums::DebayerMethod;

verus! {

/// Configuration record controlling every tunable aspect of the pipeline.
/// Every field has a total default; a well-formed source with omitted fields
/// always yields a fully-populated profile.
#[derive(Debug, Clone)]
pub struct CalProfile {
    pub calfiletype: String,
    /// Whether to decompand with the instrument's lookup table.
    pub apply_ilt: bool,
    /// Per-channel multiplicative weights, in thousandths.
    pub red_scalar: u32,
    pub green_scalar: u32,
    pub blue_scalar: u32,
    pub color_noise_reduction: bool,
    pub color_noise_reduction_amount: i32,
    /// Hot-pixel detection threshold, in thousandths.
    pub hot_pixel_detection_threshold: u32,
    pub hot_pixel_window_size: i32,
    /// Appended to the input's base name to form the output name.
    pub filename_suffix: String,
    /// Selects the decorrelated normalization strategy.
    pub decorrelate_color: bool,
    pub mission: Option<String>,
    pub instrument: Option<String>,
    pub description: Option<String>,
    pub debayer_method: DebayerMethod,
}

impl Default for CalProfile {
    /// The fully-defaulted profile: no decompanding, unit color weights, no
    /// noise reduction, correlated normalization.
    fn default() -> (r: CalProfile)
        ensures
            r.calfiletype@ == "profile"@,
            r.apply_ilt == false,
            r.red_scalar == 1000,
            r.green_scalar == 1000,
            r.blue_scalar == 1000,
            r.color_noise_reduction == false,
            r.color_noise_reduction_amount == 0,
            r.hot_pixel_detection_threshold == 0,
            r.hot_pixel_window_size == 10,
            r.filename_suffix@ == "rjcal"@,
            r.decorrelate_color == false,
            r.mission is None,
            r.instrument is None,
            r.description is None,
            r.debayer_method == DebayerMethod::Malvar,
    {
        CalProfile {
            calfiletype: String::from_str("profile"),
            apply_ilt: false,
            red_scalar: 1000,
            green_scalar: 1000,
            blue_scalar: 1000,
            color_noise_reduction: false,
            color_noise_reduction_amount: 0,
            hot_pixel_detection_threshold: 0,
            hot_pixel_window_size: 10,
            filename_suffix: String::from_str("rjcal"),
            decorrelate_color: false,
            mission: None,
            instrument: None,
            description: None,
            debayer_method: DebayerMethod::Malvar,
        }
    }
}

} // verus!
