//! Error taxonomy of the calibration core.

use vstd::prelude::*;

verus! {

/// A typed failure of a single calibration invocation.  Every error is
/// surfaced to the caller; none is silently downgraded to a skip.
#[derive(Clone, Copy, Debug, PartialEq, Eq, Structural)]
pub enum CalError {
    /// The dispatcher found no calibrator accepting the instrument.
    UnsupportedInstrument,
    /// A lookup table had the wrong entry count after parse or construction.
    InvalidLookupTable,
    /// A required flat field or decompanding file was absent when needed.
    MissingCalibrationResource,
    /// An aligned auxiliary product does not match the frame geometry.
    DimensionMismatch,
    /// A read, write or decoding failure on input, resource or output.
    IoFailure,
    /// A malformed calibration profile source.
    ConfigurationError,
}

impl CalError {
    /// A short human-readable description of the failure kind.
    pub fn message(&self) -> (r: String)
        ensures
            r@ == match *self {
                CalError::UnsupportedInstrument => "Unsupported instrument"@,
                CalError::InvalidLookupTable => "Invalid LUT specification length"@,
                CalError::MissingCalibrationResource => "Missing calibration resource"@,
                CalError::DimensionMismatch => "Dimension mismatch"@,
                CalError::IoFailure => "I/O failure"@,
                CalError::ConfigurationError => "Error parsing calibration profile file"@,
            },
    {
        match *self {
            CalError::UnsupportedInstrument => String::from_str("Unsupported instrument"),
            CalError::InvalidLookupTable => String::from_str("Invalid LUT specification length"),
            CalError::MissingCalibrationResource => String::from_str("Missing calibration resource"),
            CalError::DimensionMismatch => String::from_str("Dimension mismatch"),
            CalError::IoFailure => String::from_str("I/O failure"),
            CalError::ConfigurationError => {
                String::from_str("Error parsing calibration profile file")
            },
        }
    }
}

} // verus!
