//! Closed sets of instrument and configuration identifiers.

use vstd::prelude::*;

verus! {

/// Camera/mission variant.  Fixed closed set, used as the dispatch key and as
/// the key into per-instrument calibration-data lookups.
#[derive(Clone, Copy, Debug, PartialEq, Eq, Structural)]
pub enum Instrument {
    M20FrontHazLeft,
    M20FrontHazRight,
    M20RearHazLeft,
    M20RearHazRight,
    M20NavcamLeft,
    M20NavcamRight,
    NsytIDC,
    Unknown,
}

/// Demosaicing method selected by the calibration profile.
#[derive(Clone, Copy, Debug, PartialEq, Eq, Structural)]
pub enum DebayerMethod {
    Malvar,
    AMaze,
}

} // verus!
