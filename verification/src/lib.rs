//! Calibration core for raw planetary rover/lander camera images.
//!
//! The library turns a raw, sensor-companded frame into a radiometrically
//! corrected, debayered, geometrically aligned, normalized output raster.
//! It holds the decompanding lookup-table subsystem, the auxiliary-product
//! aligner, the mask binarizer, the per-instrument calibrators and the
//! dispatcher.  File discovery, image decoding and encoding are left to the
//! surrounding application, which hands the core plain integer rasters.

pub mod enums;
pub mod error;
pub mod decompanding;
pub mod calprofile;
pub mod util;
pub mod raster;
pub mod stages;
pub mod destretch;
pub mod debayer;
pub mod frame;
pub mod align;
pub mod calibrate;
pub mod m20_ecam;
pub mod nsyt_idc;
pub mod dispatch;
