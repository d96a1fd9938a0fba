//! The invocation planner and the result model shared by all calibrators.

use vstd::prelude::*;

use crate::error::CalError;
use crate::util::out_name_spec;
use crate::util::append_file_name;

verus! {

/// The tagged outcome of one calibration invocation.  A skip is the only
/// condition that is not a failure and still writes nothing: the
/// incremental-mode short-circuit when the output already exists.
pub enum CalibrationResult {
    /// The pipeline ran and wrote the output file.
    Complete { output_path: String },
    /// The pipeline was deliberately skipped; the prior output stands.
    Warn { output_path: String },
    /// The pipeline could not complete.
    Failed { error: CalError },
}

/// What a calibrator decides before touching any pixel: the output path,
/// and whether the invocation short-circuits because that output already
/// exists and only new inputs are wanted.
pub struct InvocationPlan {
    pub out_file: String,
    pub skip: bool,
}

/// Computes the output path for an input file and decides the
/// incremental-mode short-circuit: the run is skipped exactly when the
/// output already exists and `only_new` was requested.  Nothing is read or
/// transformed for a skipped invocation.
pub fn plan_invocation(
    input_file: &str,
    suffix: &str,
    output_exists: bool,
    only_new: bool,
) -> (r: InvocationPlan)
    ensures
        r.out_file@ == out_name_spec(input_file@, suffix@),
        r.skip == (output_exists && only_new),
{
    let out_file = append_file_name(input_file, suffix);
    InvocationPlan { out_file, skip: output_exists && only_new }
}

} // verus!
