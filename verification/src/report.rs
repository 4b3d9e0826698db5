//! What an evaluation report records of how it was run.

use vstd::prelude::*;

verus! {

/// The inputs and the sample rate of an evaluation.
#[derive(Debug)]
pub struct ReportConfig {
    /// The reference file, as given on the command line.
    pub reference_path: String,
    /// The recorded file, as given on the command line.
    pub recorded_path: String,
    /// The rate both signals were resampled to.
    pub target_sample_rate: u32,
}

} // verus!
