//! What a pitch estimator is to this crate: a kind chosen by name, and something that looks at
//! one window of samples and either names a frequency or does not.
use vstd::prelude::*;
use vstd::string::StringExecFns;

verus! {

/// The estimation algorithms a detector can be built on.
#[derive(Clone, Copy, Debug, PartialEq, Eq, Structural)]
pub enum EstimatorKind {
    Autocorrelation,
    McLeod,
    SmoothedMcLeod,
}

/// A confident estimate for one window: the frequency in Hz and the clarity, a confidence
/// between 0 and 1, both as single precision bit patterns.
#[derive(Clone, Copy, Debug, PartialEq, Eq, Structural)]
pub struct Estimate {
    pub frequency_bits: u32,
    pub clarity_bits: u32,
}

/// A pitch estimation algorithm, supplied by the host.
///
/// The crate relies on nothing about what an estimator answers: every contract that involves
/// an estimator holds for all answers it could give.  What the crate hands to an estimator is
/// on record in the detector that owns it.
pub trait PitchEstimator: Sized {
    /// Builds the estimator of the given kind for windows of `window` samples, with room for
    /// `padding` more samples of working memory.
    fn create(kind: EstimatorKind, window: usize, padding: usize) -> Self;

    /// Estimates the pitch of `window`, sampled at `sample_rate` Hz.  A detector hands over
    /// windows of the length that the estimator was built for.  `None` means that the window
    /// holds no pitch the estimator is confident of: its power is below the power threshold
    /// or no candidate is clearer than the clarity threshold.
    fn estimate(
        &mut self,
        window: &[u32],
        sample_rate: usize,
        power_threshold_bits: u32,
        clarity_threshold_bits: u32,
    ) -> Option<Estimate>;
}

/// The kind that a name selects, if any.  Names are matched exactly.
pub open spec fn kind_named(name: Seq<char>) -> Option<EstimatorKind> {
    if name == "Autocorrelation"@ {
        Some(EstimatorKind::Autocorrelation)
    } else if name == "McLeod"@ {
        Some(EstimatorKind::McLeod)
    } else if name == "Smoothed McLeod"@ {
        Some(EstimatorKind::SmoothedMcLeod)
    } else {
        None
    }
}

impl EstimatorKind {
    /// Looks an estimator kind up by its name.
    pub fn from_name(name: &String) -> (kind: Option<EstimatorKind>)
        ensures
            kind == kind_named(name@),
    {
        if *name == String::from_str("Autocorrelation") {
            Some(EstimatorKind::Autocorrelation)
        } else if *name == String::from_str("McLeod") {
            Some(EstimatorKind::McLeod)
        } else if *name == String::from_str("Smoothed McLeod") {
            Some(EstimatorKind::SmoothedMcLeod)
        } else {
            None
        }
    }
}

} // verus!
