//! The ways a call into this crate can be refused.
use vstd::prelude::*;

verus! {

/// Why a call was refused.  A refused call changes nothing.
#[derive(Clone, Copy, Debug, PartialEq, Eq, Structural)]
pub enum AnalyzerError {
    /// A chunk was pushed whose length is not the buffer's chunk size.
    ChunkSizeMismatch { expected: usize, actual: usize },
    /// A view was handed to a detector that is shorter than one window.
    InsufficientSamples { required: usize, available: usize },
    /// A detector was asked for with a window above the largest one supported.
    WindowTooLarge { window: usize, maximum: usize },
    /// A detector was asked for by a name that selects no estimator.
    UnknownEstimatorKind,
}

} // verus!
