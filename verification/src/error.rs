//! The ways in which building or driving a pipeline can be refused.

use vstd::prelude::*;

verus! {

/// Why the pipeline or one of its parts refused a call.
#[derive(Clone, Copy, Debug, PartialEq, Eq, Structural)]
pub enum PipelineError {
    /// The capacity is not a usable power of two, the frame does not fit
    /// the ring, or the decay is outside `[0, 1)`.
    InvalidConfiguration,
    /// A frame whose length the transform does not take.
    InvalidFrameLength,
    /// A spectrum whose number of bins differs from the smoother's state.
    BinCountMismatch,
}

} // verus!
