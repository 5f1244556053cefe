//! The shape of a spectrum: which frame lengths the transform takes, and
//! how many bins come out.
//!
//! The transform itself is a real-input fast Fourier transform that exists
//! for the powers of two from 2 to 16384. It is arithmetic on the samples'
//! values and is done by the caller; what it takes and what it yields is
//! settled here.

use crate::bits::below;
use crate::bits::is_below;
use crate::bits::is_nan;
use crate::bits::nan;
use crate::error::PipelineError;
use crate::pow2::is_power_of_two;
use vstd::arithmetic::power2::is_pow2;
use vstd::prelude::*;

verus! {

/// The shortest frame the transform takes.
pub const MIN_FRAME_LEN: usize = 2;

/// The longest frame the transform takes.
pub const MAX_FRAME_LEN: usize = 16384;

/// One frequency slot of a spectrum: its centre frequency in hertz and the
/// magnitude found there, both as single-precision bit patterns.
#[derive(Clone, Copy, Debug, PartialEq, Eq, Structural)]
pub struct SpectrumBin {
    pub frequency: u32,
    pub magnitude: u32,
}

/// A frame length the transform takes: a power of two from `MIN_FRAME_LEN`
/// to `MAX_FRAME_LEN`.
pub open spec fn transform_size(frame_len: nat) -> bool {
    is_pow2(frame_len as int) && MIN_FRAME_LEN <= frame_len <= MAX_FRAME_LEN
}

/// The number of bins in the spectrum of a frame: one for each frequency
/// from zero up to half the sample rate.
pub open spec fn bin_count(frame_len: nat) -> nat {
    frame_len / 2 + 1
}

/// Decides what may be handed to the transform.
pub struct SpectrumAnalyzer;

impl SpectrumAnalyzer {
    /// The number of bins that a frame of `frame_len` samples yields, or
    /// `InvalidFrameLength` where the transform does not take such a frame.
    pub fn bins_for(frame_len: usize) -> (r: Result<usize, PipelineError>)
        ensures
            r.is_ok() <==> transform_size(frame_len as nat),
            r matches Ok(n) ==> n == bin_count(frame_len as nat),
            r matches Err(e) ==> e == PipelineError::InvalidFrameLength,
    {
        if frame_len < MIN_FRAME_LEN || frame_len > MAX_FRAME_LEN || !is_power_of_two(frame_len) {
            Err(PipelineError::InvalidFrameLength)
        } else {
            Ok(frame_len / 2 + 1)
        }
    }
}

/// `k` is the peak of the spectrum: the first bin with the largest
/// magnitude. Magnitudes that are no numbers are passed over; where all are
/// such, the peak is the first bin.
pub open spec fn is_peak(bins: Seq<SpectrumBin>, k: int) -> bool {
    &&& 0 <= k < bins.len()
    &&& forall|i: int| 0 <= i < bins.len() ==> !below(bins[k].magnitude, #[trigger] bins[i].magnitude)
    &&& forall|i: int|
        0 <= i < k ==> nan(#[trigger] bins[i].magnitude) || below(
            bins[i].magnitude,
            bins[k].magnitude,
        )
    &&& nan(bins[k].magnitude) ==> k == 0 && forall|i: int|
        0 <= i < bins.len() ==> nan(#[trigger] bins[i].magnitude)
}

/// The index of the spectrum's peak; `None` for a spectrum without bins.
pub fn peak_bin(bins: &[SpectrumBin]) -> (r: Option<usize>)
    ensures
        r.is_none() <==> bins@.len() == 0,
        r matches Some(k) ==> is_peak(bins@, k as int),
{
    if bins.len() == 0 {
        return None;
    }
    let mut best: usize = 0;
    let mut i: usize = 1;
    while i < bins.len()
        invariant
            1 <= i <= bins@.len(),
            is_peak(bins@.take(i as int), best as int),
        decreases bins.len() - i,
    {
        let candidate: u32 = bins[i].magnitude;
        let held: u32 = bins[best].magnitude;
        if is_below(held, candidate) || (is_nan(held) && !is_nan(candidate)) {
            best = i;
        }
        assert(is_peak(bins@.take(i as int + 1), best as int)) by {
            let before = bins@.take(i as int);
            let after = bins@.take(i as int + 1);
            assert(forall|j: int| 0 <= j < i ==> after[j] == before[j]);
        }
        i = i + 1;
    }
    assert(bins@.take(bins@.len() as int) =~= bins@);
    Some(best)
}

/// A spectrum has one peak only.
pub proof fn lemma_peak_is_unique(bins: Seq<SpectrumBin>, k: int, other: int)
    requires
        is_peak(bins, k),
        is_peak(bins, other),
    ensures
        k == other,
{
    if k < other {
        assert(nan(bins[k].magnitude) || below(bins[k].magnitude, bins[other].magnitude));
        assert(!below(bins[k].magnitude, bins[other].magnitude));
    } else if other < k {
        assert(nan(bins[other].magnitude) || below(bins[other].magnitude, bins[k].magnitude));
        assert(!below(bins[other].magnitude, bins[k].magnitude));
    }
}

} // verus!
