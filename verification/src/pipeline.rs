//! The pipeline from captured chunks to smoothed spectra.
//!
//! A tick has two halves with the caller's arithmetic between them.
//! `begin_tick` hands out the analysis frame and the magnitudes held. The
//! caller transforms the frame, raises the new magnitudes by the gain and
//! lowers the held ones by the decay. `finish_tick` takes both and settles
//! the new state.

use crate::bits::is_unit_fraction;
use crate::bits::unit_fraction;
use crate::error::PipelineError;
use crate::frame::frame_of;
use crate::frame::FrameExtractor;
use crate::ring::keep_last;
use crate::ring::zeros;
use crate::ring::SampleRing;
use crate::ring::MAX_CAPACITY;
use crate::smoother::held_magnitudes;
use crate::smoother::smoothed;
use crate::smoother::SmootherState;
use crate::smoother::SpectrumSmoother;
use crate::spectrum::bin_count;
use crate::spectrum::transform_size;
use crate::spectrum::SpectrumAnalyzer;
use crate::spectrum::SpectrumBin;
use vstd::arithmetic::power2::is_pow2;
use vstd::prelude::*;

verus! {

/// What the caller needs between the two halves of a tick.
pub struct TickInput {
    /// The most recent `frame_len` samples, to be transformed.
    pub frame: Vec<u32>,
    /// The sample rate of the frame, in hertz.
    pub sample_rate_hz: u32,
    /// The factor by which the new magnitudes are to be raised.
    pub gain: u32,
    /// The magnitudes held, one for each bin of the coming spectrum, before
    /// their decay.
    pub held: Vec<u32>,
    /// The factor by which the held magnitudes are to be lowered.
    pub decay: u32,
}

/// The constraints on a pipeline's configuration: the capacity is a power
/// of two within `MAX_CAPACITY`, the frame fits the ring, and the decay is
/// in `[0, 1)`.
pub open spec fn valid_configuration(frame_len: usize, capacity: usize, decay: u32) -> bool {
    &&& is_pow2(capacity as int)
    &&& capacity <= MAX_CAPACITY
    &&& frame_len <= capacity
    &&& unit_fraction(decay)
}

/// The ring of captured samples and the smoother's state, under one
/// configuration. A capture source feeds it chunk by chunk; a driver ticks
/// it at its own pace.
pub struct CapturePipeline {
    sample_rate_hz: u32,
    frame_len: usize,
    decay: u32,
    gain: u32,
    ring: SampleRing,
    state: SmootherState,
}

impl CapturePipeline {
    /// The samples in the ring, oldest first.
    pub closed spec fn history(&self) -> Seq<u32> {
        self.ring@
    }

    /// The spectrum held by the smoother; empty before the first tick.
    pub closed spec fn held(&self) -> Seq<SpectrumBin> {
        self.state@
    }

    /// The sample rate of the capture source, in hertz.
    pub closed spec fn spec_sample_rate_hz(&self) -> u32 {
        self.sample_rate_hz
    }

    /// The number of samples in an analysis frame.
    pub closed spec fn spec_frame_len(&self) -> usize {
        self.frame_len
    }

    /// The number of samples the ring holds.
    pub closed spec fn spec_capacity(&self) -> nat {
        self.ring.spec_capacity()
    }

    /// The factor by which a held magnitude falls per tick.
    pub closed spec fn spec_decay(&self) -> u32 {
        self.decay
    }

    /// The factor by which a new magnitude is raised.
    pub closed spec fn spec_gain(&self) -> u32 {
        self.gain
    }

    /// What holds of every pipeline: its configuration is valid, its ring is
    /// full, and its smoother holds nothing or one bin for each bin of a
    /// frame's spectrum.
    pub open spec fn wf(&self) -> bool {
        &&& self.history().len() == self.spec_capacity()
        &&& self.spec_capacity() <= MAX_CAPACITY
        &&& is_pow2(self.spec_capacity() as int)
        &&& self.spec_frame_len() <= self.spec_capacity()
        &&& unit_fraction(self.spec_decay())
        &&& (self.held().len() == 0 || self.held().len() == bin_count(self.spec_frame_len() as nat))
    }

    /// A pipeline over a ring of silence, with nothing held.
    pub fn new(sample_rate_hz: u32, frame_len: usize, capacity: usize, decay: u32, gain: u32) -> (r:
        Result<CapturePipeline, PipelineError>)
        ensures
            r.is_ok() <==> valid_configuration(frame_len, capacity, decay),
            r matches Ok(p) ==> {
                &&& p.wf()
                &&& p.history() == zeros(capacity as nat)
                &&& p.held().len() == 0
                &&& p.spec_sample_rate_hz() == sample_rate_hz
                &&& p.spec_frame_len() == frame_len
                &&& p.spec_capacity() == capacity
                &&& p.spec_decay() == decay
                &&& p.spec_gain() == gain
            },
            r matches Err(e) ==> e == PipelineError::InvalidConfiguration,
    {
        if frame_len > capacity || !is_unit_fraction(decay) {
            return Err(PipelineError::InvalidConfiguration);
        }
        match SampleRing::create(capacity) {
            Ok(ring) => Ok(
                CapturePipeline {
                    sample_rate_hz,
                    frame_len,
                    decay,
                    gain,
                    ring,
                    state: SmootherState::new(),
                },
            ),
            Err(e) => Err(e),
        }
    }

    /// Takes one chunk from the capture source into the ring.
    pub fn on_capture_chunk(&mut self, chunk: &[u32])
        requires
            old(self).wf(),
        ensures
            final(self).wf(),
            final(self).history() == keep_last(
                old(self).history() + chunk@,
                old(self).spec_capacity(),
            ),
            final(self).held() == old(self).held(),
            final(self).spec_sample_rate_hz() == old(self).spec_sample_rate_hz(),
            final(self).spec_frame_len() == old(self).spec_frame_len(),
            final(self).spec_capacity() == old(self).spec_capacity(),
            final(self).spec_decay() == old(self).spec_decay(),
            final(self).spec_gain() == old(self).spec_gain(),
    {
        self.ring.push_many(chunk);
    }

    /// The first half of a tick: the frame to transform and the magnitudes
    /// to decay. It is refused where the transform does not take a frame of
    /// the configured length.
    pub fn begin_tick(&self) -> (r: Result<TickInput, PipelineError>)
        requires
            self.wf(),
        ensures
            r.is_ok() <==> transform_size(self.spec_frame_len() as nat),
            r matches Ok(input) ==> {
                &&& input.frame@ == frame_of(self.history(), self.spec_frame_len() as nat)
                &&& input.frame@ == keep_last(self.history(), self.spec_frame_len() as nat)
                &&& input.frame@.len() == self.spec_frame_len()
                &&& input.held@ == held_magnitudes(
                    self.held(),
                    bin_count(self.spec_frame_len() as nat),
                )
                &&& input.held@.len() == bin_count(self.spec_frame_len() as nat)
                &&& input.sample_rate_hz == self.spec_sample_rate_hz()
                &&& input.gain == self.spec_gain()
                &&& input.decay == self.spec_decay()
                &&& unit_fraction(input.decay)
            },
            r matches Err(e) ==> e == PipelineError::InvalidFrameLength,
    {
        match SpectrumAnalyzer::bins_for(self.frame_len) {
            Ok(bins) => {
                let snapshot = self.ring.snapshot();
                let frame = FrameExtractor::extract(snapshot.as_slice(), self.frame_len);
                let held = self.state.held_for(bins);
                proof {
                    crate::frame::lemma_long_snapshot_is_cut(
                        self.history(),
                        self.spec_frame_len() as nat,
                    );
                }
                Ok(
                    TickInput {
                        frame,
                        sample_rate_hz: self.sample_rate_hz,
                        gain: self.gain,
                        held,
                        decay: self.decay,
                    },
                )
            },
            Err(e) => Err(e),
        }
    }

    /// The second half of a tick. `boosted` is the spectrum of the frame
    /// with its magnitudes raised by the gain, `decayed` the held magnitudes
    /// lowered by the decay. The smoothed spectrum becomes the state and is
    /// returned as a copy of its own.
    ///
    /// Where the transform does not take a frame of the configured length,
    /// the call is refused as `InvalidFrameLength`. A spectrum that does not
    /// have one bin for each bin of a frame's transform, and a `decayed`
    /// that does not have one magnitude for each bin, are refused as
    /// `BinCountMismatch`. A refusal leaves the pipeline as it was.
    pub fn finish_tick(&mut self, boosted: &[SpectrumBin], decayed: &[u32]) -> (r: Result<
        Vec<SpectrumBin>,
        PipelineError,
    >)
        requires
            old(self).wf(),
        ensures
            final(self).wf(),
            final(self).history() == old(self).history(),
            final(self).spec_sample_rate_hz() == old(self).spec_sample_rate_hz(),
            final(self).spec_frame_len() == old(self).spec_frame_len(),
            final(self).spec_capacity() == old(self).spec_capacity(),
            final(self).spec_decay() == old(self).spec_decay(),
            final(self).spec_gain() == old(self).spec_gain(),
            match r {
                Ok(out) => {
                    &&& transform_size(old(self).spec_frame_len() as nat)
                    &&& boosted@.len() == bin_count(old(self).spec_frame_len() as nat)
                    &&& decayed@.len() == boosted@.len()
                    &&& out@ == smoothed(boosted@, decayed@)
                    &&& final(self).held() == out@
                },
                Err(PipelineError::InvalidFrameLength) => {
                    &&& !transform_size(old(self).spec_frame_len() as nat)
                    &&& final(self).held() == old(self).held()
                },
                Err(PipelineError::BinCountMismatch) => {
                    &&& transform_size(old(self).spec_frame_len() as nat)
                    &&& (boosted@.len() != bin_count(old(self).spec_frame_len() as nat)
                        || decayed@.len() != boosted@.len())
                    &&& final(self).held() == old(self).held()
                },
                Err(PipelineError::InvalidConfiguration) => false,
            },
    {
        match SpectrumAnalyzer::bins_for(self.frame_len) {
            Ok(bins) => {
                if boosted.len() != bins {
                    return Err(PipelineError::BinCountMismatch);
                }
            },
            Err(e) => {
                return Err(e);
            },
        }
        SpectrumSmoother::smooth(boosted, &mut self.state, decayed)
    }

    /// The sample rate of the capture source, in hertz.
    pub fn sample_rate_hz(&self) -> (r: u32)
        ensures
            r == self.spec_sample_rate_hz(),
    {
        self.sample_rate_hz
    }

    /// The number of samples in an analysis frame.
    pub fn frame_len(&self) -> (r: usize)
        ensures
            r == self.spec_frame_len(),
    {
        self.frame_len
    }

    /// The number of samples the ring holds.
    pub fn capacity(&self) -> (r: usize)
        ensures
            r == self.spec_capacity(),
    {
        self.ring.capacity()
    }

    /// The factor by which a held magnitude falls per tick.
    pub fn decay(&self) -> (r: u32)
        ensures
            r == self.spec_decay(),
    {
        self.decay
    }

    /// The factor by which a new magnitude is raised.
    pub fn gain(&self) -> (r: u32)
        ensures
            r == self.spec_gain(),
    {
        self.gain
    }
}

/// A chunk of at least `frame_len` samples, once captured, is all the next
/// frame is made of: the frame is the chunk's last `frame_len` samples,
/// whatever the ring held before.
pub proof fn lemma_frame_after_chunk(
    history: Seq<u32>,
    chunk: Seq<u32>,
    capacity: nat,
    frame_len: nat,
)
    requires
        history.len() == capacity,
        frame_len <= capacity,
        chunk.len() >= frame_len,
    ensures
        frame_of(keep_last(history + chunk, capacity), frame_len) == keep_last(chunk, frame_len),
{
    assert(frame_of(keep_last(history + chunk, capacity), frame_len) =~= keep_last(
        chunk,
        frame_len,
    ));
}

} // verus!
