//! Peak-hold smoothing of successive spectra: per bin, a new magnitude that
//! is above the held one replaces it, and otherwise the held one stays.
//!
//! The held magnitudes fall from tick to tick, and new ones are raised by a
//! gain. Both are multiplications, which the caller performs: the smoother
//! hands out what it holds, and takes back the decayed magnitudes together
//! with the raised spectrum.

use crate::bits::hold_peak;
use crate::bits::below;
use crate::bits::nan;
use crate::bits::ordinal;
use crate::bits::peak;
use crate::bits::SIGN;
use crate::bits::ZERO;
use crate::error::PipelineError;
use crate::ring::zeros;
use crate::spectrum::SpectrumBin;
use vstd::prelude::*;

verus! {

/// The magnitudes of a spectrum, bin by bin.
pub open spec fn magnitudes(bins: Seq<SpectrumBin>) -> Seq<u32> {
    Seq::new(bins.len(), |i: int| bins[i].magnitude)
}

/// The spectrum that smoothing leaves: each bin has the frequency of the
/// new spectrum, and the larger of the new magnitude and the decayed one.
pub open spec fn smoothed(boosted: Seq<SpectrumBin>, decayed: Seq<u32>) -> Seq<SpectrumBin> {
    Seq::new(
        boosted.len(),
        |i: int|
            SpectrumBin {
                frequency: boosted[i].frequency,
                magnitude: peak(boosted[i].magnitude, decayed[i]),
            },
    )
}

/// The magnitudes that a state holds for a spectrum of `bin_count` bins: its
/// own, or silence throughout while it holds nothing.
pub open spec fn held_magnitudes(state: Seq<SpectrumBin>, bin_count: nat) -> Seq<u32> {
    if state.len() == 0 {
        zeros(bin_count)
    } else {
        magnitudes(state)
    }
}

/// A spectrum fits a state that holds nothing yet, and one that holds as
/// many bins as the spectrum has.
pub open spec fn fits(state: Seq<SpectrumBin>, bin_count: nat) -> bool {
    state.len() == 0 || state.len() == bin_count
}

/// What a smoother holds from one tick to the next: nothing before the
/// first spectrum, and afterwards one bin for each bin of that spectrum.
pub struct SmootherState {
    bins: Vec<SpectrumBin>,
}

impl View for SmootherState {
    type V = Seq<SpectrumBin>;

    closed spec fn view(&self) -> Seq<SpectrumBin> {
        self.bins@
    }
}

impl SmootherState {
    /// A state that holds nothing yet.
    pub fn new() -> (state: SmootherState)
        ensures
            state@.len() == 0,
    {
        SmootherState { bins: Vec::new() }
    }

    /// The number of bins held.
    pub fn len(&self) -> (n: usize)
        ensures
            n == self@.len(),
    {
        self.bins.len()
    }

    /// The magnitudes against which a spectrum of `bin_count` bins is to be
    /// smoothed, before their decay: those held, or silence in every bin
    /// where nothing is held yet.
    pub fn held_for(&self, bin_count: usize) -> (held: Vec<u32>)
        ensures
            held@ == held_magnitudes(self@, bin_count as nat),
    {
        let mut held: Vec<u32> = Vec::new();
        if self.bins.len() == 0 {
            let mut i: usize = 0;
            while i < bin_count
                invariant
                    i <= bin_count,
                    held@ == zeros(i as nat),
                decreases bin_count - i,
            {
                held.push(ZERO);
                assert(held@ =~= zeros((i + 1) as nat));
                i = i + 1;
            }
        } else {
            let mut i: usize = 0;
            while i < self.bins.len()
                invariant
                    i <= self.bins.len(),
                    held@ == magnitudes(self.bins@).take(i as int),
                decreases self.bins.len() - i,
            {
                held.push(self.bins[i].magnitude);
                assert(held@ =~= magnitudes(self.bins@).take(i + 1));
                i = i + 1;
            }
            assert(held@ =~= magnitudes(self.bins@));
        }
        held
    }

    /// The spectrum held.
    pub fn bins(&self) -> (bins: Vec<SpectrumBin>)
        ensures
            bins@ == self@,
    {
        self.bins.clone()
    }
}

/// Settles a new spectrum against the state.
pub struct SpectrumSmoother;

impl SpectrumSmoother {
    /// Smooths `boosted`, the new spectrum with its magnitudes already raised
    /// by the gain, against `decayed`, the held magnitudes after their decay.
    /// The state takes the result, which is also returned.
    ///
    /// The first spectrum gives the state its shape. After that a spectrum
    /// with another number of bins is refused, and so is, at any time, a
    /// `decayed` that does not have one magnitude for each bin.
    pub fn smooth(boosted: &[SpectrumBin], state: &mut SmootherState, decayed: &[u32]) -> (r: Result<
        Vec<SpectrumBin>,
        PipelineError,
    >)
        ensures
            r.is_ok() <==> fits(old(state)@, boosted@.len()) && decayed@.len() == boosted@.len(),
            r matches Ok(out) ==> out@ == smoothed(boosted@, decayed@) && final(state)@ == out@,
            r matches Err(e) ==> e == PipelineError::BinCountMismatch && final(state)@ == old(
                state,
            )@,
    {
        let n: usize = boosted.len();
        if (state.bins.len() != 0 && state.bins.len() != n) || decayed.len() != n {
            return Err(PipelineError::BinCountMismatch);
        }
        let mut out: Vec<SpectrumBin> = Vec::new();
        let mut i: usize = 0;
        while i < n
            invariant
                i <= n,
                n == boosted@.len(),
                n == decayed@.len(),
                out@ == smoothed(boosted@, decayed@).take(i as int),
            decreases n - i,
        {
            let bin = SpectrumBin {
                frequency: boosted[i].frequency,
                magnitude: hold_peak(boosted[i].magnitude, decayed[i]),
            };
            out.push(bin);
            assert(out@ =~= smoothed(boosted@, decayed@).take(i + 1));
            i = i + 1;
        }
        assert(out@ =~= smoothed(boosted@, decayed@));
        state.bins = out.clone();
        Ok(out)
    }
}

/// Smoothing keeps the number of bins and every bin's frequency.
pub proof fn lemma_smoothed_shape(boosted: Seq<SpectrumBin>, decayed: Seq<u32>)
    ensures
        smoothed(boosted, decayed).len() == boosted.len(),
        forall|i: int|
            0 <= i < boosted.len() ==> (#[trigger] smoothed(boosted, decayed)[i]).frequency
                == boosted[i].frequency,
{
}

/// A bin whose new magnitude is above the decayed one takes the new
/// magnitude at once, however little the held one has decayed.
pub proof fn lemma_rising_bin_snaps(boosted: Seq<SpectrumBin>, decayed: Seq<u32>, i: int)
    requires
        decayed.len() == boosted.len(),
        0 <= i < boosted.len(),
        below(decayed[i], boosted[i].magnitude),
    ensures
        smoothed(boosted, decayed)[i].magnitude == boosted[i].magnitude,
{
}

/// A bin that meets silence keeps its decayed magnitude, as long as that
/// is not negative: under a silent input the state follows the decay alone.
pub proof fn lemma_silent_bin_decays(boosted: Seq<SpectrumBin>, decayed: Seq<u32>, i: int)
    requires
        decayed.len() == boosted.len(),
        0 <= i < boosted.len(),
        boosted[i].magnitude == ZERO || boosted[i].magnitude == SIGN,
        !nan(decayed[i]),
        ordinal(decayed[i]) >= 0,
    ensures
        smoothed(boosted, decayed)[i].magnitude == decayed[i],
{
}

/// The spectrum with every magnitude multiplied by the gain, where `times`
/// is the product.
pub open spec fn raised(
    times: spec_fn(u32, u32) -> u32,
    spectrum: Seq<SpectrumBin>,
    gain: u32,
) -> Seq<SpectrumBin> {
    Seq::new(
        spectrum.len(),
        |i: int|
            SpectrumBin {
                frequency: spectrum[i].frequency,
                magnitude: times(spectrum[i].magnitude, gain),
            },
    )
}

/// The magnitudes, each multiplied by the decay, where `times` is the product.
pub open spec fn lowered(times: spec_fn(u32, u32) -> u32, held: Seq<u32>, decay: u32) -> Seq<u32> {
    Seq::new(held.len(), |i: int| times(held[i], decay))
}

/// A whole step of smoothing, as the caller and the smoother perform it
/// together: the state after `new_spectrum` has been raised by the gain and
/// settled against the held magnitudes lowered by the decay.
pub open spec fn step(
    times: spec_fn(u32, u32) -> u32,
    state: Seq<SpectrumBin>,
    new_spectrum: Seq<SpectrumBin>,
    decay: u32,
    gain: u32,
) -> Seq<SpectrumBin> {
    smoothed(
        raised(times, new_spectrum, gain),
        lowered(times, held_magnitudes(state, new_spectrum.len()), decay),
    )
}

/// A rising bin snaps. Where the new magnitude, raised by the gain, is above
/// the held one, and the decay does not lift the held one, the step leaves
/// exactly the raised magnitude: the decay has no part in it.
pub proof fn lemma_rising_step_snaps(
    times: spec_fn(u32, u32) -> u32,
    state: Seq<SpectrumBin>,
    new_spectrum: Seq<SpectrumBin>,
    decay: u32,
    gain: u32,
    i: int,
)
    requires
        fits(state, new_spectrum.len()),
        0 <= i < new_spectrum.len(),
        ({
            let held = held_magnitudes(state, new_spectrum.len())[i];
            &&& below(held, times(new_spectrum[i].magnitude, gain))
            &&& !nan(times(held, decay))
            &&& !below(held, times(held, decay))
        }),
    ensures
        step(times, state, new_spectrum, decay, gain)[i].magnitude == times(
            new_spectrum[i].magnitude,
            gain,
        ),
{
}

/// A silent bin decays. Where the new magnitude is silence, which the gain
/// leaves silent, the step leaves exactly the held magnitude times the
/// decay, as long as that is no negative number; and where that product is
/// below the held magnitude, so is what the step leaves.
pub proof fn lemma_silent_step_decays(
    times: spec_fn(u32, u32) -> u32,
    state: Seq<SpectrumBin>,
    new_spectrum: Seq<SpectrumBin>,
    decay: u32,
    gain: u32,
    i: int,
)
    requires
        fits(state, new_spectrum.len()),
        0 <= i < new_spectrum.len(),
        new_spectrum[i].magnitude == ZERO,
        times(ZERO, gain) == ZERO || times(ZERO, gain) == SIGN,
        ({
            let held = held_magnitudes(state, new_spectrum.len())[i];
            !nan(times(held, decay)) && ordinal(times(held, decay)) >= 0
        }),
    ensures
        ({
            let held = held_magnitudes(state, new_spectrum.len())[i];
            let left = step(times, state, new_spectrum, decay, gain)[i].magnitude;
            &&& left == times(held, decay)
            &&& below(times(held, decay), held) ==> below(left, held)
        }),
{
}

} // verus!
