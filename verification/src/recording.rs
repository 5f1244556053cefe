//! The format in which a recorded clip is written.

use vstd::prelude::*;

verus! {

/// The header fields of a WAV file.
#[derive(Clone, Copy, Debug, PartialEq, Eq, Structural)]
pub struct WavFormat {
    pub channels: u16,
    pub sample_rate: u32,
    pub bits_per_sample: u16,
    /// Whether the samples are IEEE numbers rather than integers.
    pub float_samples: bool,
}

/// The format for recording from a stream of the given shape: the stream's
/// channels and rate, with 32-bit IEEE samples.
pub fn wav_spec_from_config(channels: u16, sample_rate: u32) -> (format: WavFormat)
    ensures
        format == (WavFormat { channels, sample_rate, bits_per_sample: 32, float_samples: true }),
{
    WavFormat { channels, sample_rate, bits_per_sample: 32, float_samples: true }
}

} // verus!
