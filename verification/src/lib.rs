//! Capture-to-spectrum pipeline for live audio: a bounded history of samples,
//! the most recent analysis frame taken from it, and the peak-hold smoothing
//! of the spectra computed from those frames.
//!
//! Every amplitude, frequency and magnitude is carried as the bit pattern of
//! an IEEE 754 single-precision number in a `u32`. The crate compares and
//! classifies these values and never does arithmetic on them: the window,
//! the transform and the two scalings of a tick are the caller's, and the
//! crate states what it hands to them and what it does with their results.
//!
//! The ring and the pipeline are changed through `&mut self` and read
//! through `&self`. Two contexts that share one, a capture callback and a
//! tick driver, therefore need a lock around it, and hold it for one call at
//! a time.

pub mod bits;
pub mod device;
pub mod error;
pub mod frame;
pub mod pipeline;
pub mod playback;
pub mod pow2;
pub mod recording;
pub mod ring;
pub mod smoother;
pub mod spectrum;
