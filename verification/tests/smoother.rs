use pika_pulse::error::PipelineError;
use pika_pulse::smoother::SmootherState;
use pika_pulse::smoother::SpectrumSmoother;
use pika_pulse::spectrum::SpectrumBin;

fn spectrum(bins: &[(f32, f32)]) -> Vec<SpectrumBin> {
    bins.iter()
        .map(|(f, m)| SpectrumBin { frequency: f.to_bits(), magnitude: m.to_bits() })
        .collect()
}

fn magnitudes(bins: &[SpectrumBin]) -> Vec<f32> {
    bins.iter().map(|b| f32::from_bits(b.magnitude)).collect()
}

fn times(values: &[u32], factor: f32) -> Vec<u32> {
    values.iter().map(|v| (f32::from_bits(*v) * factor).to_bits()).collect()
}

/// One smoothing step as a caller performs it: raise the new magnitudes,
/// lower the held ones, and let the smoother settle the two.
fn smooth(
    new_spectrum: &[SpectrumBin],
    state: &mut SmootherState,
    decay: f32,
    gain: f32,
) -> Result<Vec<SpectrumBin>, PipelineError> {
    let boosted: Vec<SpectrumBin> = new_spectrum
        .iter()
        .map(|b| SpectrumBin {
            frequency: b.frequency,
            magnitude: (f32::from_bits(b.magnitude) * gain).to_bits(),
        })
        .collect();
    let decayed = times(&state.held_for(new_spectrum.len()), decay);
    SpectrumSmoother::smooth(&boosted, state, &decayed)
}

#[test]
fn new_state_holds_nothing() {
    let state = SmootherState::new();
    assert_eq!(state.len(), 0);
    assert!(state.bins().is_empty());
    assert_eq!(state.held_for(3), vec![0u32; 3]);
}

#[test]
fn first_spectrum_shapes_the_state() {
    let mut state = SmootherState::new();
    let new = spectrum(&[(0.0, 0.0), (23.4375, 0.002), (46.875, 0.001)]);
    let out = smooth(&new, &mut state, 0.84, 5000.0).unwrap();
    assert_eq!(out, spectrum(&[(0.0, 0.0), (23.4375, 0.002 * 5000.0), (46.875, 0.001 * 5000.0)]));
    assert_eq!(state.bins(), out);
    assert_eq!(state.len(), 3);
    assert_eq!(state.held_for(3), vec![0.0f32.to_bits(), (0.002f32 * 5000.0).to_bits(), (0.001f32 * 5000.0).to_bits()]);
}

#[test]
fn rising_magnitude_snaps_to_the_gained_value() {
    let mut state = SmootherState::new();
    smooth(&spectrum(&[(100.0, 0.001)]), &mut state, 0.84, 5000.0).unwrap();
    let out = smooth(&spectrum(&[(100.0, 0.003)]), &mut state, 0.84, 5000.0).unwrap();
    assert_eq!(magnitudes(&out), vec![0.003f32 * 5000.0]);
    assert_eq!(f32::from_bits(out[0].magnitude), 15.0);
}

#[test]
fn falling_magnitude_decays_by_the_factor() {
    let mut state = SmootherState::new();
    smooth(&spectrum(&[(100.0, 0.004)]), &mut state, 0.5, 1000.0).unwrap();
    let out = smooth(&spectrum(&[(100.0, 0.001)]), &mut state, 0.5, 1000.0).unwrap();
    assert_eq!(magnitudes(&out), vec![2.0]);
    let out = smooth(&spectrum(&[(100.0, 0.001)]), &mut state, 0.5, 1000.0).unwrap();
    assert_eq!(magnitudes(&out), vec![1.0]);
    let out = smooth(&spectrum(&[(100.0, 0.001)]), &mut state, 0.5, 1000.0).unwrap();
    assert_eq!(magnitudes(&out), vec![1.0]);
}

#[test]
fn silence_after_a_tick_decays_strictly_and_never_reaches_zero() {
    let decay = 0.84f32;
    let mut state = SmootherState::new();
    let first = smooth(&spectrum(&[(0.0, 0.0), (100.0, 0.002)]), &mut state, decay, 5000.0).unwrap();
    let mut previous = f32::from_bits(first[1].magnitude);
    assert_eq!(previous, 10.0);
    for _ in 0..200 {
        let out = smooth(&spectrum(&[(0.0, 0.0), (100.0, 0.0)]), &mut state, decay, 5000.0).unwrap();
        let now = f32::from_bits(out[1].magnitude);
        assert_eq!(now, previous * decay);
        assert!(now < previous);
        assert!(now > 0.0);
        assert_eq!(f32::from_bits(out[0].magnitude), 0.0);
        previous = now;
    }
}

#[test]
fn frequencies_follow_the_new_spectrum() {
    let mut state = SmootherState::new();
    smooth(&spectrum(&[(0.0, 1.0), (10.0, 1.0)]), &mut state, 0.84, 1.0).unwrap();
    let out = smooth(&spectrum(&[(0.0, 0.0), (20.0, 0.0)]), &mut state, 0.84, 1.0).unwrap();
    assert_eq!(f32::from_bits(out[1].frequency), 20.0);
    assert_eq!(f32::from_bits(state.bins()[1].frequency), 20.0);
}

#[test]
fn spectrum_of_another_size_is_refused() {
    let mut state = SmootherState::new();
    smooth(&spectrum(&[(0.0, 1.0), (10.0, 1.0)]), &mut state, 0.84, 1.0).unwrap();
    let held = state.bins();
    let longer = spectrum(&[(0.0, 1.0), (10.0, 1.0), (20.0, 1.0)]);
    assert_eq!(smooth(&longer, &mut state, 0.84, 1.0), Err(PipelineError::BinCountMismatch));
    assert_eq!(state.bins(), held);
    let shorter = spectrum(&[(0.0, 1.0)]);
    assert_eq!(
        SpectrumSmoother::smooth(&shorter, &mut state, &[0]),
        Err(PipelineError::BinCountMismatch)
    );
    assert_eq!(state.bins(), held);
}

#[test]
fn decayed_magnitudes_of_another_size_are_refused() {
    let mut state = SmootherState::new();
    let new = spectrum(&[(0.0, 1.0), (10.0, 1.0)]);
    assert_eq!(SpectrumSmoother::smooth(&new, &mut state, &[0]), Err(PipelineError::BinCountMismatch));
    assert_eq!(state.len(), 0);
    assert_eq!(
        SpectrumSmoother::smooth(&new, &mut state, &[0, 0, 0]),
        Err(PipelineError::BinCountMismatch)
    );
    assert!(SpectrumSmoother::smooth(&new, &mut state, &[0, 0]).is_ok());
}

#[test]
fn returned_spectrum_is_a_copy() {
    let mut state = SmootherState::new();
    let mut out = smooth(&spectrum(&[(0.0, 1.0)]), &mut state, 0.84, 1.0).unwrap();
    out[0].magnitude = 9.0f32.to_bits();
    assert_eq!(magnitudes(&state.bins()), vec![1.0]);
}
