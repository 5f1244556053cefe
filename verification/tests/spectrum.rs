use pika_pulse::error::PipelineError;
use pika_pulse::spectrum::peak_bin;
use pika_pulse::spectrum::SpectrumAnalyzer;
use pika_pulse::spectrum::SpectrumBin;
use pika_pulse::spectrum::MAX_FRAME_LEN;
use pika_pulse::spectrum::MIN_FRAME_LEN;
use spectrum_analyzer::samples_fft_to_spectrum;
use spectrum_analyzer::scaling::divide_by_N;
use spectrum_analyzer::FrequencyLimit;

fn hann(frame: &[f32]) -> Vec<f32> {
    let last = (frame.len() - 1) as f32;
    frame
        .iter()
        .enumerate()
        .map(|(i, x)| x * 0.5 * (1.0 - (2.0 * std::f32::consts::PI * i as f32 / last).cos()))
        .collect()
}

fn analyze(frame: &[u32], sample_rate_hz: u32) -> Result<Vec<SpectrumBin>, PipelineError> {
    SpectrumAnalyzer::bins_for(frame.len())?;
    let samples: Vec<f32> = frame.iter().map(|b| f32::from_bits(*b)).collect();
    let spectrum =
        samples_fft_to_spectrum(&hann(&samples), sample_rate_hz, FrequencyLimit::All, Some(&divide_by_N))
            .unwrap();
    Ok(spectrum
        .data()
        .iter()
        .map(|(f, m)| SpectrumBin { frequency: f.val().to_bits(), magnitude: m.val().to_bits() })
        .collect())
}

fn sine(frequency: f32, sample_rate_hz: u32, amplitude: f32, len: usize) -> Vec<u32> {
    (0..len)
        .map(|i| {
            let t = i as f32 / sample_rate_hz as f32;
            (amplitude * (2.0 * std::f32::consts::PI * frequency * t).sin()).to_bits()
        })
        .collect()
}

fn peak_frequency(spectrum: &[SpectrumBin]) -> f32 {
    f32::from_bits(spectrum[peak_bin(spectrum).unwrap()].frequency)
}

fn with_magnitudes(magnitudes: &[f32]) -> Vec<SpectrumBin> {
    magnitudes
        .iter()
        .enumerate()
        .map(|(k, m)| SpectrumBin { frequency: (k as f32).to_bits(), magnitude: m.to_bits() })
        .collect()
}

#[test]
fn peak_is_the_first_bin_with_the_largest_magnitude() {
    assert_eq!(peak_bin(&with_magnitudes(&[0.0, 0.5, 2.0, 1.0])), Some(2));
    assert_eq!(peak_bin(&with_magnitudes(&[3.0, 0.5, 3.0, 1.0])), Some(0));
    assert_eq!(peak_bin(&with_magnitudes(&[0.0, 0.0, 0.0])), Some(0));
    assert_eq!(peak_bin(&with_magnitudes(&[-0.0, 0.0])), Some(0));
    assert_eq!(peak_bin(&with_magnitudes(&[1.0])), Some(0));
    assert_eq!(peak_bin(&with_magnitudes(&[1.0, 2.0, 3.0, f32::INFINITY])), Some(3));
}

#[test]
fn peak_of_no_bins_is_none() {
    assert_eq!(peak_bin(&[]), None);
}

#[test]
fn peak_passes_over_what_is_no_number() {
    assert_eq!(peak_bin(&with_magnitudes(&[f32::NAN, 1.0, 0.5])), Some(1));
    assert_eq!(peak_bin(&with_magnitudes(&[1.0, f32::NAN, 2.0])), Some(2));
    assert_eq!(peak_bin(&with_magnitudes(&[2.0, f32::NAN, 1.0])), Some(0));
    assert_eq!(peak_bin(&with_magnitudes(&[f32::NAN, f32::NAN])), Some(0));
}

#[test]
fn bin_count_is_half_the_frame_plus_one() {
    assert_eq!(SpectrumAnalyzer::bins_for(2), Ok(2));
    assert_eq!(SpectrumAnalyzer::bins_for(4), Ok(3));
    assert_eq!(SpectrumAnalyzer::bins_for(2048), Ok(1025));
    assert_eq!(SpectrumAnalyzer::bins_for(16384), Ok(8193));
    assert_eq!(MIN_FRAME_LEN, 2);
    assert_eq!(MAX_FRAME_LEN, 16384);
}

#[test]
fn frame_lengths_the_transform_does_not_take_are_refused() {
    for len in [0usize, 1, 3, 5, 6, 1000, 2047, 2049, 16385, 32768, 1 << 20, usize::MAX] {
        assert_eq!(SpectrumAnalyzer::bins_for(len), Err(PipelineError::InvalidFrameLength), "{len}");
    }
}

#[test]
fn every_accepted_length_is_one_the_transform_takes() {
    let mut len = 2usize;
    while len <= 16384 {
        let bins = SpectrumAnalyzer::bins_for(len).unwrap();
        let spectrum = analyze(&vec![0u32; len], 48000).unwrap();
        assert_eq!(spectrum.len(), bins);
        len *= 2;
    }
}

#[test]
fn silence_has_a_spectrum_of_zeros() {
    for len in [2usize, 8, 256, 2048] {
        let spectrum = analyze(&vec![0u32; len], 44100).unwrap();
        assert_eq!(spectrum.len(), len / 2 + 1);
        for bin in &spectrum {
            assert_eq!(f32::from_bits(bin.magnitude), 0.0);
        }
    }
}

#[test]
fn bins_come_in_rising_frequency_from_zero_to_half_the_rate() {
    let spectrum = analyze(&sine(440.0, 48000, 0.5, 1024), 48000).unwrap();
    assert_eq!(spectrum.len(), 513);
    for (k, bin) in spectrum.iter().enumerate() {
        assert_eq!(f32::from_bits(bin.frequency), k as f32 * (48000.0 / 1024.0));
    }
    assert_eq!(f32::from_bits(spectrum[512].frequency), 24000.0);
}

#[test]
fn sinusoid_peaks_at_the_nearest_bin() {
    for (frequency, rate, len) in [
        (1000.0f32, 48000u32, 2048usize),
        (440.0, 44100, 4096),
        (5000.0, 48000, 1024),
        (120.0, 8000, 512),
        (10000.0, 44100, 16384),
    ] {
        let spectrum = analyze(&sine(frequency, rate, 0.5, len), rate).unwrap();
        let width = rate as f32 / len as f32;
        let peak = peak_frequency(&spectrum);
        assert!((peak - frequency).abs() <= width, "{frequency} Hz peaked at {peak} Hz");
    }
}

#[test]
fn magnitude_is_normalised_by_the_frame_length() {
    // A sinusoid on a bin centre, under this window, has magnitude amplitude / 4.
    for len in [512usize, 2048] {
        let rate = 48000u32;
        let frequency = 64.0 * rate as f32 / len as f32;
        let spectrum = analyze(&sine(frequency, rate, 0.5, len), rate).unwrap();
        let got = f32::from_bits(spectrum[64].magnitude);
        assert!((got - 0.125).abs() < 0.002, "{got}");
    }
}
