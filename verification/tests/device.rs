use pika_pulse::device::select_input_dev;
use pika_pulse::device::DeviceError;
use pika_pulse::recording::wav_spec_from_config;
use pika_pulse::recording::WavFormat;

#[test]
fn single_device_is_taken_without_asking() {
    assert_eq!(select_input_dev(1, None), Ok(0));
    assert_eq!(select_input_dev(1, Some(7)), Ok(0));
}

#[test]
fn requested_device_is_taken_among_several() {
    assert_eq!(select_input_dev(3, Some(0)), Ok(0));
    assert_eq!(select_input_dev(3, Some(2)), Ok(2));
}

#[test]
fn no_devices_is_an_error() {
    assert_eq!(select_input_dev(0, None), Err(DeviceError::NoDevices));
    assert_eq!(select_input_dev(0, Some(0)), Err(DeviceError::NoDevices));
}

#[test]
fn several_devices_need_an_index() {
    assert_eq!(select_input_dev(2, None), Err(DeviceError::IndexMissing));
}

#[test]
fn index_beyond_the_devices_is_an_error() {
    assert_eq!(select_input_dev(2, Some(2)), Err(DeviceError::IndexOutOfRange));
    assert_eq!(select_input_dev(2, Some(usize::MAX)), Err(DeviceError::IndexOutOfRange));
}

#[test]
fn recording_format_is_32_bit_ieee() {
    assert_eq!(
        wav_spec_from_config(2, 48000),
        WavFormat { channels: 2, sample_rate: 48000, bits_per_sample: 32, float_samples: true }
    );
    assert_eq!(wav_spec_from_config(1, 44100).channels, 1);
    assert_eq!(wav_spec_from_config(1, 44100).sample_rate, 44100);
}
