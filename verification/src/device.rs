//! Which of the input devices found is to be used.

use vstd::prelude::*;

verus! {

/// Why no input device could be chosen.
#[derive(Clone, Copy, Debug, PartialEq, Eq, Structural)]
pub enum DeviceError {
    /// No input device was found.
    NoDevices,
    /// Several devices were found and no index was given.
    IndexMissing,
    /// The index given names none of the devices found.
    IndexOutOfRange,
}

/// The index of the input device to use among `device_count` devices. A
/// single device is taken without asking; among several, `requested` decides.
pub fn select_input_dev(device_count: usize, requested: Option<usize>) -> (r: Result<
    usize,
    DeviceError,
>)
    ensures
        match r {
            Ok(index) => index < device_count && (device_count == 1 ==> index == 0) && (
            device_count > 1 ==> requested == Some(index)),
            Err(DeviceError::NoDevices) => device_count == 0,
            Err(DeviceError::IndexMissing) => device_count > 1 && requested.is_none(),
            Err(DeviceError::IndexOutOfRange) => device_count > 1 && requested.is_some()
                && requested.unwrap() >= device_count,
        },
{
    if device_count == 0 {
        Err(DeviceError::NoDevices)
    } else if device_count == 1 {
        Ok(0)
    } else {
        match requested {
            None => Err(DeviceError::IndexMissing),
            Some(index) => if index < device_count {
                Ok(index)
            } else {
                Err(DeviceError::IndexOutOfRange)
            },
        }
    }
}

} // verus!
