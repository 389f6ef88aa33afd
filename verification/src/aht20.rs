//! Readings of the AHT20 humidity and temperature sensor.
use vstd::prelude::*;

verus! {

/// A successful reading: raw 20-bit humidity `h` and temperature `t`.
#[derive(Debug, Clone, Copy, PartialEq, Eq, Structural)]
pub struct SensorOk {
    pub h: u32,
    pub t: u32,
}

/// Why a reading failed.
#[derive(Debug, Clone, Copy, PartialEq, Eq, Structural)]
pub enum SensorErr {
    Uncalibrated,
    Bus,
    CheckSum,
    Uninitialized,
}

/// The outcome of a reading: `Failure` holds why it failed, `Success` the
/// values read.
#[derive(Debug, Clone, Copy, PartialEq, Eq, Structural)]
pub enum SensorResult {
    Failure(SensorErr),
    Success(SensorOk),
}

} // verus!
