//! Controller state shared by every HID backend.

use vstd::prelude::*;

pub mod button;

verus! {

/// How many controllers the server exposes at a time.
pub const MAX_CONTROLLERS: usize = 4;

/// Fixed-point steps per degree per second in an [`ImuSample`] of integers.
pub const GYRO_STEPS_PER_DPS: i32 = 2048;

/// Fixed-point steps per g in an [`ImuSample`] of integers.
pub const ACCEL_STEPS_PER_G: i32 = 4096;

/// One motion sample. The report decoders fill it with integers, in steps of
/// 1/[`GYRO_STEPS_PER_DPS`] degrees per second and of 1/[`ACCEL_STEPS_PER_G`] g,
/// which hold every reading without rounding.
#[derive(Debug, Clone, Copy, PartialEq)]
pub struct ImuSample<T> {
    pub timestamp_us: u32,
    pub accel_g: [T; 3],
    pub gyro_dps: [T; 3],
}

/// What a controller reports at one moment.
#[derive(Debug, Clone, Copy, PartialEq)]
pub struct ControllerState<T> {
    pub buttons: u32,
    pub trigger_left: u16,
    pub trigger_right: u16,
    pub left_stick: [i16; 2],
    pub right_stick: [i16; 2],
    pub imu: ImuSample<T>,
}

/// What the server is told of a controller slot.
#[derive(Debug, Clone, Copy, PartialEq)]
pub enum DeviceEvent<T> {
    Sample { slot: u8, state: ControllerState<T> },
    Disconnected { slot: u8 },
}

} // verus!
