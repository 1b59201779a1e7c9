//! The Flydigi V2 protocol as the Vader 5 Pro speaks it: unnumbered 32-byte
//! reports on one vendor interface, which carry a magic-prefixed command and
//! response channel and a stream of input reports.

use crate::config::{AxisMap, Config, UNIT_SENSITIVITY};
use crate::controller::{ControllerState, ImuSample};
use crate::hid::HidInterface;
use frame::{normalize_frame, normalized};
use handshake::{FlydigiError, Request};
use report::{
    accel_reported, controls_reported, gyro_reported, is_input_report, parse_input_report,
};
use vstd::prelude::*;

pub mod bytes;
pub mod frame;
pub mod handshake;
pub mod laws;
pub mod report;

verus! {

pub const VID_FLYDIGI_V2: u16 = 0x37D7;

pub const PID_FLYDIGI_VADER: u16 = 0x2401;

pub const USAGE_PAGE_VENDOR: u16 = 0xFFA0;

pub const PACKET_LEN: usize = 32;

pub const MAGIC1: u8 = 0x5A;

pub const MAGIC2: u8 = 0xA5;

pub const CMD_REPORT_ID: u8 = 0x03;

pub const CMD_GET_INFO: u8 = 0x01;

pub const CMD_GET_STATUS: u8 = 0x10;

pub const CMD_ACQUIRE: u8 = 0x1C;

pub const CMD_INPUT_REPORT: u8 = 0xEF;

/// The oldest firmware of the Vader 5 Pro whose reports are understood.
pub const MIN_FIRMWARE_VADER5_PRO: u16 = 0x7141;

pub const DEVICE_ID_VADER5_PRO: u8 = 130;

/// Shortest frame that the command channel carries.
pub const FRAME_LEN: usize = 31;

/// Shortest input report.
pub const INPUT_REPORT_LEN: usize = 29;

/// What one bounded read of the interface gave.
#[derive(Debug, PartialEq)]
pub enum HidRead {
    /// Nothing arrived in time.
    Nothing,
    /// A report, filled up with zeros.
    Report([u8; PACKET_LEN]),
    /// The system refused, with its reason.
    Failed(String),
}

/// Nanoseconds after which the pad is acquired anew: it lets go of its own accord.
pub const ACQUIRE_HEARTBEAT_INTERVAL: u64 = 30_000_000_000;

/// Nanoseconds of silence after which the pad is acquired anew.
pub const INPUT_SILENCE_REACQUIRE: u64 = 100_000_000;

/// Microseconds between two motion samples.
pub const SENSOR_INTERVAL_US: u32 = 2000;

/// Whether `info` is the vendor interface of a pad that may be a Vader 5 Pro.
pub open spec fn candidate(info: HidInterface) -> bool {
    info.vendor_id == VID_FLYDIGI_V2 && info.product_id == PID_FLYDIGI_VADER && info.usage_page
        == USAGE_PAGE_VENDOR
}

/// The candidates of a list of interfaces, in its order.
pub open spec fn candidates(infos: Seq<HidInterface>) -> Seq<HidInterface> {
    infos.filter(|info: HidInterface| candidate(info))
}

pub fn is_candidate(info: &HidInterface) -> (yes: bool)
    ensures
        yes == candidate(*info),
{
    info.vendor_id == VID_FLYDIGI_V2 && info.product_id == PID_FLYDIGI_VADER && info.usage_page
        == USAGE_PAGE_VENDOR
}

pub fn list_candidates(infos: &Vec<HidInterface>) -> (found: Vec<HidInterface>)
    ensures
        found@ == candidates(infos@),
{
    let mut found: Vec<HidInterface> = Vec::new();
    let mut at: usize = 0;
    proof {
        reveal(Seq::filter);
    }
    while at < infos.len()
        invariant
            at <= infos@.len(),
            found@ == candidates(infos@.take(at as int)),
        decreases infos@.len() - at,
    {
        proof {
            reveal(Seq::filter);
            assert(infos@.take(at + 1).drop_last() =~= infos@.take(at as int));
        }
        if is_candidate(&infos[at]) {
            found.push(infos[at]);
        }
        at += 1;
    }
    assert(infos@.take(at as int) =~= infos@);
    found
}

/// The name of a pad, whatever its product number.
pub fn pid_label(_pid: u16) -> (label: &'static str)
    ensures
        label@ == "Flydigi Vader 5 Pro"@,
{
    "Flydigi Vader 5 Pro"
}

/// An acquired pad. Times are in nanoseconds of one clock.
#[derive(Debug, Clone, Copy, PartialEq)]
pub struct OpenSlot {
    pub last_acquire: u64,
    pub last_input: u64,
    pub sensor_timestamp_us: u32,
    pub gyro_map: AxisMap,
    pub accel_map: AxisMap,
    /// The bits of a single-precision number.
    pub gyro_sensitivity: u32,
    pub auto_calibrate: bool,
    pub cfg_generation: u64,
    /// The gyro calibration is to start over with the next sample.
    pub reset_due: bool,
    pub interface_number: i32,
    pub product_id: u16,
    pub input_reports_seen: u32,
}

/// A decoded sample, and what is still to be done to its angular rates, in this
/// order.
#[derive(Debug, Clone, Copy, PartialEq)]
pub struct Reading {
    pub state: ControllerState<i32>,
    /// Start the gyro calibration over.
    pub reset_calibration: bool,
    /// Take the calibrated bias off.
    pub calibrate: bool,
    /// Multiply by the single-precision number of these bits.
    pub scale: Option<u32>,
}

impl OpenSlot {
    /// A pad acquired at `now`, under the settings of that moment.
    pub open spec fn fresh(
        info: HidInterface,
        now: u64,
        generation: u64,
        cfg: Config,
        sensitivity: u32,
    ) -> OpenSlot {
        OpenSlot {
            last_acquire: now,
            last_input: now,
            sensor_timestamp_us: 0,
            gyro_map: cfg.gyro,
            accel_map: cfg.accel,
            gyro_sensitivity: sensitivity,
            auto_calibrate: cfg.auto_calibrate,
            cfg_generation: generation,
            reset_due: false,
            interface_number: info.interface_number,
            product_id: info.product_id,
            input_reports_seen: 0,
        }
    }

    /// What opening comes to: the pad where it was acquired, else why it was not.
    pub open spec fn opened(
        acquired: Result<(), FlydigiError>,
        info: HidInterface,
        now: u64,
        generation: u64,
        cfg: Config,
        sensitivity: u32,
    ) -> Result<OpenSlot, FlydigiError> {
        match acquired {
            Ok(_) => Ok(OpenSlot::fresh(info, now, generation, cfg, sensitivity)),
            Err(e) => Err(e),
        }
    }

    /// Opens the interface `info`, given what came of opening and acquiring it.
    /// `sensitivity` is the sensitivity that `cfg` amounts to.
    pub fn open(
        acquired: Result<(), FlydigiError>,
        info: &HidInterface,
        now: u64,
        generation: u64,
        cfg: &Config,
        sensitivity: u32,
    ) -> (opened: Result<OpenSlot, FlydigiError>)
        ensures
            opened == OpenSlot::opened(acquired, *info, now, generation, *cfg, sensitivity),
    {
        match acquired {
            Ok(_) => Ok(
                OpenSlot {
                    last_acquire: now,
                    last_input: now,
                    sensor_timestamp_us: 0,
                    gyro_map: cfg.gyro,
                    accel_map: cfg.accel,
                    gyro_sensitivity: sensitivity,
                    auto_calibrate: cfg.auto_calibrate,
                    cfg_generation: generation,
                    reset_due: false,
                    interface_number: info.interface_number,
                    product_id: info.product_id,
                    input_reports_seen: 0,
                },
            ),
            Err(e) => Err(e),
        }
    }

    /// Whether at `now` the pad is to be acquired anew.
    pub open spec fn reacquire_due(self, now: u64) -> bool {
        now - self.last_acquire >= ACQUIRE_HEARTBEAT_INTERVAL || now - self.last_input
            >= INPUT_SILENCE_REACQUIRE
    }

    /// The requests to send before a read at `now`.
    pub open spec fn requests_due(self, now: u64) -> Seq<Request> {
        if self.reacquire_due(now) {
            seq![Request::Acquire, Request::Info]
        } else {
            seq![]
        }
    }

    /// The slot once those requests are handed out.
    pub open spec fn reacquired(self, now: u64) -> OpenSlot {
        OpenSlot {
            last_acquire: if self.reacquire_due(now) {
                now
            } else {
                self.last_acquire
            },
            ..self
        }
    }

    /// The first step of a read that begins at `now`: gives the requests to send, in
    /// this order. The pad counts as acquired whether or not they can be sent, and
    /// the read goes on either way.
    pub fn reacquire(&mut self, now: u64) -> (requests: Vec<Request>)
        ensures
            requests@ == old(self).requests_due(now),
            *final(self) == old(self).reacquired(now),
    {
        let mut requests: Vec<Request> = Vec::new();
        if now.saturating_sub(self.last_acquire) >= ACQUIRE_HEARTBEAT_INTERVAL
            || now.saturating_sub(self.last_input) >= INPUT_SILENCE_REACQUIRE {
            requests.push(Request::Acquire);
            requests.push(Request::Info);
            self.last_acquire = now;
        }
        assert(requests@ =~= old(self).requests_due(now));
        requests
    }

    /// The slot under the settings `cfg` of `generation`.
    pub open spec fn configured(
        self,
        generation: u64,
        cfg: Config,
        sensitivity: u32,
    ) -> OpenSlot {
        if generation == self.cfg_generation {
            self
        } else {
            OpenSlot {
                gyro_map: cfg.gyro,
                accel_map: cfg.accel,
                gyro_sensitivity: sensitivity,
                auto_calibrate: cfg.auto_calibrate,
                cfg_generation: generation,
                reset_due: true,
                ..self
            }
        }
    }

    /// The second step of a read: takes over settings that changed since the last
    /// one. `sensitivity` is the sensitivity that `cfg` amounts to.
    pub fn follow_settings(&mut self, generation: u64, cfg: &Config, sensitivity: u32)
        ensures
            *final(self) == old(self).configured(generation, *cfg, sensitivity),
    {
        if generation != self.cfg_generation {
            self.gyro_map = cfg.gyro;
            self.accel_map = cfg.accel;
            self.gyro_sensitivity = sensitivity;
            self.auto_calibrate = cfg.auto_calibrate;
            self.cfg_generation = generation;
            self.reset_due = true;
        }
    }

    /// The input report in what was read, where there is one.
    pub open spec fn input_report(read: HidRead) -> Option<Seq<u8>> {
        match read {
            HidRead::Report(buf) => match normalized(buf@) {
                Some(frame) => if is_input_report(frame) {
                    Some(frame)
                } else {
                    None
                },
                None => None,
            },
            _ => None,
        }
    }

    /// The slot once `read` is taken in.
    pub open spec fn after(self, read: HidRead, now: u64) -> OpenSlot {
        let counted = OpenSlot {
            input_reports_seen: if read is Report {
                self.input_reports_seen.saturating_add(1)
            } else {
                self.input_reports_seen
            },
            ..self
        };
        if Self::input_report(read) is Some {
            OpenSlot {
                last_input: now,
                sensor_timestamp_us: self.sensor_timestamp_us.wrapping_add(SENSOR_INTERVAL_US),
                reset_due: false,
                ..counted
            }
        } else {
            counted
        }
    }

    /// Whether `reading` is what this slot makes of the input report `frame`.
    pub open spec fn reads(self, frame: Seq<u8>, reading: Reading) -> bool {
        &&& controls_reported(frame, reading.state)
        &&& reading.state.imu.timestamp_us == self.sensor_timestamp_us.wrapping_add(
            SENSOR_INTERVAL_US,
        )
        &&& reading.state.imu.gyro_dps@ == self.gyro_map.applied(gyro_reported(frame))
        &&& reading.state.imu.accel_g@ == self.accel_map.applied(accel_reported(frame))
        &&& reading.reset_calibration == self.reset_due
        &&& reading.calibrate == self.auto_calibrate
        &&& reading.scale == (if self.gyro_sensitivity == UNIT_SENSITIVITY {
            None
        } else {
            Some(self.gyro_sensitivity)
        })
    }

    /// The last step of a read: takes in what was read by `now`: a sample where it is an input report,
    /// nothing where it is another report or none arrived.
    pub fn read_one(&mut self, read: HidRead, now: u64) -> (sample: Result<
        Option<Reading>,
        FlydigiError,
    >)
        ensures
            *final(self) == old(self).after(read, now),
            sample is Err <==> read is Failed,
            read matches HidRead::Failed(e) ==> sample == Err::<Option<Reading>, _>(
                FlydigiError::Read(e),
            ),
            sample matches Ok(s) ==> {
                &&& s is Some <==> Self::input_report(read) is Some
                &&& s matches Some(reading) ==> old(self).reads(
                    Self::input_report(read).unwrap(),
                    reading,
                )
            },
    {
        let buf = match read {
            HidRead::Nothing => {
                return Ok(None);
            },
            HidRead::Failed(e) => {
                return Err(FlydigiError::Read(e));
            },
            HidRead::Report(buf) => buf,
        };
        self.input_reports_seen = self.input_reports_seen.saturating_add(1);
        let frame = match normalize_frame(buf.as_slice()) {
            Some(frame) => frame,
            None => {
                return Ok(None);
            },
        };
        let raw = match parse_input_report(frame) {
            Some(raw) => raw,
            None => {
                return Ok(None);
            },
        };
        self.last_input = now;
        self.sensor_timestamp_us = self.sensor_timestamp_us.wrapping_add(SENSOR_INTERVAL_US);
        let reset_calibration = self.reset_due;
        self.reset_due = false;
        let state = ControllerState {
            imu: ImuSample {
                timestamp_us: self.sensor_timestamp_us,
                accel_g: self.accel_map.apply(raw.imu.accel_g),
                gyro_dps: self.gyro_map.apply(raw.imu.gyro_dps),
            },
            ..raw
        };
        let scale = if self.gyro_sensitivity == UNIT_SENSITIVITY {
            None
        } else {
            Some(self.gyro_sensitivity)
        };
        Ok(Some(Reading { state, reset_calibration, calibrate: self.auto_calibrate, scale }))
    }

    /// Starts the gyro calibration over.
    pub fn recalibrate(&mut self)
        ensures
            *final(self) == (OpenSlot { reset_due: true, ..*old(self) }),
    {
        self.reset_due = true;
    }
}

} // verus!
