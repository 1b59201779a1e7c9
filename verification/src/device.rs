//! The two HID backends behind one type, so that scanning and polling need not
//! know whose controller an interface belongs to.

use crate::controller::ControllerState;
use crate::flydigi::handshake::FlydigiError;
use crate::flydigi::{HidRead, Reading};
use crate::hid::HidInterface;
use crate::text::{append_hex, hex_text};
use crate::{flydigi, triton};
use vstd::prelude::*;
use vstd::string::*;

pub mod laws;

verus! {

/// Those that the Valve backend picked, then the Flydigi candidates of the whole
/// list.
pub open spec fn worth_opening(
    valve: Seq<HidInterface>,
    infos: Seq<HidInterface>,
) -> Seq<HidInterface> {
    valve + flydigi::candidates(infos)
}

/// Lists the interfaces worth opening.
pub fn list_candidates(valve: &Vec<HidInterface>, infos: &Vec<HidInterface>) -> (found: Vec<
    HidInterface,
>)
    ensures
        found@ == worth_opening(valve@, infos@),
{
    let mut found: Vec<HidInterface> = Vec::new();
    let mut at: usize = 0;
    while at < valve.len()
        invariant
            at <= valve@.len(),
            found@ == valve@.take(at as int),
        decreases valve@.len() - at,
    {
        found.push(valve[at]);
        at += 1;
    }
    let mut pads = flydigi::list_candidates(infos);
    found.append(&mut pads);
    found
}

/// The name of a controller of `vendor_id`. `valve_label` is what the Valve backend
/// calls it.
pub open spec fn name_by_vendor(vendor_id: u16, valve_label: Seq<char>) -> Seq<char> {
    if vendor_id == triton::VID_VALVE {
        valve_label
    } else if vendor_id == flydigi::VID_FLYDIGI_V2 {
        "Flydigi Vader 5 Pro"@
    } else {
        "?"@
    }
}

/// The name of a controller. `valve_label` is what the Valve backend calls it.
pub fn pid_label(info: &HidInterface, valve_label: &'static str) -> (label: &'static str)
    ensures
        label@ == name_by_vendor(info.vendor_id, valve_label@),
{
    if info.vendor_id == triton::VID_VALVE {
        valve_label
    } else if info.vendor_id == flydigi::VID_FLYDIGI_V2 {
        flydigi::pid_label(info.product_id)
    } else {
        "?"
    }
}

/// Why a controller could not be opened or read.
#[derive(Debug, PartialEq, Eq)]
pub enum DeviceError {
    UnsupportedVendor(u16),
    Valve(String),
    Flydigi(FlydigiError),
}

impl DeviceError {
    /// The message of this error.
    pub open spec fn text(self) -> Seq<char> {
        match self {
            DeviceError::UnsupportedVendor(vid) => "unsupported vendor "@ + hex_text(vid as nat, 4),
            DeviceError::Valve(e) => e@,
            DeviceError::Flydigi(e) => e.text(),
        }
    }

    pub fn message(&self) -> (message: String)
        ensures
            message@ == self.text(),
    {
        match self {
            DeviceError::UnsupportedVendor(vid) => {
                let mut out = String::new();
                out.append("unsupported vendor ");
                append_hex(&mut out, *vid as u64, 4);
                assert(out@ =~= self.text());
                out
            },
            DeviceError::Valve(e) => e.clone(),
            DeviceError::Flydigi(e) => e.message(),
        }
    }
}

/// An open controller of either make.
#[derive(Debug, PartialEq)]
pub enum OpenSlot {
    Valve(Box<triton::OpenSlot>),
    Flydigi(Box<flydigi::OpenSlot>),
}

/// What the backend of a slot got when it read.
#[derive(Debug, PartialEq)]
pub enum BackendRead<T> {
    /// The Valve backend decodes by itself, and counts the reports it saw.
    Valve { outcome: Result<Option<ControllerState<T>>, String>, input_reports_seen: u32 },
    Flydigi(HidRead),
}

/// A sample of either backend.
#[derive(Debug, PartialEq)]
pub enum Sample<T> {
    Finished(ControllerState<T>),
    Raw(Reading),
}

impl OpenSlot {
    /// What an opened Steam Controller, or the failure to open one, amounts to.
    pub open spec fn from_valve(opened: Result<triton::OpenSlot, String>) -> Result<
        OpenSlot,
        DeviceError,
    > {
        match opened {
            Ok(slot) => Ok(OpenSlot::Valve(Box::new(slot))),
            Err(e) => Err(DeviceError::Valve(e)),
        }
    }

    /// What an acquired pad, or the failure to acquire one, amounts to.
    pub open spec fn from_flydigi(opened: Result<flydigi::OpenSlot, FlydigiError>) -> Result<
        OpenSlot,
        DeviceError,
    > {
        match opened {
            Ok(slot) => Ok(OpenSlot::Flydigi(Box::new(slot))),
            Err(e) => Err(DeviceError::Flydigi(e)),
        }
    }

    /// Opens the interface `info` with the backend of its vendor.
    pub fn open<
        V: FnOnce() -> Result<triton::OpenSlot, String>,
        F: FnOnce() -> Result<flydigi::OpenSlot, FlydigiError>,
    >(info: &HidInterface, valve: V, flydigi: F) -> (slot: Result<OpenSlot, DeviceError>)
        requires
            info.vendor_id == triton::VID_VALVE ==> valve.requires(()),
            info.vendor_id == flydigi::VID_FLYDIGI_V2 ==> flydigi.requires(()),
        ensures
            info.vendor_id == triton::VID_VALVE ==> (exists|opened|
                #[trigger] valve.ensures((), opened) && slot == OpenSlot::from_valve(opened)),
            info.vendor_id == flydigi::VID_FLYDIGI_V2 ==> (exists|opened|
                #[trigger] flydigi.ensures((), opened) && slot == OpenSlot::from_flydigi(opened)),
            info.vendor_id != triton::VID_VALVE && info.vendor_id != flydigi::VID_FLYDIGI_V2
                ==> slot == Err::<OpenSlot, _>(DeviceError::UnsupportedVendor(info.vendor_id)),
    {
        if info.vendor_id == triton::VID_VALVE {
            match valve() {
                Ok(slot) => Ok(OpenSlot::Valve(Box::new(slot))),
                Err(e) => Err(DeviceError::Valve(e)),
            }
        } else if info.vendor_id == flydigi::VID_FLYDIGI_V2 {
            match flydigi() {
                Ok(slot) => Ok(OpenSlot::Flydigi(Box::new(slot))),
                Err(e) => Err(DeviceError::Flydigi(e)),
            }
        } else {
            Err(DeviceError::UnsupportedVendor(info.vendor_id))
        }
    }

    /// Whether `read` comes from the backend of this slot.
    pub open spec fn same_backend<T>(self, read: BackendRead<T>) -> bool {
        self is Valve <==> read is Valve
    }

    /// The slot once `read` is taken in.
    pub open spec fn after<T>(self, read: BackendRead<T>, now: u64) -> OpenSlot {
        match (self, read) {
            (OpenSlot::Valve(s), BackendRead::Valve { input_reports_seen, .. }) => OpenSlot::Valve(
                Box::new(triton::OpenSlot { input_reports_seen, reset_due: false, ..*s }),
            ),
            (OpenSlot::Flydigi(s), BackendRead::Flydigi(r)) => OpenSlot::Flydigi(
                Box::new(s.after(r, now)),
            ),
            _ => self,
        }
    }

    /// Whether `sample` is what this slot makes of `read`.
    pub open spec fn gives<T>(
        self,
        read: BackendRead<T>,
        sample: Result<Option<Sample<T>>, DeviceError>,
    ) -> bool {
        match (self, read) {
            (OpenSlot::Valve(_), BackendRead::Valve { outcome, .. }) => sample == (match outcome {
                Ok(Some(state)) => Ok::<_, DeviceError>(Some(Sample::Finished(state))),
                Ok(None) => Ok(None),
                Err(e) => Err(DeviceError::Valve(e)),
            }),
            (OpenSlot::Flydigi(_), BackendRead::Flydigi(HidRead::Failed(e))) => sample == Err::<
                Option<Sample<T>>,
                _,
            >(DeviceError::Flydigi(FlydigiError::Read(e))),
            (OpenSlot::Flydigi(s), BackendRead::Flydigi(r)) => match (
                sample,
                flydigi::OpenSlot::input_report(r),
            ) {
                (Ok(None), None) => true,
                (Ok(Some(Sample::Raw(reading))), Some(frame)) => s.reads(frame, reading),
                _ => false,
            },
            _ => false,
        }
    }

    /// Takes in what the slot's backend read at `now`.
    pub fn read_one<T>(&mut self, read: BackendRead<T>, now: u64) -> (sample: Result<
        Option<Sample<T>>,
        DeviceError,
    >)
        requires
            old(self).same_backend(read),
        ensures
            *final(self) == old(self).after(read, now),
            old(self).gives(read, sample),
    {
        match self {
            OpenSlot::Valve(s) => match read {
                BackendRead::Valve { outcome, input_reports_seen } => {
                    s.input_reports_seen = input_reports_seen;
                    s.reset_due = false;
                    match outcome {
                        Ok(Some(state)) => Ok(Some(Sample::Finished(state))),
                        Ok(None) => Ok(None),
                        Err(e) => Err(DeviceError::Valve(e)),
                    }
                },
                BackendRead::Flydigi(_) => vstd::pervasive::unreached(),
            },
            OpenSlot::Flydigi(s) => match read {
                BackendRead::Flydigi(r) => match s.read_one(r, now) {
                    Ok(Some(reading)) => Ok(Some(Sample::Raw(reading))),
                    Ok(None) => Ok(None),
                    Err(e) => Err(DeviceError::Flydigi(e)),
                },
                BackendRead::Valve { .. } => vstd::pervasive::unreached(),
            },
        }
    }

    /// The slot whose gyro calibration is to start over.
    pub open spec fn recalibrating(self) -> OpenSlot {
        match self {
            OpenSlot::Valve(s) => OpenSlot::Valve(
                Box::new(triton::OpenSlot { reset_due: true, ..*s }),
            ),
            OpenSlot::Flydigi(s) => OpenSlot::Flydigi(
                Box::new(flydigi::OpenSlot { reset_due: true, ..*s }),
            ),
        }
    }

    /// Starts the gyro calibration over.
    pub fn recalibrate(&mut self)
        ensures
            *final(self) == old(self).recalibrating(),
    {
        match self {
            OpenSlot::Valve(s) => s.recalibrate(),
            OpenSlot::Flydigi(s) => s.recalibrate(),
        }
    }

    pub open spec fn spec_interface_number(self) -> i32 {
        match self {
            OpenSlot::Valve(s) => s.interface_number,
            OpenSlot::Flydigi(s) => s.interface_number,
        }
    }

    pub fn interface_number(&self) -> (number: i32)
        ensures
            number == self.spec_interface_number(),
    {
        match self {
            OpenSlot::Valve(s) => s.interface_number,
            OpenSlot::Flydigi(s) => s.interface_number,
        }
    }

    pub open spec fn spec_product_id(self) -> u16 {
        match self {
            OpenSlot::Valve(s) => s.product_id,
            OpenSlot::Flydigi(s) => s.product_id,
        }
    }

    pub fn product_id(&self) -> (id: u16)
        ensures
            id == self.spec_product_id(),
    {
        match self {
            OpenSlot::Valve(s) => s.product_id,
            OpenSlot::Flydigi(s) => s.product_id,
        }
    }

    pub open spec fn spec_input_reports_seen(self) -> u32 {
        match self {
            OpenSlot::Valve(s) => s.input_reports_seen,
            OpenSlot::Flydigi(s) => s.input_reports_seen,
        }
    }

    /// How many reports arrived since the slot was opened.
    pub fn input_reports_seen(&self) -> (seen: u32)
        ensures
            seen == self.spec_input_reports_seen(),
    {
        match self {
            OpenSlot::Valve(s) => s.input_reports_seen,
            OpenSlot::Flydigi(s) => s.input_reports_seen,
        }
    }

    pub open spec fn spec_label(self) -> Seq<char> {
        match self {
            OpenSlot::Valve(s) => s.label@,
            OpenSlot::Flydigi(_) => "Flydigi Vader 5 Pro"@,
        }
    }

    /// The name of the controller.
    pub fn label(&self) -> (label: &'static str)
        ensures
            label@ == self.spec_label(),
    {
        match self {
            OpenSlot::Valve(s) => s.label,
            OpenSlot::Flydigi(s) => flydigi::pid_label(s.product_id),
        }
    }
}

} // verus!
