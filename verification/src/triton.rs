//! Valve's Steam Controllers, as far as the rest of the library reads them. They
//! are driven and decoded by their own backend.

use vstd::prelude::*;

verus! {

pub const VID_VALVE: u16 = 0x28DE;

/// An open Steam Controller.
#[derive(Debug, Clone, Copy, PartialEq)]
pub struct OpenSlot {
    pub interface_number: i32,
    pub product_id: u16,
    /// The name of its kind.
    pub label: &'static str,
    pub input_reports_seen: u32,
    /// The gyro calibration is to start over before the next read.
    pub reset_due: bool,
}

impl OpenSlot {
    /// Starts the gyro calibration over.
    pub fn recalibrate(&mut self)
        ensures
            *final(self) == (OpenSlot { reset_due: true, ..*old(self) }),
    {
        self.reset_due = true;
    }
}

} // verus!
