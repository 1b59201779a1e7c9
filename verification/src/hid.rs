//! HID interfaces as the system lists them.

use vstd::prelude::*;

verus! {

/// One interface of the system's list.
#[derive(Debug, Clone, Copy, PartialEq, Eq, Structural)]
pub struct HidInterface {
    pub vendor_id: u16,
    pub product_id: u16,
    pub usage_page: u16,
    pub interface_number: i32,
    /// Its place in the list.
    pub index: usize,
}

} // verus!
