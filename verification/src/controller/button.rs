//! The bits of a controller's button word.

use vstd::prelude::*;

verus! {

pub const A: u32 = 0x0000_0001;

pub const B: u32 = 0x0000_0002;

pub const X: u32 = 0x0000_0004;

pub const Y: u32 = 0x0000_0008;

pub const QAM: u32 = 0x0000_0010;

pub const R3: u32 = 0x0000_0020;

pub const VIEW: u32 = 0x0000_0040;

pub const R4: u32 = 0x0000_0080;

pub const R5: u32 = 0x0000_0100;

pub const R: u32 = 0x0000_0200;

pub const DPAD_DOWN: u32 = 0x0000_0400;

pub const DPAD_RIGHT: u32 = 0x0000_0800;

pub const DPAD_LEFT: u32 = 0x0000_1000;

pub const DPAD_UP: u32 = 0x0000_2000;

pub const MENU: u32 = 0x0000_4000;

pub const L3: u32 = 0x0000_8000;

pub const STEAM: u32 = 0x0001_0000;

pub const L4: u32 = 0x0002_0000;

pub const L5: u32 = 0x0004_0000;

pub const L: u32 = 0x0008_0000;

} // verus!
