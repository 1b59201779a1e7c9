//! The settings that the user edits and the device backends follow.

use vstd::prelude::*;

verus! {

/// Where one output axis takes its reading from.
#[derive(Debug, Clone, Copy, PartialEq, Eq, Structural)]
pub struct Axis {
    /// The raw axis: 0 for X, 1 for Y, anything above for Z.
    pub source: u8,
    pub invert: bool,
}

/// The three output axes of a sensor.
#[derive(Debug, Clone, Copy, PartialEq, Eq, Structural)]
pub struct AxisMap {
    pub x: Axis,
    pub y: Axis,
    pub z: Axis,
}

/// The user's settings.
#[derive(Debug, Clone, Copy, PartialEq, Eq, Structural)]
pub struct Config {
    pub gyro: AxisMap,
    pub accel: AxisMap,
    /// The bits of a single-precision number; only carried here.
    pub gyro_sensitivity: u32,
    pub auto_calibrate: bool,
    pub port: u16,
    pub expose_to_network: bool,
    pub start_minimized: bool,
    pub close_to_tray: bool,
}

/// The bits of the single-precision number one.
pub const UNIT_SENSITIVITY: u32 = 0x3F80_0000;

impl Axis {
    /// The index of the raw axis that `source` selects.
    pub open spec fn index(self) -> int {
        if self.source <= 2 {
            self.source as int
        } else {
            2
        }
    }

    /// The reading of this axis out of the three raw ones.
    pub open spec fn applied(self, raw: Seq<i32>) -> i32 {
        if self.invert {
            (-raw[self.index()]) as i32
        } else {
            raw[self.index()]
        }
    }

    pub fn apply(&self, raw: [i32; 3]) -> (reading: i32)
        requires
            self.invert ==> raw@[self.index()] > i32::MIN,
        ensures
            reading == self.applied(raw@),
    {
        let picked: i32 = if self.source == 0 {
            raw[0]
        } else if self.source == 1 {
            raw[1]
        } else {
            raw[2]
        };
        if self.invert {
            -picked
        } else {
            picked
        }
    }
}

impl AxisMap {
    /// The three output readings.
    pub open spec fn applied(self, raw: Seq<i32>) -> Seq<i32> {
        seq![self.x.applied(raw), self.y.applied(raw), self.z.applied(raw)]
    }

    pub fn apply(&self, raw: [i32; 3]) -> (readings: [i32; 3])
        requires
            forall|i: int| 0 <= i < 3 ==> #[trigger] raw@[i] > i32::MIN,
        ensures
            readings@ == self.applied(raw@),
    {
        [self.x.apply(raw), self.y.apply(raw), self.z.apply(raw)]
    }
}

/// Flipping the inversion of an axis turns its reading round.
pub proof fn flipping_invert_turns_the_reading_round(axis: Axis, raw: Seq<i32>)
    requires
        raw[axis.index()] > i32::MIN,
    ensures
        (Axis { invert: !axis.invert, ..axis }).applied(raw) == -axis.applied(raw),
{
}

/// Swapping the sources of two axes swaps their readings, where neither or both
/// are inverted.
pub proof fn swapping_sources_swaps_readings(a: Axis, b: Axis, raw: Seq<i32>)
    requires
        a.invert == b.invert,
    ensures
        (Axis { source: b.source, ..a }).applied(raw) == b.applied(raw),
        (Axis { source: a.source, ..b }).applied(raw) == a.applied(raw),
{
}

/// The raw reading that `source` selects.
pub open spec fn selected(raw: Seq<i32>, source: u8) -> i32 {
    match source {
        0 => raw[0],
        1 => raw[1],
        _ => raw[2],
    }
}

/// Each output of a map is the raw reading that its own source selects, turned round
/// exactly where its own axis is inverted.
pub proof fn outputs_follow_their_own_axes(map: AxisMap, raw: Seq<i32>)
    requires
        raw.len() == 3,
        forall|i: int| 0 <= i < 3 ==> #[trigger] raw[i] > i32::MIN,
    ensures
        map.applied(raw).len() == 3,
        map.x.invert ==> map.applied(raw)[0] + selected(raw, map.x.source) == 0,
        map.y.invert ==> map.applied(raw)[1] + selected(raw, map.y.source) == 0,
        map.z.invert ==> map.applied(raw)[2] + selected(raw, map.z.source) == 0,
        !map.x.invert ==> map.applied(raw)[0] == selected(raw, map.x.source),
        !map.y.invert ==> map.applied(raw)[1] == selected(raw, map.y.source),
        !map.z.invert ==> map.applied(raw)[2] == selected(raw, map.z.source),
{
    assert(raw[0] > i32::MIN && raw[1] > i32::MIN && raw[2] > i32::MIN);
}

/// Flipping the inversion of one axis of a map turns exactly that output round and
/// leaves the other two.
pub proof fn flipping_an_axis_turns_one_output_round(map: AxisMap, raw: Seq<i32>)
    requires
        raw.len() == 3,
        forall|i: int| 0 <= i < 3 ==> #[trigger] raw[i] > i32::MIN,
    ensures
        ({
            let flipped = AxisMap { x: Axis { invert: !map.x.invert, ..map.x }, ..map };
            &&& flipped.applied(raw)[0] == -map.applied(raw)[0]
            &&& flipped.applied(raw)[1] == map.applied(raw)[1]
            &&& flipped.applied(raw)[2] == map.applied(raw)[2]
        }),
        ({
            let flipped = AxisMap { y: Axis { invert: !map.y.invert, ..map.y }, ..map };
            &&& flipped.applied(raw)[0] == map.applied(raw)[0]
            &&& flipped.applied(raw)[1] == -map.applied(raw)[1]
            &&& flipped.applied(raw)[2] == map.applied(raw)[2]
        }),
        ({
            let flipped = AxisMap { z: Axis { invert: !map.z.invert, ..map.z }, ..map };
            &&& flipped.applied(raw)[0] == map.applied(raw)[0]
            &&& flipped.applied(raw)[1] == map.applied(raw)[1]
            &&& flipped.applied(raw)[2] == -map.applied(raw)[2]
        }),
{
    assert(raw[0] > i32::MIN && raw[1] > i32::MIN && raw[2] > i32::MIN);
}

/// The map that takes each axis from its own, upright, changes nothing.
pub proof fn the_straight_map_changes_nothing(map: AxisMap, raw: Seq<i32>)
    requires
        raw.len() == 3,
        map.x == (Axis { source: 0, invert: false }),
        map.y == (Axis { source: 1, invert: false }),
        map.z == (Axis { source: 2, invert: false }),
    ensures
        map.applied(raw) == raw,
{
    assert(map.applied(raw) =~= raw);
}

} // verus!
