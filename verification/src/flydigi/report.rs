//! Input reports: buttons, sticks, triggers and motion.

use super::{CMD_INPUT_REPORT, INPUT_REPORT_LEN};
use crate::controller::button;
use crate::controller::{ControllerState, ImuSample};
use vstd::prelude::*;

verus! {

/// The signed number whose big-endian bytes are `hi` and `lo`.
pub open spec fn be_i16_value(hi: u8, lo: u8) -> i16 {
    let unsigned = hi as int * 256 + lo as int;
    (if unsigned < 0x8000 {
        unsigned
    } else {
        unsigned - 0x1_0000
    }) as i16
}

pub fn be_i16(b: &[u8]) -> (value: i16)
    requires
        b@.len() >= 2,
    ensures
        value == be_i16_value(b@[0], b@[1]),
{
    let unsigned: i32 = b[0] as i32 * 256 + b[1] as i32;
    if unsigned < 0x8000 {
        unsigned as i16
    } else {
        (unsigned - 0x1_0000) as i16
    }
}

/// The opposite of `v`, or the largest value where sixteen bits hold no opposite.
pub open spec fn saturating_opposite(v: i16) -> i16 {
    if v == i16::MIN {
        i16::MAX
    } else {
        (-v) as i16
    }
}

fn saturating_opposite_of(v: i16) -> (opposite: i16)
    ensures
        opposite == saturating_opposite(v),
{
    if v == i16::MIN {
        i16::MAX
    } else {
        -v
    }
}

/// `bit` where the control is held.
pub open spec fn held(pressed: bool, bit: u32) -> u32 {
    if pressed {
        bit
    } else {
        0
    }
}

/// The directions that the low half of a report's first button byte names: the
/// four sides and the four corners. Any other pattern names none.
pub open spec fn dpad_bits(low: u8) -> u32 {
    if low == 0x01 {
        button::DPAD_UP
    } else if low == 0x03 {
        button::DPAD_UP | button::DPAD_RIGHT
    } else if low == 0x02 {
        button::DPAD_RIGHT
    } else if low == 0x06 {
        button::DPAD_RIGHT | button::DPAD_DOWN
    } else if low == 0x04 {
        button::DPAD_DOWN
    } else if low == 0x0C {
        button::DPAD_DOWN | button::DPAD_LEFT
    } else if low == 0x08 {
        button::DPAD_LEFT
    } else if low == 0x09 {
        button::DPAD_LEFT | button::DPAD_UP
    } else {
        0
    }
}

/// The button word of a report whose four button bytes are given.
pub open spec fn button_bits(b0: u8, b1: u8, b2: u8, b3: u8) -> u32 {
    dpad_bits(b0 & 0x0F) | held(b0 & 0x10 != 0, button::A) | held(b0 & 0x20 != 0, button::B) | held(
        b0 & 0x40 != 0,
        button::VIEW,
    ) | held(b0 & 0x80 != 0, button::X) | held(b1 & 0x01 != 0, button::Y) | held(
        b1 & 0x02 != 0,
        button::MENU,
    ) | held(b1 & 0x04 != 0, button::L) | held(b1 & 0x08 != 0, button::R) | held(
        b1 & 0x40 != 0,
        button::L3,
    ) | held(b1 & 0x80 != 0, button::R3) | held(b2 & 0x04 != 0, button::L4) | held(
        b2 & 0x08 != 0,
        button::R4,
    ) | held(b2 & 0x10 != 0, button::L5) | held(b2 & 0x20 != 0, button::R5) | held(
        b3 & 0x08 != 0,
        button::STEAM,
    )
}

fn held_bit(pressed: bool, bit: u32) -> (bits: u32)
    ensures
        bits == held(pressed, bit),
{
    if pressed {
        bit
    } else {
        0
    }
}

fn decode_dpad(low: u8) -> (bits: u32)
    ensures
        bits == dpad_bits(low),
{
    match low {
        0x01 => button::DPAD_UP,
        0x03 => button::DPAD_UP | button::DPAD_RIGHT,
        0x02 => button::DPAD_RIGHT,
        0x06 => button::DPAD_RIGHT | button::DPAD_DOWN,
        0x04 => button::DPAD_DOWN,
        0x0C => button::DPAD_DOWN | button::DPAD_LEFT,
        0x08 => button::DPAD_LEFT,
        0x09 => button::DPAD_LEFT | button::DPAD_UP,
        _ => 0,
    }
}

// M1 to M4, the rear paddles, are in the third byte.
fn decode_buttons(b0: u8, b1: u8, b2: u8, b3: u8) -> (buttons: u32)
    ensures
        buttons == button_bits(b0, b1, b2, b3),
{
    decode_dpad(b0 & 0x0F) | held_bit(b0 & 0x10 != 0, button::A) | held_bit(
        b0 & 0x20 != 0,
        button::B,
    ) | held_bit(b0 & 0x40 != 0, button::VIEW) | held_bit(b0 & 0x80 != 0, button::X) | held_bit(
        b1 & 0x01 != 0,
        button::Y,
    ) | held_bit(b1 & 0x02 != 0, button::MENU) | held_bit(b1 & 0x04 != 0, button::L) | held_bit(
        b1 & 0x08 != 0,
        button::R,
    ) | held_bit(b1 & 0x40 != 0, button::L3) | held_bit(b1 & 0x80 != 0, button::R3) | held_bit(
        b2 & 0x04 != 0,
        button::L4,
    ) | held_bit(b2 & 0x08 != 0, button::R4) | held_bit(b2 & 0x10 != 0, button::L5) | held_bit(
        b2 & 0x20 != 0,
        button::R5,
    ) | held_bit(b3 & 0x08 != 0, button::STEAM)
}

/// The trigger level for a raw pull of `v`: a byte stretched to sixteen bits and
/// capped at the largest signed value.
pub open spec fn trigger_level(v: u8) -> u16 {
    if v * 257 <= i16::MAX {
        (v * 257) as u16
    } else {
        i16::MAX as u16
    }
}

fn decode_trigger(v: u8) -> (level: u16)
    ensures
        level == trigger_level(v),
{
    let stretched: u16 = v as u16 * 257;
    if stretched <= 0x7FFF {
        stretched
    } else {
        0x7FFF
    }
}

/// Steps of angular rate in a raw reading: the full sixteen-bit range spans
/// 2000 degrees per second each way.
pub open spec fn gyro_steps(v: int) -> i32 {
    (v * 125) as i32
}

/// Steps of acceleration in a raw reading: 4096 counts make one g.
pub open spec fn accel_steps(v: int) -> i32 {
    v as i32
}

/// Whether the buttons, triggers and sticks of `state` are those of the input
/// report `frame`, which counts the sticks downwards.
pub open spec fn controls_reported(frame: Seq<u8>, state: ControllerState<i32>) -> bool {
    &&& state.buttons == button_bits(frame[11], frame[12], frame[13], frame[14])
    &&& state.trigger_left == trigger_level(frame[15])
    &&& state.trigger_right == trigger_level(frame[16])
    &&& state.left_stick@ == seq![
        be_i16_value(frame[3], frame[4]),
        saturating_opposite(be_i16_value(frame[5], frame[6])),
    ]
    &&& state.right_stick@ == seq![
        be_i16_value(frame[7], frame[8]),
        saturating_opposite(be_i16_value(frame[9], frame[10])),
    ]
}

/// The angular rates in the input report `frame`, which counts Z backwards and
/// stores it before Y.
pub open spec fn gyro_reported(frame: Seq<u8>) -> Seq<i32> {
    seq![
        gyro_steps(be_i16_value(frame[17], frame[18]) as int),
        gyro_steps(be_i16_value(frame[21], frame[22]) as int),
        gyro_steps(-be_i16_value(frame[19], frame[20])),
    ]
}

/// The accelerations in the input report `frame`, in the same order.
pub open spec fn accel_reported(frame: Seq<u8>) -> Seq<i32> {
    seq![
        accel_steps(be_i16_value(frame[23], frame[24]) as int),
        accel_steps(be_i16_value(frame[27], frame[28]) as int),
        accel_steps(-be_i16_value(frame[25], frame[26])),
    ]
}

/// Whether `frame` is an input report.
pub open spec fn is_input_report(frame: Seq<u8>) -> bool {
    frame.len() >= INPUT_REPORT_LEN && frame[2] == CMD_INPUT_REPORT
}

fn be_i16_at(frame: &[u8], at: usize) -> (value: i16)
    requires
        at + 2 <= frame@.len(),
    ensures
        value == be_i16_value(frame@[at as int], frame@[at + 1]),
{
    assert(at + 2 <= frame.len());
    be_i16(&frame[at..at + 2])
}

/// Decodes an input report; `None` for any other frame.
pub fn parse_input_report(frame: &[u8]) -> (state: Option<ControllerState<i32>>)
    ensures
        state is Some <==> is_input_report(frame@),
        state matches Some(s) ==> {
            &&& controls_reported(frame@, s)
            &&& s.imu.timestamp_us == 0
            &&& s.imu.gyro_dps@ == gyro_reported(frame@)
            &&& s.imu.accel_g@ == accel_reported(frame@)
        },
{
    if frame.len() < INPUT_REPORT_LEN || frame[2] != CMD_INPUT_REPORT {
        return None;
    }
    let buttons = decode_buttons(frame[11], frame[12], frame[13], frame[14]);
    let left_stick = [be_i16_at(frame, 3), saturating_opposite_of(be_i16_at(frame, 5))];
    let right_stick = [be_i16_at(frame, 7), saturating_opposite_of(be_i16_at(frame, 9))];

    let gyro_x = be_i16_at(frame, 17);
    let gyro_z: i32 = -(be_i16_at(frame, 19) as i32);
    let gyro_y = be_i16_at(frame, 21);
    let gyro_dps = [gyro_x as i32 * 125, gyro_y as i32 * 125, gyro_z * 125];

    let accel_x = be_i16_at(frame, 23);
    let accel_z: i32 = -(be_i16_at(frame, 25) as i32);
    let accel_y = be_i16_at(frame, 27);
    let accel_g = [accel_x as i32, accel_y as i32, accel_z];

    Some(
        ControllerState {
            buttons,
            trigger_left: decode_trigger(frame[15]),
            trigger_right: decode_trigger(frame[16]),
            left_stick,
            right_stick,
            imu: ImuSample { timestamp_us: 0, accel_g, gyro_dps },
        },
    )
}

/// Each button of the word follows one bit of the report, and no report sets a
/// bit that belongs to no button of the pad.
pub proof fn buttons_follow_their_bits(b0: u8, b1: u8, b2: u8, b3: u8)
    by (bit_vector)
    ensures
        button_bits(b0, b1, b2, b3) & button::A != 0 <==> b0 & 0x10 != 0,
        button_bits(b0, b1, b2, b3) & button::B != 0 <==> b0 & 0x20 != 0,
        button_bits(b0, b1, b2, b3) & button::VIEW != 0 <==> b0 & 0x40 != 0,
        button_bits(b0, b1, b2, b3) & button::X != 0 <==> b0 & 0x80 != 0,
        button_bits(b0, b1, b2, b3) & button::Y != 0 <==> b1 & 0x01 != 0,
        button_bits(b0, b1, b2, b3) & button::MENU != 0 <==> b1 & 0x02 != 0,
        button_bits(b0, b1, b2, b3) & button::L != 0 <==> b1 & 0x04 != 0,
        button_bits(b0, b1, b2, b3) & button::R != 0 <==> b1 & 0x08 != 0,
        button_bits(b0, b1, b2, b3) & button::L3 != 0 <==> b1 & 0x40 != 0,
        button_bits(b0, b1, b2, b3) & button::R3 != 0 <==> b1 & 0x80 != 0,
        button_bits(b0, b1, b2, b3) & button::L4 != 0 <==> b2 & 0x04 != 0,
        button_bits(b0, b1, b2, b3) & button::R4 != 0 <==> b2 & 0x08 != 0,
        button_bits(b0, b1, b2, b3) & button::L5 != 0 <==> b2 & 0x10 != 0,
        button_bits(b0, b1, b2, b3) & button::R5 != 0 <==> b2 & 0x20 != 0,
        button_bits(b0, b1, b2, b3) & button::STEAM != 0 <==> b3 & 0x08 != 0,
        button_bits(b0, b1, b2, b3) & button::DPAD_UP != 0 <==> (b0 & 0x0F == 0x01 || b0 & 0x0F
            == 0x03 || b0 & 0x0F == 0x09),
        button_bits(b0, b1, b2, b3) & button::DPAD_RIGHT != 0 <==> (b0 & 0x0F == 0x02 || b0 & 0x0F
            == 0x03 || b0 & 0x0F == 0x06),
        button_bits(b0, b1, b2, b3) & button::DPAD_DOWN != 0 <==> (b0 & 0x0F == 0x04 || b0 & 0x0F
            == 0x06 || b0 & 0x0F == 0x0C),
        button_bits(b0, b1, b2, b3) & button::DPAD_LEFT != 0 <==> (b0 & 0x0F == 0x08 || b0 & 0x0F
            == 0x09 || b0 & 0x0F == 0x0C),
        button_bits(b0, b1, b2, b3) & button::QAM == 0,
        button_bits(b0, b1, b2, b3) <= 0x000F_FFFF,
{
}

/// No report points the directional pad two opposite ways.
pub proof fn dpad_never_opposes_itself(b0: u8, b1: u8, b2: u8, b3: u8)
    by (bit_vector)
    ensures
        button_bits(b0, b1, b2, b3) & button::DPAD_UP == 0 || button_bits(b0, b1, b2, b3)
            & button::DPAD_DOWN == 0,
        button_bits(b0, b1, b2, b3) & button::DPAD_LEFT == 0 || button_bits(b0, b1, b2, b3)
            & button::DPAD_RIGHT == 0,
{
}

} // verus!
