//! What the bytes on the wire mean: reports, replies and packets, stated byte by
//! byte.

use super::frame::{
    acquire_command, info_command, info_in, normalized, on_wire, status_command,
};
use super::handshake::{answers, judged, Action, Event, FlydigiError, Request, Stage};
use super::report::{
    accel_reported, be_i16_value, buttons_follow_their_bits, controls_reported, gyro_reported,
    is_input_report, trigger_level,
};
use super::HidRead;
use crate::controller::{ControllerState, ACCEL_STEPS_PER_G, GYRO_STEPS_PER_DPS};
use vstd::prelude::*;

verus! {

/// Two bytes read as a signed number, high byte first, are the bytes of that number:
/// it encodes back to them, negative or not.
pub proof fn numbers_encode_back(hi: u8, lo: u8)
    ensures
        be_i16_value(hi, lo) as int % 0x1_0000 == hi * 256 + lo,
{
}

/// The sixteen bits at `at`.
pub open spec fn word(frame: Seq<u8>, at: int) -> int {
    frame[at] * 256 + frame[at + 1]
}

/// The horizontal stick readings encode back to the bytes of the report: what points
/// left there points left here.
pub proof fn sticks_keep_left_and_right(frame: Seq<u8>, state: ControllerState<i32>)
    requires
        controls_reported(frame, state),
    ensures
        state.left_stick@[0] as int % 0x1_0000 == word(frame, 3),
        state.right_stick@[0] as int % 0x1_0000 == word(frame, 7),
{
    numbers_encode_back(frame[3], frame[4]);
    numbers_encode_back(frame[7], frame[8]);
}

/// Where the bytes at a stick's horizontal place are those of `x`, the stick reads
/// `x`.
pub proof fn a_stick_reads_what_was_written(
    frame: Seq<u8>,
    state: ControllerState<i32>,
    x: i16,
)
    requires
        controls_reported(frame, state),
    ensures
        word(frame, 3) == x as int % 0x1_0000 ==> state.left_stick@[0] == x,
        word(frame, 7) == x as int % 0x1_0000 ==> state.right_stick@[0] == x,
{
    sticks_keep_left_and_right(frame, state);
}

/// The vertical stick readings are the opposite of those in the report; the lowest of
/// these, which has no opposite in sixteen bits, becomes the highest.
pub proof fn sticks_turn_up_and_down_round(frame: Seq<u8>, state: ControllerState<i32>)
    requires
        controls_reported(frame, state),
    ensures
        word(frame, 5) != 0x8000 ==> (state.left_stick@[1] + word(frame, 5)) % 0x1_0000 == 0,
        word(frame, 9) != 0x8000 ==> (state.right_stick@[1] + word(frame, 9)) % 0x1_0000 == 0,
        word(frame, 5) == 0x8000 ==> state.left_stick@[1] == 32767,
        word(frame, 9) == 0x8000 ==> state.right_stick@[1] == 32767,
        state.left_stick@[1] > -32768,
        state.right_stick@[1] > -32768,
{
}

/// A pull of less than half way is a level made of the trigger's byte twice; from
/// half way on it is the highest there is. Each trigger has a byte of its own.
pub proof fn triggers_stretch_their_bytes(frame: Seq<u8>, state: ControllerState<i32>)
    requires
        controls_reported(frame, state),
    ensures
        frame[15] < 128 ==> state.trigger_left as int / 256 == frame[15]
            && state.trigger_left as int % 256 == frame[15],
        frame[16] < 128 ==> state.trigger_right as int / 256 == frame[16]
            && state.trigger_right as int % 256 == frame[16],
        frame[15] >= 128 ==> state.trigger_left == 32767,
        frame[16] >= 128 ==> state.trigger_right == 32767,
{
    assert(trigger_level(frame[15]) == state.trigger_left);
}

/// Each button of the word is pressed exactly when its bit of the report is set, and
/// each side of the directional pad exactly when the report names the side or one of
/// the two corners at it.
pub proof fn buttons_are_those_of_the_report(frame: Seq<u8>, state: ControllerState<i32>)
    requires
        controls_reported(frame, state),
    ensures
        state.buttons & 0x0000_0001 != 0 <==> frame[11] & 0x10 != 0,
        state.buttons & 0x0000_0002 != 0 <==> frame[11] & 0x20 != 0,
        state.buttons & 0x0000_0004 != 0 <==> frame[11] & 0x80 != 0,
        state.buttons & 0x0000_0008 != 0 <==> frame[12] & 0x01 != 0,
        state.buttons & 0x0000_0010 == 0,
        state.buttons & 0x0000_0020 != 0 <==> frame[12] & 0x80 != 0,
        state.buttons & 0x0000_0040 != 0 <==> frame[11] & 0x40 != 0,
        state.buttons & 0x0000_0080 != 0 <==> frame[13] & 0x08 != 0,
        state.buttons & 0x0000_0100 != 0 <==> frame[13] & 0x20 != 0,
        state.buttons & 0x0000_0200 != 0 <==> frame[12] & 0x08 != 0,
        state.buttons & 0x0000_0400 != 0 <==> (frame[11] & 0x0F == 0x04 || frame[11] & 0x0F == 0x06
            || frame[11] & 0x0F == 0x0C),
        state.buttons & 0x0000_0800 != 0 <==> (frame[11] & 0x0F == 0x02 || frame[11] & 0x0F == 0x03
            || frame[11] & 0x0F == 0x06),
        state.buttons & 0x0000_1000 != 0 <==> (frame[11] & 0x0F == 0x08 || frame[11] & 0x0F == 0x09
            || frame[11] & 0x0F == 0x0C),
        state.buttons & 0x0000_2000 != 0 <==> (frame[11] & 0x0F == 0x01 || frame[11] & 0x0F == 0x03
            || frame[11] & 0x0F == 0x09),
        state.buttons & 0x0000_4000 != 0 <==> frame[12] & 0x02 != 0,
        state.buttons & 0x0000_8000 != 0 <==> frame[12] & 0x40 != 0,
        state.buttons & 0x0001_0000 != 0 <==> frame[14] & 0x08 != 0,
        state.buttons & 0x0002_0000 != 0 <==> frame[13] & 0x04 != 0,
        state.buttons & 0x0004_0000 != 0 <==> frame[13] & 0x10 != 0,
        state.buttons & 0x0008_0000 != 0 <==> frame[12] & 0x04 != 0,
        state.buttons < 0x0010_0000,
{
    buttons_follow_their_bits(frame[11], frame[12], frame[13], frame[14]);
}

/// Angular rates are exact: 125 steps for each count, of which 32768 make 2000
/// degrees per second. X and Y encode back to their bytes, Z to its opposite's; the
/// report holds Z between the two.
pub proof fn angular_rates_encode_back(frame: Seq<u8>)
    ensures
        125 * 32768 == 2000 * GYRO_STEPS_PER_DPS,
        gyro_reported(frame).len() == 3,
        forall|i: int| 0 <= i < 3 ==> #[trigger] gyro_reported(frame)[i] as int % 125 == 0,
        -0x8000 <= gyro_reported(frame)[0] as int / 125 < 0x8000,
        -0x8000 <= gyro_reported(frame)[1] as int / 125 < 0x8000,
        -0x8000 < gyro_reported(frame)[2] as int / 125 <= 0x8000,
        (gyro_reported(frame)[0] as int / 125) % 0x1_0000 == word(frame, 17),
        (gyro_reported(frame)[1] as int / 125) % 0x1_0000 == word(frame, 21),
        (-(gyro_reported(frame)[2] as int / 125)) % 0x1_0000 == word(frame, 19),
{
    numbers_encode_back(frame[17], frame[18]);
    numbers_encode_back(frame[21], frame[22]);
    numbers_encode_back(frame[19], frame[20]);
}

/// Accelerations are exact: one step for each count, of which 4096 make one g. X and
/// Y encode back to their bytes, Z to its opposite's; the report holds Z between the
/// two.
pub proof fn accelerations_encode_back(frame: Seq<u8>)
    ensures
        4096 == ACCEL_STEPS_PER_G,
        accel_reported(frame).len() == 3,
        -0x8000 <= accel_reported(frame)[0] < 0x8000,
        -0x8000 <= accel_reported(frame)[1] < 0x8000,
        -0x8000 < accel_reported(frame)[2] <= 0x8000,
        accel_reported(frame)[0] as int % 0x1_0000 == word(frame, 23),
        accel_reported(frame)[1] as int % 0x1_0000 == word(frame, 27),
        (-accel_reported(frame)[2]) % 0x1_0000 == word(frame, 25),
{
    numbers_encode_back(frame[23], frame[24]);
    numbers_encode_back(frame[27], frame[28]);
    numbers_encode_back(frame[25], frame[26]);
}

/// A frame is an input report exactly when it reaches up to its last motion byte and
/// its command byte says so.
pub proof fn input_reports_name_themselves(frame: Seq<u8>)
    ensures
        is_input_report(frame) <==> frame.len() >= 29 && frame[2] == 0xEF,
{
}

/// Whether a frame of 31 bytes begins at `at`, by its two magic bytes.
pub open spec fn begins_at(buf: Seq<u8>, at: int) -> bool {
    buf.len() >= at + 31 && buf[at] == 0x5A && buf[at + 1] == 0xA5
}

/// The frame of a read is at its beginning, or behind one byte that is not the first
/// magic byte; it is 31 bytes long and taken over as it is. There is none otherwise.
pub proof fn frames_are_found_at_their_magic(buf: Seq<u8>)
    ensures
        normalized(buf) is Some <==> begins_at(buf, 0) || (begins_at(buf, 1) && buf[0] != 0x5A),
        normalized(buf) matches Some(frame) ==> frame.len() == 31,
        begins_at(buf, 0) ==> forall|i: int|
            0 <= i < 31 ==> #[trigger] normalized(buf).unwrap()[i] == buf[i],
        begins_at(buf, 1) && buf[0] != 0x5A ==> forall|i: int|
            0 <= i < 31 ==> #[trigger] normalized(buf).unwrap()[i] == buf[i + 1],
{
}

/// A read answers a command exactly when the third byte of its frame is that
/// command's number.
pub proof fn answers_carry_the_command(buf: Seq<u8>, command: u8)
    ensures
        answers(buf, command) <==> {
            ||| begins_at(buf, 0) && buf[2] == command
            ||| begins_at(buf, 1) && buf[0] != 0x5A && buf[3] == command
        },
{
    frames_are_found_at_their_magic(buf);
    if normalized(buf) is Some {
        let frame = normalized(buf).unwrap();
        assert(begins_at(buf, 0) ==> frame[2] == buf[2]);
        assert(begins_at(buf, 1) && buf[0] != 0x5A ==> frame[2] == buf[3]);
    }
}

/// No read answers two commands.
pub proof fn no_read_answers_two_commands(buf: Seq<u8>, a: u8, b: u8)
    requires
        answers(buf, a),
        answers(buf, b),
    ensures
        a == b,
{
    answers_carry_the_command(buf, a);
    answers_carry_the_command(buf, b);
}

/// While the information reply is awaited, a report with another command byte, or
/// without a frame, is passed over: the deadline stays and the clock is looked up.
pub proof fn other_reports_are_passed_over(deadline: u64, buf: [u8; 32])
    requires
        !(begins_at(buf@, 0) && buf@[2] == 0x01),
        !(begins_at(buf@, 1) && buf@[0] != 0x5A && buf@[3] == 0x01),
    ensures
        (Stage::ReadingInfo { deadline }).next(Event::Read { read: HidRead::Report(buf) }) == (
            Stage::AwaitingInfo { deadline },
            Action::CheckTime,
        ),
{
    answers_carry_the_command(buf@, 0x01);
}

/// Whether `event` can come up, before `deadline`, while a pad streams other things
/// than its answer.
pub open spec fn is_other_traffic(event: Event, deadline: u64) -> bool {
    match event {
        Event::Clock { now } => now < deadline,
        Event::Read { read: HidRead::Nothing } => true,
        Event::Read { read: HidRead::Report(buf) } => {
            &&& !(begins_at(buf@, 0) && buf@[2] == 0x01)
            &&& !(begins_at(buf@, 1) && buf@[0] != 0x5A && buf@[3] == 0x01)
        },
        _ => false,
    }
}

/// However many other reports a pad streams before its answer, the handshake goes on
/// waiting for it with the deadline unmoved.
pub proof fn streaming_pads_are_waited_for(deadline: u64, events: Seq<Event>)
    requires
        super::laws::all_expected(Stage::AwaitingInfo { deadline }, events),
        forall|i: int|
            0 <= i < events.len() ==> is_other_traffic(#[trigger] events[i], deadline),
    ensures
        ({
            let stage = super::laws::after_events(Stage::AwaitingInfo { deadline }, events);
            stage == (Stage::AwaitingInfo { deadline }) || stage == (Stage::ReadingInfo {
                deadline,
            })
        }),
    decreases events.len(),
{
    if events.len() > 0 {
        let before = events.drop_last();
        assert forall|i: int| 0 <= i < before.len() implies is_other_traffic(
            #[trigger] before[i],
            deadline,
        ) by {
            assert(before[i] == events[i]);
        }
        streaming_pads_are_waited_for(deadline, before);
        assert(is_other_traffic(events[events.len() - 1], deadline));
        if let Event::Read { read: HidRead::Report(buf) } = events.last() {
            answers_carry_the_command(buf@, 0x01);
        }
    }
}

/// An information reply is judged by three of its bytes: the sixth names the kind of
/// pad, the seventeenth and the sixteenth its firmware, low byte first. Kind 130 of
/// firmware 0x7141 or later passes, and the kind is looked at first.
pub proof fn replies_are_judged_by_their_bytes(buf: Seq<u8>, at: int)
    requires
        at == 0 || (at == 1 && buf[0] != 0x5A),
        begins_at(buf, at),
    ensures
        ({
            let kind = buf[at + 5];
            let firmware = buf[at + 16] * 256 + buf[at + 15];
            &&& judged(buf) is Ok <==> kind == 130 && firmware >= 0x7141
            &&& judged(buf) matches Ok(info) ==> info.device_id == kind && info.firmware_version
                == firmware
            &&& kind != 130 ==> (judged(buf) matches Err(FlydigiError::UnrecognizedDevice(id))
                && id == kind)
            &&& kind == 130 && firmware < 0x7141 ==> (judged(buf) matches Err(
                FlydigiError::OldFirmware(version),
            ) && version == firmware)
        }),
{
    frames_are_found_at_their_magic(buf);
    let frame = normalized(buf).unwrap();
    assert(frame[5] == buf[at + 5]);
    assert(frame[15] == buf[at + 15]);
    assert(frame[16] == buf[at + 16]);
}

/// A reply without a frame is malformed.
pub proof fn replies_without_a_frame_are_malformed(buf: Seq<u8>)
    requires
        !begins_at(buf, 0),
        !(begins_at(buf, 1) && buf[0] != 0x5A),
    ensures
        judged(buf) == Err::<super::frame::DeviceInfoReply, _>(FlydigiError::MalformedInfoReply),
{
}

/// The two firmware bytes of a reply can be had back from the version read.
pub proof fn firmware_versions_encode_back(frame: Seq<u8>)
    ensures
        info_in(frame).device_id == frame[5],
        info_in(frame).firmware_version as int % 256 == frame[15],
        info_in(frame).firmware_version as int / 256 == frame[16],
{
}

/// A packet is 32 bytes: those of its command in their places as far as they go, then
/// zeros, but a leading three is a zero.
pub proof fn packets_carry_their_commands(data: Seq<u8>, i: int)
    requires
        0 <= i < 32,
    ensures
        on_wire(data).len() == 32,
        0 < i < data.len() ==> on_wire(data)[i] == data[i],
        i >= data.len() ==> on_wire(data)[i] == 0,
        data.len() > 0 && data[0] != 3 ==> on_wire(data)[0] == data[0],
        data.len() > 0 && data[0] == 3 ==> on_wire(data)[0] == 0,
{
}

/// The requests on the wire, byte for byte: magic, command number, and for the
/// information request a length of two, for the acquire request one of 23, the wish
/// and the name "SDL".
pub proof fn requests_are_spelled_out(i: int, acquire: bool)
    requires
        0 <= i < 32,
    ensures
        on_wire(info_command())[i] == (if i == 1 {
            0x5Au8
        } else if i == 2 {
            0xA5
        } else if i == 3 {
            0x01
        } else if i == 4 {
            2
        } else {
            0
        }),
        on_wire(status_command())[i] == (if i == 1 {
            0x5Au8
        } else if i == 2 {
            0xA5
        } else if i == 3 {
            0x10
        } else {
            0
        }),
        on_wire(acquire_command(acquire))[i] == (if i == 1 {
            0x5Au8
        } else if i == 2 {
            0xA5
        } else if i == 3 {
            0x1C
        } else if i == 4 {
            23
        } else if i == 5 && acquire {
            1
        } else if i == 6 {
            'S' as u8
        } else if i == 7 {
            'D' as u8
        } else if i == 8 {
            'L' as u8
        } else {
            0
        }),
{
}

/// Each request goes out under its own number, and the pad is only ever asked to hand
/// over, never to take back.
pub proof fn requests_have_their_numbers(request: Request)
    ensures
        on_wire(request.command())[1] == 0x5A,
        on_wire(request.command())[2] == 0xA5,
        on_wire(request.command())[3] == (match request {
            Request::Info => 0x01u8,
            Request::Status => 0x10,
            Request::Acquire => 0x1C,
        }),
        request is Acquire ==> on_wire(request.command())[5] == 1,
{
}

} // verus!
