//! What holds of every pad, every report and every handshake.

use super::bytes::{begins_at, frames_are_found_at_their_magic};
use super::frame::{acquire_command, info_command, info_in, normalized, on_wire, DeviceInfoReply};
use super::handshake::{
    answers, is_supported, judged, Action, Event, FlydigiError, Request, Stage, REPLY_READ_MS,
    REPLY_TIMEOUT,
};
use super::report::{accel_reported, controls_reported, gyro_reported, trigger_level};
use super::{
    candidate, candidates, HidRead, OpenSlot, Reading, CMD_GET_INFO, DEVICE_ID_VADER5_PRO,
    MIN_FIRMWARE_VADER5_PRO, PACKET_LEN,
};
use crate::config::{
    outputs_follow_their_own_axes, selected, AxisMap, Config, UNIT_SENSITIVITY,
};
use crate::controller::{ACCEL_STEPS_PER_G, GYRO_STEPS_PER_DPS};
use crate::hid::HidInterface;
use crate::text::{decimal_text, hex_text};
use vstd::prelude::*;

verus! {

/// No report exceeds 2000 degrees per second or 8 g.
pub proof fn motion_is_in_range(frame: Seq<u8>, i: int)
    requires
        0 <= i < 3,
    ensures
        -2000 * GYRO_STEPS_PER_DPS <= gyro_reported(frame)[i] <= 2000 * GYRO_STEPS_PER_DPS,
        -8 * ACCEL_STEPS_PER_G <= accel_reported(frame)[i] <= 8 * ACCEL_STEPS_PER_G,
{
}

/// A trigger pulled further never reports less, and from half way on it reports
/// all there is.
pub proof fn triggers_rise(a: u8, b: u8)
    requires
        a <= b,
    ensures
        trigger_level(a) <= trigger_level(b) <= i16::MAX,
        b >= 128 ==> trigger_level(b) == i16::MAX,
{
}

/// Settings that changed are followed from the next sample on, whose calibration
/// starts over.
pub proof fn changed_settings_reach_the_next_sample(
    slot: OpenSlot,
    generation: u64,
    cfg: Config,
    sensitivity: u32,
    frame: Seq<u8>,
    reading: Reading,
)
    requires
        generation != slot.cfg_generation,
        slot.configured(generation, cfg, sensitivity).reads(frame, reading),
    ensures
        reading.state.imu.gyro_dps@ == cfg.gyro.applied(gyro_reported(frame)),
        reading.state.imu.accel_g@ == cfg.accel.applied(accel_reported(frame)),
        reading.calibrate == cfg.auto_calibrate,
        reading.scale == (if sensitivity == UNIT_SENSITIVITY {
            None
        } else {
            Some(sensitivity)
        }),
        reading.reset_calibration,
{
}

/// Settings that did not change are not taken over again, and the calibration goes
/// on.
pub proof fn unchanged_settings_are_left_alone(slot: OpenSlot, cfg: Config, sensitivity: u32)
    ensures
        slot.configured(slot.cfg_generation, cfg, sensitivity) == slot,
{
}

/// The packets of `requests`, in their order.
pub open spec fn packets(requests: Seq<Request>) -> Seq<Seq<u8>> {
    requests.map_values(|request: Request| on_wire(request.command()))
}

/// Thirty seconds after the pad was last acquired, or a tenth of a second after its
/// last input, the next read first sends a packet that acquires it and then one that
/// asks who it is, and counts it as acquired at that time. While neither has passed,
/// nothing is sent and nothing changes.
pub proof fn a_pad_is_acquired_anew_when_due(slot: OpenSlot, now: u64)
    ensures
        now - slot.last_acquire >= 30_000_000_000 || now - slot.last_input >= 100_000_000 ==> {
            &&& packets(slot.requests_due(now)) == seq![
                on_wire(acquire_command(true)),
                on_wire(info_command()),
            ]
            &&& slot.reacquired(now) == (OpenSlot { last_acquire: now, ..slot })
        },
        now - slot.last_acquire < 30_000_000_000 && now - slot.last_input < 100_000_000 ==> {
            &&& packets(slot.requests_due(now)).len() == 0
            &&& slot.reacquired(now) == slot
        },
{
    if slot.reacquire_due(now) {
        assert(packets(slot.requests_due(now)) =~= seq![
            on_wire(acquire_command(true)),
            on_wire(info_command()),
        ]);
    }
}

/// A pad that is acquired anew and stays silent is acquired anew by every read; one
/// that talks is left alone for the rest of the thirty seconds.
pub proof fn input_ends_the_silence(slot: OpenSlot, now: u64, read: HidRead, later: u64)
    requires
        slot.reacquire_due(now),
        now <= later,
        later - now < 100_000_000,
    ensures
        OpenSlot::input_report(read) is Some ==> !slot.reacquired(now).after(
            read,
            now,
        ).reacquire_due(later),
        OpenSlot::input_report(read) is None && now - slot.last_input >= 100_000_000
            ==> slot.reacquired(now).after(read, now).reacquire_due(later),
{
}

/// Every sample has another timestamp than the one before, so that a pad that
/// talks never passes for frozen.
pub proof fn timestamps_always_move(slot: OpenSlot, read: HidRead, now: u64)
    requires
        OpenSlot::input_report(read) is Some,
    ensures
        slot.after(read, now).sensor_timestamp_us != slot.sensor_timestamp_us,
{
}

/// Recalibrating starts the calibration over with the next sample and with that
/// one only.
pub proof fn recalibration_is_done_once(
    slot: OpenSlot,
    read: HidRead,
    now: u64,
    reading: Reading,
    next: Reading,
    next_frame: Seq<u8>,
)
    requires
        OpenSlot::input_report(read) is Some,
        (OpenSlot { reset_due: true, ..slot }).reads(
            OpenSlot::input_report(read).unwrap(),
            reading,
        ),
        (OpenSlot { reset_due: true, ..slot }).after(read, now).reads(next_frame, next),
    ensures
        reading.reset_calibration,
        !next.reset_calibration,
{
}

/// Reads that bring no input report change nothing but the count of reports.
pub proof fn other_reports_are_only_counted(slot: OpenSlot, read: HidRead, now: u64)
    requires
        OpenSlot::input_report(read) is None,
    ensures
        slot.after(read, now) == (OpenSlot {
            input_reports_seen: slot.after(read, now).input_reports_seen,
            ..slot
        }),
        !(read is Report) ==> slot.after(read, now) == slot,
{
}

/// Whether `event` is a read of a supported pad's information reply `info`.
pub open spec fn introduces(event: Event, info: DeviceInfoReply) -> bool {
    event matches Event::Read { read: HidRead::Report(buf) } && answers(buf@, CMD_GET_INFO)
        && judged(buf@) == Ok::<_, FlydigiError>(info)
}

/// The stage that a row of events leads to.
pub open spec fn after_events(stage: Stage, events: Seq<Event>) -> Stage
    decreases events.len(),
{
    if events.len() == 0 {
        stage
    } else {
        after_events(stage, events.drop_last()).next(events.last()).0
    }
}

/// Whether each of a row of events can come of the stage it meets.
pub open spec fn all_expected(stage: Stage, events: Seq<Event>) -> bool
    decreases events.len(),
{
    events.len() > 0 ==> all_expected(stage, events.drop_last()) && after_events(
        stage,
        events.drop_last(),
    ).expects(events.last())
}

/// What the pad of a handshake past its information reply said of itself.
pub open spec fn introduced(stage: Stage) -> Option<DeviceInfoReply> {
    match stage {
        Stage::AskingStatus { info } => Some(info),
        Stage::Acquiring { info } => Some(info),
        Stage::Acquired { info } => Some(info),
        _ => None,
    }
}

/// A handshake gets past the information reply, let alone to an acquired pad, only
/// with a pad that answered as a Vader 5 Pro of a known firmware.
pub proof fn only_supported_pads_are_acquired(events: Seq<Event>)
    requires
        all_expected(Stage::AskingInfo, events),
        introduced(after_events(Stage::AskingInfo, events)) is Some,
    ensures
        ({
            let info = introduced(after_events(Stage::AskingInfo, events)).unwrap();
            &&& is_supported(info)
            &&& exists|i: int| 0 <= i < events.len() && introduces(#[trigger] events[i], info)
        }),
    decreases events.len(),
{
    let before = events.drop_last();
    let stage = after_events(Stage::AskingInfo, before);
    let info = introduced(after_events(Stage::AskingInfo, events)).unwrap();
    if introduced(stage) is Some {
        only_supported_pads_are_acquired(before);
        let i = choose|i: int| 0 <= i < before.len() && introduces(#[trigger] before[i], info);
        assert(introduces(events[i], info));
    } else {
        assert(introduces(events[events.len() - 1], info));
    }
}

/// The acquire request is sent to supported pads only.
pub proof fn only_supported_pads_are_asked(stage: Stage, event: Event)
    requires
        stage.wf(),
        stage.expects(event),
        stage.next(event).1 == Action::Send(Request::Acquire) || stage.next(event).1
            == Action::Done,
    ensures
        introduced(stage) matches Some(info) && is_supported(info),
{
}

/// Every read for an answer begins before the deadline: from it on the handshake
/// fails instead. A read that brings none leads back to the clock.
pub proof fn waiting_ends_at_the_deadline(deadline: u64, now: u64, read: HidRead)
    requires
        read is Nothing || (read matches HidRead::Report(buf) && !answers(buf@, CMD_GET_INFO)),
    ensures
        ({
            let timed = (Stage::AwaitingInfo { deadline }).next(Event::Clock { now });
            &&& now < deadline ==> timed == (Stage::ReadingInfo { deadline }, Action::Read)
            &&& now >= deadline ==> timed == (
                Stage::Refused,
                Action::Fail(FlydigiError::NoReply(CMD_GET_INFO)),
            )
        }),
        (Stage::ReadingInfo { deadline }).next(Event::Read { read }) == (
            Stage::AwaitingInfo { deadline },
            Action::CheckTime,
        ),
{
}

/// A supported pad that answers is acquired, where every request can be sent and
/// the read that brings the answer begins in time.
pub proof fn a_supported_pad_is_acquired(
    asked: u64,
    checked: u64,
    buf: [u8; PACKET_LEN],
    info: DeviceInfoReply,
    sent: u64,
    acquired: u64,
)
    requires
        checked < asked.saturating_add(REPLY_TIMEOUT),
        answers(buf@, CMD_GET_INFO),
        normalized(buf@) is Some && info_in(normalized(buf@).unwrap()) == info,
        is_supported(info),
    ensures
        ({
            let asking = Stage::AskingInfo.next(Event::Sent { now: asked });
            let reading = asking.0.next(Event::Clock { now: checked });
            let judging = reading.0.next(Event::Read { read: HidRead::Report(buf) });
            let acquiring = judging.0.next(Event::Sent { now: sent });
            &&& asking.1 == Action::CheckTime
            &&& reading.1 == Action::Read
            &&& judging.1 == Action::Send(Request::Status)
            &&& acquiring.1 == Action::Send(Request::Acquire)
            &&& acquiring.0.next(Event::Sent { now: acquired }) == (
                Stage::Acquired { info },
                Action::Done,
            )
        }),
{
}

/// A pad of another kind, or one of an older firmware, is refused with an error
/// that says which it is.
pub proof fn unsupported_pads_are_refused(
    deadline: u64,
    buf: [u8; PACKET_LEN],
    info: DeviceInfoReply,
)
    requires
        answers(buf@, CMD_GET_INFO),
        normalized(buf@) is Some && info_in(normalized(buf@).unwrap()) == info,
    ensures
        ({
            let judging = (Stage::ReadingInfo { deadline }).next(
                Event::Read { read: HidRead::Report(buf) },
            );
            &&& info.device_id != DEVICE_ID_VADER5_PRO ==> judging == (
                Stage::Refused,
                Action::Fail(FlydigiError::UnrecognizedDevice(info.device_id)),
            )
            &&& info.device_id == DEVICE_ID_VADER5_PRO && info.firmware_version
                < MIN_FIRMWARE_VADER5_PRO ==> judging == (
                Stage::Refused,
                Action::Fail(FlydigiError::OldFirmware(info.firmware_version)),
            )
        }),
{
}

/// A pad that was just acquired has the settings and the numbers that it was opened
/// with: its first samples follow them, and reading the same settings again changes
/// nothing. It need not be acquired anew within a tenth of a second, has seen no
/// report, and stamps its first sample with 2000 microseconds.
pub proof fn a_fresh_pad_follows_its_settings(
    info: HidInterface,
    now: u64,
    generation: u64,
    cfg: Config,
    sensitivity: u32,
    later: u64,
    other: Config,
    other_sensitivity: u32,
    frame: Seq<u8>,
    reading: Reading,
)
    requires
        OpenSlot::fresh(info, now, generation, cfg, sensitivity).reads(frame, reading),
    ensures
        ({
            let slot = OpenSlot::fresh(info, now, generation, cfg, sensitivity);
            &&& slot.interface_number == info.interface_number
            &&& slot.product_id == info.product_id
            &&& slot.input_reports_seen == 0
            &&& slot.configured(generation, other, other_sensitivity) == slot
            &&& slot.requests_due(later).len() == 0 <==> later < now + 100_000_000
        }),
        reading.state.imu.timestamp_us == 2000,
        reading.state.imu.gyro_dps@ == cfg.gyro.applied(gyro_reported(frame)),
        reading.state.imu.accel_g@ == cfg.accel.applied(accel_reported(frame)),
        reading.calibrate == cfg.auto_calibrate,
        !reading.reset_calibration,
        reading.scale is None <==> sensitivity == 0x3F80_0000,
        reading.scale matches Some(bits) ==> bits == sensitivity,
{
}

/// `reading`, or its opposite where `invert` says so.
pub open spec fn turned(invert: bool, reading: i32) -> int {
    if invert {
        -reading
    } else {
        reading as int
    }
}

/// A sample is the report's bytes: the controls as they stand there, and each motion
/// axis plus or minus the one that the settings of its own sensor select for it.
pub proof fn a_sample_is_its_report(slot: OpenSlot, frame: Seq<u8>, reading: Reading)
    requires
        slot.reads(frame, reading),
    ensures
        controls_reported(frame, reading.state),
        ({
            let raw = gyro_reported(frame);
            let read = reading.state.imu.gyro_dps@;
            let map = slot.gyro_map;
            &&& read[0] == turned(map.x.invert, selected(raw, map.x.source))
            &&& read[1] == turned(map.y.invert, selected(raw, map.y.source))
            &&& read[2] == turned(map.z.invert, selected(raw, map.z.source))
        }),
        ({
            let raw = accel_reported(frame);
            let read = reading.state.imu.accel_g@;
            let map = slot.accel_map;
            &&& read[0] == turned(map.x.invert, selected(raw, map.x.source))
            &&& read[1] == turned(map.y.invert, selected(raw, map.y.source))
            &&& read[2] == turned(map.z.invert, selected(raw, map.z.source))
        }),
{
    motion_is_in_range(frame, 0);
    motion_is_in_range(frame, 1);
    motion_is_in_range(frame, 2);
    assert forall|i: int| 0 <= i < 3 implies #[trigger] gyro_reported(frame)[i] > i32::MIN by {}
    assert forall|i: int| 0 <= i < 3 implies #[trigger] accel_reported(frame)[i] > i32::MIN by {}
    outputs_follow_their_own_axes(slot.gyro_map, gyro_reported(frame));
    outputs_follow_their_own_axes(slot.accel_map, accel_reported(frame));
}

/// Two slots that differ in the gyro's mapping alone make of one report samples that
/// differ in the angular rates alone, and likewise for the accelerometer.
pub proof fn the_sensors_are_mapped_apart(
    slot: OpenSlot,
    map: AxisMap,
    frame: Seq<u8>,
    reading: Reading,
    other: Reading,
)
    requires
        slot.reads(frame, reading),
    ensures
        (OpenSlot { gyro_map: map, ..slot }).reads(frame, other) ==> {
            &&& other.state.imu.accel_g@ == reading.state.imu.accel_g@
            &&& other.state.imu.timestamp_us == reading.state.imu.timestamp_us
            &&& other.state.buttons == reading.state.buttons
            &&& other.state.trigger_left == reading.state.trigger_left
            &&& other.state.trigger_right == reading.state.trigger_right
            &&& other.state.left_stick@ == reading.state.left_stick@
            &&& other.state.right_stick@ == reading.state.right_stick@
            &&& other.scale == reading.scale
            &&& other.calibrate == reading.calibrate
            &&& other.reset_calibration == reading.reset_calibration
        },
        (OpenSlot { accel_map: map, ..slot }).reads(frame, other) ==> {
            &&& other.state.imu.gyro_dps@ == reading.state.imu.gyro_dps@
            &&& other.state.imu.timestamp_us == reading.state.imu.timestamp_us
        },
{
}

/// What a sample leaves to be done is what the slot says: calibrate or not, start over
/// or not, and scale by the sensitivity unless it is one, whose bits are 0x3F800000.
pub proof fn what_is_left_to_be_done(slot: OpenSlot, frame: Seq<u8>, reading: Reading)
    requires
        slot.reads(frame, reading),
    ensures
        reading.calibrate <==> slot.auto_calibrate,
        reading.reset_calibration <==> slot.reset_due,
        slot.gyro_sensitivity == 0x3F80_0000 ==> reading.scale is None,
        slot.gyro_sensitivity != 0x3F80_0000 ==> reading.scale == Some(slot.gyro_sensitivity),
{
}

/// Every sample is stamped 2000 microseconds after the one before it, modulo 32 bits,
/// and a slot remembers the stamp of its latest sample.
pub proof fn samples_are_two_milliseconds_apart(
    slot: OpenSlot,
    read: HidRead,
    now: u64,
    reading: Reading,
)
    requires
        OpenSlot::input_report(read) is Some,
        slot.reads(OpenSlot::input_report(read).unwrap(), reading),
    ensures
        (reading.state.imu.timestamp_us - slot.sensor_timestamp_us) % 0x1_0000_0000 == 2000,
        slot.after(read, now).sensor_timestamp_us == reading.state.imu.timestamp_us,
{
}

/// A read leaves the settings, the numbers and the time of the last acquire alone.
/// Every report counts up to the highest count; an input report, and nothing else, is
/// input as of now and moves the stamp.
pub proof fn what_a_read_leaves_behind(slot: OpenSlot, read: HidRead, now: u64)
    ensures
        ({
            let after = slot.after(read, now);
            &&& after.last_acquire == slot.last_acquire
            &&& after.gyro_map == slot.gyro_map
            &&& after.accel_map == slot.accel_map
            &&& after.gyro_sensitivity == slot.gyro_sensitivity
            &&& after.auto_calibrate == slot.auto_calibrate
            &&& after.cfg_generation == slot.cfg_generation
            &&& after.interface_number == slot.interface_number
            &&& after.product_id == slot.product_id
            &&& read is Report && slot.input_reports_seen < u32::MAX ==> after.input_reports_seen
                == slot.input_reports_seen + 1
            &&& !(read is Report) || slot.input_reports_seen == u32::MAX
                ==> after.input_reports_seen == slot.input_reports_seen
            &&& OpenSlot::input_report(read) is Some ==> after.last_input == now
                && !after.reset_due
            &&& OpenSlot::input_report(read) is None ==> after.last_input == slot.last_input
                && after.reset_due == slot.reset_due && after.sensor_timestamp_us
                == slot.sensor_timestamp_us
        }),
{
}

/// A read holds an input report exactly when its frame has the command byte 0xEF.
pub proof fn input_reports_are_told_by_their_bytes(buf: [u8; PACKET_LEN])
    ensures
        OpenSlot::input_report(HidRead::Report(buf)) is Some <==> {
            ||| begins_at(buf@, 0) && buf@[2] == 0xEF
            ||| begins_at(buf@, 1) && buf@[0] != 0x5A && buf@[3] == 0xEF
        },
        OpenSlot::input_report(HidRead::Report(buf)) matches Some(frame) ==> normalized(buf@)
            == Some(frame),
        OpenSlot::input_report(HidRead::Nothing) is None,
{
    frames_are_found_at_their_magic(buf@);
    if normalized(buf@) is Some {
        let frame = normalized(buf@).unwrap();
        assert(begins_at(buf@, 0) ==> frame[2] == buf@[2]);
        assert(begins_at(buf@, 1) && buf@[0] != 0x5A ==> frame[2] == buf@[3]);
    }
}

/// Settings of another generation are taken over whole, and that generation with
/// them, so that reading them once more changes nothing. Nothing but the settings and
/// the calibration moves.
pub proof fn settings_are_taken_over_once(
    slot: OpenSlot,
    generation: u64,
    cfg: Config,
    sensitivity: u32,
    other: Config,
    other_sensitivity: u32,
)
    requires
        generation != slot.cfg_generation,
    ensures
        ({
            let after = slot.configured(generation, cfg, sensitivity);
            &&& after.cfg_generation == generation
            &&& after.gyro_map == cfg.gyro
            &&& after.accel_map == cfg.accel
            &&& after.gyro_sensitivity == sensitivity
            &&& after.auto_calibrate == cfg.auto_calibrate
            &&& after.reset_due
            &&& after.last_acquire == slot.last_acquire
            &&& after.last_input == slot.last_input
            &&& after.sensor_timestamp_us == slot.sensor_timestamp_us
            &&& after.interface_number == slot.interface_number
            &&& after.product_id == slot.product_id
            &&& after.input_reports_seen == slot.input_reports_seen
            &&& after.configured(generation, other, other_sensitivity) == after
        }),
{
}

/// A pad is worth opening exactly when it has Flydigi's numbers 37D7:2401 and is on the
/// vendor page FFA0, whatever else the system says of it.
pub proof fn candidates_have_the_pads_numbers(info: HidInterface)
    ensures
        candidate(info) <==> info.vendor_id == 0x37D7 && info.product_id == 0x2401
            && info.usage_page == 0xFFA0,
{
}

/// One interface more in the system's list is one candidate more at the end, or none,
/// by its own numbers.
pub proof fn candidates_keep_the_order_of_the_list(infos: Seq<HidInterface>, info: HidInterface)
    ensures
        candidates(Seq::<HidInterface>::empty()).len() == 0,
        info.vendor_id == 0x37D7 && info.product_id == 0x2401 && info.usage_page == 0xFFA0
            ==> candidates(infos.push(info)) == candidates(infos).push(info),
        !(info.vendor_id == 0x37D7 && info.product_id == 0x2401 && info.usage_page == 0xFFA0)
            ==> candidates(infos.push(info)) == candidates(infos),
{
    reveal(Seq::filter);
    assert(infos.push(info).drop_last() =~= infos);
}

/// The pad has half a second from the information request on: a read for its answer
/// begins exactly while less has passed.
pub proof fn the_pad_has_half_a_second(asked: u64, now: u64)
    requires
        asked <= u64::MAX - 500_000_000,
    ensures
        ({
            let asking = Stage::AskingInfo.next(Event::Sent { now: asked });
            let timed = asking.0.next(Event::Clock { now });
            &&& asking.1 == Action::CheckTime
            &&& timed.1 == Action::Read <==> now < asked + 500_000_000
            &&& timed.1 == Action::Fail(FlydigiError::NoReply(0x01)) <==> now >= asked
                + 500_000_000
        }),
{
}

/// Whatever cannot be sent or read ends the handshake, with the system's reason.
pub proof fn failing_io_ends_the_handshake(stage: Stage, error: String, deadline: u64)
    requires
        stage.expects(Event::SendFailed { error }),
    ensures
        stage.next(Event::SendFailed { error }) == (
            Stage::Refused,
            Action::Fail(FlydigiError::Write(error)),
        ),
        (Stage::ReadingInfo { deadline }).next(Event::Read { read: HidRead::Failed(error) }) == (
            Stage::Refused,
            Action::Fail(FlydigiError::Read(error)),
        ),
{
}

/// After the information reply come the status request, the acquire request and the
/// end, in this order, and what the pad said of itself is kept.
pub proof fn the_requests_go_out_in_order(info: DeviceInfoReply, first: u64, second: u64)
    ensures
        (Stage::AskingStatus { info }).next(Event::Sent { now: first }) == (
            Stage::Acquiring { info },
            Action::Send(Request::Acquire),
        ),
        (Stage::Acquiring { info }).next(Event::Sent { now: second }) == (
            Stage::Acquired { info },
            Action::Done,
        ),
{
}

/// Messages of what the system refused are its own reason behind what was tried.
pub proof fn messages_end_in_the_reason(e: String)
    ensures
        FlydigiError::Open(e).text() == seq!['o', 'p', 'e', 'n', ':', ' '] + e@,
        FlydigiError::Write(e).text() == seq!['w', 'r', 'i', 't', 'e', ':', ' '] + e@,
        FlydigiError::Read(e).text() == seq!['r', 'e', 'a', 'd', ':', ' '] + e@,
{
    reveal_strlit("open: ");
    reveal_strlit("write: ");
    reveal_strlit("read: ");
    assert(FlydigiError::Open(e).text() =~= seq!['o', 'p', 'e', 'n', ':', ' '] + e@);
    assert(FlydigiError::Write(e).text() =~= seq!['w', 'r', 'i', 't', 'e', ':', ' '] + e@);
    assert(FlydigiError::Read(e).text() =~= seq!['r', 'e', 'a', 'd', ':', ' '] + e@);
}

/// The message on a silent pad ends in the two digits of the command, the one on a pad
/// of another kind holds its number in base 10 behind 31 characters, and the one on an
/// old firmware its version in four digits behind eleven. What stands around them is
/// the same for all.
pub proof fn messages_name_what_they_are_about(command: u8, id: u8, version: u16)
    ensures
        FlydigiError::NoReply(command).text() == "no reply to command 0x"@ + hex_text(
            command as nat,
            2,
        ),
        FlydigiError::UnrecognizedDevice(id).text() == "unrecognized Flydigi device id "@
            + decimal_text(id as nat) + " (expected Vader 5 Pro / 130)"@,
        FlydigiError::OldFirmware(version).text() == "firmware 0x"@ + hex_text(version as nat, 4)
            + " is older than the minimum supported 0x7141; update via Flydigi Space Station"@,
        FlydigiError::MalformedInfoReply.text() == "malformed info reply"@,
{
    reveal_strlit(" (expected Vader 5 Pro / ");
    reveal_strlit(")");
    reveal_strlit(" (expected Vader 5 Pro / 130)");
    reveal_strlit(" is older than the minimum supported 0x");
    reveal_strlit("; update via Flydigi Space Station");
    reveal_strlit(
        " is older than the minimum supported 0x7141; update via Flydigi Space Station",
    );
    reveal_with_fuel(decimal_text, 4);
    reveal_with_fuel(hex_text, 5);
    assert(decimal_text(130) =~= seq!['1', '3', '0']);
    assert(hex_text(0x7141, 4) =~= seq!['7', '1', '4', '1']);
    assert(FlydigiError::UnrecognizedDevice(id).text() =~= "unrecognized Flydigi device id "@
        + decimal_text(id as nat) + " (expected Vader 5 Pro / 130)"@);
    assert(FlydigiError::OldFirmware(version).text() =~= "firmware 0x"@ + hex_text(
        version as nat,
        4,
    ) + " is older than the minimum supported 0x7141; update via Flydigi Space Station"@);
}

/// Exactly the pads that were acquired are open; the reason why another is not is the
/// one that acquiring it gave.
pub proof fn acquired_pads_are_open(
    acquired: Result<(), FlydigiError>,
    info: HidInterface,
    now: u64,
    generation: u64,
    cfg: Config,
    sensitivity: u32,
)
    ensures
        ({
            let opened = OpenSlot::opened(acquired, info, now, generation, cfg, sensitivity);
            &&& acquired is Ok ==> (opened matches Ok(slot) && slot == OpenSlot::fresh(
                info,
                now,
                generation,
                cfg,
                sensitivity,
            ))
            &&& acquired matches Err(e) ==> (opened matches Err(reason) && reason == e)
        }),
{
}

/// The reports of kind 130 from firmware 0x7141 on are understood, those of a later
/// firmware as well, and no others.
pub proof fn which_pads_are_supported(info: DeviceInfoReply, later: DeviceInfoReply)
    ensures
        is_supported(info) <==> info.device_id == 130 && info.firmware_version >= 0x7141,
        is_supported(info) && later.device_id == info.device_id && later.firmware_version
            >= info.firmware_version ==> is_supported(later),
{
}

/// The wait for an answer is made of reads of twenty milliseconds at most, 25 of which
/// make up the half second.
pub proof fn the_wait_is_made_of_short_reads()
    ensures
        REPLY_READ_MS == 20,
        25 * (REPLY_READ_MS as int * 1_000_000) == REPLY_TIMEOUT,
{
}

} // verus!
