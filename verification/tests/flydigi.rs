use sc2dsu::config::{Axis, AxisMap, Config, UNIT_SENSITIVITY};
use sc2dsu::controller::{button, ACCEL_STEPS_PER_G, GYRO_STEPS_PER_DPS};
use sc2dsu::flydigi::frame::{
    acquire_request, info_request, normalize_frame, parse_info_reply, status_request, wire_packet,
};
use sc2dsu::flydigi::handshake::{FlydigiError, Request};
use sc2dsu::flydigi::report::{be_i16, parse_input_report};
use sc2dsu::flydigi::{
    is_candidate, list_candidates, pid_label, HidRead, OpenSlot, CMD_GET_INFO, CMD_INPUT_REPORT,
    DEVICE_ID_VADER5_PRO, MAGIC1, MAGIC2, MIN_FIRMWARE_VADER5_PRO, PACKET_LEN, PID_FLYDIGI_VADER,
    USAGE_PAGE_VENDOR, VID_FLYDIGI_V2,
};
use sc2dsu::hid::HidInterface;

const SECOND: u64 = 1_000_000_000;

fn build_input_frame(
    left: [i16; 2],
    right: [i16; 2],
    triggers: [u8; 2],
    buttons_11_14: [u8; 4],
    gyro_raw: [i16; 3],
    accel_raw: [i16; 3],
) -> Vec<u8> {
    let mut f = vec![0u8; 31];
    f[0] = MAGIC1;
    f[1] = MAGIC2;
    f[2] = CMD_INPUT_REPORT;
    f[3..5].copy_from_slice(&left[0].to_be_bytes());
    f[5..7].copy_from_slice(&(-left[1]).to_be_bytes());
    f[7..9].copy_from_slice(&right[0].to_be_bytes());
    f[9..11].copy_from_slice(&(-right[1]).to_be_bytes());
    f[11] = buttons_11_14[0];
    f[12] = buttons_11_14[1];
    f[13] = buttons_11_14[2];
    f[14] = buttons_11_14[3];
    f[15] = triggers[0];
    f[16] = triggers[1];
    f[17..19].copy_from_slice(&gyro_raw[0].to_be_bytes());
    f[19..21].copy_from_slice(&(-gyro_raw[2]).to_be_bytes());
    f[21..23].copy_from_slice(&gyro_raw[1].to_be_bytes());
    f[23..25].copy_from_slice(&accel_raw[0].to_be_bytes());
    f[25..27].copy_from_slice(&(-accel_raw[2]).to_be_bytes());
    f[27..29].copy_from_slice(&accel_raw[1].to_be_bytes());
    f
}

fn buttons_of(bytes: [u8; 4]) -> u32 {
    let frame = build_input_frame([0, 0], [0, 0], [0, 0], bytes, [0, 0, 0], [0, 0, 0]);
    parse_input_report(&frame).unwrap().buttons
}

fn interface(vendor_id: u16, product_id: u16, usage_page: u16, index: usize) -> HidInterface {
    HidInterface {
        vendor_id,
        product_id,
        usage_page,
        interface_number: 1,
        index,
    }
}

fn straight() -> AxisMap {
    AxisMap {
        x: Axis {
            source: 0,
            invert: false,
        },
        y: Axis {
            source: 1,
            invert: false,
        },
        z: Axis {
            source: 2,
            invert: false,
        },
    }
}

fn config() -> Config {
    Config {
        gyro: straight(),
        accel: straight(),
        gyro_sensitivity: UNIT_SENSITIVITY,
        auto_calibrate: true,
        port: 26760,
        expose_to_network: false,
        start_minimized: false,
        close_to_tray: true,
    }
}

fn slot() -> OpenSlot {
    let info = interface(VID_FLYDIGI_V2, PID_FLYDIGI_VADER, USAGE_PAGE_VENDOR, 0);
    OpenSlot::open(Ok(()), &info, 5 * SECOND, 3, &config(), UNIT_SENSITIVITY).unwrap()
}

fn packet(frame: &[u8]) -> [u8; PACKET_LEN] {
    let mut buf = [0u8; PACKET_LEN];
    buf[..frame.len()].copy_from_slice(frame);
    buf
}

#[test]
fn parse_input_report_rejects_short_or_wrong_command() {
    assert!(parse_input_report(&[0u8; 28]).is_none());
    let mut frame = vec![0u8; 31];
    frame[0] = MAGIC1;
    frame[1] = MAGIC2;
    frame[2] = CMD_GET_INFO;
    assert!(parse_input_report(&frame).is_none());
}

#[test]
fn parse_input_report_decodes_sticks_triggers_and_buttons() {
    let frame = build_input_frame(
        [1000, -2000],
        [3000, 4000],
        [100, 255],
        [0x10 | 0x01, 0x04, 0x04, 0x08],
        [0, 0, 0],
        [0, 0, 0],
    );
    let s = parse_input_report(&frame).unwrap();
    assert_eq!(s.left_stick, [1000, -2000]);
    assert_eq!(s.right_stick, [3000, 4000]);
    assert_eq!(s.trigger_left, 100 * 257);
    assert_eq!(s.trigger_right, i16::MAX as u16);
    assert_eq!(
        s.buttons,
        button::A | button::DPAD_UP | button::L | button::L4 | button::STEAM
    );
}

#[test]
fn parse_input_report_decodes_full_scale_imu() {
    let frame = build_input_frame(
        [0, 0],
        [0, 0],
        [0, 0],
        [0, 0, 0, 0],
        [16384, -16384, 0],
        [4096, -4096, 0],
    );
    let s = parse_input_report(&frame).unwrap();
    let dps = |steps: i32| steps as f32 / GYRO_STEPS_PER_DPS as f32;
    let g = |steps: i32| steps as f32 / ACCEL_STEPS_PER_G as f32;
    assert!((dps(s.imu.gyro_dps[0]) - 1000.0).abs() < 1e-2);
    assert!((dps(s.imu.gyro_dps[1]) + 1000.0).abs() < 1e-2);
    assert!(dps(s.imu.gyro_dps[2]).abs() < 1e-2);
    assert!((g(s.imu.accel_g[0]) - 1.0).abs() < 1e-4);
    assert!((g(s.imu.accel_g[1]) + 1.0).abs() < 1e-4);
    assert!(g(s.imu.accel_g[2]).abs() < 1e-4);
}

#[test]
fn parse_info_reply_reads_device_id_and_firmware() {
    let mut buf = [0u8; PACKET_LEN];
    buf[0] = MAGIC1;
    buf[1] = MAGIC2;
    buf[2] = CMD_GET_INFO;
    buf[5] = DEVICE_ID_VADER5_PRO;
    buf[15] = 0x41;
    buf[16] = 0x71;
    let info = parse_info_reply(&buf).unwrap();
    assert_eq!(info.device_id, DEVICE_ID_VADER5_PRO);
    assert_eq!(info.firmware_version, MIN_FIRMWARE_VADER5_PRO);
}

#[test]
fn normalize_frame_strips_leading_report_id_byte() {
    let mut buf = [0u8; PACKET_LEN];
    buf[0] = 0; // report-ID byte some backends still prepend
    buf[1] = MAGIC1;
    buf[2] = MAGIC2;
    buf[3] = CMD_INPUT_REPORT;
    let frame = normalize_frame(&buf).unwrap();
    assert_eq!(frame[0], MAGIC1);
    assert_eq!(frame[1], MAGIC2);
    assert_eq!(frame[2], CMD_INPUT_REPORT);
}

#[test]
fn frames_without_magic_or_too_short_are_not_found() {
    assert!(normalize_frame(&[]).is_none());
    assert!(normalize_frame(&[7]).is_none());
    assert!(normalize_frame(&[0u8; PACKET_LEN]).is_none());
    let mut short = vec![0u8; 30];
    short[0] = MAGIC1;
    short[1] = MAGIC2;
    assert!(normalize_frame(&short).is_none());
    let mut doubled = [0u8; PACKET_LEN];
    doubled[0] = MAGIC1;
    doubled[1] = MAGIC1;
    doubled[2] = MAGIC2;
    assert!(normalize_frame(&doubled).is_none());
}

#[test]
fn a_found_frame_is_found_again_in_itself() {
    let mut buf = vec![9u8; 33];
    buf[1] = MAGIC1;
    buf[2] = MAGIC2;
    let frame = normalize_frame(&buf).unwrap();
    assert_eq!(frame, &buf[1..32]);
    assert_eq!(normalize_frame(frame), Some(frame));
}

#[test]
fn a_read_without_report_number_is_cut_to_the_frame() {
    let mut buf = [7u8; PACKET_LEN];
    buf[0] = MAGIC1;
    buf[1] = MAGIC2;
    let frame = normalize_frame(&buf).unwrap();
    assert_eq!(frame.len(), 31);
    assert_eq!(frame, &buf[..31]);
    assert_eq!(normalize_frame(&buf[..31]), Some(frame));
}

#[test]
fn a_malformed_info_reply_is_not_read() {
    assert!(parse_info_reply(&[0u8; PACKET_LEN]).is_none());
}

#[test]
fn bytes_combine_high_first() {
    assert_eq!(be_i16(&[0x12, 0x34]), 0x1234);
    assert_eq!(be_i16(&[0x80, 0x00]), i16::MIN);
    assert_eq!(be_i16(&[0xFF, 0xFF]), -1);
    assert_eq!(be_i16(&[0x7F, 0xFF, 9]), i16::MAX);
}

#[test]
fn packets_are_padded_cut_and_unnumbered() {
    let mut info = [0u8; PACKET_LEN];
    info[1..6].copy_from_slice(&[0x5A, 0xA5, 0x01, 2, 0]);
    assert_eq!(info_request(), info);
    let mut status = [0u8; PACKET_LEN];
    status[1..4].copy_from_slice(&[0x5A, 0xA5, 0x10]);
    assert_eq!(status_request(), status);
    let mut acquire = [0u8; PACKET_LEN];
    acquire[1..9].copy_from_slice(&[0x5A, 0xA5, 0x1C, 23, 1, b'S', b'D', b'L']);
    assert_eq!(acquire_request(true), acquire);
    acquire[5] = 0;
    assert_eq!(acquire_request(false), acquire);

    assert_eq!(wire_packet(&[]), [0u8; PACKET_LEN]);
    let long: Vec<u8> = (4..44).collect();
    assert_eq!(&wire_packet(&long)[..], &long[..PACKET_LEN]);
    let frame = normalize_frame(&acquire).unwrap();
    assert_eq!(frame.len(), 31);
    assert_eq!(frame[2], 0x1C);
}

#[test]
fn every_button_has_its_bit() {
    assert_eq!(buttons_of([0x10, 0, 0, 0]), button::A);
    assert_eq!(buttons_of([0x20, 0, 0, 0]), button::B);
    assert_eq!(buttons_of([0x40, 0, 0, 0]), button::VIEW);
    assert_eq!(buttons_of([0x80, 0, 0, 0]), button::X);
    assert_eq!(buttons_of([0, 0x01, 0, 0]), button::Y);
    assert_eq!(buttons_of([0, 0x02, 0, 0]), button::MENU);
    assert_eq!(buttons_of([0, 0x04, 0, 0]), button::L);
    assert_eq!(buttons_of([0, 0x08, 0, 0]), button::R);
    assert_eq!(buttons_of([0, 0x30, 0, 0]), 0);
    assert_eq!(buttons_of([0, 0x40, 0, 0]), button::L3);
    assert_eq!(buttons_of([0, 0x80, 0, 0]), button::R3);
    assert_eq!(buttons_of([0, 0, 0x04, 0]), button::L4);
    assert_eq!(buttons_of([0, 0, 0x08, 0]), button::R4);
    assert_eq!(buttons_of([0, 0, 0x10, 0]), button::L5);
    assert_eq!(buttons_of([0, 0, 0x20, 0]), button::R5);
    assert_eq!(buttons_of([0, 0, 0xC3, 0]), 0);
    assert_eq!(buttons_of([0, 0, 0, 0x08]), button::STEAM);
    assert_eq!(buttons_of([0, 0, 0, 0xF7]), 0);
}

#[test]
fn the_directional_pad_has_eight_directions() {
    let up = button::DPAD_UP;
    let right = button::DPAD_RIGHT;
    let down = button::DPAD_DOWN;
    let left = button::DPAD_LEFT;
    let expected = [
        0,
        up,
        right,
        up | right,
        down,
        0,
        right | down,
        0,
        left,
        left | up,
        0,
        0,
        down | left,
        0,
        0,
        0,
    ];
    for (low, bits) in expected.iter().enumerate() {
        assert_eq!(buttons_of([low as u8, 0, 0, 0]), *bits);
    }
}

#[test]
fn the_most_negative_readings_are_turned_round() {
    let mut frame = build_input_frame([0, 0], [0, 0], [0, 0], [0; 4], [0; 3], [0; 3]);
    for at in [5, 9, 19, 25] {
        frame[at] = 0x80;
    }
    let s = parse_input_report(&frame).unwrap();
    assert_eq!(s.left_stick[1], i16::MAX);
    assert_eq!(s.right_stick[1], i16::MAX);
    assert_eq!(s.imu.gyro_dps[2], 2000 * GYRO_STEPS_PER_DPS);
    assert_eq!(s.imu.accel_g[2], 8 * ACCEL_STEPS_PER_G);
}

#[test]
fn triggers_saturate_half_way() {
    for (raw, level) in [(0u8, 0u16), (1, 257), (127, 32639), (128, 32767), (255, 32767)] {
        let frame = build_input_frame([0, 0], [0, 0], [raw, 0], [0; 4], [0; 3], [0; 3]);
        assert_eq!(parse_input_report(&frame).unwrap().trigger_left, level);
    }
}

#[test]
fn candidates_are_the_vendor_interfaces_of_the_pad() {
    let pad = interface(0x37D7, 0x2401, 0xFFA0, 1);
    let keyboard = interface(0x37D7, 0x2401, 0x0001, 2);
    let other = interface(0x37D7, 0x2402, 0xFFA0, 3);
    let valve = interface(0x28DE, 0x2401, 0xFFA0, 4);
    let second = interface(0x37D7, 0x2401, 0xFFA0, 5);
    assert!(is_candidate(&pad));
    assert!(!is_candidate(&keyboard));
    assert!(!is_candidate(&other));
    assert!(!is_candidate(&valve));
    let found = list_candidates(&vec![keyboard, pad, other, valve, second]);
    assert_eq!(found, vec![pad, second]);
}

#[test]
fn the_pad_has_one_name() {
    assert_eq!(pid_label(PID_FLYDIGI_VADER), "Flydigi Vader 5 Pro");
    assert_eq!(pid_label(0), "Flydigi Vader 5 Pro");
}

#[test]
fn opening_needs_an_acquired_pad() {
    let info = interface(VID_FLYDIGI_V2, PID_FLYDIGI_VADER, USAGE_PAGE_VENDOR, 0);
    let refused = OpenSlot::open(
        Err(FlydigiError::OldFirmware(0x7140)),
        &info,
        0,
        0,
        &config(),
        UNIT_SENSITIVITY,
    );
    assert_eq!(refused, Err(FlydigiError::OldFirmware(0x7140)));
    let s = slot();
    assert_eq!(s.interface_number, 1);
    assert_eq!(s.product_id, PID_FLYDIGI_VADER);
    assert_eq!(s.input_reports_seen, 0);
    assert_eq!(s.last_acquire, 5 * SECOND);
}

#[test]
fn the_pad_is_reacquired_on_silence_and_by_heartbeat() {
    let both = vec![Request::Acquire, Request::Info];
    let mut s = slot();
    assert!(s.reacquire(5 * SECOND + 99_999_999).is_empty());
    assert_eq!(s, slot());
    assert_eq!(s.reacquire(5 * SECOND + 100_000_000), both);
    assert_eq!(s.last_acquire, 5 * SECOND + 100_000_000);
    // Still silent.
    assert_eq!(s.reacquire(6 * SECOND), both);
    s.last_input = 36 * SECOND - 1;
    assert!(s.reacquire(36 * SECOND - 1).is_empty());
    assert_eq!(s.reacquire(36 * SECOND), both);
    assert_eq!(s.last_acquire, 36 * SECOND);
    // A clock that went back is no silence.
    assert!(s.reacquire(0).is_empty());
}

#[test]
fn reacquiring_sends_the_acquire_packet_first() {
    let mut s = slot();
    let packets: Vec<[u8; PACKET_LEN]> = s
        .reacquire(35 * SECOND)
        .iter()
        .map(|request| request.packet())
        .collect();
    let mut acquire = [0u8; PACKET_LEN];
    acquire[1..9].copy_from_slice(&[0x5A, 0xA5, 0x1C, 23, 1, b'S', b'D', b'L']);
    let mut info = [0u8; PACKET_LEN];
    info[1..6].copy_from_slice(&[0x5A, 0xA5, 0x01, 2, 0]);
    assert_eq!(packets, vec![acquire, info]);
}

#[test]
fn input_ends_the_silence() {
    let mut s = slot();
    assert_eq!(s.reacquire(6 * SECOND).len(), 2);
    let frame = build_input_frame([0, 0], [0, 0], [0, 0], [0; 4], [0; 3], [0; 3]);
    assert!(s
        .read_one(HidRead::Report(packet(&frame)), 6 * SECOND)
        .unwrap()
        .is_some());
    assert!(s.reacquire(6 * SECOND + 99_999_999).is_empty());
    assert_eq!(s.reacquire(6 * SECOND + 100_000_000).len(), 2);
}

#[test]
fn reads_that_are_no_input_report_give_no_sample() {
    let mut s = slot();
    let before = s;
    assert_eq!(s.read_one(HidRead::Nothing, 9), Ok(None));
    assert_eq!(s, before);
    assert_eq!(
        s.read_one(HidRead::Failed("gone".to_string()), 9),
        Err(FlydigiError::Read("gone".to_string()))
    );
    assert_eq!(s, before);
    assert_eq!(s.read_one(HidRead::Report([0u8; PACKET_LEN]), 9), Ok(None));
    assert_eq!(s.read_one(HidRead::Report(info_request()), 9), Ok(None));
    assert_eq!(s.input_reports_seen, 2);
    assert_eq!(s.last_input, before.last_input);
    assert_eq!(s.sensor_timestamp_us, 0);
}

#[test]
fn samples_are_stamped_and_mapped() {
    let mut cfg = config();
    cfg.gyro.x = Axis {
        source: 1,
        invert: true,
    };
    cfg.accel.z = Axis {
        source: 0,
        invert: false,
    };
    let mut s = slot();
    s.follow_settings(4, &cfg, 0x4000_0000);
    let frame = build_input_frame([1, 2], [3, 4], [0, 0], [0; 4], [10, 20, 30], [40, 50, 60]);
    let reading = s
        .read_one(HidRead::Report(packet(&frame)), 6 * SECOND)
        .unwrap()
        .unwrap();
    assert_eq!(reading.state.imu.timestamp_us, 2000);
    assert_eq!(reading.state.imu.gyro_dps, [-20 * 125, 20 * 125, 30 * 125]);
    assert_eq!(reading.state.imu.accel_g, [40, 50, 40]);
    assert_eq!(reading.state.left_stick, [1, 2]);
    assert!(reading.calibrate);
    assert!(reading.reset_calibration);
    assert_eq!(reading.scale, Some(0x4000_0000));
    assert_eq!(s.last_input, 6 * SECOND);

    let again = s
        .read_one(HidRead::Report(packet(&frame)), 6 * SECOND)
        .unwrap()
        .unwrap();
    assert_eq!(again.state.imu.timestamp_us, 4000);
    assert!(!again.reset_calibration);
    assert_eq!(s.input_reports_seen, 2);
}

#[test]
fn unchanged_settings_are_not_taken_over() {
    let mut other = config();
    other.auto_calibrate = false;
    let mut s = slot();
    s.follow_settings(3, &other, 0);
    assert_eq!(s, slot());
    assert!(s.auto_calibrate);
    assert_eq!(s.gyro_sensitivity, UNIT_SENSITIVITY);
    assert!(!s.reset_due);
    s.follow_settings(4, &other, 0);
    assert!(!s.auto_calibrate);
    assert_eq!(s.gyro_sensitivity, 0);
    assert!(s.reset_due);
}

#[test]
fn timestamps_wrap_and_still_move() {
    let mut s = slot();
    s.sensor_timestamp_us = u32::MAX - 999;
    let frame = build_input_frame([0, 0], [0, 0], [0, 0], [0; 4], [0; 3], [0; 3]);
    let reading = s
        .read_one(HidRead::Report(packet(&frame)), 0)
        .unwrap()
        .unwrap();
    assert_eq!(reading.state.imu.timestamp_us, 1000);
    assert_eq!(reading.scale, None);
}

#[test]
fn recalibrating_restarts_the_calibration_once() {
    let mut s = slot();
    s.recalibrate();
    let frame = build_input_frame([0, 0], [0, 0], [0, 0], [0; 4], [0; 3], [0; 3]);
    let first = s.read_one(HidRead::Report(packet(&frame)), 0);
    assert!(first.unwrap().unwrap().reset_calibration);
    let second = s.read_one(HidRead::Report(packet(&frame)), 0);
    assert!(!second.unwrap().unwrap().reset_calibration);
}
