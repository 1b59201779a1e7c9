use sc2dsu::config::{Axis, AxisMap, Config, UNIT_SENSITIVITY};
use sc2dsu::controller::{ControllerState, ImuSample};
use sc2dsu::device::{list_candidates, pid_label, BackendRead, DeviceError, OpenSlot, Sample};
use sc2dsu::flydigi::handshake::FlydigiError;
use sc2dsu::flydigi::HidRead;
use sc2dsu::hid::HidInterface;
use sc2dsu::{flydigi, triton};

fn interface(vendor_id: u16, index: usize) -> HidInterface {
    HidInterface {
        vendor_id,
        product_id: 0x2401,
        usage_page: 0xFFA0,
        interface_number: 2,
        index,
    }
}

fn valve_slot() -> triton::OpenSlot {
    triton::OpenSlot {
        interface_number: 3,
        product_id: 0x1304,
        label: "Proteus",
        input_reports_seen: 7,
        reset_due: false,
    }
}

fn pad_slot() -> flydigi::OpenSlot {
    let axis = Axis {
        source: 0,
        invert: false,
    };
    let map = AxisMap {
        x: axis,
        y: axis,
        z: axis,
    };
    let cfg = Config {
        gyro: map,
        accel: map,
        gyro_sensitivity: UNIT_SENSITIVITY,
        auto_calibrate: false,
        port: 0,
        expose_to_network: false,
        start_minimized: false,
        close_to_tray: false,
    };
    flydigi::OpenSlot::open(Ok(()), &interface(0x37D7, 0), 0, 0, &cfg, UNIT_SENSITIVITY).unwrap()
}

fn state() -> ControllerState<f32> {
    ControllerState {
        buttons: 1,
        trigger_left: 2,
        trigger_right: 3,
        left_stick: [4, 5],
        right_stick: [6, 7],
        imu: ImuSample {
            timestamp_us: 8,
            accel_g: [0.5, 0.0, 1.0],
            gyro_dps: [9.0, 10.0, 11.0],
        },
    }
}

#[test]
fn candidates_of_both_makes() {
    let valve = interface(0x28DE, 0);
    let other = interface(0x1234, 1);
    let pad = interface(0x37D7, 2);
    assert_eq!(
        list_candidates(&vec![valve], &vec![valve, other, pad]),
        vec![valve, pad]
    );
    assert_eq!(list_candidates(&vec![], &vec![other]), vec![]);
}

#[test]
fn labels_by_vendor() {
    assert_eq!(pid_label(&interface(0x28DE, 0), "Nereid"), "Nereid");
    assert_eq!(pid_label(&interface(0x37D7, 0), "Nereid"), "Flydigi Vader 5 Pro");
    assert_eq!(pid_label(&interface(0x1234, 0), "Nereid"), "?");
}

#[test]
fn the_vendor_decides_who_opens() {
    let valve = OpenSlot::open(&interface(0x28DE, 0), || Ok(valve_slot()), || panic!("pad"));
    assert_eq!(valve, Ok(OpenSlot::Valve(Box::new(valve_slot()))));
    let pad = OpenSlot::open(&interface(0x37D7, 0), || panic!("valve"), || Ok(pad_slot()));
    assert_eq!(pad, Ok(OpenSlot::Flydigi(Box::new(pad_slot()))));
    let other = OpenSlot::open(&interface(0x1AB, 0), || panic!("valve"), || panic!("pad"));
    assert_eq!(other, Err(DeviceError::UnsupportedVendor(0x1AB)));
}

#[test]
fn errors_keep_their_messages() {
    let valve = OpenSlot::open(
        &interface(0x28DE, 0),
        || Err("open: denied".to_string()),
        || panic!("pad"),
    );
    assert_eq!(valve.unwrap_err().message(), "open: denied");
    let pad = OpenSlot::open(
        &interface(0x37D7, 0),
        || panic!("valve"),
        || Err(FlydigiError::NoReply(1)),
    );
    assert_eq!(pad.unwrap_err().message(), "no reply to command 0x01");
    assert_eq!(
        DeviceError::UnsupportedVendor(0x1AB).message(),
        "unsupported vendor 01AB"
    );
}

#[test]
fn slots_say_who_they_are() {
    let valve = OpenSlot::Valve(Box::new(valve_slot()));
    assert_eq!(valve.interface_number(), 3);
    assert_eq!(valve.product_id(), 0x1304);
    assert_eq!(valve.input_reports_seen(), 7);
    assert_eq!(valve.label(), "Proteus");
    let pad = OpenSlot::Flydigi(Box::new(pad_slot()));
    assert_eq!(pad.interface_number(), 2);
    assert_eq!(pad.product_id(), 0x2401);
    assert_eq!(pad.input_reports_seen(), 0);
    assert_eq!(pad.label(), "Flydigi Vader 5 Pro");
}

#[test]
fn reads_go_to_the_backend() {
    let mut valve = OpenSlot::Valve(Box::new(valve_slot()));
    let read = BackendRead::Valve {
        outcome: Ok(Some(state())),
        input_reports_seen: 8,
    };
    assert_eq!(valve.read_one(read, 0), Ok(Some(Sample::Finished(state()))));
    assert_eq!(valve.input_reports_seen(), 8);
    let read: BackendRead<f32> = BackendRead::Valve {
        outcome: Err("read: gone".to_string()),
        input_reports_seen: 9,
    };
    assert_eq!(
        valve.read_one(read, 0),
        Err(DeviceError::Valve("read: gone".to_string()))
    );

    let mut pad = OpenSlot::Flydigi(Box::new(pad_slot()));
    let nothing: BackendRead<f32> = BackendRead::Flydigi(HidRead::Nothing);
    assert_eq!(pad.read_one(nothing, 0), Ok(None));
    let mut buf = [0u8; 32];
    buf[0] = 0x5A;
    buf[1] = 0xA5;
    buf[2] = 0xEF;
    buf[17] = 1;
    let report: BackendRead<f32> = BackendRead::Flydigi(HidRead::Report(buf));
    match pad.read_one(report, 4) {
        Ok(Some(Sample::Raw(reading))) => {
            assert_eq!(reading.state.imu.gyro_dps, [256 * 125; 3]);
            assert_eq!(reading.state.imu.timestamp_us, 2000);
        }
        other => panic!("{:?}", other),
    }
    let failed: BackendRead<f32> = BackendRead::Flydigi(HidRead::Failed("x".to_string()));
    assert_eq!(
        pad.read_one(failed, 4).unwrap_err().message(),
        "read: x"
    );
}

#[test]
fn both_makes_recalibrate() {
    let mut valve = OpenSlot::Valve(Box::new(valve_slot()));
    valve.recalibrate();
    let mut pad = OpenSlot::Flydigi(Box::new(pad_slot()));
    pad.recalibrate();
    match (valve, pad) {
        (OpenSlot::Valve(v), OpenSlot::Flydigi(p)) => {
            assert!(v.reset_due);
            assert!(p.reset_due);
        }
        _ => unreachable!(),
    }
}

#[test]
fn the_next_read_carries_a_reset_out() {
    let mut valve = OpenSlot::Valve(Box::new(valve_slot()));
    valve.recalibrate();
    let read = BackendRead::Valve {
        outcome: Ok(Some(state())),
        input_reports_seen: 8,
    };
    assert_eq!(valve.read_one(read, 0), Ok(Some(Sample::Finished(state()))));
    match valve {
        OpenSlot::Valve(v) => assert!(!v.reset_due),
        OpenSlot::Flydigi(_) => unreachable!(),
    }
}
