use sc2dsu::flydigi::frame::{acquire_request, info_request, status_request};
use sc2dsu::flydigi::handshake::{
    begin, check_info_reply, configure, Action, Event, FlydigiError, Request, Stage, REPLY_TIMEOUT,
};
use sc2dsu::flydigi::{HidRead, PACKET_LEN};

fn info_reply(device_id: u8, firmware: u16) -> [u8; PACKET_LEN] {
    let mut buf = [0u8; PACKET_LEN];
    buf[1] = 0x5A;
    buf[2] = 0xA5;
    buf[3] = 0x01;
    buf[6] = device_id;
    buf[16] = firmware as u8;
    buf[17] = (firmware >> 8) as u8;
    buf
}

fn awaiting() -> Stage {
    let (stage, action) = begin();
    assert_eq!(action, Action::Send(Request::Info));
    let (stage, action) = configure(stage, Event::Sent { now: 1000 });
    assert_eq!(action, Action::CheckTime);
    assert_eq!(
        stage,
        Stage::AwaitingInfo {
            deadline: 1000 + REPLY_TIMEOUT
        }
    );
    stage
}

fn awaiting_read() -> Stage {
    let (stage, action) = configure(awaiting(), Event::Clock { now: 1001 });
    assert_eq!(action, Action::Read);
    stage
}

fn reading(buf: [u8; PACKET_LEN]) -> Event {
    Event::Read {
        read: HidRead::Report(buf),
    }
}

#[test]
fn a_supported_pad_is_acquired() {
    let (stage, action) = configure(awaiting_read(), reading(info_reply(130, 0x7141)));
    assert_eq!(action, Action::Send(Request::Status));
    let (stage, action) = configure(stage, Event::Sent { now: 3000 });
    assert_eq!(action, Action::Send(Request::Acquire));
    let (stage, action) = configure(stage, Event::Sent { now: 4000 });
    assert_eq!(action, Action::Done);
    match stage {
        Stage::Acquired { info } => {
            assert_eq!(info.device_id, 130);
            assert_eq!(info.firmware_version, 0x7141);
        }
        _ => panic!("not acquired"),
    }
}

#[test]
fn unsupported_pads_are_refused() {
    let (stage, action) = configure(awaiting_read(), reading(info_reply(128, 0x7141)));
    assert_eq!(stage, Stage::Refused);
    assert_eq!(action, Action::Fail(FlydigiError::UnrecognizedDevice(128)));
    let (stage, action) = configure(awaiting_read(), reading(info_reply(130, 0x7140)));
    assert_eq!(stage, Stage::Refused);
    assert_eq!(action, Action::Fail(FlydigiError::OldFirmware(0x7140)));
}

#[test]
fn waiting_goes_on_until_the_deadline() {
    let mut other = info_reply(130, 0x7141);
    other[3] = 0x10;
    let deadline = 1000 + REPLY_TIMEOUT;
    let (stage, action) = configure(awaiting_read(), reading(other));
    assert_eq!(action, Action::CheckTime);
    let (stage, action) = configure(stage, Event::Clock { now: deadline - 1 });
    assert_eq!(action, Action::Read);
    let (stage, action) = configure(
        stage,
        Event::Read {
            read: HidRead::Nothing,
        },
    );
    assert_eq!(action, Action::CheckTime);
    let (stage, action) = configure(stage, Event::Clock { now: deadline });
    assert_eq!(stage, Stage::Refused);
    assert_eq!(action, Action::Fail(FlydigiError::NoReply(1)));
}

#[test]
fn no_read_begins_past_the_deadline() {
    let now = 1000 + REPLY_TIMEOUT;
    let (stage, action) = configure(awaiting(), Event::Clock { now });
    assert_eq!(stage, Stage::Refused);
    assert_eq!(action, Action::Fail(FlydigiError::NoReply(1)));
}

#[test]
fn failing_io_fails_the_handshake() {
    let (stage, _) = begin();
    let (stage, action) = configure(
        stage,
        Event::SendFailed {
            error: "busy".to_string(),
        },
    );
    assert_eq!(stage, Stage::Refused);
    assert_eq!(action, Action::Fail(FlydigiError::Write("busy".to_string())));
    let (_, action) = configure(
        awaiting_read(),
        Event::Read {
            read: HidRead::Failed("gone".to_string()),
        },
    );
    assert_eq!(action, Action::Fail(FlydigiError::Read("gone".to_string())));
}

#[test]
fn a_reply_without_a_frame_is_malformed() {
    assert_eq!(
        check_info_reply(&[0u8; PACKET_LEN]),
        Err(FlydigiError::MalformedInfoReply)
    );
}

#[test]
fn requests_have_their_packets() {
    assert_eq!(Request::Info.packet(), info_request());
    assert_eq!(Request::Status.packet(), status_request());
    assert_eq!(Request::Acquire.packet(), acquire_request(true));
}

#[test]
fn errors_have_their_messages() {
    let text = |e: FlydigiError| e.message();
    assert_eq!(text(FlydigiError::Open("e".to_string())), "open: e");
    assert_eq!(text(FlydigiError::Write("e".to_string())), "write: e");
    assert_eq!(text(FlydigiError::Read("e".to_string())), "read: e");
    assert_eq!(text(FlydigiError::NoReply(0x01)), "no reply to command 0x01");
    assert_eq!(text(FlydigiError::NoReply(0xEF)), "no reply to command 0xEF");
    assert_eq!(text(FlydigiError::MalformedInfoReply), "malformed info reply");
    assert_eq!(
        text(FlydigiError::UnrecognizedDevice(28)),
        "unrecognized Flydigi device id 28 (expected Vader 5 Pro / 130)"
    );
    assert_eq!(
        text(FlydigiError::OldFirmware(0x0A0F)),
        "firmware 0x0A0F is older than the minimum supported 0x7141; update via Flydigi Space Station"
    );
}
