//! Taking control of a pad: who it is, whether its reports are understood, and
//! the request that it hand over its inputs.

use super::frame::{
    acquire_command, acquire_request, info_command, info_in, info_request, normalize_frame,
    normalized, on_wire, parse_info_reply, status_command, status_request, DeviceInfoReply,
};
use super::{
    HidRead, CMD_GET_INFO, DEVICE_ID_VADER5_PRO, MIN_FIRMWARE_VADER5_PRO, PACKET_LEN,
};
use crate::text::{append_decimal, append_hex, decimal_text, hex_text};
use vstd::prelude::*;
use vstd::string::*;

verus! {

/// How long the pad has to answer, in nanoseconds.
pub const REPLY_TIMEOUT: u64 = 500_000_000;

/// How long one read waits for that answer, in milliseconds.
pub const REPLY_READ_MS: i32 = 20;

/// Why a pad could not be opened or read.
#[derive(Debug, PartialEq, Eq)]
pub enum FlydigiError {
    Open(String),
    Write(String),
    Read(String),
    /// The command that the pad left unanswered.
    NoReply(u8),
    MalformedInfoReply,
    /// The number of a pad of another kind.
    UnrecognizedDevice(u8),
    /// The version of a firmware whose reports are not understood.
    OldFirmware(u16),
}

impl FlydigiError {
    /// The message of this error.
    pub open spec fn text(self) -> Seq<char> {
        match self {
            FlydigiError::Open(e) => "open: "@ + e@,
            FlydigiError::Write(e) => "write: "@ + e@,
            FlydigiError::Read(e) => "read: "@ + e@,
            FlydigiError::NoReply(command) => "no reply to command 0x"@ + hex_text(
                command as nat,
                2,
            ),
            FlydigiError::MalformedInfoReply => "malformed info reply"@,
            FlydigiError::UnrecognizedDevice(id) => "unrecognized Flydigi device id "@
                + decimal_text(id as nat) + " (expected Vader 5 Pro / "@ + decimal_text(
                DEVICE_ID_VADER5_PRO as nat,
            ) + ")"@,
            FlydigiError::OldFirmware(version) => "firmware 0x"@ + hex_text(version as nat, 4)
                + " is older than the minimum supported 0x"@ + hex_text(
                MIN_FIRMWARE_VADER5_PRO as nat,
                4,
            ) + "; update via Flydigi Space Station"@,
        }
    }

    pub fn message(&self) -> (message: String)
        ensures
            message@ == self.text(),
    {
        let mut out = String::new();
        match self {
            FlydigiError::Open(e) => {
                out.append("open: ");
                out.append(e.as_str());
            },
            FlydigiError::Write(e) => {
                out.append("write: ");
                out.append(e.as_str());
            },
            FlydigiError::Read(e) => {
                out.append("read: ");
                out.append(e.as_str());
            },
            FlydigiError::NoReply(command) => {
                out.append("no reply to command 0x");
                append_hex(&mut out, *command as u64, 2);
            },
            FlydigiError::MalformedInfoReply => {
                out.append("malformed info reply");
            },
            FlydigiError::UnrecognizedDevice(id) => {
                out.append("unrecognized Flydigi device id ");
                append_decimal(&mut out, *id as u64);
                out.append(" (expected Vader 5 Pro / ");
                append_decimal(&mut out, DEVICE_ID_VADER5_PRO as u64);
                out.append(")");
            },
            FlydigiError::OldFirmware(version) => {
                out.append("firmware 0x");
                append_hex(&mut out, *version as u64, 4);
                out.append(" is older than the minimum supported 0x");
                append_hex(&mut out, MIN_FIRMWARE_VADER5_PRO as u64, 4);
                out.append("; update via Flydigi Space Station");
            },
        }
        assert(out@ =~= self.text());
        out
    }
}

/// A request to the pad.
#[derive(Debug, Clone, Copy, PartialEq, Eq, Structural)]
pub enum Request {
    Info,
    Status,
    Acquire,
}

impl Request {
    /// The command that the request stands for.
    pub open spec fn command(self) -> Seq<u8> {
        match self {
            Request::Info => info_command(),
            Request::Status => status_command(),
            Request::Acquire => acquire_command(true),
        }
    }

    pub fn packet(&self) -> (packet: [u8; PACKET_LEN])
        ensures
            packet@ == on_wire(self.command()),
    {
        match self {
            Request::Info => info_request(),
            Request::Status => status_request(),
            Request::Acquire => acquire_request(true),
        }
    }
}

/// Whether `buf` holds a frame that answers `command`.
pub open spec fn answers(buf: Seq<u8>, command: u8) -> bool {
    match normalized(buf) {
        Some(frame) => frame[2] == command,
        None => false,
    }
}

/// Whether the reports of a pad that says `info` of itself are understood.
pub open spec fn is_supported(info: DeviceInfoReply) -> bool {
    info.device_id == DEVICE_ID_VADER5_PRO && info.firmware_version >= MIN_FIRMWARE_VADER5_PRO
}

/// What to make of the pad that sent `buf` as its information reply.
pub open spec fn judged(buf: Seq<u8>) -> Result<DeviceInfoReply, FlydigiError> {
    match normalized(buf) {
        None => Err(FlydigiError::MalformedInfoReply),
        Some(frame) => if info_in(frame).device_id != DEVICE_ID_VADER5_PRO {
            Err(FlydigiError::UnrecognizedDevice(info_in(frame).device_id))
        } else if info_in(frame).firmware_version < MIN_FIRMWARE_VADER5_PRO {
            Err(FlydigiError::OldFirmware(info_in(frame).firmware_version))
        } else {
            Ok(info_in(frame))
        },
    }
}

/// Judges an information reply.
pub fn check_info_reply(buf: &[u8; PACKET_LEN]) -> (verdict: Result<DeviceInfoReply, FlydigiError>)
    ensures
        verdict == judged(buf@),
{
    match parse_info_reply(buf) {
        None => Err(FlydigiError::MalformedInfoReply),
        Some(info) => if info.device_id != DEVICE_ID_VADER5_PRO {
            Err(FlydigiError::UnrecognizedDevice(info.device_id))
        } else if info.firmware_version < MIN_FIRMWARE_VADER5_PRO {
            Err(FlydigiError::OldFirmware(info.firmware_version))
        } else {
            Ok(info)
        },
    }
}

/// How far the handshake has come.
#[derive(Debug, Clone, Copy, PartialEq, Eq, Structural)]
pub enum Stage {
    /// The information request is on its way out.
    AskingInfo,
    /// Its answer is due by `deadline`, and the time is to be looked up.
    AwaitingInfo { deadline: u64 },
    /// A read for the answer that is due by `deadline` is on its way.
    ReadingInfo { deadline: u64 },
    /// The status request is on its way out.
    AskingStatus { info: DeviceInfoReply },
    /// The acquire request is on its way out.
    Acquiring { info: DeviceInfoReply },
    /// The pad is acquired.
    Acquired { info: DeviceInfoReply },
    /// The handshake failed.
    Refused,
}

/// What came of the last action. Times are in nanoseconds of one clock.
#[derive(Debug, PartialEq)]
pub enum Event {
    Sent { now: u64 },
    SendFailed { error: String },
    Clock { now: u64 },
    Read { read: HidRead },
}

/// What to do next.
#[derive(Debug, PartialEq, Eq)]
pub enum Action {
    Send(Request),
    /// Look up the time.
    CheckTime,
    /// Read for [`REPLY_READ_MS`].
    Read,
    Done,
    Fail(FlydigiError),
}

impl Stage {
    /// Past its information reply, the handshake is with a supported pad.
    pub open spec fn wf(self) -> bool {
        match self {
            Stage::AskingStatus { info } => is_supported(info),
            Stage::Acquiring { info } => is_supported(info),
            Stage::Acquired { info } => is_supported(info),
            _ => true,
        }
    }

    /// Whether `event` can be what came of this stage's action.
    pub open spec fn expects(self, event: Event) -> bool {
        match self {
            Stage::AskingInfo | Stage::AskingStatus { .. } | Stage::Acquiring { .. } => event
                is Sent || event is SendFailed,
            Stage::AwaitingInfo { .. } => event is Clock,
            Stage::ReadingInfo { .. } => event is Read,
            Stage::Acquired { .. } | Stage::Refused => false,
        }
    }

    /// The stage that follows and the action that leads on from it.
    pub open spec fn next(self, event: Event) -> (Stage, Action) {
        match event {
            Event::SendFailed { error } => (
                Stage::Refused,
                Action::Fail(FlydigiError::Write(error)),
            ),
            Event::Sent { now } => match self {
                Stage::AskingInfo => (
                    Stage::AwaitingInfo { deadline: now.saturating_add(REPLY_TIMEOUT) },
                    Action::CheckTime,
                ),
                Stage::AskingStatus { info } => (
                    Stage::Acquiring { info },
                    Action::Send(Request::Acquire),
                ),
                Stage::Acquiring { info } => (Stage::Acquired { info }, Action::Done),
                _ => arbitrary(),
            },
            Event::Clock { now } => match self {
                Stage::AwaitingInfo { deadline } => Stage::read_if_in_time(deadline, now),
                _ => arbitrary(),
            },
            Event::Read { read } => match (self, read) {
                (Stage::ReadingInfo { deadline }, HidRead::Failed(e)) => (
                    Stage::Refused,
                    Action::Fail(FlydigiError::Read(e)),
                ),
                (Stage::ReadingInfo { deadline }, HidRead::Report(buf)) => if answers(
                    buf@,
                    CMD_GET_INFO,
                ) {
                    match judged(buf@) {
                        Ok(info) => (Stage::AskingStatus { info }, Action::Send(Request::Status)),
                        Err(e) => (Stage::Refused, Action::Fail(e)),
                    }
                } else {
                    (Stage::AwaitingInfo { deadline }, Action::CheckTime)
                },
                (Stage::ReadingInfo { deadline }, HidRead::Nothing) => (
                    Stage::AwaitingInfo { deadline },
                    Action::CheckTime,
                ),
                _ => arbitrary(),
            },
        }
    }

    /// What the time `now` leads to while no answer is there: a read before the
    /// deadline, the end of the handshake from it on.
    pub open spec fn read_if_in_time(deadline: u64, now: u64) -> (Stage, Action) {
        if now < deadline {
            (Stage::ReadingInfo { deadline }, Action::Read)
        } else {
            (Stage::Refused, Action::Fail(FlydigiError::NoReply(CMD_GET_INFO)))
        }
    }
}

/// Begins the handshake.
pub fn begin() -> (first: (Stage, Action))
    ensures
        first == (Stage::AskingInfo, Action::Send(Request::Info)),
        first.0.wf(),
{
    (Stage::AskingInfo, Action::Send(Request::Info))
}

fn is_answer(buf: &[u8; PACKET_LEN], command: u8) -> (yes: bool)
    ensures
        yes == answers(buf@, command),
{
    match normalize_frame(buf.as_slice()) {
        Some(frame) => frame[2] == command,
        None => false,
    }
}

fn wait_for_reply(deadline: u64, now: u64) -> (step: (Stage, Action))
    ensures
        step == Stage::read_if_in_time(deadline, now),
{
    if now < deadline {
        (Stage::ReadingInfo { deadline }, Action::Read)
    } else {
        (Stage::Refused, Action::Fail(FlydigiError::NoReply(CMD_GET_INFO)))
    }
}

/// Takes the handshake one step on.
pub fn configure(stage: Stage, event: Event) -> (step: (Stage, Action))
    requires
        stage.wf(),
        stage.expects(event),
    ensures
        step == stage.next(event),
        step.0.wf(),
{
    match event {
        Event::SendFailed { error } => (
            Stage::Refused,
            Action::Fail(FlydigiError::Write(error)),
        ),
        Event::Sent { now } => match stage {
            Stage::AskingInfo => (
                Stage::AwaitingInfo { deadline: now.saturating_add(REPLY_TIMEOUT) },
                Action::CheckTime,
            ),
            Stage::AskingStatus { info } => (
                Stage::Acquiring { info },
                Action::Send(Request::Acquire),
            ),
            Stage::Acquiring { info } => (Stage::Acquired { info }, Action::Done),
            _ => vstd::pervasive::unreached(),
        },
        Event::Clock { now } => match stage {
            Stage::AwaitingInfo { deadline } => wait_for_reply(deadline, now),
            _ => vstd::pervasive::unreached(),
        },
        Event::Read { read } => match stage {
            Stage::ReadingInfo { deadline } => match read {
                HidRead::Nothing => (Stage::AwaitingInfo { deadline }, Action::CheckTime),
                HidRead::Failed(e) => (Stage::Refused, Action::Fail(FlydigiError::Read(e))),
                HidRead::Report(buf) => if is_answer(&buf, CMD_GET_INFO) {
                    match check_info_reply(&buf) {
                        Ok(info) => (Stage::AskingStatus { info }, Action::Send(Request::Status)),
                        Err(e) => (Stage::Refused, Action::Fail(e)),
                    }
                } else {
                    (Stage::AwaitingInfo { deadline }, Action::CheckTime)
                },
            },
            _ => vstd::pervasive::unreached(),
        },
    }
}

} // verus!
