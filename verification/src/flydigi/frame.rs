//! Frames of the command channel: the requests that go out and the frames that
//! come in.

use super::{
    CMD_ACQUIRE, CMD_GET_INFO, CMD_GET_STATUS, CMD_REPORT_ID, FRAME_LEN, MAGIC1, MAGIC2, PACKET_LEN,
};
use vstd::prelude::*;

verus! {

/// Whether `frame` begins with a whole frame of the command channel.
pub open spec fn is_frame(frame: Seq<u8>) -> bool {
    frame.len() >= FRAME_LEN && frame[0] == MAGIC1 && frame[1] == MAGIC2
}

/// The 31-byte frame in what an interface delivered, which may put a report number
/// in front of it.
pub open spec fn normalized(buf: Seq<u8>) -> Option<Seq<u8>> {
    let frame = if buf.len() > 0 && buf[0] != MAGIC1 {
        buf.skip(1)
    } else {
        buf
    };
    if is_frame(frame) {
        Some(frame.take(FRAME_LEN as int))
    } else {
        None
    }
}

/// Finds the frame in a raw read, stripping a leading report number where the
/// system still exposes one.
pub fn normalize_frame(buf: &[u8]) -> (frame: Option<&[u8]>)
    ensures
        frame is Some <==> normalized(buf@) is Some,
        frame matches Some(f) ==> normalized(buf@) == Some(f@),
{
    let len = buf.len();
    let frame = if len > 0 && buf[0] == MAGIC1 {
        buf
    } else if len > 1 {
        assert(buf@.skip(1) =~= buf@.subrange(1, len as int));
        &buf[1..len]
    } else {
        return None;
    };
    if frame.len() < FRAME_LEN || frame[0] != MAGIC1 || frame[1] != MAGIC2 {
        return None;
    }
    Some(&frame[0..FRAME_LEN])
}

/// What goes on the wire for the command `data`: 32 bytes, cut or filled up with
/// zeros, and the report number in front cleared, since the pad's reports are
/// unnumbered.
pub open spec fn on_wire(data: Seq<u8>) -> Seq<u8> {
    Seq::new(
        PACKET_LEN as nat,
        |i: int|
            if i >= data.len() || (i == 0 && data[0] == CMD_REPORT_ID) {
                0
            } else {
                data[i]
            },
    )
}

/// Makes the packet for the command `data`.
pub fn wire_packet(data: &[u8]) -> (packet: [u8; PACKET_LEN])
    ensures
        packet@ == on_wire(data@),
{
    let mut buf = [0u8;PACKET_LEN];
    let len = if data.len() < PACKET_LEN {
        data.len()
    } else {
        PACKET_LEN
    };
    let mut at: usize = 0;
    while at < len
        invariant
            at <= len <= PACKET_LEN,
            len <= data@.len(),
            buf@.len() == PACKET_LEN,
            forall|i: int| 0 <= i < at ==> buf@[i] == data@[i],
            forall|i: int| at <= i < PACKET_LEN ==> buf@[i] == 0,
        decreases len - at,
    {
        buf[at] = data[at];
        at += 1;
    }
    if buf[0] == CMD_REPORT_ID {
        buf[0] = 0;
    }
    assert(buf@ =~= on_wire(data@));
    buf
}

/// The command that asks who the pad is.
pub open spec fn info_command() -> Seq<u8> {
    seq![CMD_REPORT_ID, MAGIC1, MAGIC2, CMD_GET_INFO, 2, 0]
}

/// The command that asks for the pad's status.
pub open spec fn status_command() -> Seq<u8> {
    seq![CMD_REPORT_ID, MAGIC1, MAGIC2, CMD_GET_STATUS]
}

/// The command that takes control of the pad or gives it back, in the name of
/// "SDL".
pub open spec fn acquire_command(acquire: bool) -> Seq<u8> {
    seq![
        CMD_REPORT_ID,
        MAGIC1,
        MAGIC2,
        CMD_ACQUIRE,
        23,
        if acquire {
            1
        } else {
            0
        },
        0x53,
        0x44,
        0x4C,
    ]
}

pub fn info_request() -> (packet: [u8; PACKET_LEN])
    ensures
        packet@ == on_wire(info_command()),
{
    let command = [CMD_REPORT_ID, MAGIC1, MAGIC2, CMD_GET_INFO, 2, 0];
    assert(command@ =~= info_command());
    wire_packet(command.as_slice())
}

pub fn status_request() -> (packet: [u8; PACKET_LEN])
    ensures
        packet@ == on_wire(status_command()),
{
    let command = [CMD_REPORT_ID, MAGIC1, MAGIC2, CMD_GET_STATUS];
    assert(command@ =~= status_command());
    wire_packet(command.as_slice())
}

pub fn acquire_request(acquire: bool) -> (packet: [u8; PACKET_LEN])
    ensures
        packet@ == on_wire(acquire_command(acquire)),
{
    let wanted: u8 = if acquire {
        1
    } else {
        0
    };
    let command = [
        CMD_REPORT_ID,
        MAGIC1,
        MAGIC2,
        CMD_ACQUIRE,
        23,
        wanted,
        0x53,
        0x44,
        0x4C,
    ];
    assert(command@ =~= acquire_command(acquire));
    wire_packet(command.as_slice())
}

/// What the pad says of itself.
#[derive(Debug, Clone, Copy, PartialEq, Eq, Structural)]
pub struct DeviceInfoReply {
    pub device_id: u8,
    pub firmware_version: u16,
}

/// The reply that `frame` holds. The firmware version is stored low byte first.
pub open spec fn info_in(frame: Seq<u8>) -> DeviceInfoReply {
    DeviceInfoReply {
        device_id: frame[5],
        firmware_version: (frame[16] * 256 + frame[15]) as u16,
    }
}

/// Reads the reply to an information request.
pub fn parse_info_reply(buf: &[u8; PACKET_LEN]) -> (info: Option<DeviceInfoReply>)
    ensures
        info == (match normalized(buf@) {
            Some(frame) => Some(info_in(frame)),
            None => None,
        }),
{
    match normalize_frame(buf.as_slice()) {
        Some(frame) => Some(
            DeviceInfoReply {
                device_id: frame[5],
                firmware_version: frame[16] as u16 * 256 + frame[15] as u16,
            },
        ),
        None => None,
    }
}

/// A frame reads the same with and without a report number in front, whatever
/// the number.
pub proof fn report_number_is_ignored(frame: Seq<u8>, number: u8)
    requires
        is_frame(frame),
        frame.len() == FRAME_LEN,
        number != MAGIC1,
    ensures
        normalized(frame) == Some(frame),
        normalized(seq![number] + frame) == Some(frame),
{
    assert((seq![number] + frame).skip(1) =~= frame);
    assert(frame.take(FRAME_LEN as int) =~= frame);
}

/// A frame that was found is a whole frame and is found again in itself.
pub proof fn normalizing_is_idempotent(buf: Seq<u8>)
    requires
        normalized(buf) is Some,
    ensures
        is_frame(normalized(buf).unwrap()),
        normalized(buf).unwrap().len() == FRAME_LEN,
        normalized(normalized(buf).unwrap()) == normalized(buf),
{
    let frame = normalized(buf).unwrap();
    assert(frame.take(FRAME_LEN as int) =~= frame);
}

/// No packet goes out with the report number of the commands in front.
pub proof fn packets_are_unnumbered(data: Seq<u8>)
    ensures
        on_wire(data).len() == PACKET_LEN,
        on_wire(data)[0] != CMD_REPORT_ID,
{
}

/// A magic-prefixed command is on the wire as a frame that carries the command's
/// bytes behind the report number, up to the packet's length.
pub proof fn commands_go_out_as_frames(data: Seq<u8>)
    requires
        data.len() >= 3,
        data[0] == CMD_REPORT_ID,
        data[1] == MAGIC1,
        data[2] == MAGIC2,
    ensures
        normalized(on_wire(data)) is Some,
        normalized(on_wire(data)).unwrap().len() == FRAME_LEN,
        forall|i: int|
            0 <= i < FRAME_LEN ==> #[trigger] normalized(on_wire(data)).unwrap()[i] == (if i + 1
                < data.len() {
                data[i + 1]
            } else {
                0
            }),
{
}

} // verus!
