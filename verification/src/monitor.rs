//! The events that the monitor of a socket reports, and the sockets that a
//! poll found readable.

use crate::data_structures::SocketType;
use crate::errors::{ErrorView, RustydomoError};
use crate::frames::frame_to_string;
use crate::text::{decimal_string, decimal_text};
use vstd::prelude::*;
use vstd::utf8::{decode_utf8, valid_utf8};

verus! {

/// The events of a monitor that the broker asks for.
#[derive(Debug, Clone, Copy, PartialEq, Eq, Structural)]
pub enum MonitorEvent {
    /// A peer has connected and the handshake with it has succeeded.
    HandshakeSucceeded,
    /// A peer has disconnected.
    Disconnected,
}

impl MonitorEvent {
    /// The number by which the transport reports an event.
    pub open spec fn raw(self) -> u16 {
        match self {
            MonitorEvent::HandshakeSucceeded => 0x1000,
            MonitorEvent::Disconnected => 0x0200,
        }
    }
}

/// The number by which the transport reports `event`.
///
/// This is `zmq::SocketEvent::to_raw` on the event of the same name: it gives
/// the constant that `zmq_sys` defines for it, 4096 for
/// `ZMQ_EVENT_HANDSHAKE_SUCCEEDED` and 512 for `ZMQ_EVENT_DISCONNECTED`.
#[verifier::external_body]
fn socket_event_raw(event: MonitorEvent) -> (raw: u16)
    ensures
        raw == event.raw(),
{
    match event {
        MonitorEvent::HandshakeSucceeded => zmq::SocketEvent::HANDSHAKE_SUCCEEDED.to_raw(),
        MonitorEvent::Disconnected => zmq::SocketEvent::DISCONNECTED.to_raw(),
    }
}

/// The events that the monitor of a broker's socket is asked to report, as
/// one mask: a handshake that succeeded, and a peer that disconnected.
pub fn monitored_events() -> (mask: i32)
    ensures
        mask == 0x1200,
{
    let handshake = socket_event_raw(MonitorEvent::HandshakeSucceeded);
    let disconnect = socket_event_raw(MonitorEvent::Disconnected);
    assert(0x1000u16 | 0x0200u16 == 0x1200u16) by (bit_vector);
    (handshake | disconnect) as i32
}

/// The event that the number `raw` reports, if it is one the broker asks for.
pub fn classify_event(raw: u16) -> (event: Option<MonitorEvent>)
    ensures
        event matches Some(found) ==> found.raw() == raw,
        event is None ==> raw != 0x1000 && raw != 0x0200,
{
    if raw == socket_event_raw(MonitorEvent::HandshakeSucceeded) {
        Some(MonitorEvent::HandshakeSucceeded)
    } else if raw == socket_event_raw(MonitorEvent::Disconnected) {
        Some(MonitorEvent::Disconnected)
    } else {
        None
    }
}

/// The number that two bytes stand for, the first byte counting least.
pub open spec fn low_first(first: u8, second: u8) -> int {
    first + 256 * second
}

/// The number that two bytes stand for, the first byte counting most.
pub open spec fn high_first(first: u8, second: u8) -> int {
    256 * first + second
}

/// The number that two bytes stand for in the byte order of the machine.
///
/// This is `u16::from_ne_bytes`: the bytes are read in the machine's own
/// order, which is one of the two.
#[verifier::external_body]
fn native_u16(first: u8, second: u8) -> (value: u16)
    ensures
        value == low_first(first, second) || value == high_first(first, second),
{
    u16::from_ne_bytes([first, second])
}

/// The bytes of one frame, to be read as a number.
#[derive(Debug)]
pub struct MessageHelper {
    pub m: Vec<u8>,
}

impl MessageHelper {
    /// The number that the first two bytes of the frame stand for in the
    /// byte order of the machine. A frame of less than two bytes is refused.
    pub fn try_into_u16(self) -> (number: Result<u16, RustydomoError>)
        ensures
            number is Ok <==> self.m@.len() >= 2,
            number matches Ok(value) ==> value == low_first(self.m@[0], self.m@[1]) || value
                == high_first(self.m@[0], self.m@[1]),
            number matches Err(fault) ==> fault@ == ErrorView::ConversionError(
                "Failed to convert value to u16"@,
            ),
    {
        if self.m.len() < 2 {
            Err(RustydomoError::ConversionError("Failed to convert value to u16".to_string()))
        } else {
            Ok(native_u16(self.m[0], self.m[1]))
        }
    }
}

/// What the broker notes of an event of a monitor, and how loudly.
#[derive(Debug)]
pub enum MonitorNote {
    /// Worth telling: a peer came or went.
    Info(String),
    /// Of interest only to someone who looks for a fault.
    Debug(String),
}

/// A [`MonitorNote`] with its text as a sequence of characters.
pub enum MonitorNoteView {
    Info(Seq<char>),
    Debug(Seq<char>),
}

impl View for MonitorNote {
    type V = MonitorNoteView;

    open spec fn view(&self) -> MonitorNoteView {
        match self {
            MonitorNote::Info(text) => MonitorNoteView::Info(text@),
            MonitorNote::Debug(text) => MonitorNoteView::Debug(text@),
        }
    }
}

/// The address that an address frame holds: its text where it is valid
/// UTF-8, else `<unknown>`.
pub open spec fn origin_text(origin: Seq<u8>) -> Seq<char> {
    if valid_utf8(origin) {
        decode_utf8(origin)
    } else {
        "<unknown>"@
    }
}

/// The note on the event `raw` that the monitor of the socket of `source`
/// reported from the address `origin`, or on the lack of an event where the
/// event frame held none.
pub open spec fn monitor_note(source: Seq<char>, raw: Option<u16>, origin: Seq<u8>) -> MonitorNoteView {
    match raw {
        None => MonitorNoteView::Debug("Failed to convert event_id to u16"@),
        Some(number) => if number == MonitorEvent::HandshakeSucceeded.raw() {
            MonitorNoteView::Info(source + " accepted on "@ + origin_text(origin))
        } else if number == MonitorEvent::Disconnected.raw() {
            MonitorNoteView::Info(source + " disconnected from "@ + origin_text(origin))
        } else {
            MonitorNoteView::Debug("Unrecognized event : "@ + decimal_text(number as nat))
        },
    }
}

/// The note on an event, see [`monitor_note`].
pub fn note_event(source_name: &str, raw: Option<u16>, origin: &[u8]) -> (note: MonitorNote)
    ensures
        note@ == monitor_note(source_name@, raw, origin@),
{
    match raw {
        None => MonitorNote::Debug("Failed to convert event_id to u16".to_string()),
        Some(number) => match classify_event(number) {
            Some(event) => {
                let address = match frame_to_string(origin) {
                    Some(text) => text,
                    None => "<unknown>".to_string(),
                };
                let line = source_name.to_string();
                match event {
                    MonitorEvent::HandshakeSucceeded => MonitorNote::Info(
                        line.concat(" accepted on ").concat(address.as_str()),
                    ),
                    MonitorEvent::Disconnected => MonitorNote::Info(
                        line.concat(" disconnected from ").concat(address.as_str()),
                    ),
                }
            },
            None => MonitorNote::Debug(
                "Unrecognized event : ".to_string().concat(
                    decimal_string(number as u64).as_str(),
                ),
            ),
        },
    }
}

/// Handles one message of a monitor: the frame of the event, then the frame
/// of the address it came from. The event's number stands in the first two
/// bytes of its frame, in the byte order of the machine. A message of less
/// than two frames is refused as malformed.
pub fn handle_monitor_message(source_name: &str, frames: &Vec<Vec<u8>>) -> (noted: Result<
    MonitorNote,
    RustydomoError,
>)
    ensures
        noted is Ok <==> frames@.len() >= 2,
        noted matches Err(fault) ==> fault@ == ErrorView::MalformedMessage,
        noted matches Ok(note) ==> {
            let event = frames@[0]@;
            let origin = frames@[1]@;
            if event.len() < 2 {
                note@ == monitor_note(source_name@, None, origin)
            } else {
                ||| note@ == monitor_note(
                    source_name@,
                    Some(low_first(event[0], event[1]) as u16),
                    origin,
                )
                ||| note@ == monitor_note(
                    source_name@,
                    Some(high_first(event[0], event[1]) as u16),
                    origin,
                )
            }
        },
{
    if frames.len() < 2 {
        return Err(RustydomoError::MalformedMessage);
    }
    let helper = MessageHelper { m: vstd::slice::slice_to_vec(frames[0].as_slice()) };
    let raw = match helper.try_into_u16() {
        Ok(number) => Some(number),
        Err(_) => None,
    };
    Ok(note_event(source_name, raw, frames[1].as_slice()))
}

/// Handles one message of the monitor of the clients' socket.
pub fn handle_client_monitor_messages(frames: &Vec<Vec<u8>>) -> (noted: Result<
    MonitorNote,
    RustydomoError,
>)
    ensures
        noted is Ok <==> frames@.len() >= 2,
        noted matches Err(fault) ==> fault@ == ErrorView::MalformedMessage,
        noted matches Ok(note) ==> {
            let event = frames@[0]@;
            let origin = frames@[1]@;
            if event.len() < 2 {
                note@ == monitor_note("Client"@, None, origin)
            } else {
                ||| note@ == monitor_note(
                    "Client"@,
                    Some(low_first(event[0], event[1]) as u16),
                    origin,
                )
                ||| note@ == monitor_note(
                    "Client"@,
                    Some(high_first(event[0], event[1]) as u16),
                    origin,
                )
            }
        },
{
    handle_monitor_message("Client", frames)
}

/// Handles one message of the monitor of the workers' socket.
pub fn handle_worker_monitor_messages(frames: &Vec<Vec<u8>>) -> (noted: Result<
    MonitorNote,
    RustydomoError,
>)
    ensures
        noted is Ok <==> frames@.len() >= 2,
        noted matches Err(fault) ==> fault@ == ErrorView::MalformedMessage,
        noted matches Ok(note) ==> {
            let event = frames@[0]@;
            let origin = frames@[1]@;
            if event.len() < 2 {
                note@ == monitor_note("Worker"@, None, origin)
            } else {
                ||| note@ == monitor_note(
                    "Worker"@,
                    Some(low_first(event[0], event[1]) as u16),
                    origin,
                )
                ||| note@ == monitor_note(
                    "Worker"@,
                    Some(high_first(event[0], event[1]) as u16),
                    origin,
                )
            }
        },
{
    handle_monitor_message("Worker", frames)
}

/// The sockets that have a message waiting. `readable` says of each place of
/// the poll list, in order, whether the poll found the socket there
/// readable. There are four sockets: where a place behind the fourth is
/// readable, the first such place is reported as `Unknown`.
pub fn stimulated_sockets(readable: &Vec<bool>) -> (sockets: Result<
    Vec<SocketType>,
    RustydomoError,
>)
    ensures
        sockets is Ok <==> forall|i: int| 4 <= i < readable@.len() ==> !readable@[i],
        sockets matches Ok(found) ==> {
            &&& forall|k: int|
                0 <= k < found@.len() ==> 0 <= (#[trigger] found@[k]).position() < readable@.len()
                    && readable@[found@[k].position()]
            &&& forall|j: int, k: int|
                0 <= j < k < found@.len() ==> (#[trigger] found@[j]).position() < (
                #[trigger] found@[k]).position()
            &&& forall|i: int|
                0 <= i < readable@.len() && readable@[i] ==> exists|k: int|
                    0 <= k < found@.len() && (#[trigger] found@[k]).position() == i
        },
        sockets matches Err(fault) ==> exists|i: int|
            {
                &&& 4 <= i < readable@.len() && #[trigger] readable@[i]
                &&& forall|j: int| 4 <= j < i ==> !readable@[j]
                &&& fault@ == ErrorView::Unknown(
                    crate::data_structures::unknown_socket_text(i as nat),
                )
            },
{
    let mut found: Vec<SocketType> = Vec::new();
    let mut at: usize = 0;
    while at < readable.len()
        invariant
            at <= readable@.len(),
            forall|i: int| 4 <= i < at ==> !readable@[i],
            forall|k: int|
                0 <= k < found@.len() ==> 0 <= (#[trigger] found@[k]).position() < at
                    && readable@[found@[k].position()],
            forall|j: int, k: int|
                0 <= j < k < found@.len() ==> (#[trigger] found@[j]).position() < (
                #[trigger] found@[k]).position(),
            forall|i: int|
                0 <= i < at && readable@[i] ==> exists|k: int|
                    0 <= k < found@.len() && (#[trigger] found@[k]).position() == i,
        decreases readable@.len() - at,
    {
        if readable[at] {
            match SocketType::try_from(at) {
                Ok(socket) => {
                    let ghost before = found@;
                    found.push(socket);
                    assert forall|i: int| 0 <= i < at + 1 && readable@[i] implies exists|k: int|
                        0 <= k < found@.len() && (#[trigger] found@[k]).position() == i by {
                        if i < at {
                            let k = choose|k: int|
                                0 <= k < before.len() && (#[trigger] before[k]).position() == i;
                            assert(found@[k].position() == i);
                        } else {
                            assert(found@[before.len() as int].position() == i);
                        }
                    }
                },
                Err(fault) => {
                    return Err(fault);
                },
            }
        }
        at += 1;
    }
    Ok(found)
}

} // verus!
