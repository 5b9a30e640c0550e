//! The frames of the two sides of the protocol: what a message of several
//! frames must look like to be taken, and how the messages that the broker
//! sends are put together.

use crate::data_structures::{same_bytes, ClientInteractionType, Identity, WorkerInteractionType};
use crate::errors::{ErrorView, RustydomoError};
use vstd::prelude::*;
use vstd::slice::slice_to_vec;
use vstd::utf8::{
    decode_utf8, encode_utf8, encode_utf8_decode_utf8, encode_utf8_valid_utf8,
    is_ascii_chars_encode_utf8, valid_utf8,
};

verus! {

/// The frame `MDPC02`, which opens every message of the client side.
pub open spec fn client_header() -> Seq<u8> {
    seq![0x4du8, 0x44u8, 0x50u8, 0x43u8, 0x30u8, 0x32u8]
}

/// The frame `MDPW02`, which opens every message of the worker side.
pub open spec fn worker_header() -> Seq<u8> {
    seq![0x4du8, 0x44u8, 0x50u8, 0x57u8, 0x30u8, 0x32u8]
}

/// The frames of a message as sequences of bytes.
pub open spec fn frames_view(frames: Seq<Vec<u8>>) -> Seq<Seq<u8>> {
    Seq::new(frames.len(), |i: int| frames[i]@)
}

/// The frame `MDPC02`.
pub fn client_header_frame() -> (frame: Vec<u8>)
    ensures
        frame@ == client_header(),
{
    let frame: Vec<u8> = vec![0x4du8, 0x44u8, 0x50u8, 0x43u8, 0x30u8, 0x32u8];
    assert(frame@ =~= client_header());
    frame
}

/// The frame `MDPW02`.
pub fn worker_header_frame() -> (frame: Vec<u8>)
    ensures
        frame@ == worker_header(),
{
    let frame: Vec<u8> = vec![0x4du8, 0x44u8, 0x50u8, 0x57u8, 0x30u8, 0x32u8];
    assert(frame@ =~= worker_header());
    frame
}

/// A frame of the one byte `byte`.
pub fn byte_frame(byte: u8) -> (frame: Vec<u8>)
    ensures
        frame@ == seq![byte],
{
    let frame: Vec<u8> = vec![byte];
    assert(frame@ =~= seq![byte]);
    frame
}

/// A copy of the frames of `frames` from place `from` on.
pub fn frames_from(frames: &Vec<Vec<u8>>, from: usize) -> (rest: Vec<Vec<u8>>)
    requires
        from <= frames@.len(),
    ensures
        frames_view(rest@) == frames_view(frames@).skip(from as int),
{
    let mut rest: Vec<Vec<u8>> = Vec::new();
    let mut at: usize = from;
    while at < frames.len()
        invariant
            from <= at <= frames@.len(),
            rest@.len() == at - from,
            forall|k: int| 0 <= k < rest@.len() ==> (#[trigger] rest@[k])@ == frames@[from + k]@,
        decreases frames@.len() - at,
    {
        rest.push(slice_to_vec(frames[at].as_slice()));
        at += 1;
    }
    assert(frames_view(rest@) =~= frames_view(frames@).skip(from as int));
    rest
}

/// Puts copies of the frames of `more` behind those of `frames`.
pub fn append_frames(frames: &mut Vec<Vec<u8>>, more: &Vec<Vec<u8>>)
    ensures
        frames_view(final(frames)@) == frames_view(old(frames)@) + frames_view(more@),
{
    let mut at: usize = 0;
    while at < more.len()
        invariant
            at <= more@.len(),
            frames@.len() == old(frames)@.len() + at,
            forall|k: int|
                0 <= k < old(frames)@.len() ==> (#[trigger] frames@[k])@ == old(frames)@[k]@,
            forall|k: int|
                old(frames)@.len() <= k < frames@.len() ==> (#[trigger] frames@[k])@ == more@[k
                    - old(frames)@.len()]@,
        decreases more@.len() - at,
    {
        frames.push(slice_to_vec(more[at].as_slice()));
        at += 1;
    }
    assert(frames_view(frames@) =~= frames_view(old(frames)@) + frames_view(more@));
}

/// Whether a frame can name a service: it is not empty, and each of its bytes
/// is a printable character of ASCII, the space included.
pub open spec fn printable(frame: Seq<u8>) -> bool {
    &&& frame.len() > 0
    &&& forall|i: int| 0 <= i < frame.len() ==> 0x20 <= #[trigger] frame[i] <= 0x7e
}

/// The text of a frame of ASCII: byte for byte the character of that code.
pub open spec fn ascii_text(frame: Seq<u8>) -> Seq<char> {
    Seq::new(frame.len(), |i: int| frame[i] as char)
}

/// A frame of ASCII is valid UTF-8 and decodes to its text.
pub proof fn lemma_ascii_text(frame: Seq<u8>)
    requires
        forall|i: int| 0 <= i < frame.len() ==> #[trigger] frame[i] < 0x80,
    ensures
        valid_utf8(frame),
        decode_utf8(frame) == ascii_text(frame),
        encode_utf8(ascii_text(frame)) == frame,
{
    let text = ascii_text(frame);
    assert forall|i: int| 0 <= i < text.len() implies '\0' <= #[trigger] text[i] <= '\u{7f}' by {
        assert(frame[i] < 0x80);
    }
    is_ascii_chars_encode_utf8(text);
    assert forall|i: int| 0 <= i < frame.len() implies encode_utf8(text)[i] == frame[i] by {
        assert(text[i] as u8 == encode_utf8(text)[i]);
        assert(frame[i] < 0x80);
    }
    assert(encode_utf8(text) =~= frame);
    encode_utf8_valid_utf8(text);
    encode_utf8_decode_utf8(text);
}

/// The text of a frame, where the frame is valid UTF-8.
///
/// This is `zmq::Message::as_str` on a message made of the bytes of `frame`:
/// the message hands its bytes to `std::str::from_utf8`, which takes them if
/// and only if they are valid UTF-8 and then gives the text they encode.
#[verifier::external_body]
pub(crate) fn frame_to_string(frame: &[u8]) -> (text: Option<String>)
    ensures
        text is Some <==> valid_utf8(frame@),
        text matches Some(decoded) ==> decoded@ == decode_utf8(frame@),
{
    let message = zmq::Message::from(frame);
    message.as_str().map(String::from)
}

/// Whether `frame` can name a service.
pub fn is_printable(frame: &[u8]) -> (fine: bool)
    ensures
        fine == printable(frame@),
{
    if frame.len() == 0 {
        return false;
    }
    let mut at: usize = 0;
    while at < frame.len()
        invariant
            at <= frame@.len(),
            forall|k: int| 0 <= k < at ==> 0x20 <= #[trigger] frame@[k] <= 0x7e,
        decreases frame@.len() - at,
    {
        if frame[at] < 0x20 || frame[at] > 0x7e {
            return false;
        }
        at += 1;
    }
    true
}

/// The name of the service that `frame` holds. A frame that cannot name a
/// service is refused as malformed.
pub fn parse_service_name(frame: &[u8]) -> (name: Result<String, RustydomoError>)
    ensures
        name is Ok <==> printable(frame@),
        name matches Ok(text) ==> text@ == ascii_text(frame@),
        name matches Err(fault) ==> fault@ == ErrorView::MalformedMessage,
{
    if !is_printable(frame) {
        return Err(RustydomoError::MalformedMessage);
    }
    proof {
        lemma_ascii_text(frame@);
    }
    match frame_to_string(frame) {
        Some(text) => Ok(text),
        None => Err(RustydomoError::MalformedMessage),
    }
}

/// Why a message that came in on the client side is not a request, if it is
/// not. The frames are looked at in their order: the client's identity, which
/// is any string of bytes; `MDPC02`; the command as one byte, which is 1; the
/// name of the service, which is printable. Frames behind these are the body.
pub open spec fn client_request_fault(frames: Seq<Seq<u8>>) -> Option<ErrorView> {
    if frames.len() < 2 {
        Some(ErrorView::MalformedMessage)
    } else if frames[1] != client_header() {
        Some(ErrorView::ProtocolMismatch)
    } else if frames.len() < 3 || frames[2].len() != 1 {
        Some(ErrorView::MalformedMessage)
    } else if frames[2][0] != ClientInteractionType::Request.wire() {
        Some(ErrorView::UnrecognizedCommandType(frames[2][0]))
    } else if frames.len() < 4 || !printable(frames[3]) {
        Some(ErrorView::MalformedMessage)
    } else {
        None
    }
}

/// Why a message that came in on the worker side has no command, if it has
/// none. The frames are looked at in their order: the worker's identity,
/// which is any string of bytes; `MDPW02`; the command as one byte from 1 to
/// 6. What follows depends on the command.
pub open spec fn worker_command_fault(frames: Seq<Seq<u8>>) -> Option<ErrorView> {
    if frames.len() < 2 {
        Some(ErrorView::MalformedMessage)
    } else if frames[1] != worker_header() {
        Some(ErrorView::ProtocolMismatch)
    } else if frames.len() < 3 || frames[2].len() != 1 {
        Some(ErrorView::MalformedMessage)
    } else if !(1 <= frames[2][0] <= 6) {
        Some(ErrorView::UnrecognizedCommandType(frames[2][0]))
    } else {
        None
    }
}

/// The place of the first empty frame at or behind `from`, or the number of
/// frames where there is none.
pub open spec fn first_empty(frames: Seq<Seq<u8>>, from: int) -> int
    decreases frames.len() - from,
{
    if from >= frames.len() {
        frames.len() as int
    } else if frames[from].len() == 0 {
        from
    } else {
        first_empty(frames, from + 1)
    }
}

/// Between `from` and the first empty frame behind it no frame is empty.
pub proof fn lemma_first_empty(frames: Seq<Seq<u8>>, from: int)
    requires
        0 <= from <= frames.len(),
    ensures
        from <= first_empty(frames, from) <= frames.len(),
        forall|i: int| from <= i < first_empty(frames, from) ==> (#[trigger] frames[i]).len() > 0,
        first_empty(frames, from) < frames.len() ==> frames[first_empty(frames, from)].len() == 0,
    decreases frames.len() - from,
{
    if from < frames.len() && frames[from].len() != 0 {
        lemma_first_empty(frames, from + 1);
    }
}

/// A place that holds an empty frame, with none between `from` and it, is
/// the first.
pub proof fn lemma_first_empty_is(frames: Seq<Seq<u8>>, from: int, at: int)
    requires
        0 <= from <= at <= frames.len(),
        forall|i: int| from <= i < at ==> (#[trigger] frames[i]).len() > 0,
        at < frames.len() ==> frames[at].len() == 0,
    ensures
        first_empty(frames, from) == at,
    decreases at - from,
{
    if from < at {
        lemma_first_empty_is(frames, from + 1, at);
    }
}

/// The place of the first empty frame at or behind `from`, or the number of
/// frames where there is none.
pub fn find_delimiter(frames: &Vec<Vec<u8>>, from: usize) -> (at: usize)
    requires
        from <= frames@.len(),
    ensures
        at == first_empty(frames_view(frames@), from as int),
        from <= at <= frames@.len(),
{
    let mut at: usize = from;
    while at < frames.len() && frames[at].len() != 0
        invariant
            from <= at <= frames@.len(),
            forall|i: int| from <= i < at ==> (#[trigger] frames_view(frames@)[i]).len() > 0,
        decreases frames@.len() - at,
    {
        at += 1;
    }
    proof {
        lemma_first_empty_is(frames_view(frames@), from as int, at as int);
    }
    at
}

/// A request as a client sent it.
#[derive(Debug)]
pub struct ClientRequest {
    /// The identity of the client.
    pub client: Identity,
    /// The name of the service asked for.
    pub service_name: String,
    /// The frames of the request's body.
    pub body: Vec<Vec<u8>>,
}

/// The request that a message from the client side holds.
pub fn parse_client_request(frames: &Vec<Vec<u8>>) -> (parsed: Result<
    ClientRequest,
    RustydomoError,
>)
    ensures
        match parsed {
            Ok(request) => {
                &&& client_request_fault(frames_view(frames@)) is None
                &&& request.client@ == frames@[0]@
                &&& request.service_name@ == ascii_text(frames@[3]@)
                &&& frames_view(request.body@) == frames_view(frames@).skip(4)
            },
            Err(fault) => client_request_fault(frames_view(frames@)) == Some(fault@),
        },
{
    if frames.len() < 2 {
        return Err(RustydomoError::MalformedMessage);
    }
    let client = Identity { value: slice_to_vec(frames[0].as_slice()) };
    if !same_bytes(frames[1].as_slice(), client_header_frame().as_slice()) {
        return Err(RustydomoError::ProtocolMismatch);
    }
    if frames.len() < 3 || frames[2].len() != 1 {
        return Err(RustydomoError::MalformedMessage);
    }
    let command = frames[2][0];
    if command != ClientInteractionType::Request.as_byte() {
        return Err(RustydomoError::UnrecognizedCommandType(command));
    }
    if frames.len() < 4 {
        return Err(RustydomoError::MalformedMessage);
    }
    let service_name = match parse_service_name(frames[3].as_slice()) {
        Ok(name) => name,
        Err(fault) => {
            return Err(fault);
        },
    };
    let body = frames_from(frames, 4);
    Ok(ClientRequest { client, service_name, body })
}

/// What opens every message of a worker: who sent it and what it asks for.
#[derive(Debug)]
pub struct WorkerCommand {
    /// The identity of the worker.
    pub worker: Identity,
    /// The command of the message.
    pub kind: WorkerInteractionType,
}

/// The command that a message from the worker side opens with.
pub fn parse_worker_command(frames: &Vec<Vec<u8>>) -> (parsed: Result<
    WorkerCommand,
    RustydomoError,
>)
    ensures
        match parsed {
            Ok(command) => {
                &&& worker_command_fault(frames_view(frames@)) is None
                &&& command.worker@ == frames@[0]@
                &&& command.kind.wire() == frames@[2]@[0]
            },
            Err(fault) => worker_command_fault(frames_view(frames@)) == Some(fault@),
        },
{
    if frames.len() < 2 {
        return Err(RustydomoError::MalformedMessage);
    }
    let worker = Identity { value: slice_to_vec(frames[0].as_slice()) };
    if !same_bytes(frames[1].as_slice(), worker_header_frame().as_slice()) {
        return Err(RustydomoError::ProtocolMismatch);
    }
    if frames.len() < 3 || frames[2].len() != 1 {
        return Err(RustydomoError::MalformedMessage);
    }
    let byte = frames[2][0];
    match WorkerInteractionType::from_byte(byte) {
        Some(kind) => Ok(WorkerCommand { worker, kind }),
        None => Err(RustydomoError::UnrecognizedCommandType(byte)),
    }
}

/// What a worker's task holds behind the worker's identity and `MDPW02`: the
/// command `REQUEST`, the identity of the client, an empty frame, and the
/// body of the client's request.
pub open spec fn task_payload(client: Seq<u8>, body: Seq<Seq<u8>>) -> Seq<Seq<u8>> {
    seq![seq![WorkerInteractionType::Request.wire()], client, Seq::<u8>::empty()] + body
}

/// A message of the worker side as the broker sends it: the identity of the
/// worker it goes to, `MDPW02`, and then the command and what goes with it.
pub open spec fn worker_message(worker: Seq<u8>, payload: Seq<Seq<u8>>) -> Seq<Seq<u8>> {
    seq![worker, worker_header()] + payload
}

/// The heartbeat the broker sends to a worker.
pub open spec fn heartbeat_message(worker: Seq<u8>) -> Seq<Seq<u8>> {
    worker_message(worker, seq![seq![WorkerInteractionType::Heartbeat.wire()]])
}

/// The reply that goes to a client: the envelope that leads to it, `MDPC02`,
/// the command, and the body.
pub open spec fn client_reply(
    envelope: Seq<Seq<u8>>,
    kind: ClientInteractionType,
    body: Seq<Seq<u8>>,
) -> Seq<Seq<u8>> {
    envelope + seq![client_header(), seq![kind.wire()]] + body
}

/// The payload of the task that carries the request of `client` to a worker.
pub fn make_task_payload(client: &[u8], body: &Vec<Vec<u8>>) -> (payload: Vec<Vec<u8>>)
    ensures
        frames_view(payload@) == task_payload(client@, frames_view(body@)),
{
    let mut payload: Vec<Vec<u8>> = Vec::new();
    payload.push(byte_frame(WorkerInteractionType::Request.as_byte()));
    payload.push(slice_to_vec(client));
    payload.push(Vec::new());
    assert(frames_view(payload@) =~= seq![
        seq![WorkerInteractionType::Request.wire()],
        client@,
        Seq::<u8>::empty(),
    ]);
    append_frames(&mut payload, body);
    payload
}

/// The message that carries `payload` to `worker`.
pub fn make_worker_message(worker: &[u8], payload: &Vec<Vec<u8>>) -> (message: Vec<Vec<u8>>)
    ensures
        frames_view(message@) == worker_message(worker@, frames_view(payload@)),
{
    let mut message: Vec<Vec<u8>> = Vec::new();
    message.push(slice_to_vec(worker));
    message.push(worker_header_frame());
    assert(frames_view(message@) =~= seq![worker@, worker_header()]);
    append_frames(&mut message, payload);
    message
}

/// The heartbeat for `worker`.
pub fn make_heartbeat(worker: &[u8]) -> (message: Vec<Vec<u8>>)
    ensures
        frames_view(message@) == heartbeat_message(worker@),
{
    let mut payload: Vec<Vec<u8>> = Vec::new();
    payload.push(byte_frame(WorkerInteractionType::Heartbeat.as_byte()));
    assert(frames_view(payload@) =~= seq![seq![WorkerInteractionType::Heartbeat.wire()]]);
    make_worker_message(worker, &payload)
}

/// The reply of kind `kind` that carries `body` along `envelope`.
pub fn make_client_reply(
    envelope: &Vec<Vec<u8>>,
    kind: ClientInteractionType,
    body: &Vec<Vec<u8>>,
) -> (message: Vec<Vec<u8>>)
    ensures
        frames_view(message@) == client_reply(frames_view(envelope@), kind, frames_view(body@)),
{
    let mut message: Vec<Vec<u8>> = Vec::new();
    assert(frames_view(message@) =~= Seq::<Seq<u8>>::empty());
    append_frames(&mut message, envelope);
    let ghost led = frames_view(message@);
    assert(led =~= frames_view(envelope@));
    message.push(client_header_frame());
    message.push(byte_frame(kind.as_byte()));
    assert(frames_view(message@) =~= led + seq![client_header(), seq![kind.wire()]]);
    append_frames(&mut message, body);
    message
}

} // verus!
