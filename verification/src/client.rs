//! The client's side of the protocol: the request a client sends and what it
//! makes of the broker's replies.

use crate::data_structures::{same_bytes, ClientInteractionType};
use crate::frames::{
    append_frames, byte_frame, client_header, client_header_frame, frames_from, frames_view,
};
use vstd::prelude::*;
use vstd::slice::slice_to_vec;
use vstd::string::StringSliceAdditionalSpecFns;

verus! {

/// What can go wrong on the client's side; the text is the transport's.
#[derive(Debug)]
pub enum ClientError {
    InitializationError(String),
    CommunicationError(String),
}

/// Whether a reply ends the request or more replies follow.
#[allow(non_camel_case_types)]
#[derive(Debug, Clone, Copy, PartialEq, Eq, Structural)]
pub enum ClientRequestState {
    PARTIAL,
    FINAL,
}

impl ClientRequestState {
    /// The byte that stands for a state on the wire.
    pub open spec fn wire(self) -> u8 {
        match self {
            ClientRequestState::PARTIAL => 2,
            ClientRequestState::FINAL => 3,
        }
    }

    /// The byte that stands for this state on the wire.
    pub fn as_byte(&self) -> (byte: u8)
        ensures
            byte == self.wire(),
    {
        match self {
            ClientRequestState::PARTIAL => 2,
            ClientRequestState::FINAL => 3,
        }
    }
}

/// One reply of the broker.
#[derive(Debug)]
pub struct RequestResult {
    pub state: ClientRequestState,
    pub payload: Vec<Vec<u8>>,
}

/// The request as a client sends it: `MDPC02`, the command `REQUEST`, the
/// name of the service, and the body. The transport puts the client's
/// identity in front of it on the way to the broker.
pub open spec fn request_message(service: Seq<u8>, body: Seq<Seq<u8>>) -> Seq<Seq<u8>> {
    seq![client_header(), seq![ClientInteractionType::Request.wire()], service] + body
}

/// The frames of a request for `service_name` with the body `payload`.
pub fn send_request(service_name: &str, payload: &Vec<Vec<u8>>) -> (message: Vec<Vec<u8>>)
    ensures
        frames_view(message@) == request_message(
            service_name.spec_bytes(),
            frames_view(payload@),
        ),
{
    let mut message: Vec<Vec<u8>> = Vec::new();
    message.push(client_header_frame());
    message.push(byte_frame(ClientInteractionType::Request.as_byte()));
    message.push(slice_to_vec(service_name.as_bytes()));
    assert(frames_view(message@) =~= seq![
        client_header(),
        seq![ClientInteractionType::Request.wire()],
        service_name.spec_bytes(),
    ]);
    append_frames(&mut message, payload);
    message
}

/// What a message of the broker tells a client, if it is a reply: the state
/// that its command stands for, and the frames behind the command. A reply
/// opens with `MDPC02` and has the command `PARTIAL` or `FINAL` as one byte.
pub open spec fn broker_response(frames: Seq<Seq<u8>>) -> Option<
    (ClientRequestState, Seq<Seq<u8>>),
> {
    if frames.len() < 2 || frames[0] != client_header() || frames[1].len() != 1 {
        None
    } else if frames[1][0] == ClientRequestState::PARTIAL.wire() {
        Some((ClientRequestState::PARTIAL, frames.skip(2)))
    } else if frames[1][0] == ClientRequestState::FINAL.wire() {
        Some((ClientRequestState::FINAL, frames.skip(2)))
    } else {
        None
    }
}

/// Reads a message of the broker as a reply. There is no result where the
/// message is none.
pub fn receive_and_check_broker_response(frames: &Vec<Vec<u8>>) -> (reply: Option<RequestResult>)
    ensures
        match reply {
            Some(result) => broker_response(frames_view(frames@)) == Some(
                (result.state, frames_view(result.payload@)),
            ),
            None => broker_response(frames_view(frames@)) is None,
        },
{
    if frames.len() < 2 || !same_bytes(frames[0].as_slice(), client_header_frame().as_slice())
        || frames[1].len() != 1 {
        return None;
    }
    let command = frames[1][0];
    assert(frames_view(frames@)[1] == frames@[1]@);
    if command == ClientRequestState::PARTIAL.as_byte() {
        Some(RequestResult { state: ClientRequestState::PARTIAL, payload: frames_from(frames, 2) })
    } else if command == ClientRequestState::FINAL.as_byte() {
        Some(RequestResult { state: ClientRequestState::FINAL, payload: frames_from(frames, 2) })
    } else {
        None
    }
}

/// A request that was sent and whose replies are read one by one, up to the
/// final one.
#[derive(Debug)]
pub struct ClientRequest {
    request_ongoing: bool,
}

impl ClientRequest {
    /// Whether the final reply is still to come.
    pub closed spec fn ongoing(&self) -> bool {
        self.request_ongoing
    }

    /// A request that was just sent.
    pub fn new() -> (request: ClientRequest)
        ensures
            request.ongoing(),
    {
        ClientRequest { request_ongoing: true }
    }

    /// Whether the final reply has come, so that nothing is left to wait for.
    pub fn is_over(&self) -> (over: bool)
        ensures
            over == !self.ongoing(),
    {
        !self.request_ongoing
    }

    /// Takes the next message of the broker. A request that is over gives
    /// nothing and stays over. For one that is ongoing the message is read as
    /// a reply, and a final reply ends the request.
    pub fn next(&mut self, frames: &Vec<Vec<u8>>) -> (reply: Option<RequestResult>)
        ensures
            !old(self).ongoing() ==> reply is None && !final(self).ongoing(),
            old(self).ongoing() ==> match reply {
                Some(result) => broker_response(frames_view(frames@)) == Some(
                    (result.state, frames_view(result.payload@)),
                ) && final(self).ongoing() == (result.state != ClientRequestState::FINAL),
                None => broker_response(frames_view(frames@)) is None && final(self).ongoing(),
            },
    {
        if !self.request_ongoing {
            return None;
        }
        let reply = receive_and_check_broker_response(frames);
        match &reply {
            Some(result) => {
                match result.state {
                    ClientRequestState::FINAL => {
                        self.request_ongoing = false;
                    },
                    ClientRequestState::PARTIAL => {},
                }
            },
            None => {},
        }
        reply
    }
}

} // verus!
