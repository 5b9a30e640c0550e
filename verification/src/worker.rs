//! The worker's side of the protocol: the messages a worker sends and what
//! it does with those of the broker.

use crate::data_structures::same_bytes;
use crate::frames::{
    byte_frame, frames_from, frames_view, worker_header, worker_header_frame,
};
use vstd::prelude::*;
use vstd::slice::slice_to_vec;

verus! {

/// How long, in milliseconds, a worker takes the broker for alive after the
/// broker's last heartbeat.
pub const BROKER_KEEPALIVE: u64 = 1000;

/// What can go wrong on the worker's side; the text is the transport's.
#[derive(Debug)]
pub enum WorkerError {
    InitializationError(String),
    CommunicationError(String),
}

/// The commands of the worker side of the protocol, as a worker names them.
#[allow(non_camel_case_types)]
#[derive(Debug, Clone, Copy, PartialEq, Eq, Structural)]
pub enum WorkerRequestState {
    READY,
    REQUEST,
    PARTIAL,
    FINAL,
    HEARTBEAT,
    DISCONNECT,
}

impl WorkerRequestState {
    /// The byte that stands for a command on the wire.
    pub open spec fn wire(self) -> u8 {
        match self {
            WorkerRequestState::READY => 1,
            WorkerRequestState::REQUEST => 2,
            WorkerRequestState::PARTIAL => 3,
            WorkerRequestState::FINAL => 4,
            WorkerRequestState::HEARTBEAT => 5,
            WorkerRequestState::DISCONNECT => 6,
        }
    }

    /// The byte that stands for this command on the wire.
    pub fn as_byte(&self) -> (byte: u8)
        ensures
            byte == self.wire(),
    {
        match self {
            WorkerRequestState::READY => 1,
            WorkerRequestState::REQUEST => 2,
            WorkerRequestState::PARTIAL => 3,
            WorkerRequestState::FINAL => 4,
            WorkerRequestState::HEARTBEAT => 5,
            WorkerRequestState::DISCONNECT => 6,
        }
    }
}

/// One message of the broker as a worker reads it.
#[derive(Debug)]
pub struct WorkerRequestResult {
    pub state: WorkerRequestState,
    /// For a request the frames behind the command: the envelope that leads
    /// back to the client, an empty frame, and the body.
    pub payload: Option<Vec<Vec<u8>>>,
}

/// The frames of an optional payload.
pub open spec fn payload_view(payload: Option<Vec<Vec<u8>>>) -> Option<Seq<Seq<u8>>> {
    match payload {
        Some(frames) => Some(frames_view(frames@)),
        None => None,
    }
}

/// A message of a worker that is a command and nothing else: `MDPW02` and
/// the command.
pub open spec fn command_message(command: WorkerRequestState) -> Seq<Seq<u8>> {
    seq![worker_header(), seq![command.wire()]]
}

/// The message by which a worker announces the service `task`: `MDPW02`, the
/// command `READY`, and the name of the service.
pub open spec fn ready_message(task: Seq<u8>) -> Seq<Seq<u8>> {
    seq![worker_header(), seq![WorkerRequestState::READY.wire()], task]
}

/// What a message of the broker tells a worker, if it is one that a worker
/// takes: a request with the frames behind its command, a heartbeat, or the
/// order to disconnect. Such a message opens with `MDPW02` and has its
/// command as one byte.
pub open spec fn broker_request(frames: Seq<Seq<u8>>) -> Option<
    (WorkerRequestState, Option<Seq<Seq<u8>>>),
> {
    if frames.len() < 2 || frames[0] != worker_header() || frames[1].len() != 1 {
        None
    } else if frames[1][0] == WorkerRequestState::REQUEST.wire() {
        Some((WorkerRequestState::REQUEST, Some(frames.skip(2))))
    } else if frames[1][0] == WorkerRequestState::HEARTBEAT.wire() {
        Some((WorkerRequestState::HEARTBEAT, None))
    } else if frames[1][0] == WorkerRequestState::DISCONNECT.wire() {
        Some((WorkerRequestState::DISCONNECT, None))
    } else {
        None
    }
}

/// Reads a message of the broker. There is no result where a worker does
/// not take the message.
pub fn receive_and_handle_broker_request(frames: &Vec<Vec<u8>>) -> (request: Option<
    WorkerRequestResult,
>)
    ensures
        match request {
            Some(result) => broker_request(frames_view(frames@)) == Some(
                (result.state, payload_view(result.payload)),
            ),
            None => broker_request(frames_view(frames@)) is None,
        },
{
    if frames.len() < 2 || !same_bytes(frames[0].as_slice(), worker_header_frame().as_slice())
        || frames[1].len() != 1 {
        return None;
    }
    let command = frames[1][0];
    assert(frames_view(frames@)[1] == frames@[1]@);
    if command == WorkerRequestState::REQUEST.as_byte() {
        Some(
            WorkerRequestResult {
                state: WorkerRequestState::REQUEST,
                payload: Some(frames_from(frames, 2)),
            },
        )
    } else if command == WorkerRequestState::HEARTBEAT.as_byte() {
        Some(WorkerRequestResult { state: WorkerRequestState::HEARTBEAT, payload: None })
    } else if command == WorkerRequestState::DISCONNECT.as_byte() {
        Some(WorkerRequestResult { state: WorkerRequestState::DISCONNECT, payload: None })
    } else {
        None
    }
}

/// What a worker does about a message of the broker.
#[derive(Debug)]
pub enum WorkerAction {
    /// Nothing.
    Nothing,
    /// The task is handed to the worker's handler with these frames.
    HandleTask(Vec<Vec<u8>>),
    /// A request came although the worker has not announced itself; it is
    /// not handled.
    Refused,
}

/// A [`WorkerAction`] with its frames as sequences of bytes.
pub enum WorkerActionView {
    Nothing,
    HandleTask(Seq<Seq<u8>>),
    Refused,
}

impl View for WorkerAction {
    type V = WorkerActionView;

    open spec fn view(&self) -> WorkerActionView {
        match self {
            WorkerAction::Nothing => WorkerActionView::Nothing,
            WorkerAction::HandleTask(frames) => WorkerActionView::HandleTask(frames_view(frames@)),
            WorkerAction::Refused => WorkerActionView::Refused,
        }
    }
}

/// What a worker knows of itself and of the broker.
#[derive(Debug)]
pub struct Worker {
    task_handled: String,
    connected: bool,
    last_broker_keepalive_time: u64,
}

/// A [`Worker`] as a plain value.
pub struct WorkerView {
    /// The service the worker serves.
    pub task: Seq<char>,
    /// Whether the worker has announced itself and was not told to
    /// disconnect since.
    pub connected: bool,
    /// The instant, in milliseconds, of the broker's last heartbeat.
    pub last_keepalive: int,
}

impl WorkerView {
    /// The worker after a message of the broker came at `now`, and what the
    /// worker does about the message. A request is handled where the worker
    /// is connected and refused where it is not; the order to disconnect
    /// makes it unconnected; a heartbeat is noted with its instant. Any
    /// other message changes nothing.
    pub open spec fn processed(self, frames: Seq<Seq<u8>>, now: int) -> (WorkerView, WorkerActionView) {
        match broker_request(frames) {
            Some((WorkerRequestState::REQUEST, Some(payload))) => if self.connected {
                (self, WorkerActionView::HandleTask(payload))
            } else {
                (self, WorkerActionView::Refused)
            },
            Some((WorkerRequestState::DISCONNECT, _)) => (
                WorkerView { connected: false, ..self },
                WorkerActionView::Nothing,
            ),
            Some((WorkerRequestState::HEARTBEAT, _)) => (
                WorkerView { last_keepalive: now, ..self },
                WorkerActionView::Nothing,
            ),
            _ => (self, WorkerActionView::Nothing),
        }
    }
}

impl View for Worker {
    type V = WorkerView;

    closed spec fn view(&self) -> WorkerView {
        WorkerView {
            task: self.task_handled@,
            connected: self.connected,
            last_keepalive: self.last_broker_keepalive_time as int,
        }
    }
}

impl Worker {
    /// A worker for the service `task_name` that has made its connection to
    /// the broker at `now`.
    pub fn new(task_name: String, now: u64) -> (worker: Worker)
        ensures
            worker@ == (WorkerView { task: task_name@, connected: true, last_keepalive: now as int }),
    {
        Worker { task_handled: task_name, connected: true, last_broker_keepalive_time: now }
    }

    /// Announces the worker's service to the broker. The result is the
    /// message to send; the worker is connected from then on.
    pub fn register_to_broker(&mut self) -> (message: Vec<Vec<u8>>)
        ensures
            frames_view(message@) == ready_message(vstd::utf8::encode_utf8(old(self)@.task)),
            final(self)@ == (WorkerView { connected: true, ..old(self)@ }),
    {
        let mut message: Vec<Vec<u8>> = Vec::new();
        message.push(worker_header_frame());
        message.push(byte_frame(WorkerRequestState::READY.as_byte()));
        message.push(slice_to_vec(self.task_handled.as_str().as_bytes()));
        self.connected = true;
        assert(frames_view(message@) =~= ready_message(
            vstd::utf8::encode_utf8(old(self)@.task),
        ));
        message
    }

    /// The heartbeat that the worker sends to the broker.
    pub fn send_heartbeat(&self) -> (message: Vec<Vec<u8>>)
        ensures
            frames_view(message@) == command_message(WorkerRequestState::HEARTBEAT),
    {
        let mut message: Vec<Vec<u8>> = Vec::new();
        message.push(worker_header_frame());
        message.push(byte_frame(WorkerRequestState::HEARTBEAT.as_byte()));
        assert(frames_view(message@) =~= command_message(WorkerRequestState::HEARTBEAT));
        message
    }

    /// The message by which the worker takes leave of the broker.
    pub fn disconnect_from_broker(&self) -> (message: Vec<Vec<u8>>)
        ensures
            frames_view(message@) == command_message(WorkerRequestState::DISCONNECT),
    {
        let mut message: Vec<Vec<u8>> = Vec::new();
        message.push(worker_header_frame());
        message.push(byte_frame(WorkerRequestState::DISCONNECT.as_byte()));
        assert(frames_view(message@) =~= command_message(WorkerRequestState::DISCONNECT));
        message
    }

    /// Whether the broker has been silent for more than a second at `now`.
    pub fn check_broker_connection_expired(&self, now: u64) -> (expired: bool)
        ensures
            expired == (now - self@.last_keepalive > BROKER_KEEPALIVE),
    {
        now > self.last_broker_keepalive_time && now - self.last_broker_keepalive_time
            > BROKER_KEEPALIVE
    }

    /// Takes one message of the broker at the instant `now`.
    pub fn process(&mut self, frames: &Vec<Vec<u8>>, now: u64) -> (action: WorkerAction)
        ensures
            (final(self)@, action@) == old(self)@.processed(frames_view(frames@), now as int),
    {
        match receive_and_handle_broker_request(frames) {
            Some(request) => match request.state {
                WorkerRequestState::REQUEST => match request.payload {
                    Some(payload) => if self.connected {
                        WorkerAction::HandleTask(payload)
                    } else {
                        WorkerAction::Refused
                    },
                    None => WorkerAction::Nothing,
                },
                WorkerRequestState::DISCONNECT => {
                    self.connected = false;
                    WorkerAction::Nothing
                },
                WorkerRequestState::HEARTBEAT => {
                    self.last_broker_keepalive_time = now;
                    WorkerAction::Nothing
                },
                _ => WorkerAction::Nothing,
            },
            None => WorkerAction::Nothing,
        }
    }
}

} // verus!
