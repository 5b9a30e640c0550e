//! The plain values the broker works with: peer identities, the kinds of
//! command on each side of the protocol, and the four sockets it polls.

use crate::errors::{ErrorView, RustydomoError};
use vstd::prelude::*;
use vstd::slice::slice_to_vec;
use vstd::std_specs::convert::FromSpecImpl;

verus! {

/// Whether two byte strings hold the same bytes.
pub fn same_bytes(left: &[u8], right: &[u8]) -> (same: bool)
    ensures
        same == (left@ == right@),
{
    if left.len() != right.len() {
        return false;
    }
    let mut at: usize = 0;
    while at < left.len()
        invariant
            left@.len() == right@.len(),
            at <= left@.len(),
            forall|k: int| 0 <= k < at ==> left@[k] == right@[k],
        decreases left@.len() - at,
    {
        if left[at] != right[at] {
            return false;
        }
        at += 1;
    }
    assert(left@ =~= right@);
    true
}

/// The sockets the broker polls, in the order in which it polls them.
#[derive(Debug, Clone, Copy, PartialEq, Eq, Structural)]
pub enum SocketType {
    ClientSocket,
    ClientMonitorSocket,
    ServiceSocket,
    WorkerMonitorSocket,
}

impl SocketType {
    /// The place of a socket in the poll list.
    pub open spec fn position(self) -> int {
        match self {
            SocketType::ClientSocket => 0,
            SocketType::ClientMonitorSocket => 1,
            SocketType::ServiceSocket => 2,
            SocketType::WorkerMonitorSocket => 3,
        }
    }

    /// The place of this socket in the poll list.
    pub fn index(&self) -> (at: usize)
        ensures
            at == self.position(),
    {
        match self {
            SocketType::ClientSocket => 0,
            SocketType::ClientMonitorSocket => 1,
            SocketType::ServiceSocket => 2,
            SocketType::WorkerMonitorSocket => 3,
        }
    }

    /// The socket at place `val` of the poll list. There are four places; any
    /// other is refused as `Unknown`.
    pub fn try_from(val: usize) -> (socket: Result<SocketType, RustydomoError>)
        ensures
            socket is Ok <==> val < 4,
            socket matches Ok(kind) ==> kind.position() == val,
            socket matches Err(fault) ==> fault@ == ErrorView::Unknown(
                unknown_socket_text(val as nat),
            ),
    {
        if val == 0 {
            Ok(SocketType::ClientSocket)
        } else if val == 1 {
            Ok(SocketType::ClientMonitorSocket)
        } else if val == 2 {
            Ok(SocketType::ServiceSocket)
        } else if val == 3 {
            Ok(SocketType::WorkerMonitorSocket)
        } else {
            let text = "Unknown socket type : ".to_string().concat(
                crate::text::decimal_string(val as u64).as_str(),
            );
            Err(RustydomoError::Unknown(text))
        }
    }
}

/// The text of the fault for a place that the poll list does not have.
pub open spec fn unknown_socket_text(val: nat) -> Seq<char> {
    "Unknown socket type : "@ + crate::text::decimal_text(val)
}

/// The identity the transport gives a peer: an opaque string of bytes, equal
/// to another when the bytes are.
#[derive(Debug)]
pub struct Identity {
    pub value: Vec<u8>,
}

impl View for Identity {
    type V = Seq<u8>;

    open spec fn view(&self) -> Seq<u8> {
        self.value@
    }
}

impl Identity {
    /// The identity that the bytes `value` are. Every string of bytes is an
    /// identity, the empty one and one of any length included, so this never
    /// fails.
    pub fn try_from(value: &[u8]) -> (identity: Result<Identity, RustydomoError>)
        ensures
            identity is Ok,
            identity matches Ok(id) ==> id@ == value@,
    {
        Ok(Identity { value: slice_to_vec(value) })
    }
}

impl Clone for Identity {
    fn clone(&self) -> (copy: Identity)
        ensures
            copy@ == self@,
    {
        Identity { value: slice_to_vec(self.value.as_slice()) }
    }
}

impl PartialEq for Identity {
    fn eq(&self, other: &Identity) -> (same: bool) {
        same_bytes(self.value.as_slice(), other.value.as_slice())
    }
}

impl vstd::std_specs::cmp::PartialEqSpecImpl for Identity {
    open spec fn obeys_eq_spec() -> bool {
        true
    }

    open spec fn eq_spec(&self, other: &Identity) -> bool {
        self@ == other@
    }
}

impl From<Identity> for Vec<u8> {
    fn from(identity: Identity) -> (bytes: Vec<u8>) {
        identity.value
    }
}

impl FromSpecImpl<Identity> for Vec<u8> {
    open spec fn obeys_from_spec() -> bool {
        true
    }

    open spec fn from_spec(identity: Identity) -> Vec<u8> {
        identity.value
    }
}

/// The commands of the client side of the protocol.
#[derive(Debug, Clone, Copy, PartialEq, Eq, Structural)]
pub enum ClientInteractionType {
    Request,
    Partial,
    Final,
}

impl ClientInteractionType {
    /// The byte that stands for a command on the wire.
    pub open spec fn wire(self) -> u8 {
        match self {
            ClientInteractionType::Request => 0x01,
            ClientInteractionType::Partial => 0x02,
            ClientInteractionType::Final => 0x03,
        }
    }

    /// The byte that stands for this command on the wire.
    pub fn as_byte(&self) -> (byte: u8)
        ensures
            byte == self.wire(),
    {
        match self {
            ClientInteractionType::Request => 0x01,
            ClientInteractionType::Partial => 0x02,
            ClientInteractionType::Final => 0x03,
        }
    }

    /// The command that `byte` stands for, if there is one.
    pub fn from_byte(byte: u8) -> (kind: Option<ClientInteractionType>)
        ensures
            kind is Some <==> 1 <= byte <= 3,
            kind matches Some(found) ==> found.wire() == byte,
    {
        if byte == 0x01 {
            Some(ClientInteractionType::Request)
        } else if byte == 0x02 {
            Some(ClientInteractionType::Partial)
        } else if byte == 0x03 {
            Some(ClientInteractionType::Final)
        } else {
            None
        }
    }
}

/// The commands of the worker side of the protocol.
#[derive(Debug, Clone, Copy, PartialEq, Eq, Structural)]
pub enum WorkerInteractionType {
    Ready,
    Request,
    Partial,
    Final,
    Heartbeat,
    Disconnect,
}

impl WorkerInteractionType {
    /// The byte that stands for a command on the wire.
    pub open spec fn wire(self) -> u8 {
        match self {
            WorkerInteractionType::Ready => 0x01,
            WorkerInteractionType::Request => 0x02,
            WorkerInteractionType::Partial => 0x03,
            WorkerInteractionType::Final => 0x04,
            WorkerInteractionType::Heartbeat => 0x05,
            WorkerInteractionType::Disconnect => 0x06,
        }
    }

    /// The byte that stands for this command on the wire.
    pub fn as_byte(&self) -> (byte: u8)
        ensures
            byte == self.wire(),
    {
        match self {
            WorkerInteractionType::Ready => 0x01,
            WorkerInteractionType::Request => 0x02,
            WorkerInteractionType::Partial => 0x03,
            WorkerInteractionType::Final => 0x04,
            WorkerInteractionType::Heartbeat => 0x05,
            WorkerInteractionType::Disconnect => 0x06,
        }
    }

    /// The command that `byte` stands for, if there is one.
    pub fn from_byte(byte: u8) -> (kind: Option<WorkerInteractionType>)
        ensures
            kind is Some <==> 1 <= byte <= 6,
            kind matches Some(found) ==> found.wire() == byte,
    {
        if byte == 0x01 {
            Some(WorkerInteractionType::Ready)
        } else if byte == 0x02 {
            Some(WorkerInteractionType::Request)
        } else if byte == 0x03 {
            Some(WorkerInteractionType::Partial)
        } else if byte == 0x04 {
            Some(WorkerInteractionType::Final)
        } else if byte == 0x05 {
            Some(WorkerInteractionType::Heartbeat)
        } else if byte == 0x06 {
            Some(WorkerInteractionType::Disconnect)
        } else {
            None
        }
    }
}

} // verus!
