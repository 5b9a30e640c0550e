//! The faults the broker and its peers report.

use crate::text::{decimal_string, decimal_text};
use vstd::prelude::*;

verus! {

/// Everything that can go wrong while a message is handled or a socket is set up.
///
/// The first four variants are raised by the transport and carry its own
/// words; the others are raised by this library.
#[derive(Debug, PartialEq, Eq)]
pub enum RustydomoError {
    /// A socket could not be created.
    SocketCreationError(String),
    /// A socket could not be bound to its endpoint.
    SocketBindingError(String),
    /// The monitor of a socket could not be attached.
    MonitorCreationError(String),
    /// A frame could not be sent or received.
    CommunicationError(String),
    /// The protocol frame is neither `MDPC02` on the client side nor `MDPW02`
    /// on the worker side.
    ProtocolMismatch,
    /// The command byte is not one the protocol defines.
    UnrecognizedCommandType(u8),
    /// A frame is missing, empty where it must not be, or followed by frames
    /// the command does not take.
    MalformedMessage,
    /// No worker serves the named service, or no worker has the named identity.
    ServiceNotAvailable(String),
    /// A value could not be converted; the text says which.
    ConversionError(String),
    /// Any other fault; the text says which.
    Unknown(String),
}

/// What a [`RustydomoError`] says, with each text as a sequence of characters.
pub enum ErrorView {
    SocketCreationError(Seq<char>),
    SocketBindingError(Seq<char>),
    MonitorCreationError(Seq<char>),
    CommunicationError(Seq<char>),
    ProtocolMismatch,
    UnrecognizedCommandType(u8),
    MalformedMessage,
    ServiceNotAvailable(Seq<char>),
    ConversionError(Seq<char>),
    Unknown(Seq<char>),
}

impl View for RustydomoError {
    type V = ErrorView;

    open spec fn view(&self) -> ErrorView {
        match self {
            RustydomoError::SocketCreationError(text) => ErrorView::SocketCreationError(text@),
            RustydomoError::SocketBindingError(text) => ErrorView::SocketBindingError(text@),
            RustydomoError::MonitorCreationError(text) => ErrorView::MonitorCreationError(text@),
            RustydomoError::CommunicationError(text) => ErrorView::CommunicationError(text@),
            RustydomoError::ProtocolMismatch => ErrorView::ProtocolMismatch,
            RustydomoError::UnrecognizedCommandType(byte) => ErrorView::UnrecognizedCommandType(
                *byte,
            ),
            RustydomoError::MalformedMessage => ErrorView::MalformedMessage,
            RustydomoError::ServiceNotAvailable(text) => ErrorView::ServiceNotAvailable(text@),
            RustydomoError::ConversionError(text) => ErrorView::ConversionError(text@),
            RustydomoError::Unknown(text) => ErrorView::Unknown(text@),
        }
    }
}

impl ErrorView {
    /// The fault in words.
    pub open spec fn text(self) -> Seq<char> {
        match self {
            ErrorView::SocketCreationError(value) => "Error during socket creation : "@ + value,
            ErrorView::SocketBindingError(value) => "Error during socket binding : "@ + value,
            ErrorView::MonitorCreationError(value) => "Failed to create monitor for connection : "@
                + value,
            ErrorView::CommunicationError(value) => "Error during communication : "@ + value,
            ErrorView::ProtocolMismatch => "Unrecognized protocol frame received"@,
            ErrorView::UnrecognizedCommandType(value) => "Unrecognized command : "@ + decimal_text(
                value as nat,
            ),
            ErrorView::MalformedMessage => "Malformed message received"@,
            ErrorView::ServiceNotAvailable(value) => "Requested service does not exist : '"@
                + value + "'"@,
            ErrorView::ConversionError(value) => "Failed to during value conversion: "@ + value,
            ErrorView::Unknown(value) => "Unknown error occured : '"@ + value + "'"@,
        }
    }
}

impl RustydomoError {
    /// The fault in words.
    pub fn to_string(&self) -> (text: String)
        ensures
            text@ == self@.text(),
    {
        match self {
            RustydomoError::SocketCreationError(value) => "Error during socket creation : "
                .to_string().concat(value.as_str()),
            RustydomoError::SocketBindingError(value) => "Error during socket binding : "
                .to_string().concat(value.as_str()),
            RustydomoError::MonitorCreationError(value) =>
                "Failed to create monitor for connection : ".to_string().concat(value.as_str()),
            RustydomoError::CommunicationError(value) => "Error during communication : "
                .to_string().concat(value.as_str()),
            RustydomoError::ProtocolMismatch => "Unrecognized protocol frame received".to_string(),
            RustydomoError::UnrecognizedCommandType(value) => "Unrecognized command : ".to_string()
                .concat(decimal_string(*value as u64).as_str()),
            RustydomoError::MalformedMessage => "Malformed message received".to_string(),
            RustydomoError::ServiceNotAvailable(value) => "Requested service does not exist : '"
                .to_string().concat(value.as_str()).concat("'"),
            RustydomoError::ConversionError(value) => "Failed to during value conversion: "
                .to_string().concat(value.as_str()),
            RustydomoError::Unknown(value) => "Unknown error occured : '".to_string().concat(
                value.as_str(),
            ).concat("'"),
        }
    }
}

impl Clone for RustydomoError {
    fn clone(&self) -> (copy: RustydomoError)
        ensures
            copy@ == self@,
    {
        match self {
            RustydomoError::SocketCreationError(value) => RustydomoError::SocketCreationError(
                value.clone(),
            ),
            RustydomoError::SocketBindingError(value) => RustydomoError::SocketBindingError(
                value.clone(),
            ),
            RustydomoError::MonitorCreationError(value) => RustydomoError::MonitorCreationError(
                value.clone(),
            ),
            RustydomoError::CommunicationError(value) => RustydomoError::CommunicationError(
                value.clone(),
            ),
            RustydomoError::ProtocolMismatch => RustydomoError::ProtocolMismatch,
            RustydomoError::UnrecognizedCommandType(value) =>
                RustydomoError::UnrecognizedCommandType(*value),
            RustydomoError::MalformedMessage => RustydomoError::MalformedMessage,
            RustydomoError::ServiceNotAvailable(value) => RustydomoError::ServiceNotAvailable(
                value.clone(),
            ),
            RustydomoError::ConversionError(value) => RustydomoError::ConversionError(
                value.clone(),
            ),
            RustydomoError::Unknown(value) => RustydomoError::Unknown(value.clone()),
        }
    }
}

} // verus!
