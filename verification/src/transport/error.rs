//! The error taxonomy shared by every transport.
//!
//! A failed operating-system call reaches the library as an [`IoFailure`]:
//! the kind that the library's rules distinguish, and the text of the
//! failure. Each operation has an error type of its own, and each of them
//! says how an `IoFailure` is classified.

use vstd::prelude::*;
use vstd::std_specs::convert::FromSpecImpl;

verus! {

/// The kinds of I/O failure that the transports tell apart.
#[derive(Clone, Copy, Debug, PartialEq, Eq, Structural)]
pub enum IoKind {
    /// The operation cannot complete now and should be tried again.
    WouldBlock,
    /// The stream ended in the middle of a message: the peer is gone.
    UnexpectedEof,
    /// Any other failure.
    Other,
}

/// A failed I/O operation: its kind and its text.
#[derive(Clone, Debug, PartialEq, Eq)]
pub struct IoFailure {
    pub kind: IoKind,
    pub message: String,
}

/// Why a payload could not be sent.
#[derive(Clone, Debug, PartialEq, Eq)]
pub enum SendError {
    IoError(IoFailure),
    ProtocolError(String),
    WouldBlock,
    Disconnected,
}

/// Why no payload could be received.
#[derive(Clone, Debug, PartialEq, Eq)]
pub enum RecvError {
    IoError(IoFailure),
    ProtocolError(String),
    WouldBlock,
    Disconnected,
}

/// Why no connection could be made.
#[derive(Clone, Debug, PartialEq, Eq)]
pub enum ConnectError {
    IoError(IoFailure),
    ParseError(String),
    ProtocolError(String),
}

/// Why no listener could be bound.
#[derive(Clone, Debug, PartialEq, Eq)]
pub enum ListenError {
    IoError(IoFailure),
    ProtocolError(String),
}

/// Why an inbound connection could not be accepted.
#[derive(Clone, Debug, PartialEq, Eq)]
pub enum AcceptError {
    IoError(IoFailure),
    ProtocolError(String),
}

/// Why a connection could not be torn down cleanly. The connection counts
/// as closed all the same.
#[derive(Clone, Debug, PartialEq, Eq)]
pub enum DisconnectError {
    IoError(IoFailure),
    ProtocolError(String),
}

/// What an error says, whatever the operation that failed: the variant and
/// the text it carries.
pub enum Failure {
    Io(IoKind, Seq<char>),
    Protocol(Seq<char>),
    Parse(Seq<char>),
    WouldBlock,
    Disconnected,
}

impl View for IoFailure {
    type V = Failure;

    open spec fn view(&self) -> Failure {
        Failure::Io(self.kind, self.message@)
    }
}

impl View for SendError {
    type V = Failure;

    open spec fn view(&self) -> Failure {
        match self {
            SendError::IoError(f) => f@,
            SendError::ProtocolError(m) => Failure::Protocol(m@),
            SendError::WouldBlock => Failure::WouldBlock,
            SendError::Disconnected => Failure::Disconnected,
        }
    }
}

impl View for RecvError {
    type V = Failure;

    open spec fn view(&self) -> Failure {
        match self {
            RecvError::IoError(f) => f@,
            RecvError::ProtocolError(m) => Failure::Protocol(m@),
            RecvError::WouldBlock => Failure::WouldBlock,
            RecvError::Disconnected => Failure::Disconnected,
        }
    }
}

impl View for ConnectError {
    type V = Failure;

    open spec fn view(&self) -> Failure {
        match self {
            ConnectError::IoError(f) => f@,
            ConnectError::ParseError(m) => Failure::Parse(m@),
            ConnectError::ProtocolError(m) => Failure::Protocol(m@),
        }
    }
}

impl View for ListenError {
    type V = Failure;

    open spec fn view(&self) -> Failure {
        match self {
            ListenError::IoError(f) => f@,
            ListenError::ProtocolError(m) => Failure::Protocol(m@),
        }
    }
}

impl View for AcceptError {
    type V = Failure;

    open spec fn view(&self) -> Failure {
        match self {
            AcceptError::IoError(f) => f@,
            AcceptError::ProtocolError(m) => Failure::Protocol(m@),
        }
    }
}

impl View for DisconnectError {
    type V = Failure;

    open spec fn view(&self) -> Failure {
        match self {
            DisconnectError::IoError(f) => f@,
            DisconnectError::ProtocolError(m) => Failure::Protocol(m@),
        }
    }
}

/// How a failed stream operation is classified where the operation can be
/// retried: a would-block stays one, a stream that ended is a disconnect,
/// and everything else is an I/O error.
pub open spec fn stream_failure(kind: IoKind, message: Seq<char>) -> Failure {
    match kind {
        IoKind::UnexpectedEof => Failure::Disconnected,
        IoKind::WouldBlock => Failure::WouldBlock,
        IoKind::Other => Failure::Io(kind, message),
    }
}

impl IoFailure {
    /// A failure of the given kind with the given text.
    pub fn new(kind: IoKind, message: String) -> (r: IoFailure)
        ensures
            r.kind == kind,
            r.message == message,
    {
        IoFailure { kind, message }
    }

    /// Whether the failure only asks for another attempt.
    pub fn is_would_block(&self) -> (r: bool)
        ensures
            r == (self.kind is WouldBlock),
    {
        match self.kind {
            IoKind::WouldBlock => true,
            _ => false,
        }
    }
}

impl From<IoFailure> for SendError {
    /// A would-block stays a would-block, a stream that ended is a
    /// disconnect, and everything else is an I/O error.
    fn from(failure: IoFailure) -> (r: SendError) {
        match failure.kind {
            IoKind::UnexpectedEof => SendError::Disconnected,
            IoKind::WouldBlock => SendError::WouldBlock,
            IoKind::Other => SendError::IoError(failure),
        }
    }
}

impl FromSpecImpl<IoFailure> for SendError {
    open spec fn obeys_from_spec() -> bool {
        true
    }

    open spec fn from_spec(failure: IoFailure) -> SendError {
        match failure.kind {
            IoKind::UnexpectedEof => SendError::Disconnected,
            IoKind::WouldBlock => SendError::WouldBlock,
            IoKind::Other => SendError::IoError(failure),
        }
    }
}

impl From<IoFailure> for RecvError {
    /// A would-block stays a would-block, a stream that ended is a
    /// disconnect, and everything else is an I/O error.
    fn from(failure: IoFailure) -> (r: RecvError) {
        match failure.kind {
            IoKind::UnexpectedEof => RecvError::Disconnected,
            IoKind::WouldBlock => RecvError::WouldBlock,
            IoKind::Other => RecvError::IoError(failure),
        }
    }
}

impl FromSpecImpl<IoFailure> for RecvError {
    open spec fn obeys_from_spec() -> bool {
        true
    }

    open spec fn from_spec(failure: IoFailure) -> RecvError {
        match failure.kind {
            IoKind::UnexpectedEof => RecvError::Disconnected,
            IoKind::WouldBlock => RecvError::WouldBlock,
            IoKind::Other => RecvError::IoError(failure),
        }
    }
}

impl From<IoFailure> for ConnectError {
    fn from(failure: IoFailure) -> (r: ConnectError) {
        ConnectError::IoError(failure)
    }
}

impl FromSpecImpl<IoFailure> for ConnectError {
    open spec fn obeys_from_spec() -> bool {
        true
    }

    open spec fn from_spec(failure: IoFailure) -> ConnectError {
        ConnectError::IoError(failure)
    }
}

impl From<IoFailure> for ListenError {
    fn from(failure: IoFailure) -> (r: ListenError) {
        ListenError::IoError(failure)
    }
}

impl FromSpecImpl<IoFailure> for ListenError {
    open spec fn obeys_from_spec() -> bool {
        true
    }

    open spec fn from_spec(failure: IoFailure) -> ListenError {
        ListenError::IoError(failure)
    }
}

impl From<IoFailure> for AcceptError {
    fn from(failure: IoFailure) -> (r: AcceptError) {
        AcceptError::IoError(failure)
    }
}

impl FromSpecImpl<IoFailure> for AcceptError {
    open spec fn obeys_from_spec() -> bool {
        true
    }

    open spec fn from_spec(failure: IoFailure) -> AcceptError {
        AcceptError::IoError(failure)
    }
}

impl From<IoFailure> for DisconnectError {
    fn from(failure: IoFailure) -> (r: DisconnectError) {
        DisconnectError::IoError(failure)
    }
}

impl FromSpecImpl<IoFailure> for DisconnectError {
    open spec fn obeys_from_spec() -> bool {
        true
    }

    open spec fn from_spec(failure: IoFailure) -> DisconnectError {
        DisconnectError::IoError(failure)
    }
}

} // verus!
