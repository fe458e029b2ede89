//! Connections, listeners and the transports that make them.
//!
//! A [`Transport`] decides from an address alone whether it can serve it,
//! and makes a [`Connection`] or a [`Listener`] for the addresses it
//! accepts. What travels over a connection is a payload of raw bytes.

pub mod error;
pub mod frame;
pub mod http;
pub mod inproc;
pub mod multi;
pub mod scheme;
pub mod socket;
pub mod ws;

use vstd::prelude::*;

pub use error::{
    AcceptError, ConnectError, DisconnectError, IoFailure, IoKind, ListenError, RecvError,
    SendError,
};
use crate::text::occurs_in;

verus! {

/// What a poller watches to learn that a connection is ready for I/O.
#[derive(Clone, Copy, Debug, PartialEq, Eq, Structural)]
pub enum Readiness {
    /// The descriptor of the channel, as the operating system numbers it.
    Descriptor(i64),
    /// The connection lives in memory and never blocks the poller: it is
    /// to be tried on every turn.
    Always,
}

/// A bi-directional connection between two nodes.
///
/// `closed` is the terminal state: once a connection has been
/// disconnected it stays so, and every later call fails. An
/// implementation outside this crate gives `closed` a body that reports
/// that state.
pub trait Connection: Send {
    /// Whether the connection has been disconnected.
    spec fn closed(&self) -> bool;

    /// Attempts to send one payload. A closed connection refuses with
    /// `Disconnected`; an open one stays open unless the send itself
    /// reports the disconnect.
    fn send(&mut self, message: &[u8]) -> (r: Result<(), SendError>)
        ensures
            old(self).closed() ==> r == Err::<(), SendError>(SendError::Disconnected),
            old(self).closed() ==> final(self).closed(),
            r is Ok ==> !final(self).closed(),
    ;

    /// Attempts to receive one payload. A closed connection refuses with
    /// `Disconnected`.
    fn recv(&mut self) -> (r: Result<Vec<u8>, RecvError>)
        ensures
            old(self).closed() ==> r == Err::<Vec<u8>, RecvError>(RecvError::Disconnected),
            old(self).closed() ==> final(self).closed(),
            r is Ok ==> !final(self).closed(),
    ;

    /// The address of the remote end.
    fn remote_endpoint(&self) -> (r: String)
    ;

    /// The address of the local end.
    fn local_endpoint(&self) -> (r: String)
    ;

    /// Shuts the connection down. Whatever is returned, the connection is
    /// closed afterwards; on a connection that was closed already the call
    /// fails.
    fn disconnect(&mut self) -> (r: Result<(), DisconnectError>)
        ensures
            final(self).closed(),
            old(self).closed() ==> r is Err,
    ;

    /// The handle by which a poller watches the connection.
    fn evented(&self) -> (r: Readiness)
    ;
}

/// A bound, passive endpoint that produces connections.
pub trait Listener: Send {
    /// Waits for one inbound connection.
    fn accept(&mut self) -> (r: Result<Box<dyn Connection>, AcceptError>)
    ;

    /// The address that the listener is bound to.
    fn endpoint(&self) -> (r: String)
    ;
}

/// A factory of connections and listeners.
///
/// What a transport accepts is a function of the address alone: no call
/// changes it. An implementation outside this crate gives `accepts_spec`
/// the body of `accepts`.
pub trait Transport: Send {
    /// Whether the transport serves `address`.
    spec fn accepts_spec(&self, address: &str) -> bool;

    /// Whether `address` can be used to make a connection or a listener.
    fn accepts(&self, address: &str) -> (r: bool)
        ensures
            r == self.accepts_spec(address),
    ;

    /// Connects to `endpoint`. An address that the transport does not
    /// accept is refused with a protocol error that names it.
    fn connect(&mut self, endpoint: &str) -> (r: Result<Box<dyn Connection>, ConnectError>)
        ensures
            forall|a: &str| #[trigger] final(self).accepts_spec(a) == old(self).accepts_spec(a),
            !old(self).accepts_spec(endpoint) ==> (r matches Err(ConnectError::ProtocolError(m))
                && occurs_in(endpoint@, m@)),
    ;

    /// Binds a listener to `bind`. An address that the transport does not
    /// accept is refused with a protocol error that names it.
    fn listen(&mut self, bind: &str) -> (r: Result<Box<dyn Listener>, ListenError>)
        ensures
            forall|a: &str| #[trigger] final(self).accepts_spec(a) == old(self).accepts_spec(a),
            !old(self).accepts_spec(bind) ==> (r matches Err(ListenError::ProtocolError(m))
                && occurs_in(bind@, m@)),
    ;
}

/// The unbounded sequence of the connections that a listener accepts: each
/// step is one call of `accept`, and the sequence never ends by itself.
pub struct IncomingIter<'a, L: Listener + ?Sized> {
    listener: &'a mut L,
}

impl<'a, L: Listener + ?Sized> IncomingIter<'a, L> {
    /// The listener that the sequence draws from.
    pub closed spec fn listener(&self) -> &L {
        &*self.listener
    }

    /// The sequence of what `listener` accepts from now on.
    pub fn new(listener: &'a mut L) -> (r: Self)
        ensures
            r.listener() == &*old(listener),
    {
        IncomingIter { listener }
    }

    /// The step of the sequence for what one call of `accept` came back
    /// with: the connection or the error, as it is. Neither ends the
    /// sequence.
    pub fn yielded(accepted: Result<Box<dyn Connection>, AcceptError>) -> (r: Option<
        Result<Box<dyn Connection>, AcceptError>,
    >)
        ensures
            r == Some(accepted),
    {
        Some(accepted)
    }

    /// The next inbound connection, or the error of the failed attempt.
    /// An error does not end the sequence.
    pub fn next(&mut self) -> (r: Option<Result<Box<dyn Connection>, AcceptError>>)
        ensures
            r is Some,
    {
        Self::yielded(self.listener.accept())
    }
}

/// Turns a listener into the sequence of its inbound connections.
pub trait Incoming: Listener {
    fn incoming<'a>(&'a mut self) -> (r: IncomingIter<'a, Self>)
        ensures
            r.listener() == &*old(self),
    ;
}

impl<L: Listener + ?Sized> Incoming for L {
    fn incoming<'a>(&'a mut self) -> (r: IncomingIter<'a, Self>) {
        IncomingIter::new(self)
    }
}

} // verus!
