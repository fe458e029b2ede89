//! The stream-socket transports: plain streams under `tcp://` or a bare
//! `host:port`, and encrypted streams under `tls://`.
//!
//! The rules of both live here; the streams themselves belong to the
//! program that opens them, which hands each failed system call over as an
//! [`IoFailure`](crate::transport::IoFailure) to be classified.

use vstd::prelude::*;
use crate::text::occurs_in;
use crate::transport::scheme::{
    accepts_scheme, bind_address, dial_address, dial_plan, qualified, serves,
};
use crate::transport::{ConnectError, ListenError};

verus! {

/// The scheme prefix of the plain stream transport.
pub open spec fn raw_prefix() -> Seq<char> {
    "tcp://"@
}

/// The scheme prefix of the encrypted stream transport.
pub open spec fn tls_prefix() -> Seq<char> {
    "tls://"@
}

/// The transport over plain stream sockets.
#[derive(Default)]
pub struct RawTransport {}

/// The transport over encrypted stream sockets. The certificate and key
/// material is the caller's to supply when the stream is opened.
#[derive(Default)]
pub struct TlsTransport {}

impl RawTransport {
    /// Whether the transport serves `address`: one that starts with
    /// `tcp://`, or one without any scheme.
    pub open spec fn accepts_spec(address: Seq<char>) -> bool {
        serves(raw_prefix(), true, address)
    }

    pub fn accepts(&self, address: &str) -> (r: bool)
        ensures
            r == Self::accepts_spec(address@),
    {
        accepts_scheme(address, "tcp://", true)
    }

    /// The `host:port` to dial for `endpoint`; an address that is not
    /// served is refused before any socket is opened.
    pub fn connect_address(&self, endpoint: &str) -> (r: Result<String, ConnectError>)
        ensures
            match r {
                Ok(a) => dial_plan(raw_prefix(), true, endpoint@) == Ok::<Seq<char>, Seq<char>>(
                    a@,
                ),
                Err(ConnectError::ProtocolError(m)) => dial_plan(raw_prefix(), true, endpoint@)
                    == Err::<Seq<char>, Seq<char>>(m@) && occurs_in(endpoint@, m@),
                Err(_) => false,
            },
    {
        dial_address(endpoint, "tcp://", true)
    }

    /// The `host:port` to bind for `bind`; an address that is not served
    /// is refused before any socket is opened.
    pub fn bind_address(&self, bind: &str) -> (r: Result<String, ListenError>)
        ensures
            match r {
                Ok(a) => dial_plan(raw_prefix(), true, bind@) == Ok::<Seq<char>, Seq<char>>(a@),
                Err(ListenError::ProtocolError(m)) => dial_plan(raw_prefix(), true, bind@) == Err::<
                    Seq<char>,
                    Seq<char>,
                >(m@) && occurs_in(bind@, m@),
                Err(_) => false,
            },
    {
        bind_address(bind, "tcp://", true)
    }

    /// The endpoint by which a socket at `socket_address` is known.
    pub fn endpoint(&self, socket_address: &str) -> (r: String)
        ensures
            r@ == raw_prefix() + socket_address@,
            Self::accepts_spec(r@),
    {
        qualified("tcp://", socket_address)
    }
}

impl TlsTransport {
    /// Whether the transport serves `address`: one that starts with
    /// `tls://`.
    pub open spec fn accepts_spec(address: Seq<char>) -> bool {
        serves(tls_prefix(), false, address)
    }

    pub fn accepts(&self, address: &str) -> (r: bool)
        ensures
            r == Self::accepts_spec(address@),
    {
        accepts_scheme(address, "tls://", false)
    }

    /// The `host:port` to dial for `endpoint`; an address that is not
    /// served is refused before any socket is opened.
    pub fn connect_address(&self, endpoint: &str) -> (r: Result<String, ConnectError>)
        ensures
            match r {
                Ok(a) => dial_plan(tls_prefix(), false, endpoint@) == Ok::<Seq<char>, Seq<char>>(
                    a@,
                ),
                Err(ConnectError::ProtocolError(m)) => dial_plan(tls_prefix(), false, endpoint@)
                    == Err::<Seq<char>, Seq<char>>(m@) && occurs_in(endpoint@, m@),
                Err(_) => false,
            },
    {
        dial_address(endpoint, "tls://", false)
    }

    /// The `host:port` to bind for `bind`; an address that is not served
    /// is refused before any socket is opened.
    pub fn bind_address(&self, bind: &str) -> (r: Result<String, ListenError>)
        ensures
            match r {
                Ok(a) => dial_plan(tls_prefix(), false, bind@) == Ok::<Seq<char>, Seq<char>>(a@),
                Err(ListenError::ProtocolError(m)) => dial_plan(tls_prefix(), false, bind@)
                    == Err::<Seq<char>, Seq<char>>(m@) && occurs_in(bind@, m@),
                Err(_) => false,
            },
    {
        bind_address(bind, "tls://", false)
    }

    /// The endpoint by which a socket at `socket_address` is known.
    pub fn endpoint(&self, socket_address: &str) -> (r: String)
        ensures
            r@ == tls_prefix() + socket_address@,
            Self::accepts_spec(r@),
    {
        qualified("tls://", socket_address)
    }
}

} // verus!
