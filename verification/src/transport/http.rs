//! The HTTP transport: addresses under `http://`.
//!
//! The transport has no channel of its own yet. It recognises its
//! addresses, and a connection made by it knows the endpoint that it was
//! made for and nothing else.

use vstd::prelude::*;
use crate::text::occurs_in;
use crate::transport::scheme::{accepts_scheme, bind_address, dial_plan, invalid_protocol,
    invalid_protocol_message, serves};
use crate::transport::{ConnectError, ListenError};

verus! {

/// The scheme prefix of the HTTP transport.
pub open spec fn http_prefix() -> Seq<char> {
    "http://"@
}

/// A connection made by the HTTP transport.
pub struct HttpConnection {
    endpoint: String,
}

impl View for HttpConnection {
    type V = Seq<char>;

    /// The endpoint that the connection was made for, which it reports
    /// as its local endpoint.
    closed spec fn view(&self) -> Seq<char> {
        self.endpoint@
    }
}

impl HttpConnection {
    /// A connection whose local endpoint is `endpoint`.
    pub fn new(endpoint: String) -> (r: HttpConnection)
        ensures
            r@ == endpoint@,
    {
        HttpConnection { endpoint }
    }

    /// The local endpoint of the connection.
    pub fn local_endpoint(&self) -> (r: String)
        ensures
            r@ == self@,
    {
        self.endpoint.clone()
    }
}

/// The transport for addresses under `http://`.
#[derive(Default)]
pub struct HttpTransport {}

impl HttpTransport {
    /// Whether the transport serves `address`: one that starts with
    /// `http://`.
    pub open spec fn accepts_spec(address: Seq<char>) -> bool {
        serves(http_prefix(), false, address)
    }

    pub fn accepts(&self, address: &str) -> (r: bool)
        ensures
            r == Self::accepts_spec(address@),
    {
        accepts_scheme(address, "http://", false)
    }

    /// A connection for `endpoint`, which it reports as its endpoint. An
    /// address that is not served is refused with a protocol error that
    /// names it.
    pub fn connect(&mut self, endpoint: &str) -> (r: Result<HttpConnection, ConnectError>)
        ensures
            match r {
                Ok(connection) => Self::accepts_spec(endpoint@) && connection@ == endpoint@,
                Err(ConnectError::ProtocolError(m)) => !Self::accepts_spec(endpoint@) && m@
                    == invalid_protocol_message(endpoint@) && occurs_in(endpoint@, m@),
                Err(_) => false,
            },
    {
        if !self.accepts(endpoint) {
            return Err(ConnectError::ProtocolError(invalid_protocol(endpoint)));
        }
        Ok(HttpConnection::new(endpoint.to_owned()))
    }

    /// The `host:port` to bind for `bind`; an address that is not served
    /// is refused before any socket is opened.
    pub fn bind_address(&self, bind: &str) -> (r: Result<String, ListenError>)
        ensures
            match r {
                Ok(a) => dial_plan(http_prefix(), false, bind@) == Ok::<Seq<char>, Seq<char>>(a@),
                Err(ListenError::ProtocolError(m)) => dial_plan(http_prefix(), false, bind@)
                    == Err::<Seq<char>, Seq<char>>(m@) && occurs_in(bind@, m@),
                Err(_) => false,
            },
    {
        bind_address(bind, "http://", false)
    }
}

} // verus!
