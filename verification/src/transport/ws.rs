//! The web-socket transport: addresses under `ws://`.
//!
//! A payload travels as one binary frame. Receiving is a blocking call
//! made of attempts: an attempt that finds nothing yet is repeated after a
//! pause, a binary frame ends the call with its payload, and any other
//! frame or failure ends it with an error. The rules of one attempt are
//! [`recv_step`]; the program that owns the socket makes the attempts.

use vstd::prelude::*;
use crate::text::{join2, occurs_in};
use crate::transport::error::{stream_failure, Failure};
use crate::transport::scheme::{
    accepts_scheme, bind_address, dial_plan, invalid_protocol, invalid_protocol_message,
    qualified, serves,
};
use crate::transport::{ConnectError, IoFailure, IoKind, ListenError, RecvError, SendError};

verus! {

/// The scheme prefix of the web-socket transport.
pub open spec fn ws_prefix() -> Seq<char> {
    "ws://"@
}

/// The text that every error made from a web-socket failure starts with.
pub open spec fn ws_error_prefix() -> Seq<char> {
    "WebSocketError: "@
}

/// The text of the error for a frame that is not binary.
pub open spec fn not_binary_message() -> Seq<char> {
    "message received was not websocket::message::OwnedMessage::Binary"@
}

/// The pause between two attempts to receive, in milliseconds.
pub const RETRY_PAUSE_MILLIS: u64 = 100;

/// What the URL parser of the `websocket` crate says of an address: the
/// text of its parse error, or nothing where the address is a URL.
pub uninterp spec fn url_parse_error(address: Seq<char>) -> Option<Seq<char>>;

/// `websocket::ClientBuilder::new`, which parses its argument as a URL and
/// does nothing else: the result is `Ok` where the parser accepts the
/// address, and else the text of the parser's error.
#[verifier::external_body]
fn parse_url(address: &str) -> (r: Result<(), String>)
    ensures
        match r {
            Ok(_) => url_parse_error(address@) is None,
            Err(m) => url_parse_error(address@) == Some(m@),
        },
{
    match websocket::ClientBuilder::new(address) {
        Ok(_) => Ok(()),
        Err(e) => Err(e.to_string()),
    }
}

/// One web-socket frame, by kind.
#[derive(Clone, Debug, PartialEq, Eq)]
pub enum Frame {
    Text(String),
    Binary(Vec<u8>),
    Close,
    Ping(Vec<u8>),
    Pong(Vec<u8>),
}

/// The kinds of failure that a web-socket channel reports.
#[derive(Clone, Copy, Debug, PartialEq, Eq)]
pub enum WsFailureKind {
    /// The underlying stream failed.
    Io(IoKind),
    /// No frame has arrived yet.
    NoDataAvailable,
    /// Any other failure of the protocol.
    Other,
}

/// A failed web-socket operation: its kind and its text.
#[derive(Clone, Debug, PartialEq, Eq)]
pub struct WsFailure {
    pub kind: WsFailureKind,
    pub text: String,
}

/// What one attempt to receive comes to.
#[derive(Clone, Debug, PartialEq, Eq)]
pub enum RecvStep {
    /// The call ends with this payload.
    Deliver(Vec<u8>),
    /// Nothing has arrived yet: pause, then try again.
    Retry,
    /// The call ends with this error.
    Fail(RecvError),
}

/// The error that a web-socket failure becomes outside a receive loop: a
/// failure of the stream is classified as any stream failure is, and
/// every other failure is a protocol error that carries its text.
pub open spec fn ws_failure(kind: WsFailureKind, text: Seq<char>) -> Failure {
    match kind {
        WsFailureKind::Io(k) => stream_failure(k, text),
        _ => Failure::Protocol(ws_error_prefix() + text),
    }
}

/// Whether a failed attempt to receive only means that nothing has
/// arrived yet.
pub open spec fn asks_retry(kind: WsFailureKind) -> bool {
    kind == WsFailureKind::Io(IoKind::WouldBlock) || kind == WsFailureKind::NoDataAvailable
}

/// The outcome of one attempt to receive, as a value: the payload
/// delivered, the error that ends the call, or nothing where the attempt
/// is to be repeated.
pub enum StepView {
    Deliver(Seq<u8>),
    Retry,
    Fail(Failure),
}

impl View for RecvStep {
    type V = StepView;

    open spec fn view(&self) -> StepView {
        match self {
            RecvStep::Deliver(p) => StepView::Deliver(p@),
            RecvStep::Retry => StepView::Retry,
            RecvStep::Fail(e) => StepView::Fail(e@),
        }
    }
}

/// The rule of one attempt to receive.
pub open spec fn step_of(attempt: Result<Frame, WsFailure>) -> StepView {
    match attempt {
        Ok(Frame::Binary(p)) => StepView::Deliver(p@),
        Ok(_) => StepView::Fail(Failure::Protocol(not_binary_message())),
        Err(f) => if asks_retry(f.kind) {
            StepView::Retry
        } else {
            StepView::Fail(ws_failure(f.kind, f.text@))
        },
    }
}

impl WsFailure {
    /// A failure of the given kind with the given text.
    pub fn new(kind: WsFailureKind, text: String) -> (r: WsFailure)
        ensures
            r.kind == kind,
            r.text == text,
    {
        WsFailure { kind, text }
    }

    /// The error of a failed receive.
    pub fn into_recv_error(self) -> (r: RecvError)
        ensures
            r@ == ws_failure(self.kind, self.text@),
    {
        match self.kind {
            WsFailureKind::Io(kind) => RecvError::from(IoFailure::new(kind, self.text)),
            _ => RecvError::ProtocolError(join2("WebSocketError: ", self.text.as_str())),
        }
    }

    /// The error of a failed send.
    pub fn into_send_error(self) -> (r: SendError)
        ensures
            r@ == ws_failure(self.kind, self.text@),
    {
        match self.kind {
            WsFailureKind::Io(kind) => SendError::from(IoFailure::new(kind, self.text)),
            _ => SendError::ProtocolError(join2("WebSocketError: ", self.text.as_str())),
        }
    }

    /// The error of a failed connect. A connect is not retried, so a
    /// failure of the stream stays an I/O error whatever its kind.
    pub fn into_connect_error(self) -> (r: ConnectError)
        ensures
            r@ == (match self.kind {
                WsFailureKind::Io(k) => Failure::Io(k, self.text@),
                _ => Failure::Protocol(ws_error_prefix() + self.text@),
            }),
    {
        match self.kind {
            WsFailureKind::Io(kind) => ConnectError::from(IoFailure::new(kind, self.text)),
            _ => ConnectError::ProtocolError(join2("WebSocketError: ", self.text.as_str())),
        }
    }
}

/// The frame that carries `message`: a single binary frame with exactly
/// these bytes.
pub fn encode(message: &[u8]) -> (r: Frame)
    ensures
        r matches Frame::Binary(p) && p@ == message@,
{
    Frame::Binary(vstd::slice::slice_to_vec(message))
}

/// The payload of a received frame: the bytes of a binary frame, and a
/// protocol error for a frame of any other kind.
pub fn decode(frame: Frame) -> (r: Result<Vec<u8>, RecvError>)
    ensures
        match r {
            Ok(p) => frame == Frame::Binary(p),
            Err(e) => !(frame is Binary) && e@ == Failure::Protocol(not_binary_message()),
        },
{
    match frame {
        Frame::Binary(p) => Ok(p),
        _ => Err(
            RecvError::ProtocolError(
                "message received was not websocket::message::OwnedMessage::Binary".to_owned(),
            ),
        ),
    }
}

/// Decides what one attempt to receive comes to.
pub fn recv_step(attempt: Result<Frame, WsFailure>) -> (r: RecvStep)
    ensures
        r@ == step_of(attempt),
{
    match attempt {
        Ok(frame) => match decode(frame) {
            Ok(p) => RecvStep::Deliver(p),
            Err(e) => RecvStep::Fail(e),
        },
        Err(f) => match f.kind {
            WsFailureKind::Io(IoKind::WouldBlock) => RecvStep::Retry,
            WsFailureKind::NoDataAvailable => RecvStep::Retry,
            _ => RecvStep::Fail(f.into_recv_error()),
        },
    }
}

/// Whatever the bytes, a payload that is framed and then received comes
/// out as it went in.
pub proof fn lemma_binary_frame_round_trip(frame: Frame, message: Seq<u8>)
    requires
        frame matches Frame::Binary(p) && p@ == message,
    ensures
        step_of(Ok(frame)) == StepView::Deliver(message),
{
}

/// The transport for addresses under `ws://`.
#[derive(Default)]
pub struct WsTransport {}

impl WsTransport {
    /// Whether the transport serves `address`: one that starts with
    /// `ws://`.
    pub open spec fn accepts_spec(address: Seq<char>) -> bool {
        serves(ws_prefix(), false, address)
    }

    /// What a connect attempt on `endpoint` comes to before the network is
    /// touched, given what the URL parser says of the endpoint: nothing
    /// where the attempt may go on, and else the error that ends it.
    pub open spec fn refusal(endpoint: Seq<char>, parse_error: Option<Seq<char>>) -> Option<
        Failure,
    > {
        if !Self::accepts_spec(endpoint) {
            Some(Failure::Protocol(invalid_protocol_message(endpoint)))
        } else {
            match parse_error {
                Some(m) => Some(Failure::Parse(m)),
                None => None,
            }
        }
    }

    pub fn accepts(&self, address: &str) -> (r: bool)
        ensures
            r == Self::accepts_spec(address@),
    {
        accepts_scheme(address, "ws://", false)
    }

    /// Judges a connect attempt from the endpoint and from what the URL
    /// parser made of it. An endpoint that is not served is refused with a
    /// protocol error that names it, whatever the parser said; a served
    /// one that is no URL is refused with the parser's error.
    pub fn judge_endpoint(&self, endpoint: &str, parsed: Result<(), String>) -> (r: Result<
        (),
        ConnectError,
    >)
        ensures
            match r {
                Ok(_) => Self::refusal(
                    endpoint@,
                    match parsed {
                        Ok(_) => None,
                        Err(m) => Some(m@),
                    },
                ) is None,
                Err(e) => Self::refusal(
                    endpoint@,
                    match parsed {
                        Ok(_) => None,
                        Err(m) => Some(m@),
                    },
                ) == Some(e@),
            },
            !Self::accepts_spec(endpoint@) ==> (r matches Err(ConnectError::ProtocolError(m))
                && occurs_in(endpoint@, m@)),
    {
        if !self.accepts(endpoint) {
            return Err(ConnectError::ProtocolError(invalid_protocol(endpoint)));
        }
        match parsed {
            Ok(_) => Ok(()),
            Err(m) => Err(ConnectError::ParseError(m)),
        }
    }

    /// Checks `endpoint` before the network is touched: it must be served
    /// by this transport and must be a URL.
    pub fn check_endpoint(&self, endpoint: &str) -> (r: Result<(), ConnectError>)
        ensures
            match r {
                Ok(_) => Self::refusal(endpoint@, url_parse_error(endpoint@)) is None,
                Err(e) => Self::refusal(endpoint@, url_parse_error(endpoint@)) == Some(e@),
            },
            !Self::accepts_spec(endpoint@) ==> (r matches Err(ConnectError::ProtocolError(m))
                && occurs_in(endpoint@, m@)),
    {
        if !self.accepts(endpoint) {
            return Err(ConnectError::ProtocolError(invalid_protocol(endpoint)));
        }
        let parsed = parse_url(endpoint);
        self.judge_endpoint(endpoint, parsed)
    }

    /// The `host:port` to bind for `bind`; an address that is not served
    /// is refused before any socket is opened.
    pub fn bind_address(&self, bind: &str) -> (r: Result<String, ListenError>)
        ensures
            match r {
                Ok(a) => dial_plan(ws_prefix(), false, bind@) == Ok::<Seq<char>, Seq<char>>(a@),
                Err(ListenError::ProtocolError(m)) => dial_plan(ws_prefix(), false, bind@) == Err::<
                    Seq<char>,
                    Seq<char>,
                >(m@) && occurs_in(bind@, m@),
                Err(_) => false,
            },
    {
        bind_address(bind, "ws://", false)
    }

    /// The endpoint by which a socket at `socket_address` is known.
    pub fn endpoint(&self, socket_address: &str) -> (r: String)
        ensures
            r@ == ws_prefix() + socket_address@,
            Self::accepts_spec(r@),
    {
        qualified("ws://", socket_address)
    }
}

} // verus!
