//! The in-process loopback: two connection ends joined without any
//! network stack, under addresses that start with `inproc://`.
//!
//! Each end buffers what it has sent in its outbox and what has reached
//! it in its inbox, both bounded by the end's capacity. [`transfer`] is
//! the wire: it moves payloads from one end's outbox to the other end's
//! inbox, as many as fit, in the order in which they were sent.

use std::collections::VecDeque;
use vstd::prelude::*;
use crate::payload::{lemma_payloads_push, lemma_payloads_skip, payloads};
use crate::text::occurs_in;
use crate::transport::error::Failure;
use crate::transport::scheme::{accepts_scheme, bind_address, dial_address, dial_plan, serves};
use crate::transport::{
    ConnectError, Connection, DisconnectError, ListenError, Readiness, RecvError, SendError,
};

verus! {

/// The scheme prefix of the in-process transport.
pub open spec fn inproc_prefix() -> Seq<char> {
    "inproc://"@
}

/// The text of the error for a second disconnect.
pub open spec fn already_closed_message() -> Seq<char> {
    "connection already disconnected"@
}

/// One end of a loopback, as a value.
pub struct EndView {
    pub local: Seq<char>,
    pub remote: Seq<char>,
    /// What has arrived and was not received yet, oldest first.
    pub inbox: Seq<Seq<u8>>,
    /// What was sent and has not left yet, oldest first.
    pub outbox: Seq<Seq<u8>>,
    pub capacity: nat,
    pub closed: bool,
    pub peer_closed: bool,
}

impl EndView {
    /// Neither queue holds more than the capacity.
    pub open spec fn bounded(self) -> bool {
        self.inbox.len() <= self.capacity && self.outbox.len() <= self.capacity
    }

    /// The end and the result of sending `message` on it.
    pub open spec fn send(self, message: Seq<u8>) -> (EndView, Result<(), Failure>) {
        if self.closed || self.peer_closed {
            (self, Err(Failure::Disconnected))
        } else if self.outbox.len() >= self.capacity {
            (self, Err(Failure::WouldBlock))
        } else {
            (EndView { outbox: self.outbox.push(message), ..self }, Ok(()))
        }
    }

    /// The end and the result of receiving on it.
    pub open spec fn recv(self) -> (EndView, Result<Seq<u8>, Failure>) {
        if self.closed {
            (self, Err(Failure::Disconnected))
        } else if self.inbox.len() > 0 {
            (EndView { inbox: self.inbox.skip(1), ..self }, Ok(self.inbox[0]))
        } else if self.peer_closed {
            (self, Err(Failure::Disconnected))
        } else {
            (self, Err(Failure::WouldBlock))
        }
    }

    /// The end and the result of disconnecting it.
    pub open spec fn disconnect(self) -> (EndView, Result<(), Failure>) {
        if self.closed {
            (self, Err(Failure::Protocol(already_closed_message())))
        } else {
            (EndView { closed: true, ..self }, Ok(()))
        }
    }
}

/// How many payloads one run of the wire moves from `from` to `to`.
pub open spec fn moved(from: EndView, to: EndView) -> nat {
    let room = if to.inbox.len() >= to.capacity {
        0
    } else {
        (to.capacity - to.inbox.len()) as nat
    };
    if from.outbox.len() <= room {
        from.outbox.len()
    } else {
        room
    }
}

/// The two ends after one run of the wire from `from` to `to`.
pub open spec fn transferred(from: EndView, to: EndView) -> (EndView, EndView) {
    let k = moved(from, to) as int;
    (
        EndView { outbox: from.outbox.skip(k), ..from },
        EndView {
            inbox: to.inbox + from.outbox.take(k),
            peer_closed: to.peer_closed || from.closed,
            ..to
        },
    )
}

/// What is on its way from `from` to `to`, oldest first: what has reached
/// `to` and waits there, then what still waits at `from`.
pub open spec fn in_flight(from: EndView, to: EndView) -> Seq<Seq<u8>> {
    to.inbox + from.outbox
}

/// One end of an in-process loopback.
pub struct InprocConnection {
    local: String,
    remote: String,
    inbox: VecDeque<Vec<u8>>,
    outbox: VecDeque<Vec<u8>>,
    capacity: usize,
    closed: bool,
    peer_closed: bool,
}

impl View for InprocConnection {
    type V = EndView;

    closed spec fn view(&self) -> EndView {
        EndView {
            local: self.local@,
            remote: self.remote@,
            inbox: payloads(self.inbox@),
            outbox: payloads(self.outbox@),
            capacity: self.capacity as nat,
            closed: self.closed,
            peer_closed: self.peer_closed,
        }
    }
}

impl InprocConnection {
    /// An open end with empty queues that hold up to `capacity` payloads
    /// each.
    pub fn new(local: String, remote: String, capacity: usize) -> (r: InprocConnection)
        ensures
            r@ == (EndView {
                local: local@,
                remote: remote@,
                inbox: Seq::empty(),
                outbox: Seq::empty(),
                capacity: capacity as nat,
                closed: false,
                peer_closed: false,
            }),
    {
        let r = InprocConnection {
            local,
            remote,
            inbox: VecDeque::new(),
            outbox: VecDeque::new(),
            capacity,
            closed: false,
            peer_closed: false,
        };
        assert(r@.inbox =~= Seq::empty());
        assert(r@.outbox =~= Seq::empty());
        r
    }

    /// The two ends of one loopback between the addresses `a` and `b`.
    pub fn pair(a: &str, b: &str, capacity: usize) -> (r: (InprocConnection, InprocConnection))
        ensures
            r.0@ == (EndView {
                local: a@,
                remote: b@,
                inbox: Seq::empty(),
                outbox: Seq::empty(),
                capacity: capacity as nat,
                closed: false,
                peer_closed: false,
            }),
            r.1@ == (EndView {
                local: b@,
                remote: a@,
                inbox: Seq::empty(),
                outbox: Seq::empty(),
                capacity: capacity as nat,
                closed: false,
                peer_closed: false,
            }),
    {
        (
            InprocConnection::new(a.to_owned(), b.to_owned(), capacity),
            InprocConnection::new(b.to_owned(), a.to_owned(), capacity),
        )
    }

    /// How many payloads wait to be received.
    pub fn pending(&self) -> (r: usize)
        ensures
            r == self@.inbox.len(),
    {
        self.inbox.len()
    }

    /// How many payloads wait to leave.
    pub fn unsent(&self) -> (r: usize)
        ensures
            r == self@.outbox.len(),
    {
        self.outbox.len()
    }
}

impl Connection for InprocConnection {
    closed spec fn closed(&self) -> bool {
        self.closed
    }

    fn send(&mut self, message: &[u8]) -> (r: Result<(), SendError>)
        ensures
            match r {
                Ok(_) => old(self)@.send(message@) == (final(self)@, Ok::<(), Failure>(())),
                Err(e) => old(self)@.send(message@) == (final(self)@, Err::<(), Failure>(e@)),
            },
    {
        if self.closed {
            return Err(SendError::Disconnected);
        }
        if self.peer_closed {
            return Err(SendError::Disconnected);
        }
        if self.outbox.len() >= self.capacity {
            return Err(SendError::WouldBlock);
        }
        let payload = vstd::slice::slice_to_vec(message);
        proof {
            lemma_payloads_push(self.outbox@, payload);
        }
        self.outbox.push_back(payload);
        Ok(())
    }

    fn recv(&mut self) -> (r: Result<Vec<u8>, RecvError>)
        ensures
            match r {
                Ok(p) => old(self)@.recv() == (final(self)@, Ok::<Seq<u8>, Failure>(p@)),
                Err(e) => old(self)@.recv() == (final(self)@, Err::<Seq<u8>, Failure>(e@)),
            },
    {
        if self.closed {
            return Err(RecvError::Disconnected);
        }
        match self.inbox.pop_front() {
            Some(p) => {
                proof {
                    lemma_payloads_skip(old(self).inbox@, 1);
                    assert(old(self)@.inbox[0] == p@);
                }
                Ok(p)
            },
            None => {
                proof {
                    assert(self@.inbox =~= old(self)@.inbox);
                }
                if self.peer_closed {
                    Err(RecvError::Disconnected)
                } else {
                    Err(RecvError::WouldBlock)
                }
            },
        }
    }

    fn remote_endpoint(&self) -> (r: String)
        ensures
            r@ == self@.remote,
    {
        self.remote.clone()
    }

    fn local_endpoint(&self) -> (r: String)
        ensures
            r@ == self@.local,
    {
        self.local.clone()
    }

    fn disconnect(&mut self) -> (r: Result<(), DisconnectError>)
        ensures
            match r {
                Ok(_) => old(self)@.disconnect() == (final(self)@, Ok::<(), Failure>(())),
                Err(e) => old(self)@.disconnect() == (final(self)@, Err::<(), Failure>(e@)),
            },
    {
        if self.closed {
            return Err(DisconnectError::ProtocolError("connection already disconnected".to_owned()));
        }
        self.closed = true;
        Ok(())
    }

    /// A loopback end has no descriptor: it is tried on every turn.
    fn evented(&self) -> (r: Readiness)
        ensures
            r == Readiness::Always,
    {
        Readiness::Always
    }
}

/// Runs the wire once from `from` to `to`: the oldest payloads of
/// `from`'s outbox move to the end of `to`'s inbox, as many as fit and in
/// their order, and `to` learns whether `from` has been disconnected.
pub fn transfer(from: &mut InprocConnection, to: &mut InprocConnection)
    ensures
        (final(from)@, final(to)@) == transferred(old(from)@, old(to)@),
{
    let ghost k = moved(old(from)@, old(to)@) as int;
    let ghost sent = old(from)@.outbox;
    let mut n: usize = 0;
    while from.outbox.len() > 0 && to.inbox.len() < to.capacity
        invariant
            0 <= n <= k,
            n <= sent.len(),
            from.local == old(from).local,
            from.remote == old(from).remote,
            from.inbox == old(from).inbox,
            from.capacity == old(from).capacity,
            from.closed == old(from).closed,
            from.peer_closed == old(from).peer_closed,
            to.local == old(to).local,
            to.remote == old(to).remote,
            to.outbox == old(to).outbox,
            to.capacity == old(to).capacity,
            to.closed == old(to).closed,
            to.peer_closed == old(to).peer_closed,
            sent == old(from)@.outbox,
            k == moved(old(from)@, old(to)@),
            payloads(from.outbox@) == sent.skip(n as int),
            payloads(to.inbox@) == old(to)@.inbox + sent.take(n as int),
            n > 0 ==> to.inbox@.len() <= to.capacity,
        decreases from.outbox@.len(),
    {
        let ghost waiting = from.outbox@;
        let ghost arrived = to.inbox@;
        proof {
            assert(payloads(waiting).len() == waiting.len());
            assert(sent.skip(n as int).len() == sent.len() - n);
            assert(payloads(arrived).len() == arrived.len());
        }
        let p = from.outbox.pop_front().unwrap();
        proof {
            assert(p@ == payloads(waiting)[0]);
            assert(p@ == sent[n as int]);
            lemma_payloads_skip(waiting, 1);
            assert(sent.skip(n as int).skip(1) =~= sent.skip(n + 1));
        }
        to.inbox.push_back(p);
        proof {
            lemma_payloads_push(arrived, p);
            assert(sent.take(n as int).push(sent[n as int]) =~= sent.take(n + 1));
            assert(payloads(to.inbox@) =~= old(to)@.inbox + sent.take(n + 1));
        }
        n = n + 1;
    }
    if from.closed {
        to.peer_closed = true;
    }
    proof {
        assert(n == k);
        assert(from@ == transferred(old(from)@, old(to)@).0);
        assert(to@ == transferred(old(from)@, old(to)@).1);
    }
}

/// A payload that is sent joins what is in flight at its end.
pub proof fn lemma_send_appends(from: EndView, to: EndView, message: Seq<u8>)
    requires
        from.send(message).1 is Ok,
    ensures
        in_flight(from.send(message).0, to) == in_flight(from, to).push(message),
{
    assert(in_flight(from.send(message).0, to) =~= in_flight(from, to).push(message));
}

/// Bounded memory: an end is made with both queues within its capacity,
/// and no operation takes a queue beyond it.
pub proof fn lemma_bound_kept(end: EndView, other: EndView, message: Seq<u8>)
    requires
        end.bounded(),
        other.bounded(),
    ensures
        end.send(message).0.bounded(),
        end.recv().0.bounded(),
        end.disconnect().0.bounded(),
        transferred(end, other).0.bounded(),
        transferred(end, other).1.bounded(),
{
}

/// The wire neither loses, repeats nor reorders what is in flight.
pub proof fn lemma_transfer_keeps_order(from: EndView, to: EndView)
    ensures
        in_flight(transferred(from, to).0, transferred(from, to).1) == in_flight(from, to),
{
    let k = moved(from, to) as int;
    assert(from.outbox.take(k) + from.outbox.skip(k) =~= from.outbox);
    assert(in_flight(transferred(from, to).0, transferred(from, to).1) =~= in_flight(from, to));
}

/// A payload that is received is the oldest one in flight, and the rest
/// stays in flight in its order.
pub proof fn lemma_recv_takes_oldest(from: EndView, to: EndView)
    requires
        to.recv().1 is Ok,
    ensures
        in_flight(from, to).len() > 0,
        to.recv().1 == Ok::<Seq<u8>, Failure>(in_flight(from, to)[0]),
        in_flight(from, to.recv().0) == in_flight(from, to).skip(1),
{
    assert(in_flight(from, to.recv().0) =~= in_flight(from, to).skip(1));
}

/// Round trip: on an open pair with nothing in flight and room for one
/// payload, what one end sends is exactly what the other receives once
/// the wire has run.
pub proof fn lemma_round_trip(from: EndView, to: EndView, message: Seq<u8>)
    requires
        !from.closed,
        !from.peer_closed,
        !to.closed,
        from.outbox.len() == 0,
        to.inbox.len() == 0,
        from.capacity >= 1,
        to.capacity >= 1,
    ensures
        from.send(message).1 is Ok,
        transferred(from.send(message).0, to).1.recv().1 == Ok::<Seq<u8>, Failure>(message),
{
    let sent = from.send(message).0;
    assert(sent.outbox =~= seq![message]);
    assert(moved(sent, to) == 1);
    assert(sent.outbox.take(1) =~= seq![message]);
    assert(transferred(sent, to).1.inbox =~= seq![message]);
}

/// Ordering: two payloads sent one after the other are received in that
/// order.
pub proof fn lemma_two_in_order(from: EndView, to: EndView, first: Seq<u8>, second: Seq<u8>)
    requires
        !from.closed,
        !from.peer_closed,
        !to.closed,
        from.outbox.len() == 0,
        to.inbox.len() == 0,
        from.capacity >= 2,
        to.capacity >= 2,
    ensures
        ({
            let a1 = from.send(first).0;
            let a2 = a1.send(second).0;
            let b1 = transferred(a2, to).1;
            &&& from.send(first).1 is Ok
            &&& a1.send(second).1 is Ok
            &&& b1.recv().1 == Ok::<Seq<u8>, Failure>(first)
            &&& b1.recv().0.recv().1 == Ok::<Seq<u8>, Failure>(second)
        }),
{
    let a1 = from.send(first).0;
    let a2 = a1.send(second).0;
    assert(a2.outbox =~= seq![first, second]);
    assert(moved(a2, to) == 2);
    assert(a2.outbox.take(2) =~= seq![first, second]);
    let b1 = transferred(a2, to).1;
    assert(b1.inbox =~= seq![first, second]);
    assert(b1.recv().0.inbox =~= seq![second]);
}

/// Disconnecting is terminal and happens once: the first call on an open
/// end succeeds, every later call fails, and so does every later send
/// and receive.
pub proof fn lemma_disconnect_once(end: EndView, message: Seq<u8>)
    requires
        !end.closed,
    ensures
        end.disconnect().1 is Ok,
        end.disconnect().0.disconnect().1 is Err,
        end.disconnect().0.disconnect().0 == end.disconnect().0,
        end.disconnect().0.send(message).1 == Err::<(), Failure>(Failure::Disconnected),
        end.disconnect().0.recv().1 == Err::<Seq<u8>, Failure>(Failure::Disconnected),
{
}

/// The transport for addresses under `inproc://`.
#[derive(Default)]
pub struct InprocTransport {}

impl InprocTransport {
    /// Whether the transport serves `address`: one that starts with
    /// `inproc://`.
    pub open spec fn accepts_spec(address: Seq<char>) -> bool {
        serves(inproc_prefix(), false, address)
    }

    pub fn accepts(&self, address: &str) -> (r: bool)
        ensures
            r == Self::accepts_spec(address@),
    {
        accepts_scheme(address, "inproc://", false)
    }

    /// The name of the listener to reach for `endpoint`; an address that
    /// is not served is refused.
    pub fn connect_name(&self, endpoint: &str) -> (r: Result<String, ConnectError>)
        ensures
            match r {
                Ok(a) => dial_plan(inproc_prefix(), false, endpoint@) == Ok::<
                    Seq<char>,
                    Seq<char>,
                >(a@),
                Err(ConnectError::ProtocolError(m)) => dial_plan(inproc_prefix(), false, endpoint@)
                    == Err::<Seq<char>, Seq<char>>(m@) && occurs_in(endpoint@, m@),
                Err(_) => false,
            },
    {
        dial_address(endpoint, "inproc://", false)
    }

    /// The name under which a listener for `bind` is registered; an
    /// address that is not served is refused.
    pub fn bind_name(&self, bind: &str) -> (r: Result<String, ListenError>)
        ensures
            match r {
                Ok(a) => dial_plan(inproc_prefix(), false, bind@) == Ok::<Seq<char>, Seq<char>>(
                    a@,
                ),
                Err(ListenError::ProtocolError(m)) => dial_plan(inproc_prefix(), false, bind@)
                    == Err::<Seq<char>, Seq<char>>(m@) && occurs_in(bind@, m@),
                Err(_) => false,
            },
    {
        bind_address(bind, "inproc://", false)
    }
}

} // verus!
