//! The mesh: many connections serviced behind bounded queues.
//!
//! A [`Mesh`] owns the connections that were added to it. Callers queue
//! payloads with [`Mesh::send`] and take what has arrived with
//! [`Mesh::recv`]; neither touches a channel. The channels are touched
//! only by [`Mesh::handle_readable`] and [`Mesh::handle_writable`], which
//! the poller calls for each readiness notification.
//!
//! The bounds are these. The incoming queue is one for the whole mesh and
//! holds at most `incoming_capacity` envelopes: while it is full no
//! connection is read. Each connection has an outgoing queue of its own
//! that holds at most `outgoing_capacity` payloads: a `send` to a full
//! queue is refused with [`MeshError::CapacityExceeded`].

pub mod model;

use std::collections::VecDeque;
use vstd::prelude::*;
use crate::transport::error::Failure;
use crate::payload::{lemma_payloads_push, lemma_payloads_skip, oldest, payloads};
use crate::transport::{Connection, Readiness, RecvError, SendError};

pub use model::{IoOutcome, Link, MeshError, MeshView};

verus! {

/// A payload together with the identifier of the connection that it
/// arrived on.
#[derive(Clone, Debug, PartialEq, Eq)]
pub struct Envelope {
    peer_id: u64,
    payload: Vec<u8>,
}

impl View for Envelope {
    type V = (u64, Seq<u8>);

    closed spec fn view(&self) -> (u64, Seq<u8>) {
        (self.peer_id, self.payload@)
    }
}

impl Envelope {
    pub fn new(peer_id: u64, payload: Vec<u8>) -> (r: Envelope)
        ensures
            r@ == (peer_id, payload@),
    {
        Envelope { peer_id, payload }
    }

    /// The identifier of the connection that the payload arrived on.
    pub fn peer_id(&self) -> (r: u64)
        ensures
            r == self@.0,
    {
        self.peer_id
    }

    /// The bytes that arrived.
    pub fn payload(&self) -> (r: &[u8])
        ensures
            r@ == self@.1,
    {
        self.payload.as_slice()
    }

    /// The bytes that arrived, by value.
    pub fn take_payload(self) -> (r: Vec<u8>)
        ensures
            r@ == self@.1,
    {
        self.payload
    }
}

/// One registered connection with what is queued for it.
struct Entry {
    id: u64,
    link: Link,
    outgoing: VecDeque<Vec<u8>>,
}

/// The multiplexer.
pub struct Mesh {
    entries: Vec<Entry>,
    incoming: VecDeque<Envelope>,
    closed: VecDeque<u64>,
    incoming_capacity: usize,
    outgoing_capacity: usize,
    next_id: u64,
    shutting_down: bool,
}

/// Whether no identifier occurs twice among `entries`.
spec fn distinct(entries: Seq<Entry>) -> bool {
    forall|i: int, j: int|
        0 <= i < j < entries.len() ==> (#[trigger] entries[i]).id != (#[trigger] entries[j]).id
}

/// Whether `entries` holds an entry under `id`.
spec fn holds(entries: Seq<Entry>, id: u64) -> bool {
    exists|i: int| 0 <= i < entries.len() && (#[trigger] entries[i]).id == id
}

/// Where the entry under `id` stands among `entries`.
spec fn place(entries: Seq<Entry>, id: u64) -> int {
    choose|i: int| 0 <= i < entries.len() && (#[trigger] entries[i]).id == id
}

/// The queues that `entries` stands for.
spec fn registry(entries: Seq<Entry>) -> Map<u64, Seq<Seq<u8>>> {
    Map::new(|id: u64| holds(entries, id), |id: u64| payloads(entries[place(entries, id)].outgoing@))
}

/// The connections that `entries` stands for.
spec fn links(entries: Seq<Entry>) -> Map<u64, Link> {
    Map::new(|id: u64| holds(entries, id), |id: u64| entries[place(entries, id)].link)
}

/// The identifiers of `entries`, in their order.
spec fn order_of(entries: Seq<Entry>) -> Seq<u64> {
    entries.map_values(|e: Entry| e.id)
}

/// The envelopes of a queue, as values.
spec fn envelopes(queue: Seq<Envelope>) -> Seq<(u64, Seq<u8>)> {
    queue.map_values(|e: Envelope| e@)
}

/// What an attempt to receive came back with, as a value.
pub open spec fn recv_result(result: Result<Vec<u8>, RecvError>) -> Result<Seq<u8>, Failure> {
    match result {
        Ok(p) => Ok(p@),
        Err(e) => Err(e@),
    }
}

/// What an attempt to send came back with, as a value.
pub open spec fn send_result(result: Result<(), SendError>) -> Result<(), Failure> {
    match result {
        Ok(_) => Ok(()),
        Err(e) => Err(e@),
    }
}

/// One attempt to send the oldest queued payload of `entry` over its
/// connection. Only the connection can change, and the attempt comes
/// back as the connection's own contract says: a closed connection
/// refuses with `Disconnected` and stays closed, and a connection that
/// took the payload is open.
fn send_front(entry: &mut Entry) -> (r: Result<(), SendError>)
    requires
        old(entry).outgoing@.len() > 0,
    ensures
        final(entry).id == old(entry).id,
        final(entry).outgoing@ == old(entry).outgoing@,
        old(entry).link.connection.closed() ==> r == Err::<(), SendError>(
            SendError::Disconnected,
        ) && final(entry).link.connection.closed(),
        r is Ok ==> !final(entry).link.connection.closed(),
{
    let payload = oldest(&entry.outgoing);
    entry.link.connection.send(payload)
}

/// Shuts the connection of `link` down. However the teardown went, the
/// connection is closed afterwards.
fn shut(link: &mut Link)
    ensures
        final(link).connection.closed(),
{
    let _ = link.connection.disconnect();
}

proof fn lemma_registry_at(entries: Seq<Entry>, i: int)
    requires
        distinct(entries),
        0 <= i < entries.len(),
    ensures
        holds(entries, entries[i].id),
        place(entries, entries[i].id) == i,
        registry(entries).dom().contains(entries[i].id),
        registry(entries)[entries[i].id] == payloads(entries[i].outgoing@),
        links(entries).dom().contains(entries[i].id),
        links(entries)[entries[i].id] == entries[i].link,
        order_of(entries)[i] == entries[i].id,
{
    let id = entries[i].id;
    assert(holds(entries, id));
    let c = place(entries, id);
    if c < i {
        assert(entries[c].id != entries[i].id);
    }
    if i < c {
        assert(entries[i].id != entries[c].id);
    }
}

/// Maps that hold exactly the identifiers of `entries`, each with the
/// payloads and the connection of its entry, are the registry of
/// `entries`.
proof fn lemma_registry_is(
    entries: Seq<Entry>,
    m: Map<u64, Seq<Seq<u8>>>,
    l: Map<u64, Link>,
)
    requires
        distinct(entries),
        forall|i: int|
            0 <= i < entries.len() ==> m.dom().contains((#[trigger] entries[i]).id)
                && m[entries[i].id] == payloads(entries[i].outgoing@) && l.dom().contains(
                entries[i].id,
            ) && l[entries[i].id] == entries[i].link,
        forall|id: u64| m.dom().contains(id) ==> holds(entries, id),
        forall|id: u64| l.dom().contains(id) ==> holds(entries, id),
    ensures
        registry(entries) == m,
        links(entries) == l,
{
    assert forall|id: u64| registry(entries).dom().contains(id) implies m.dom().contains(id)
        && registry(entries)[id] == m[id] && l.dom().contains(id) && links(entries)[id]
        == l[id] by {
        let i = place(entries, id);
        lemma_registry_at(entries, i);
    }
    assert(registry(entries) =~= m);
    assert(links(entries) =~= l);
}

proof fn lemma_registry_push(entries: Seq<Entry>, e: Entry)
    requires
        distinct(entries),
        !holds(entries, e.id),
    ensures
        distinct(entries.push(e)),
        registry(entries.push(e)) == registry(entries).insert(e.id, payloads(e.outgoing@)),
        links(entries.push(e)) == links(entries).insert(e.id, e.link),
        order_of(entries.push(e)) == order_of(entries).push(e.id),
{
    let after = entries.push(e);
    assert forall|i: int, j: int| 0 <= i < j < after.len() implies (#[trigger] after[i]).id != (
    #[trigger] after[j]).id by {
        if j < entries.len() {
            assert(after[i] == entries[i] && after[j] == entries[j]);
        } else {
            assert(after[i] == entries[i]);
        }
    }
    let m = registry(entries).insert(e.id, payloads(e.outgoing@));
    let l = links(entries).insert(e.id, e.link);
    assert forall|i: int| 0 <= i < after.len() implies m.dom().contains((#[trigger] after[i]).id)
        && m[after[i].id] == payloads(after[i].outgoing@) && l.dom().contains(after[i].id)
        && l[after[i].id] == after[i].link by {
        if i < entries.len() {
            assert(after[i] == entries[i]);
            lemma_registry_at(entries, i);
        }
    }
    assert forall|id: u64| m.dom().contains(id) || l.dom().contains(id) implies holds(
        after,
        id,
    ) by {
        if id == e.id {
            assert(after[entries.len() as int].id == id);
        } else {
            let i = place(entries, id);
            assert(after[i] == entries[i]);
        }
    }
    lemma_registry_is(after, m, l);
    assert(order_of(after) =~= order_of(entries).push(e.id));
}

proof fn lemma_registry_update(entries: Seq<Entry>, after: Seq<Entry>, i: int)
    requires
        distinct(entries),
        0 <= i < entries.len(),
        after.len() == entries.len(),
        forall|j: int| 0 <= j < entries.len() ==> (#[trigger] after[j]).id == entries[j].id,
        forall|j: int|
            0 <= j < entries.len() && j != i ==> (#[trigger] after[j]).outgoing@
                == entries[j].outgoing@ && after[j].link == entries[j].link,
    ensures
        distinct(after),
        registry(after) == registry(entries).insert(entries[i].id, payloads(after[i].outgoing@)),
        links(after) == links(entries).insert(entries[i].id, after[i].link),
        order_of(after) == order_of(entries),
{
    assert forall|a: int, b: int| 0 <= a < b < after.len() implies (#[trigger] after[a]).id != (
    #[trigger] after[b]).id by {
        assert(entries[a].id != entries[b].id);
    }
    let m = registry(entries).insert(entries[i].id, payloads(after[i].outgoing@));
    let l = links(entries).insert(entries[i].id, after[i].link);
    assert forall|j: int| 0 <= j < after.len() implies m.dom().contains((#[trigger] after[j]).id)
        && m[after[j].id] == payloads(after[j].outgoing@) && l.dom().contains(after[j].id)
        && l[after[j].id] == after[j].link by {
        lemma_registry_at(entries, j);
        if j != i {
            if j < i {
                assert(entries[j].id != entries[i].id);
            } else {
                assert(entries[i].id != entries[j].id);
            }
        }
    }
    assert forall|id: u64| m.dom().contains(id) || l.dom().contains(id) implies holds(
        after,
        id,
    ) by {
        if id == entries[i].id {
            assert(after[i].id == id);
        } else {
            let j = place(entries, id);
            assert(after[j].id == id);
        }
    }
    lemma_registry_is(after, m, l);
    assert(order_of(after) =~= order_of(entries));
}

/// An entry whose queue and connection are put back as they were leaves
/// the registry as it was.
proof fn lemma_registry_same(entries: Seq<Entry>, i: int)
    requires
        distinct(entries),
        0 <= i < entries.len(),
    ensures
        registry(entries).insert(entries[i].id, payloads(entries[i].outgoing@)) == registry(
            entries,
        ),
        links(entries).insert(entries[i].id, entries[i].link) == links(entries),
{
    lemma_registry_at(entries, i);
    assert(registry(entries).insert(entries[i].id, payloads(entries[i].outgoing@)) =~= registry(
        entries,
    ));
    assert(links(entries).insert(entries[i].id, entries[i].link) =~= links(entries));
}

proof fn lemma_registry_remove(entries: Seq<Entry>, i: int)
    requires
        distinct(entries),
        0 <= i < entries.len(),
    ensures
        distinct(entries.remove(i)),
        registry(entries.remove(i)) == registry(entries).remove(entries[i].id),
        links(entries.remove(i)) == links(entries).remove(entries[i].id),
        order_of(entries.remove(i)) == order_of(entries).remove(i),
{
    let after = entries.remove(i);
    assert forall|a: int, b: int| 0 <= a < b < after.len() implies (#[trigger] after[a]).id != (
    #[trigger] after[b]).id by {
        let a0 = if a < i {
            a
        } else {
            a + 1
        };
        let b0 = if b < i {
            b
        } else {
            b + 1
        };
        assert(after[a] == entries[a0] && after[b] == entries[b0]);
        assert(entries[a0].id != entries[b0].id);
    }
    let m = registry(entries).remove(entries[i].id);
    let l = links(entries).remove(entries[i].id);
    assert forall|j: int| 0 <= j < after.len() implies m.dom().contains((#[trigger] after[j]).id)
        && m[after[j].id] == payloads(after[j].outgoing@) && l.dom().contains(after[j].id)
        && l[after[j].id] == after[j].link by {
        let j0 = if j < i {
            j
        } else {
            j + 1
        };
        assert(after[j] == entries[j0]);
        lemma_registry_at(entries, j0);
        if j0 < i {
            assert(entries[j0].id != entries[i].id);
        } else {
            assert(entries[i].id != entries[j0].id);
        }
    }
    assert forall|id: u64| m.dom().contains(id) || l.dom().contains(id) implies holds(
        after,
        id,
    ) by {
        let j = place(entries, id);
        if j < i {
            assert(after[j] == entries[j]);
        } else {
            assert(after[j - 1] == entries[j]);
        }
    }
    lemma_registry_is(after, m, l);
    assert(order_of(after) =~= order_of(entries).remove(i));
}

impl View for Mesh {
    type V = MeshView;

    closed spec fn view(&self) -> MeshView {
        MeshView {
            incoming_capacity: self.incoming_capacity as nat,
            outgoing_capacity: self.outgoing_capacity as nat,
            next_id: self.next_id as nat,
            shutting_down: self.shutting_down,
            order: order_of(self.entries@),
            connections: links(self.entries@),
            outgoing: registry(self.entries@),
            incoming: envelopes(self.incoming@),
            closed: self.closed@,
        }
    }
}

impl Mesh {
    /// The invariant of the mesh: no identifier is registered twice, and
    /// the value of the mesh is well formed.
    pub closed spec fn wf(&self) -> bool {
        distinct(self.entries@) && self@.wf()
    }

    /// A well-formed mesh has a well-formed value: every queue is within
    /// its bound, and the rest of what `MeshView::wf` says.
    pub proof fn lemma_wf_view(&self)
        requires
            self.wf(),
        ensures
            self@.wf(),
    {
    }

    /// A mesh whose incoming queue holds up to `incoming_capacity`
    /// envelopes and whose outgoing queues hold up to `outgoing_capacity`
    /// payloads each.
    pub fn new(incoming_capacity: usize, outgoing_capacity: usize) -> (r: Mesh)
        ensures
            r.wf(),
            r@ == MeshView::initial(incoming_capacity as nat, outgoing_capacity as nat),
    {
        let r = Mesh {
            entries: Vec::new(),
            incoming: VecDeque::new(),
            closed: VecDeque::new(),
            incoming_capacity,
            outgoing_capacity,
            next_id: 0,
            shutting_down: false,
        };
        proof {
            assert(registry(r.entries@) =~= Map::empty());
            assert(links(r.entries@) =~= Map::empty());
            assert(order_of(r.entries@) =~= Seq::empty());
            assert(envelopes(r.incoming@) =~= Seq::empty());
            assert(r.closed@ =~= Seq::empty());
        }
        r
    }

    /// Where the entry under `id` stands.
    fn position(&self, id: u64) -> (r: Option<usize>)
        requires
            self.wf(),
        ensures
            match r {
                Some(i) => i < self.entries@.len() && self.entries@[i as int].id == id
                    && self@.registered(id) && self@.outgoing[id] == payloads(
                    self.entries@[i as int].outgoing@,
                ) && self@.connections[id] == self.entries@[i as int].link,
                None => !self@.registered(id),
            },
    {
        let mut i: usize = 0;
        while i < self.entries.len()
            invariant
                self.wf(),
                i <= self.entries@.len(),
                forall|j: int| 0 <= j < i ==> (#[trigger] self.entries@[j]).id != id,
            decreases self.entries@.len() - i,
        {
            if self.entries[i].id == id {
                proof {
                    lemma_registry_at(self.entries@, i as int);
                }
                return Some(i);
            }
            i = i + 1;
        }
        None
    }

    /// The bound of the incoming queue.
    pub fn incoming_capacity(&self) -> (r: usize)
        ensures
            r == self@.incoming_capacity,
    {
        self.incoming_capacity
    }

    /// The bound of each outgoing queue.
    pub fn outgoing_capacity(&self) -> (r: usize)
        ensures
            r == self@.outgoing_capacity,
    {
        self.outgoing_capacity
    }

    /// Whether the mesh has begun to shut down.
    pub fn is_shutting_down(&self) -> (r: bool)
        ensures
            r == self@.shutting_down,
    {
        self.shutting_down
    }

    /// Whether a connection is registered under `id`.
    pub fn contains(&self, id: u64) -> (r: bool)
        requires
            self.wf(),
        ensures
            r == self@.registered(id),
    {
        self.position(id).is_some()
    }

    /// How many payloads are queued for the connection under `id`;
    /// nothing where none is registered.
    pub fn queued(&self, id: u64) -> (r: Option<usize>)
        requires
            self.wf(),
        ensures
            match r {
                Some(n) => self@.registered(id) && n == self@.outgoing[id].len(),
                None => !self@.registered(id),
            },
    {
        match self.position(id) {
            Some(i) => Some(self.entries[i].outgoing.len()),
            None => None,
        }
    }

    /// The identifiers of the registered connections, in the order in
    /// which they were registered.
    pub fn ids(&self) -> (r: Vec<u64>)
        ensures
            r@ == self@.order,
    {
        let mut r: Vec<u64> = Vec::new();
        let mut i: usize = 0;
        while i < self.entries.len()
            invariant
                i <= self.entries@.len(),
                r@.len() == i,
                forall|j: int| 0 <= j < i ==> r@[j] == (#[trigger] self.entries@[j]).id,
            decreases self.entries@.len() - i,
        {
            r.push(self.entries[i].id);
            i = i + 1;
        }
        proof {
            assert(r@ =~= order_of(self.entries@));
        }
        r
    }

    /// What a poller watches for the connection under `id`; nothing where
    /// none is registered.
    pub fn readiness(&self, id: u64) -> (r: Option<Readiness>)
        requires
            self.wf(),
        ensures
            r is Some <==> self@.registered(id),
    {
        match self.position(id) {
            Some(i) => Some(self.entries[i].link.connection.evented()),
            None => None,
        }
    }

    /// The payload that the next flush hands to the connection under
    /// `id`: the oldest one queued for it. Nothing where no connection is
    /// registered under `id` or nothing is queued.
    pub fn next_outgoing(&self, id: u64) -> (r: Option<&[u8]>)
        requires
            self.wf(),
        ensures
            match r {
                Some(payload) => self@.wants_write(id) && payload@ == self@.outgoing[id][0],
                None => !self@.wants_write(id),
            },
    {
        match self.position(id) {
            Some(i) => {
                if self.entries[i].outgoing.len() > 0 {
                    Some(oldest(&self.entries[i].outgoing))
                } else {
                    None
                }
            },
            None => None,
        }
    }

    /// How many envelopes wait to be delivered.
    pub fn pending(&self) -> (r: usize)
        ensures
            r == self@.incoming.len(),
    {
        self.incoming.len()
    }

    /// Begins the shutdown: from now on nothing is added and nothing is
    /// queued. What is registered and queued stays.
    pub fn begin_shutdown(&mut self)
        requires
            old(self).wf(),
        ensures
            final(self).wf(),
            final(self)@ == (MeshView { shutting_down: true, ..old(self)@ }),
    {
        self.shutting_down = true;
    }

    /// Registers `connection` and returns the identifier assigned to it,
    /// which no connection had before. From then on `connection` is the
    /// one that stands under that identifier. Refused once the shutdown
    /// has begun, and when no identifier is left.
    pub fn add(&mut self, connection: Box<dyn Connection>) -> (r: Result<u64, MeshError>)
        requires
            old(self).wf(),
        ensures
            final(self).wf(),
            (final(self)@, r) == old(self)@.add(Link { connection }),
    {
        if self.shutting_down {
            return Err(MeshError::ShuttingDown);
        }
        if self.next_id == u64::MAX {
            return Err(MeshError::CapacityExceeded);
        }
        let id = self.next_id;
        let link = Link { connection };
        let entry = Entry { id, link, outgoing: VecDeque::new() };
        proof {
            if holds(self.entries@, id) {
                assert(self@.registered(id));
            }
            lemma_registry_push(self.entries@, entry);
            assert(payloads(entry.outgoing@) =~= Seq::empty());
            assert(entry.link == (Link { connection }));
            model::lemma_wf_kept(
                old(self)@,
                id,
                entry.link,
                Seq::empty(),
                Ok(Seq::empty()),
                Ok(()),
            );
        }
        self.entries.push(entry);
        self.next_id = id + 1;
        Ok(id)
    }

    /// Takes the connection under `id` out of the registry and hands it
    /// back as the registry held it: the very connection that was added
    /// under `id`, as the calls made on it since have left it. What was
    /// queued for it is dropped. Refused where no connection is
    /// registered under `id`.
    pub fn take(&mut self, id: u64) -> (r: Result<Link, MeshError>)
        requires
            old(self).wf(),
        ensures
            final(self).wf(),
            (final(self)@, r) == old(self)@.remove(id),
    {
        match self.position(id) {
            Some(i) => {
                proof {
                    lemma_registry_remove(self.entries@, i as int);
                    model::lemma_without_at(order_of(self.entries@), i as int);
                    lemma_registry_at(self.entries@, i as int);
                    model::lemma_unregistered_wf(old(self)@, id);
                }
                let entry = self.entries.remove(i);
                Ok(entry.link)
            },
            None => Err(MeshError::UnknownConnection),
        }
    }

    /// Takes the connection under `id` out of the registry and hands it
    /// back, as `take` does, without its wrapping. What was queued for it
    /// is dropped. Refused where no connection is registered under `id`.
    pub fn remove(&mut self, id: u64) -> (r: Result<Box<dyn Connection>, MeshError>)
        requires
            old(self).wf(),
        ensures
            final(self).wf(),
            match r {
                Ok(_) => old(self)@.registered(id) && final(self)@ == old(self)@.unregistered(id),
                Err(e) => !old(self)@.registered(id) && e == MeshError::UnknownConnection
                    && final(self)@ == old(self)@,
            },
    {
        match self.take(id) {
            Ok(link) => Ok(link.connection),
            Err(e) => Err(e),
        }
    }

    /// Takes the connection under `id` out of the registry and shuts it
    /// down. The entry is gone whether or not the connection could be
    /// torn down cleanly. Refused where no connection is registered under
    /// `id`, so a second call for the same identifier fails.
    pub fn disconnect(&mut self, id: u64) -> (r: Result<(), MeshError>)
        requires
            old(self).wf(),
        ensures
            final(self).wf(),
            match r {
                Ok(_) => old(self)@.registered(id) && final(self)@ == old(self)@.unregistered(id),
                Err(e) => !old(self)@.registered(id) && e == MeshError::UnknownConnection
                    && final(self)@ == old(self)@,
            },
    {
        match self.take(id) {
            Ok(link) => {
                let mut removed = link;
                shut(&mut removed);
                Ok(())
            },
            Err(e) => Err(e),
        }
    }

    /// Queues `payload` for the connection under `id`. The call never
    /// blocks and never touches the channel: a full queue refuses the
    /// payload with `CapacityExceeded`.
    pub fn send(&mut self, id: u64, payload: Vec<u8>) -> (r: Result<(), MeshError>)
        requires
            old(self).wf(),
        ensures
            final(self).wf(),
            (final(self)@, r) == old(self)@.send(id, payload@),
    {
        if self.shutting_down {
            return Err(MeshError::ShuttingDown);
        }
        match self.position(id) {
            None => Err(MeshError::UnknownConnection),
            Some(i) => {
                if self.entries[i].outgoing.len() >= self.outgoing_capacity {
                    return Err(MeshError::CapacityExceeded);
                }
                proof {
                    lemma_payloads_push(self.entries@[i as int].outgoing@, payload);
                    model::lemma_queues_wf(old(self)@, id, payload@);
                }
                self.entries[i].outgoing.push_back(payload);
                proof {
                    lemma_registry_update(old(self).entries@, self.entries@, i as int);
                    lemma_registry_at(old(self).entries@, i as int);
                    assert(self@.connections =~= old(self)@.connections);
                }
                Ok(())
            },
        }
    }

    /// Takes the oldest envelope that waits to be delivered; nothing
    /// where none waits. Envelopes of one connection come out in the
    /// order in which they arrived.
    pub fn recv(&mut self) -> (r: Option<Envelope>)
        requires
            old(self).wf(),
        ensures
            final(self).wf(),
            match r {
                Some(e) => old(self)@.recv() == (final(self)@, Some(e@)),
                None => old(self)@.recv() == (final(self)@, None::<(u64, Seq<u8>)>),
            },
    {
        proof {
            model::lemma_queues_wf(old(self)@, 0, Seq::empty());
        }
        let r = self.incoming.pop_front();
        proof {
            if r is Some {
                assert(envelopes(self.incoming@) =~= envelopes(old(self).incoming@).skip(1));
                assert(envelopes(old(self).incoming@)[0] == r->Some_0@);
            } else {
                assert(envelopes(self.incoming@) =~= envelopes(old(self).incoming@));
            }
        }
        r
    }

    /// Whether the connection under `id` is to be read when it reports
    /// that it is readable.
    pub fn wants_read(&self, id: u64) -> (r: bool)
        requires
            self.wf(),
        ensures
            r == self@.wants_read(id),
    {
        self.incoming.len() < self.incoming_capacity && self.position(id).is_some()
    }

    /// Whether the connection under `id` is to be written when it reports
    /// that it is writable.
    pub fn wants_write(&self, id: u64) -> (r: bool)
        requires
            self.wf(),
        ensures
            r == self@.wants_write(id),
    {
        match self.position(id) {
            Some(i) => self.entries[i].outgoing.len() > 0,
            None => false,
        }
    }

    /// Removes the failed connection under `id`, shuts it down as far as
    /// it lets itself, and queues the report.
    fn tear_down(&mut self, id: u64)
        requires
            old(self).wf(),
            old(self)@.registered(id),
        ensures
            final(self).wf(),
            final(self)@ == old(self)@.torn_down(id),
    {
        match self.position(id) {
            Some(i) => {
                proof {
                    lemma_registry_remove(self.entries@, i as int);
                    model::lemma_without_at(order_of(self.entries@), i as int);
                    model::lemma_torn_down_wf(old(self)@, id);
                }
                let mut entry = self.entries.remove(i);
                shut(&mut entry.link);
                self.closed.push_back(id);
            },
            None => {},
        }
    }

    /// Takes in what one attempt to receive on the connection under `id`
    /// came back with. A payload joins the incoming queue as an envelope
    /// under `id`; a would-block changes nothing; any other error tears
    /// the connection down.
    pub fn apply_recv(&mut self, id: u64, result: Result<Vec<u8>, RecvError>) -> (outcome:
        IoOutcome)
        requires
            old(self).wf(),
            old(self)@.wants_read(id),
        ensures
            final(self).wf(),
            (final(self)@, outcome) == old(self)@.received(id, recv_result(result)),
    {
        proof {
            model::lemma_received_wf(old(self)@, id, recv_result(result));
        }
        match result {
            Ok(payload) => {
                let envelope = Envelope::new(id, payload);
                self.incoming.push_back(envelope);
                proof {
                    assert(envelopes(self.incoming@) =~= envelopes(old(self).incoming@).push(
                        (id, payload@),
                    ));
                }
                IoOutcome::Progress
            },
            Err(RecvError::WouldBlock) => IoOutcome::Idle,
            Err(_) => {
                self.tear_down(id);
                IoOutcome::Closed
            },
        }
    }

    /// Takes in what one attempt to send the oldest queued payload of the
    /// connection under `id` came back with. On success the payload
    /// leaves the queue; a would-block keeps it queued; any other error
    /// tears the connection down.
    pub fn apply_send(&mut self, id: u64, result: Result<(), SendError>) -> (outcome: IoOutcome)
        requires
            old(self).wf(),
            old(self)@.wants_write(id),
        ensures
            final(self).wf(),
            (final(self)@, outcome) == old(self)@.sent(id, send_result(result)),
    {
        proof {
            model::lemma_sent_wf(old(self)@, id, send_result(result));
        }
        match result {
            Ok(_) => {
                match self.position(id) {
                    Some(i) => {
                        proof {
                            lemma_payloads_skip(self.entries@[i as int].outgoing@, 1);
                        }
                        let _ = self.entries[i].outgoing.pop_front();
                        proof {
                            lemma_registry_update(old(self).entries@, self.entries@, i as int);
                            lemma_registry_at(old(self).entries@, i as int);
                            assert(self@.connections =~= old(self)@.connections);
                        }
                    },
                    None => {},
                }
                IoOutcome::Progress
            },
            Err(SendError::WouldBlock) => IoOutcome::Idle,
            Err(_) => {
                self.tear_down(id);
                IoOutcome::Closed
            },
        }
    }

    /// Services a readable notification for the connection under `id`:
    /// one attempt to receive, and its result taken in as `apply_recv`
    /// says. No other connection is touched. Nothing is attempted for an
    /// identifier that is not registered, nor while the incoming queue is
    /// full.
    pub fn handle_readable(&mut self, id: u64) -> (outcome: IoOutcome)
        requires
            old(self).wf(),
        ensures
            final(self).wf(),
            !old(self)@.wants_read(id) ==> outcome == IoOutcome::Skipped && final(self)@ == old(
                self,
            )@,
            old(self)@.wants_read(id) ==> exists|
                result: Result<Seq<u8>, Failure>,
                touched: Link,
            |
                (final(self)@, outcome) == #[trigger] old(self)@.with_connection(
                    id,
                    touched,
                ).received(id, result),
    {
        if self.incoming.len() >= self.incoming_capacity {
            return IoOutcome::Skipped;
        }
        match self.position(id) {
            None => IoOutcome::Skipped,
            Some(i) => {
                let result = self.entries[i].link.connection.recv();
                let ghost touched = self.entries@[i as int].link;
                proof {
                    lemma_registry_update(old(self).entries@, self.entries@, i as int);
                    lemma_registry_at(old(self).entries@, i as int);
                    assert(self@.outgoing =~= old(self)@.outgoing);
                    assert(self@ == old(self)@.with_connection(id, touched));
                    model::lemma_with_connection_wf(old(self)@, id, touched);
                }
                let outcome = self.apply_recv(id, result);
                proof {
                    assert((self@, outcome) == old(self)@.with_connection(id, touched).received(
                        id,
                        recv_result(result),
                    ));
                }
                outcome
            },
        }
    }

    /// Services a writable notification for the connection under `id`:
    /// the queued payloads are handed to the connection oldest first,
    /// each as `next_outgoing` gives it, until the queue is empty
    /// (`Progress`), the channel would block (`Idle`, the rest stays
    /// queued in its order) or the connection fails (`Closed`). No other
    /// connection is touched. Nothing is attempted where nothing is
    /// queued.
    pub fn handle_writable(&mut self, id: u64) -> (outcome: IoOutcome)
        requires
            old(self).wf(),
        ensures
            final(self).wf(),
            old(self)@.flushed_to(id, final(self)@, outcome),
    {
        if !self.wants_write(id) {
            return IoOutcome::Skipped;
        }
        let ghost before = old(self)@;
        let ghost mut k: int = 0;
        proof {
            assert(before.outgoing[id].skip(0) =~= before.outgoing[id]);
            assert(before.outgoing.insert(id, before.outgoing[id]) =~= before.outgoing);
            assert(before.connections.insert(id, before.connections[id]) =~= before.connections);
        }
        loop
            invariant
                self.wf(),
                before == old(self)@,
                before.wf(),
                before.wants_write(id),
                0 <= k < before.outgoing[id].len(),
                self@ == (MeshView {
                    outgoing: before.outgoing.insert(id, before.outgoing[id].skip(k)),
                    ..before.with_connection(id, self@.connections[id])
                }),
            decreases before.outgoing[id].len() - k,
        {
            let ghost current = self@;
            let ghost held = self.entries@;
            let i = match self.position(id) {
                Some(i) => i,
                None => {
                    proof {
                        assert(false);
                    }
                    return IoOutcome::Skipped;
                },
            };
            let result = send_front(&mut self.entries[i]);
            let ghost touched = self.entries@[i as int].link;
            proof {
                lemma_registry_update(held, self.entries@, i as int);
                lemma_registry_at(held, i as int);
                assert(self@.outgoing =~= current.outgoing);
                assert(self@ == current.with_connection(id, touched));
                model::lemma_with_connection_wf(current, id, touched);
                assert(self@.connections =~= before.connections.insert(id, touched));
            }
            let outcome = self.apply_send(id, result);
            match outcome {
                IoOutcome::Progress => {
                    proof {
                        assert(before.outgoing[id].skip(k).skip(1) =~= before.outgoing[id].skip(
                            k + 1,
                        ));
                        assert(self@.outgoing =~= before.outgoing.insert(
                            id,
                            before.outgoing[id].skip(k + 1),
                        ));
                        k = k + 1;
                    }
                    if !self.wants_write(id) {
                        proof {
                            assert(before.outgoing[id].skip(k) =~= Seq::empty());
                        }
                        return IoOutcome::Progress;
                    }
                },
                IoOutcome::Idle => {
                    return IoOutcome::Idle;
                },
                _ => {
                    proof {
                        assert(self@.outgoing =~= before.outgoing.remove(id));
                        assert(self@.connections =~= before.connections.remove(id));
                    }
                    return IoOutcome::Closed;
                },
            }
        }
    }

    /// Takes the oldest report of a connection that failed and was
    /// removed; nothing where none waits. Each such connection is
    /// reported once.
    pub fn next_disconnected(&mut self) -> (r: Option<u64>)
        requires
            old(self).wf(),
        ensures
            final(self).wf(),
            (final(self)@, r) == old(self)@.next_disconnected(),
    {
        proof {
            model::lemma_queues_wf(old(self)@, 0, Seq::empty());
        }
        let r = self.closed.pop_front();
        proof {
            assert(self.closed@ =~= old(self).closed@.skip(1) || r is None);
        }
        r
    }
}

} // verus!
