//! The mesh as a value, and the rules by which it changes.
//!
//! The registry holds, for each registered connection identifier, the
//! connection itself and the payloads queued for it, and it knows the
//! order in which the connections were registered. The incoming queue
//! holds what has arrived, oldest first, over all connections. Each
//! operation of the mesh is a function from the value before to the value
//! after and the result; the laws at the end of the file are proved of
//! these functions.

use vstd::prelude::*;
use crate::transport::error::Failure;
use crate::transport::Connection;

verus! {

/// Why an operation of the mesh was refused.
#[derive(Clone, Copy, Debug, PartialEq, Eq, Structural)]
pub enum MeshError {
    /// A bound is reached: the outgoing queue of the connection is full,
    /// or no identifier is left to assign.
    CapacityExceeded,
    /// The mesh has begun to shut down.
    ShuttingDown,
    /// No connection is registered under the identifier.
    UnknownConnection,
}

/// What servicing one readiness notification came to.
#[derive(Clone, Copy, Debug, PartialEq, Eq, Structural)]
pub enum IoOutcome {
    /// A payload moved: one arrived or one left. Of a whole flush it
    /// says that the outgoing queue was emptied.
    Progress,
    /// The channel would block: everything waits for the next
    /// notification.
    Idle,
    /// The connection failed and was removed from the registry.
    Closed,
    /// Nothing was attempted: the identifier is not registered, or there
    /// is no room or no work.
    Skipped,
}

/// A connection as the registry holds it.
pub struct Link {
    pub connection: Box<dyn Connection>,
}

/// The mesh as a value.
pub struct MeshView {
    /// How many envelopes the incoming queue holds at most.
    pub incoming_capacity: nat,
    /// How many payloads the outgoing queue of one connection holds at
    /// most.
    pub outgoing_capacity: nat,
    /// The identifier that the next registered connection gets.
    pub next_id: nat,
    pub shutting_down: bool,
    /// The identifiers of the registered connections, in the order in
    /// which they were registered.
    pub order: Seq<u64>,
    /// The registered connections, each under its identifier.
    pub connections: Map<u64, Link>,
    /// The payloads queued for each registered connection, oldest first.
    pub outgoing: Map<u64, Seq<Seq<u8>>>,
    /// What has arrived and was not delivered yet, oldest first.
    pub incoming: Seq<(u64, Seq<u8>)>,
    /// The connections that failed and were removed, not yet reported.
    pub closed: Seq<u64>,
}

/// `order` without `id`, the other identifiers in their order.
pub open spec fn without(order: Seq<u64>, id: u64) -> Seq<u64> {
    if order.contains(id) {
        order.remove(order.index_of(id))
    } else {
        order
    }
}

/// Taking an identifier out of a list that holds none twice leaves the
/// others, each once.
pub proof fn lemma_without(order: Seq<u64>, id: u64)
    requires
        order.no_duplicates(),
    ensures
        without(order, id).no_duplicates(),
        forall|other: u64|
            (#[trigger] without(order, id).contains(other)) == (order.contains(other) && other
                != id),
{
    if order.contains(id) {
        let i = order.index_of(id);
        let after = order.remove(i);
        assert forall|a: int, b: int| 0 <= a < after.len() && 0 <= b < after.len() && a != b implies after[a]
            != after[b] by {
            let a0 = if a < i {
                a
            } else {
                a + 1
            };
            let b0 = if b < i {
                b
            } else {
                b + 1
            };
            assert(after[a] == order[a0] && after[b] == order[b0]);
        }
        assert forall|other: u64|
            (#[trigger] after.contains(other)) == (order.contains(other) && other != id) by {
            if after.contains(other) {
                let j = choose|j: int| 0 <= j < after.len() && after[j] == other;
                let j0 = if j < i {
                    j
                } else {
                    j + 1
                };
                assert(after[j] == order[j0]);
                assert(order[j0] != order[i]);
            }
            if order.contains(other) && other != id {
                let j = choose|j: int| 0 <= j < order.len() && order[j] == other;
                if j < i {
                    assert(after[j] == other);
                } else {
                    assert(after[j - 1] == other);
                }
            }
        }
    } else {
        assert forall|other: u64|
            (#[trigger] order.contains(other)) == (order.contains(other) && other != id) by {}
    }
}

/// Taking out the identifier at a position is taking out that position.
pub proof fn lemma_without_at(order: Seq<u64>, i: int)
    requires
        order.no_duplicates(),
        0 <= i < order.len(),
    ensures
        without(order, order[i]) == order.remove(i),
{
    assert(order.contains(order[i]));
    let k = order.index_of(order[i]);
    if k != i {
        assert(order[k] != order[i]);
    }
}

impl MeshView {
    /// The mesh as it is made: nothing registered, nothing queued.
    pub open spec fn initial(incoming_capacity: nat, outgoing_capacity: nat) -> MeshView {
        MeshView {
            incoming_capacity,
            outgoing_capacity,
            next_id: 0,
            shutting_down: false,
            order: Seq::empty(),
            connections: Map::empty(),
            outgoing: Map::empty(),
            incoming: Seq::empty(),
            closed: Seq::empty(),
        }
    }

    /// Whether a connection is registered under `id`.
    #[verifier::inline]
    pub open spec fn registered(self, id: u64) -> bool {
        self.outgoing.dom().contains(id)
    }

    /// The invariant of the mesh: every queue is within its bound, every
    /// identifier in use was assigned before, each registered identifier
    /// has its connection and its place in the order, and a connection
    /// that was reported closed is not registered and is reported once.
    pub open spec fn wf(self) -> bool {
        &&& self.next_id <= u64::MAX
        &&& self.order.no_duplicates()
        &&& forall|id: u64| (#[trigger] self.order.contains(id)) == self.registered(id)
        &&& forall|id: u64|
            (#[trigger] self.connections.dom().contains(id)) == self.registered(id)
        &&& self.incoming.len() <= self.incoming_capacity
        &&& forall|id: u64|
            self.registered(id) ==> id < self.next_id && self.outgoing[id].len()
                <= self.outgoing_capacity
        &&& forall|i: int|
            0 <= i < self.incoming.len() ==> (#[trigger] self.incoming[i]).0 < self.next_id
        &&& forall|i: int|
            0 <= i < self.closed.len() ==> (#[trigger] self.closed[i]) < self.next_id
                && !self.registered(self.closed[i])
        &&& forall|i: int, j: int|
            0 <= i < j < self.closed.len() ==> self.closed[i] != self.closed[j]
    }

    /// The mesh without the connection under `id` and what was queued
    /// for it.
    pub open spec fn unregistered(self, id: u64) -> MeshView {
        MeshView {
            order: without(self.order, id),
            connections: self.connections.remove(id),
            outgoing: self.outgoing.remove(id),
            ..self
        }
    }

    /// The mesh with `link` in the place of the connection under `id`:
    /// what a call on that connection may have made of it.
    pub open spec fn with_connection(self, id: u64, link: Link) -> MeshView {
        MeshView { connections: self.connections.insert(id, link), ..self }
    }

    /// Registers the connection of `link` under a fresh identifier.
    pub open spec fn add(self, link: Link) -> (MeshView, Result<u64, MeshError>) {
        if self.shutting_down {
            (self, Err(MeshError::ShuttingDown))
        } else if self.next_id >= u64::MAX {
            (self, Err(MeshError::CapacityExceeded))
        } else {
            let id = self.next_id as u64;
            (
                MeshView {
                    next_id: self.next_id + 1,
                    order: self.order.push(id),
                    connections: self.connections.insert(id, link),
                    outgoing: self.outgoing.insert(id, Seq::empty()),
                    ..self
                },
                Ok(id),
            )
        }
    }

    /// Takes the connection under `id` out of the registry, with what was
    /// queued for it, and hands the connection back.
    pub open spec fn remove(self, id: u64) -> (MeshView, Result<Link, MeshError>) {
        if !self.registered(id) {
            (self, Err(MeshError::UnknownConnection))
        } else {
            (self.unregistered(id), Ok(self.connections[id]))
        }
    }

    /// Queues `payload` for the connection under `id`.
    pub open spec fn send(self, id: u64, payload: Seq<u8>) -> (MeshView, Result<(), MeshError>) {
        if self.shutting_down {
            (self, Err(MeshError::ShuttingDown))
        } else if !self.registered(id) {
            (self, Err(MeshError::UnknownConnection))
        } else if self.outgoing[id].len() >= self.outgoing_capacity {
            (self, Err(MeshError::CapacityExceeded))
        } else {
            (
                MeshView {
                    outgoing: self.outgoing.insert(id, self.outgoing[id].push(payload)),
                    ..self
                },
                Ok(()),
            )
        }
    }

    /// Takes the oldest envelope off the incoming queue.
    pub open spec fn recv(self) -> (MeshView, Option<(u64, Seq<u8>)>) {
        if self.incoming.len() == 0 {
            (self, None)
        } else {
            (MeshView { incoming: self.incoming.skip(1), ..self }, Some(self.incoming[0]))
        }
    }

    /// Takes the oldest report of a failed connection.
    pub open spec fn next_disconnected(self) -> (MeshView, Option<u64>) {
        if self.closed.len() == 0 {
            (self, None)
        } else {
            (MeshView { closed: self.closed.skip(1), ..self }, Some(self.closed[0]))
        }
    }

    /// Whether the connection under `id` is to be read when it is
    /// readable: it is registered and the incoming queue has room. A full
    /// incoming queue pauses reading on every connection until it is
    /// drained.
    pub open spec fn wants_read(self, id: u64) -> bool {
        self.registered(id) && self.incoming.len() < self.incoming_capacity
    }

    /// Whether the connection under `id` is to be written when it is
    /// writable: it is registered and something is queued for it.
    pub open spec fn wants_write(self, id: u64) -> bool {
        self.registered(id) && self.outgoing[id].len() > 0
    }

    /// The mesh after the connection under `id` failed: the connection
    /// leaves the registry and its identifier is queued as a report.
    pub open spec fn torn_down(self, id: u64) -> MeshView {
        MeshView { closed: self.closed.push(id), ..self.unregistered(id) }
    }

    /// The mesh after one attempt to receive on the connection under `id`
    /// came back with `result`.
    pub open spec fn received(self, id: u64, result: Result<Seq<u8>, Failure>) -> (
        MeshView,
        IoOutcome,
    ) {
        match result {
            Ok(payload) => (
                MeshView { incoming: self.incoming.push((id, payload)), ..self },
                IoOutcome::Progress,
            ),
            Err(Failure::WouldBlock) => (self, IoOutcome::Idle),
            Err(_) => (self.torn_down(id), IoOutcome::Closed),
        }
    }

    /// The mesh after one attempt to send the oldest queued payload of
    /// the connection under `id` came back with `result`.
    pub open spec fn sent(self, id: u64, result: Result<(), Failure>) -> (MeshView, IoOutcome) {
        match result {
            Ok(_) => (
                MeshView {
                    outgoing: self.outgoing.insert(id, self.outgoing[id].skip(1)),
                    ..self
                },
                IoOutcome::Progress,
            ),
            Err(Failure::WouldBlock) => (self, IoOutcome::Idle),
            Err(_) => (self.torn_down(id), IoOutcome::Closed),
        }
    }

    /// Whether `later` can come of `self` by flushing the outgoing queue of
    /// the connection under `id`: some of the oldest payloads have left in
    /// their order and the rest is still queued, or the connection failed
    /// and was torn down. Beside that queue only the connection under `id`
    /// can differ, as the calls on it left it.
    pub open spec fn flushed_to(self, id: u64, later: MeshView, outcome: IoOutcome) -> bool {
        let touched = self.with_connection(id, later.connections[id]);
        match outcome {
            IoOutcome::Skipped => later == self && !self.wants_write(id),
            IoOutcome::Progress => self.wants_write(id) && later == (MeshView {
                outgoing: self.outgoing.insert(id, Seq::empty()),
                ..touched
            }),
            IoOutcome::Idle => self.wants_write(id) && exists|k: int|
                0 <= k < self.outgoing[id].len() && later == (MeshView {
                    outgoing: self.outgoing.insert(id, #[trigger] self.outgoing[id].skip(k)),
                    ..touched
                }),
            IoOutcome::Closed => self.wants_write(id) && later == self.torn_down(id),
        }
    }
}

/// The invariant holds of a new mesh and is kept by every operation.
pub proof fn lemma_wf_kept(
    mesh: MeshView,
    id: u64,
    link: Link,
    payload: Seq<u8>,
    recv_result: Result<Seq<u8>, Failure>,
    send_result: Result<(), Failure>,
)
    requires
        mesh.wf(),
    ensures
        MeshView::initial(mesh.incoming_capacity, mesh.outgoing_capacity).wf(),
        mesh.add(link).0.wf(),
        mesh.remove(id).0.wf(),
        mesh.registered(id) ==> mesh.with_connection(id, link).wf(),
        mesh.send(id, payload).0.wf(),
        mesh.recv().0.wf(),
        mesh.next_disconnected().0.wf(),
        mesh.wants_read(id) ==> mesh.received(id, recv_result).0.wf(),
        mesh.wants_write(id) ==> mesh.sent(id, send_result).0.wf(),
{
    let fresh = MeshView::initial(mesh.incoming_capacity, mesh.outgoing_capacity);
    assert(fresh.wf());
    assert(mesh.add(link).0.wf()) by {
        let after = mesh.add(link).0;
        if mesh.add(link).1 is Ok {
            let fresh_id = mesh.next_id as u64;
            assert(!mesh.order.contains(fresh_id)) by {
                if mesh.order.contains(fresh_id) {
                    assert(mesh.registered(fresh_id));
                }
            }
            assert(after.order.no_duplicates()) by {
                assert forall|a: int, b: int|
                    0 <= a < after.order.len() && 0 <= b < after.order.len() && a != b implies after.order[a]
                    != after.order[b] by {
                    if a < mesh.order.len() && b < mesh.order.len() {
                        assert(after.order[a] == mesh.order[a] && after.order[b] == mesh.order[b]);
                    } else if a < mesh.order.len() {
                        assert(mesh.order.contains(mesh.order[a]));
                    } else {
                        assert(mesh.order.contains(mesh.order[b]));
                    }
                }
            }
            assert forall|other: u64| (#[trigger] after.order.contains(other)) == after.registered(other) by {
                if after.order.contains(other) {
                    let j = choose|j: int| 0 <= j < after.order.len() && after.order[j] == other;
                    if j < mesh.order.len() {
                        assert(mesh.order.contains(mesh.order[j]));
                    }
                }
                if after.registered(other) {
                    if other == fresh_id {
                        assert(after.order[mesh.order.len() as int] == other);
                    } else {
                        assert(mesh.order.contains(other));
                        let j = choose|j: int| 0 <= j < mesh.order.len() && mesh.order[j] == other;
                        assert(after.order[j] == other);
                    }
                }
            }
            assert forall|other: u64|
        (#[trigger] after.connections.dom().contains(other)) == after.registered(other) by {
                if other != fresh_id {
                    assert(mesh.connections.dom().contains(other) <==> mesh.registered(other));
                }
            }
            assert forall|other: u64| after.registered(other) implies other
                < after.next_id && after.outgoing[other].len() <= after.outgoing_capacity by {
                if other != mesh.next_id as u64 {
                    assert(mesh.registered(other));
                }
            }
            assert forall|i: int| 0 <= i < after.closed.len() implies (#[trigger] after.closed[i])
                < after.next_id && !after.registered(after.closed[i]) by {
                assert(mesh.closed[i] < mesh.next_id);
            }
        }
    }
    assert(mesh.remove(id).0.wf()) by {
        if mesh.registered(id) {
            lemma_unregistered_wf(mesh, id);
        }
    }
    if mesh.registered(id) {
        lemma_with_connection_wf(mesh, id, link);
    }
    lemma_queues_wf(mesh, id, payload);
    if mesh.wants_read(id) {
        lemma_received_wf(mesh, id, recv_result);
    }
    if mesh.wants_write(id) {
        lemma_sent_wf(mesh, id, send_result);
    }
}

/// Queueing a payload, delivering an envelope and reporting a closed
/// connection keep the invariant.
pub proof fn lemma_queues_wf(mesh: MeshView, id: u64, payload: Seq<u8>)
    requires
        mesh.wf(),
    ensures
        mesh.send(id, payload).0.wf(),
        mesh.recv().0.wf(),
        mesh.next_disconnected().0.wf(),
{
    assert(mesh.send(id, payload).0.wf()) by {
        let after = mesh.send(id, payload).0;
        assert forall|other: u64| after.registered(other) implies other < after.next_id
            && after.outgoing[other].len() <= after.outgoing_capacity by {
            assert(mesh.registered(other));
        }
    }
    assert(mesh.recv().0.wf()) by {
        let after = mesh.recv().0;
        assert forall|i: int| 0 <= i < after.incoming.len() implies (
        #[trigger] after.incoming[i]).0 < after.next_id by {
            if mesh.incoming.len() > 0 {
                assert(after.incoming[i] == mesh.incoming[i + 1]);
            }
        }
    }
    assert(mesh.next_disconnected().0.wf()) by {
        let after = mesh.next_disconnected().0;
        if mesh.closed.len() > 0 {
            assert forall|i: int| 0 <= i < after.closed.len() implies (#[trigger] after.closed[i])
                < after.next_id && !after.registered(after.closed[i]) by {
                assert(after.closed[i] == mesh.closed[i + 1]);
            }
            assert forall|i: int, j: int| 0 <= i < j < after.closed.len() implies after.closed[i]
                != after.closed[j] by {
                assert(after.closed[i] == mesh.closed[i + 1]);
                assert(after.closed[j] == mesh.closed[j + 1]);
            }
        }
    }
}

/// A call on a registered connection, whatever it made of the connection,
/// keeps the invariant.
pub proof fn lemma_with_connection_wf(mesh: MeshView, id: u64, link: Link)
    requires
        mesh.wf(),
        mesh.registered(id),
    ensures
        mesh.with_connection(id, link).wf(),
        mesh.with_connection(id, link).wants_read(id) == mesh.wants_read(id),
        mesh.with_connection(id, link).wants_write(id) == mesh.wants_write(id),
{
    let after = mesh.with_connection(id, link);
    assert forall|other: u64|
        (#[trigger] after.connections.dom().contains(other)) == after.registered(other) by {
        assert(mesh.connections.dom().contains(other) <==> mesh.registered(other));
    }
}

/// Taking a registered connection out keeps the invariant.
pub proof fn lemma_unregistered_wf(mesh: MeshView, id: u64)
    requires
        mesh.wf(),
        mesh.registered(id),
    ensures
        mesh.unregistered(id).wf(),
        !mesh.unregistered(id).registered(id),
{
    let after = mesh.unregistered(id);
    lemma_without(mesh.order, id);
    assert forall|other: u64| after.registered(other) implies other < after.next_id
        && after.outgoing[other].len() <= after.outgoing_capacity by {
        assert(mesh.registered(other));
    }
    assert forall|other: u64| (#[trigger] after.order.contains(other)) == after.registered(other) by {
        assert(mesh.order.contains(other) <==> mesh.registered(other));
    }
    assert forall|other: u64|
        (#[trigger] after.connections.dom().contains(other)) == after.registered(other) by {
        assert(mesh.connections.dom().contains(other) <==> mesh.registered(other));
    }
    assert forall|i: int| 0 <= i < after.closed.len() implies (#[trigger] after.closed[i])
        < after.next_id && !after.registered(after.closed[i]) by {
        assert(mesh.closed[i] < mesh.next_id);
    }
}

/// Tearing a registered connection down keeps the invariant.
pub proof fn lemma_torn_down_wf(mesh: MeshView, id: u64)
    requires
        mesh.wf(),
        mesh.registered(id),
    ensures
        mesh.torn_down(id).wf(),
        !mesh.torn_down(id).registered(id),
{
    let after = mesh.torn_down(id);
    lemma_unregistered_wf(mesh, id);
    assert(after.order == mesh.unregistered(id).order);
    assert forall|other: u64| (#[trigger] after.order.contains(other)) == after.registered(other) by {
        assert(mesh.unregistered(id).order.contains(other) <==> mesh.unregistered(id).registered(
            other,
        ));
    }
    assert forall|other: u64|
        (#[trigger] after.connections.dom().contains(other)) == after.registered(other) by {
        assert(mesh.unregistered(id).connections.dom().contains(other) <==> mesh.unregistered(
            id,
        ).registered(other));
    }
    assert forall|other: u64| after.registered(other) implies other < after.next_id
        && after.outgoing[other].len() <= after.outgoing_capacity by {
        assert(mesh.registered(other));
    }
    assert forall|i: int| 0 <= i < after.closed.len() implies (#[trigger] after.closed[i])
        < after.next_id && !after.registered(after.closed[i]) by {
        if i < mesh.closed.len() {
            assert(after.closed[i] == mesh.closed[i]);
        }
    }
    assert forall|i: int, j: int| 0 <= i < j < after.closed.len() implies after.closed[i]
        != after.closed[j] by {
        if j < mesh.closed.len() {
            assert(after.closed[i] == mesh.closed[i]);
            assert(after.closed[j] == mesh.closed[j]);
        } else {
            assert(after.closed[i] == mesh.closed[i]);
            assert(!mesh.registered(mesh.closed[i]));
        }
    }
}

/// An attempt to receive, made while the connection is to be read, keeps
/// the invariant whatever it came back with.
pub proof fn lemma_received_wf(mesh: MeshView, id: u64, result: Result<Seq<u8>, Failure>)
    requires
        mesh.wf(),
        mesh.wants_read(id),
    ensures
        mesh.received(id, result).0.wf(),
{
    let after = mesh.received(id, result).0;
    match result {
        Ok(payload) => {
            assert(id < mesh.next_id);
            assert forall|i: int| 0 <= i < after.incoming.len() implies (
            #[trigger] after.incoming[i]).0 < after.next_id by {
                if i < mesh.incoming.len() {
                    assert(after.incoming[i] == mesh.incoming[i]);
                }
            }
        },
        Err(Failure::WouldBlock) => {},
        Err(_) => {
            lemma_torn_down_wf(mesh, id);
        },
    }
}

/// An attempt to send, made while the connection is to be written, keeps
/// the invariant whatever it came back with.
pub proof fn lemma_sent_wf(mesh: MeshView, id: u64, result: Result<(), Failure>)
    requires
        mesh.wf(),
        mesh.wants_write(id),
    ensures
        mesh.sent(id, result).0.wf(),
{
    let after = mesh.sent(id, result).0;
    match result {
        Ok(_) => {
            assert forall|other: u64| after.registered(other) implies other
                < after.next_id && after.outgoing[other].len() <= after.outgoing_capacity by {
                assert(mesh.registered(other));
            }
        },
        Err(Failure::WouldBlock) => {},
        Err(_) => {
            lemma_torn_down_wf(mesh, id);
        },
    }
}

/// Fresh identifiers: the identifier that `add` assigns is in use nowhere
/// in the mesh, neither in the registry nor in what waits to be delivered
/// or reported.
pub proof fn lemma_added_id_is_fresh(mesh: MeshView, link: Link)
    requires
        mesh.wf(),
        mesh.add(link).1 is Ok,
    ensures
        ({
            let id = mesh.add(link).1->Ok_0;
            &&& !mesh.registered(id)
            &&& mesh.add(link).0.registered(id)
            &&& mesh.add(link).0.connections[id] == link
            &&& forall|i: int| 0 <= i < mesh.incoming.len() ==> (#[trigger] mesh.incoming[i]).0 != id
            &&& forall|i: int| 0 <= i < mesh.closed.len() ==> (#[trigger] mesh.closed[i]) != id
        }),
{
    let id = mesh.add(link).1->Ok_0;
    if mesh.registered(id) {
        assert(id < mesh.next_id);
    }
}

/// Backpressure: while the outgoing queue of a connection is full, a send
/// to it is refused with `CapacityExceeded` and queues nothing; while it
/// has room, a send is accepted and the queue stays within its bound.
pub proof fn lemma_backpressure(mesh: MeshView, id: u64, payload: Seq<u8>)
    requires
        mesh.wf(),
        mesh.registered(id),
        !mesh.shutting_down,
    ensures
        mesh.outgoing[id].len() == mesh.outgoing_capacity ==> mesh.send(id, payload) == (
            mesh,
            Err::<(), MeshError>(MeshError::CapacityExceeded),
        ),
        mesh.outgoing[id].len() < mesh.outgoing_capacity ==> mesh.send(id, payload).1 is Ok
            && mesh.send(id, payload).0.outgoing[id] == mesh.outgoing[id].push(payload)
            && mesh.send(id, payload).0.outgoing[id].len() <= mesh.outgoing_capacity,
{
}

/// Removal happens once: taking a registered connection out succeeds and
/// hands back the connection that stood under the identifier, and a
/// second removal of the same identifier is refused with
/// `UnknownConnection` and changes nothing.
pub proof fn lemma_remove_once(mesh: MeshView, id: u64)
    requires
        mesh.registered(id),
    ensures
        mesh.remove(id).1 == Ok::<Link, MeshError>(mesh.connections[id]),
        mesh.remove(id).0.remove(id) == (
            mesh.remove(id).0,
            Err::<Link, MeshError>(MeshError::UnknownConnection),
        ),
{
}

/// What is added is what comes back: a connection that was registered
/// and is then removed under the identifier it was given is the same
/// connection, whatever was queued in between.
pub proof fn lemma_add_then_remove(mesh: MeshView, link: Link, payload: Seq<u8>)
    requires
        mesh.wf(),
        mesh.add(link).1 is Ok,
    ensures
        ({
            let id = mesh.add(link).1->Ok_0;
            let queued = mesh.add(link).0.send(id, payload).0;
            queued.remove(id).1 == Ok::<Link, MeshError>(link)
        }),
{
}

/// Arrival order: two payloads that arrive one after the other are
/// delivered in that order, behind what was waiting before them.
pub proof fn lemma_arrival_order(mesh: MeshView, id: u64, first: Seq<u8>, second: Seq<u8>)
    ensures
        ({
            let after = mesh.received(id, Ok(first)).0.received(id, Ok(second)).0;
            &&& after.incoming == mesh.incoming.push((id, first)).push((id, second))
            &&& mesh.incoming.len() == 0 ==> after.recv().1 == Some((id, first))
                && after.recv().0.recv().1 == Some((id, second))
        }),
{
    let after = mesh.received(id, Ok(first)).0.received(id, Ok(second)).0;
    if mesh.incoming.len() == 0 {
        assert(after.incoming[0] == (id, first));
        assert(after.recv().0.incoming[0] == (id, second));
    }
}

/// Flush order: payloads queued for one connection leave in the order in
/// which they were queued.
pub proof fn lemma_flush_order(mesh: MeshView, id: u64, first: Seq<u8>, second: Seq<u8>)
    requires
        mesh.registered(id),
        !mesh.shutting_down,
        mesh.outgoing[id].len() + 2 <= mesh.outgoing_capacity,
    ensures
        ({
            let queued = mesh.send(id, first).0.send(id, second).0;
            &&& mesh.send(id, first).1 is Ok
            &&& mesh.send(id, first).0.send(id, second).1 is Ok
            &&& queued.outgoing[id] == mesh.outgoing[id].push(first).push(second)
            &&& mesh.outgoing[id].len() == 0 ==> queued.outgoing[id][0] == first
                && queued.sent(id, Ok(())).0.outgoing[id] =~= seq![second]
        }),
{
}

} // verus!
