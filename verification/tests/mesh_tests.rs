use splinter_transport::mesh::{Envelope, IoOutcome, Link, Mesh, MeshError};
use splinter_transport::transport::inproc::InprocConnection;
use splinter_transport::transport::{
    Connection, DisconnectError, IoFailure, IoKind, Readiness, RecvError, SendError,
};
use std::collections::VecDeque;
use std::sync::{Arc, Mutex};

/// What a test sees of a connection that it has handed to the mesh.
#[derive(Default)]
struct Shared {
    /// What the remote peer has sent and the local end has not read yet.
    to_local: VecDeque<Vec<u8>>,
    /// What the local end has written, as the remote peer observes it.
    to_remote: Vec<Vec<u8>>,
    /// How many more sends the channel takes before it would block.
    writable: usize,
    /// The error of the next receive, where one is planned.
    recv_failure: Option<RecvError>,
    /// The error of the next send, where one is planned.
    send_failure: Option<SendError>,
    disconnects: usize,
}

struct Peer {
    shared: Arc<Mutex<Shared>>,
    closed: bool,
}

fn peer(writable: usize) -> (Box<dyn Connection>, Arc<Mutex<Shared>>) {
    let shared = Arc::new(Mutex::new(Shared { writable, ..Shared::default() }));
    (Box::new(Peer { shared: shared.clone(), closed: false }), shared)
}

impl Connection for Peer {
    fn closed(&self) -> bool {
        self.closed
    }

    fn send(&mut self, message: &[u8]) -> Result<(), SendError> {
        if self.closed {
            return Err(SendError::Disconnected);
        }
        let mut shared = self.shared.lock().unwrap();
        if let Some(failure) = shared.send_failure.take() {
            return Err(failure);
        }
        if shared.writable == 0 {
            return Err(SendError::WouldBlock);
        }
        shared.writable -= 1;
        shared.to_remote.push(message.to_vec());
        Ok(())
    }

    fn recv(&mut self) -> Result<Vec<u8>, RecvError> {
        if self.closed {
            return Err(RecvError::Disconnected);
        }
        let mut shared = self.shared.lock().unwrap();
        if let Some(failure) = shared.recv_failure.take() {
            return Err(failure);
        }
        match shared.to_local.pop_front() {
            Some(payload) => Ok(payload),
            None => Err(RecvError::WouldBlock),
        }
    }

    fn remote_endpoint(&self) -> String {
        "remote".to_string()
    }

    fn local_endpoint(&self) -> String {
        "local".to_string()
    }

    fn disconnect(&mut self) -> Result<(), DisconnectError> {
        if self.closed {
            return Err(DisconnectError::ProtocolError("closed".to_string()));
        }
        self.closed = true;
        self.shared.lock().unwrap().disconnects += 1;
        Ok(())
    }

    fn evented(&self) -> Readiness {
        Readiness::Descriptor(3)
    }
}

#[test]
fn mesh_end_to_end() {
    let mut mesh = Mesh::new(512, 512);
    let (connection, remote) = peer(16);
    let id = mesh.add(connection).unwrap();
    assert!(mesh.contains(id));

    assert_eq!(mesh.send(id, b"hello".to_vec()), Ok(()));
    // Nothing has touched the channel yet.
    assert!(remote.lock().unwrap().to_remote.is_empty());
    assert!(mesh.wants_write(id));
    assert_eq!(mesh.handle_writable(id), IoOutcome::Progress);
    assert_eq!(remote.lock().unwrap().to_remote, vec![b"hello".to_vec()]);
    assert!(!mesh.wants_write(id));

    remote.lock().unwrap().to_local.push_back(b"world".to_vec());
    assert_eq!(mesh.recv(), None);
    assert_eq!(mesh.handle_readable(id), IoOutcome::Progress);
    let envelope = mesh.recv().unwrap();
    assert_eq!(envelope.peer_id(), id);
    assert_eq!(envelope.payload(), b"world");
    assert_eq!(envelope, Envelope::new(id, b"world".to_vec()));
    assert_eq!(envelope.take_payload(), b"world".to_vec());
    assert_eq!(mesh.recv(), None);
}

#[test]
fn mesh_lists_what_is_registered() {
    let mut mesh = Mesh::new(4, 4);
    assert!(mesh.ids().is_empty());
    let a = mesh.add(peer(1).0).unwrap();
    let (end, _other) = InprocConnection::pair("a", "b", 1);
    let b = mesh.add(Box::new(end)).unwrap();
    let c = mesh.add(peer(1).0).unwrap();
    assert_eq!(mesh.ids(), vec![a, b, c]);
    assert_eq!(mesh.readiness(a), Some(Readiness::Descriptor(3)));
    assert_eq!(mesh.readiness(b), Some(Readiness::Always));
    assert_eq!(mesh.readiness(99), None);
    assert_eq!(mesh.disconnect(b), Ok(()));
    assert_eq!(mesh.ids(), vec![a, c]);
    assert_eq!(mesh.readiness(b), None);
}

#[test]
fn mesh_new_is_empty() {
    let mut mesh = Mesh::new(3, 5);
    assert_eq!(mesh.incoming_capacity(), 3);
    assert_eq!(mesh.outgoing_capacity(), 5);
    assert!(!mesh.is_shutting_down());
    assert_eq!(mesh.pending(), 0);
    assert!(!mesh.contains(0));
    assert_eq!(mesh.queued(0), None);
    assert_eq!(mesh.recv(), None);
    assert_eq!(mesh.next_disconnected(), None);
}

#[test]
fn mesh_assigns_fresh_identifiers() {
    let mut mesh = Mesh::new(4, 4);
    let first = mesh.add(peer(1).0).unwrap();
    let second = mesh.add(peer(1).0).unwrap();
    assert_eq!(first, 0);
    assert_eq!(second, 1);
    assert!(mesh.remove(first).is_ok());
    // An identifier that was given out once is not given out again.
    let third = mesh.add(peer(1).0).unwrap();
    assert_eq!(third, 2);
    assert!(!mesh.contains(first));
    assert!(mesh.contains(second));
    assert!(mesh.contains(third));
}

#[test]
fn mesh_backpressure_on_a_full_outgoing_queue() {
    let mut mesh = Mesh::new(1, 1);
    let id = mesh.add(peer(0).0).unwrap();
    assert_eq!(mesh.send(id, vec![1]), Ok(()));
    assert_eq!(mesh.send(id, vec![2]), Err(MeshError::CapacityExceeded));
    assert_eq!(mesh.send(id, vec![3]), Err(MeshError::CapacityExceeded));
    assert_eq!(mesh.queued(id), Some(1));
}

#[test]
fn mesh_outgoing_queues_are_per_connection() {
    let mut mesh = Mesh::new(1, 2);
    let a = mesh.add(peer(0).0).unwrap();
    let b = mesh.add(peer(0).0).unwrap();
    assert_eq!(mesh.send(a, vec![1]), Ok(()));
    assert_eq!(mesh.send(a, vec![2]), Ok(()));
    assert_eq!(mesh.send(a, vec![3]), Err(MeshError::CapacityExceeded));
    assert_eq!(mesh.send(b, vec![4]), Ok(()));
    assert_eq!(mesh.queued(a), Some(2));
    assert_eq!(mesh.queued(b), Some(1));
}

#[test]
fn mesh_with_no_room_refuses_every_send() {
    let mut mesh = Mesh::new(0, 0);
    let id = mesh.add(peer(1).0).unwrap();
    assert_eq!(mesh.send(id, vec![1]), Err(MeshError::CapacityExceeded));
    assert!(!mesh.wants_read(id));
    assert_eq!(mesh.handle_readable(id), IoOutcome::Skipped);
}

#[test]
fn mesh_send_to_unknown_connection() {
    let mut mesh = Mesh::new(1, 1);
    assert_eq!(mesh.send(7, vec![1]), Err(MeshError::UnknownConnection));
}

#[test]
fn mesh_disconnect_twice() {
    let mut mesh = Mesh::new(4, 4);
    let (connection, remote) = peer(1);
    let id = mesh.add(connection).unwrap();
    assert_eq!(mesh.disconnect(id), Ok(()));
    assert_eq!(remote.lock().unwrap().disconnects, 1);
    assert_eq!(mesh.disconnect(id), Err(MeshError::UnknownConnection));
    assert_eq!(remote.lock().unwrap().disconnects, 1);
    assert!(!mesh.contains(id));
    assert_eq!(mesh.send(id, vec![1]), Err(MeshError::UnknownConnection));
    // An explicit removal is no failure: nothing is reported.
    assert_eq!(mesh.next_disconnected(), None);
}

#[test]
fn mesh_remove_twice() {
    let mut mesh = Mesh::new(4, 4);
    let (connection, remote) = peer(1);
    let id = mesh.add(connection).unwrap();
    let mut connection = mesh.remove(id).ok().unwrap();
    // The connection comes back open.
    assert_eq!(remote.lock().unwrap().disconnects, 0);
    assert_eq!(connection.send(&[1]), Ok(()));
    assert!(matches!(mesh.remove(id), Err(MeshError::UnknownConnection)));
    assert!(matches!(mesh.remove(99), Err(MeshError::UnknownConnection)));
}

#[test]
fn mesh_take_hands_back_what_was_added() {
    let mut mesh = Mesh::new(4, 4);
    let (first, first_remote) = peer(4);
    let (second, second_remote) = peer(4);
    let a = mesh.add(first).unwrap();
    let b = mesh.add(second).unwrap();
    assert_eq!(mesh.send(a, vec![1]), Ok(()));

    let Link { connection: mut taken } = mesh.take(b).ok().unwrap();
    assert_eq!(taken.send(&[7]), Ok(()));
    // It is the second connection that came back, open and untouched.
    assert_eq!(second_remote.lock().unwrap().to_remote, vec![vec![7]]);
    assert!(first_remote.lock().unwrap().to_remote.is_empty());
    assert_eq!(second_remote.lock().unwrap().disconnects, 0);
    assert_eq!(mesh.ids(), vec![a]);
    assert!(matches!(mesh.take(b), Err(MeshError::UnknownConnection)));
    assert!(matches!(mesh.take(99), Err(MeshError::UnknownConnection)));

    let mut removed = mesh.remove(a).ok().unwrap();
    assert_eq!(removed.send(&[8]), Ok(()));
    assert_eq!(first_remote.lock().unwrap().to_remote, vec![vec![8]]);
    assert!(mesh.ids().is_empty());
}

#[test]
fn mesh_shutdown_refuses_new_work() {
    let mut mesh = Mesh::new(4, 4);
    let (connection, remote) = peer(4);
    let id = mesh.add(connection).unwrap();
    assert_eq!(mesh.send(id, vec![1]), Ok(()));
    mesh.begin_shutdown();
    assert!(mesh.is_shutting_down());
    assert_eq!(mesh.add(peer(1).0), Err(MeshError::ShuttingDown));
    assert_eq!(mesh.send(id, vec![2]), Err(MeshError::ShuttingDown));
    assert_eq!(mesh.send(99, vec![2]), Err(MeshError::ShuttingDown));
    // What was queued before still leaves, and the connection can go.
    assert_eq!(mesh.handle_writable(id), IoOutcome::Progress);
    assert_eq!(remote.lock().unwrap().to_remote, vec![vec![1]]);
    assert_eq!(mesh.disconnect(id), Ok(()));
}

#[test]
fn mesh_delivers_in_arrival_order() {
    let mut mesh = Mesh::new(8, 8);
    let (connection, remote) = peer(0);
    let id = mesh.add(connection).unwrap();
    remote.lock().unwrap().to_local.push_back(vec![0, 1, 2]);
    remote.lock().unwrap().to_local.push_back(vec![3, 4, 5]);
    assert_eq!(mesh.handle_readable(id), IoOutcome::Progress);
    assert_eq!(mesh.handle_readable(id), IoOutcome::Progress);
    assert_eq!(mesh.handle_readable(id), IoOutcome::Idle);
    assert_eq!(mesh.pending(), 2);
    assert_eq!(mesh.recv(), Some(Envelope::new(id, vec![0, 1, 2])));
    assert_eq!(mesh.recv(), Some(Envelope::new(id, vec![3, 4, 5])));
    assert_eq!(mesh.recv(), None);
}

#[test]
fn mesh_hands_the_oldest_payload_to_the_connection() {
    let mut mesh = Mesh::new(8, 8);
    let (connection, remote) = peer(1);
    let id = mesh.add(connection).unwrap();
    assert_eq!(mesh.next_outgoing(id), None);
    assert_eq!(mesh.next_outgoing(99), None);
    assert_eq!(mesh.send(id, vec![1, 2]), Ok(()));
    assert_eq!(mesh.send(id, vec![3]), Ok(()));
    assert_eq!(mesh.next_outgoing(id), Some(&[1u8, 2][..]));
    // One payload leaves, then the channel would block.
    assert_eq!(mesh.handle_writable(id), IoOutcome::Idle);
    assert_eq!(remote.lock().unwrap().to_remote, vec![vec![1, 2]]);
    assert_eq!(mesh.next_outgoing(id), Some(&[3u8][..]));
    remote.lock().unwrap().writable = 1;
    assert_eq!(mesh.handle_writable(id), IoOutcome::Progress);
    assert_eq!(remote.lock().unwrap().to_remote, vec![vec![1, 2], vec![3]]);
    assert_eq!(mesh.next_outgoing(id), None);
}

#[test]
fn mesh_flushes_in_queue_order() {
    let mut mesh = Mesh::new(8, 8);
    let (connection, remote) = peer(8);
    let id = mesh.add(connection).unwrap();
    assert_eq!(mesh.send(id, vec![0, 1, 2]), Ok(()));
    assert_eq!(mesh.send(id, vec![3, 4, 5]), Ok(()));
    assert_eq!(mesh.handle_writable(id), IoOutcome::Progress);
    assert_eq!(remote.lock().unwrap().to_remote, vec![vec![0, 1, 2], vec![3, 4, 5]]);
    assert_eq!(mesh.queued(id), Some(0));
    assert_eq!(mesh.handle_writable(id), IoOutcome::Skipped);
}

#[test]
fn mesh_partial_flush_keeps_the_rest() {
    let mut mesh = Mesh::new(8, 8);
    let (connection, remote) = peer(2);
    let id = mesh.add(connection).unwrap();
    for n in 0..5u8 {
        assert_eq!(mesh.send(id, vec![n]), Ok(()));
    }
    assert_eq!(mesh.handle_writable(id), IoOutcome::Idle);
    assert_eq!(remote.lock().unwrap().to_remote, vec![vec![0], vec![1]]);
    assert_eq!(mesh.queued(id), Some(3));
    assert!(mesh.wants_write(id));

    // Nothing is writable: the queue is untouched.
    assert_eq!(mesh.handle_writable(id), IoOutcome::Idle);
    assert_eq!(mesh.queued(id), Some(3));

    remote.lock().unwrap().writable = 10;
    assert_eq!(mesh.handle_writable(id), IoOutcome::Progress);
    assert_eq!(
        remote.lock().unwrap().to_remote,
        vec![vec![0], vec![1], vec![2], vec![3], vec![4]]
    );
}

#[test]
fn mesh_pauses_reading_while_incoming_is_full() {
    let mut mesh = Mesh::new(1, 1);
    let (connection, remote) = peer(0);
    let id = mesh.add(connection).unwrap();
    remote.lock().unwrap().to_local.push_back(vec![1]);
    remote.lock().unwrap().to_local.push_back(vec![2]);
    assert!(mesh.wants_read(id));
    assert_eq!(mesh.handle_readable(id), IoOutcome::Progress);
    assert!(!mesh.wants_read(id));
    assert_eq!(mesh.handle_readable(id), IoOutcome::Skipped);
    // The second payload was not read, and so not lost.
    assert_eq!(remote.lock().unwrap().to_local.len(), 1);
    assert_eq!(mesh.pending(), 1);

    assert_eq!(mesh.recv(), Some(Envelope::new(id, vec![1])));
    assert!(mesh.wants_read(id));
    assert_eq!(mesh.handle_readable(id), IoOutcome::Progress);
    assert_eq!(mesh.recv(), Some(Envelope::new(id, vec![2])));
}

#[test]
fn mesh_would_block_is_not_surfaced() {
    let mut mesh = Mesh::new(4, 4);
    let (connection, _remote) = peer(0);
    let id = mesh.add(connection).unwrap();
    assert_eq!(mesh.handle_readable(id), IoOutcome::Idle);
    assert_eq!(mesh.recv(), None);
    assert_eq!(mesh.next_disconnected(), None);
    assert!(mesh.contains(id));
    assert_eq!(mesh.send(id, vec![1]), Ok(()));
    assert_eq!(mesh.handle_writable(id), IoOutcome::Idle);
    assert!(mesh.contains(id));
    assert_eq!(mesh.queued(id), Some(1));
}

#[test]
fn mesh_tears_down_a_connection_that_fails_to_receive() {
    let mut mesh = Mesh::new(4, 4);
    let (connection, remote) = peer(0);
    let (sibling, sibling_remote) = peer(0);
    let id = mesh.add(connection).unwrap();
    let other = mesh.add(sibling).unwrap();
    remote.lock().unwrap().recv_failure =
        Some(RecvError::ProtocolError("bad frame".to_string()));
    assert_eq!(mesh.handle_readable(id), IoOutcome::Closed);
    assert!(!mesh.contains(id));
    assert_eq!(remote.lock().unwrap().disconnects, 1);
    assert_eq!(mesh.send(id, vec![1]), Err(MeshError::UnknownConnection));
    assert_eq!(mesh.next_disconnected(), Some(id));
    assert_eq!(mesh.next_disconnected(), None);
    assert_eq!(mesh.handle_readable(id), IoOutcome::Skipped);

    // The sibling is untouched.
    assert!(mesh.contains(other));
    sibling_remote.lock().unwrap().to_local.push_back(vec![5]);
    assert_eq!(mesh.handle_readable(other), IoOutcome::Progress);
    assert_eq!(mesh.recv(), Some(Envelope::new(other, vec![5])));
}

#[test]
fn mesh_tears_down_a_connection_that_fails_to_send() {
    let mut mesh = Mesh::new(4, 4);
    let (connection, remote) = peer(1);
    let id = mesh.add(connection).unwrap();
    assert_eq!(mesh.send(id, vec![1]), Ok(()));
    assert_eq!(mesh.send(id, vec![2]), Ok(()));
    remote.lock().unwrap().send_failure = Some(SendError::Disconnected);
    assert_eq!(mesh.handle_writable(id), IoOutcome::Closed);
    assert!(remote.lock().unwrap().to_remote.is_empty());
    assert!(!mesh.contains(id));
    assert_eq!(mesh.queued(id), None);
    assert_eq!(mesh.next_disconnected(), Some(id));
}

#[test]
fn mesh_apply_recv_by_result() {
    let mut mesh = Mesh::new(4, 4);
    let id = mesh.add(peer(0).0).unwrap();
    assert_eq!(mesh.apply_recv(id, Ok(vec![7])), IoOutcome::Progress);
    assert_eq!(mesh.apply_recv(id, Err(RecvError::WouldBlock)), IoOutcome::Idle);
    assert_eq!(mesh.pending(), 1);
    assert!(mesh.contains(id));
    let failure = IoFailure::new(IoKind::Other, "reset".to_string());
    assert_eq!(mesh.apply_recv(id, Err(RecvError::IoError(failure))), IoOutcome::Closed);
    assert!(!mesh.contains(id));
    // What had arrived before the failure is still delivered.
    assert_eq!(mesh.recv(), Some(Envelope::new(id, vec![7])));
    assert_eq!(mesh.next_disconnected(), Some(id));

    let id = mesh.add(peer(0).0).unwrap();
    assert_eq!(mesh.apply_recv(id, Err(RecvError::Disconnected)), IoOutcome::Closed);
    assert_eq!(mesh.next_disconnected(), Some(id));
}

#[test]
fn mesh_apply_send_by_result() {
    let mut mesh = Mesh::new(4, 4);
    let id = mesh.add(peer(0).0).unwrap();
    assert_eq!(mesh.send(id, vec![1]), Ok(()));
    assert_eq!(mesh.send(id, vec![2]), Ok(()));
    assert_eq!(mesh.apply_send(id, Err(SendError::WouldBlock)), IoOutcome::Idle);
    assert_eq!(mesh.queued(id), Some(2));
    assert_eq!(mesh.apply_send(id, Ok(())), IoOutcome::Progress);
    assert_eq!(mesh.queued(id), Some(1));
    assert_eq!(
        mesh.apply_send(id, Err(SendError::ProtocolError("bad".to_string()))),
        IoOutcome::Closed
    );
    assert_eq!(mesh.queued(id), None);
    assert_eq!(mesh.next_disconnected(), Some(id));
}

#[test]
fn mesh_over_a_loopback_end() {
    let mut mesh = Mesh::new(4, 4);
    let (end, _other) = InprocConnection::pair("a", "b", 1);
    let id = mesh.add(Box::new(end)).unwrap();
    assert_eq!(mesh.send(id, vec![1]), Ok(()));
    assert_eq!(mesh.send(id, vec![2]), Ok(()));
    // The end takes one payload and then would block.
    assert_eq!(mesh.handle_writable(id), IoOutcome::Idle);
    assert_eq!(mesh.queued(id), Some(1));
    assert_eq!(mesh.handle_readable(id), IoOutcome::Idle);
}
