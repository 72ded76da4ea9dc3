//! The server model: the configured status payload and the set of live
//! connections. Each operation touches exactly one connection — accepting,
//! dispatching a frame, closing — and every other connection's state,
//! socket flag and queue stay exactly as they were: connection-scoped
//! errors never reach the accept loop or a neighbour.

use vstd::prelude::*;
use crate::state::ConnectionState;
use crate::packet::wf_status_payload;
use crate::packet::ProtocolError;
use crate::packet::StatusPayload;
use crate::connection::spec_close;
use crate::connection::Connection;
use crate::dispatch::dispatch_frame;
use crate::dispatch::spec_step;

verus! {

/// The accept loop's state: the configured status payload, and one
/// connection per accepted socket.
pub struct Server {
    pub status: StatusPayload,
    pub conns: Vec<Connection>,
}

impl Server {
    /// The server's own well-formedness: its configured payload obeys the
    /// schema's field bounds, so every status reply can be encoded.
    pub open spec fn wf(self) -> bool {
        wf_status_payload(self.status@)
    }

    /// A server with no connections yet.
    pub fn new(status: StatusPayload) -> (s: Server)
        requires
            wf_status_payload(status@),
        ensures
            s.wf(),
            s.status@ == status@,
            s.conns@.len() == 0,
    {
        Server { status, conns: Vec::new() }
    }

    /// Accepts one peer: appends a fresh open connection in the handshake
    /// state and returns its index. No existing connection is touched.
    pub fn accept(&mut self, peer: String) -> (i: usize)
        requires
            old(self).wf(),
        ensures
            final(self).wf(),
            final(self).status@ == old(self).status@,
            i == old(self).conns@.len(),
            final(self).conns@.len() == old(self).conns@.len() + 1,
            forall|j: int| 0 <= j < old(self).conns@.len() ==> final(self).conns@[j] == old(
                self,
            ).conns@[j],
            final(self).conns@[i as int]@.peer == peer@,
            final(self).conns@[i as int]@.state == ConnectionState::Handshake,
            final(self).conns@[i as int]@.is_open,
            final(self).conns@[i as int]@.outbox == Seq::<Seq<u8>>::empty(),
    {
        let i = self.conns.len();
        self.conns.push(Connection::new(peer));
        i
    }

    /// Dispatches one delivered frame on the connection at index `i`. Only
    /// that connection changes, exactly as one dispatch step says; every
    /// other connection — open or closed, whatever its state — is left
    /// untouched, so a protocol error on one peer can never affect
    /// another.
    pub fn dispatch(&mut self, i: usize, frame: &Vec<u8>) -> (r: Result<bool, ProtocolError>)
        requires
            old(self).wf(),
            i < old(self).conns@.len(),
        ensures
            final(self).wf(),
            final(self).status@ == old(self).status@,
            final(self).conns@.len() == old(self).conns@.len(),
            forall|j: int|
                0 <= j < old(self).conns@.len() && j != i ==> final(self).conns@[j] == old(
                    self,
                ).conns@[j],
            final(self).conns@[i as int]@ == spec_step(
                old(self).status@,
                old(self).conns@[i as int]@,
                frame@,
            ).0,
            r == spec_step(old(self).status@, old(self).conns@[i as int]@, frame@).1,
    {
        let mut conn = self.conns.remove(i);
        let r = dispatch_frame(&self.status, &mut conn, frame);
        self.conns.insert(i, conn);
        assert(self.conns@ =~= old(self).conns@.update(
            i as int,
            self.conns@[i as int],
        ));
        r
    }

    /// Closes the connection at index `i`: idempotent, never an error, and
    /// no other connection is affected.
    pub fn close_connection(&mut self, i: usize)
        requires
            old(self).wf(),
            i < old(self).conns@.len(),
        ensures
            final(self).wf(),
            final(self).status@ == old(self).status@,
            final(self).conns@.len() == old(self).conns@.len(),
            forall|j: int|
                0 <= j < old(self).conns@.len() && j != i ==> final(self).conns@[j] == old(
                    self,
                ).conns@[j],
            final(self).conns@[i as int]@ == spec_close(old(self).conns@[i as int]@),
    {
        let mut conn = self.conns.remove(i);
        conn.close();
        self.conns.insert(i, conn);
        assert(self.conns@ =~= old(self).conns@.update(
            i as int,
            self.conns@[i as int],
        ));
    }

    /// How many connections the server has accepted so far.
    pub fn connection_count(&self) -> (n: usize)
        ensures
            n == self.conns@.len(),
    {
        self.conns.len()
    }
}

} // verus!
