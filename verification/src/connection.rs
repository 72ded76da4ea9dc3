//! The connection model: one accepted peer's protocol state, open/closed
//! flag, and the serialized outbound queue of encoded frames. Closing is
//! idempotent; sending encodes and queues one whole frame at a time, so
//! frames from distinct packets are never interleaved.

use vstd::prelude::*;
use crate::state::ConnectionState;
use crate::state::Direction;
use crate::packet::legal_in;
use crate::packet::samples_view;
use crate::packet::wf_packet;
use crate::packet::PacketV;
use crate::packet::Packet;
use crate::packet::MAX_LONG_FIELD;
use crate::packet::MAX_SAMPLE_ENTRIES;
use crate::packet::MAX_SHORT_FIELD;
use crate::codec::encode;
use crate::codec::spec_encode;

verus! {

/// The model of a sequence of queued frames.
pub open spec fn frames_view(s: Seq<Vec<u8>>) -> Seq<Seq<u8>> {
    s.map_values(|v: Vec<u8>| v@)
}

/// What can go wrong when queueing an outbound packet.
#[derive(Clone, Copy, PartialEq, Eq, Structural, Debug)]
pub enum SendError {
    /// The connection was already closed.
    ConnectionClosed,
    /// The packet is not legal to send in the connection's current state,
    /// or violates the schema's field bounds.
    PacketNotAllowed,
}

/// One accepted connection: its peer's address, current protocol state,
/// open/closed flag, whether the disconnect hook ran, and the outbound
/// queue of already-encoded frames awaiting the transport.
pub struct Connection {
    pub peer: String,
    pub state: ConnectionState,
    pub is_open: bool,
    pub disconnect_seen: bool,
    pub outbox: Vec<Vec<u8>>,
}

/// Mathematical model of a `Connection`.
pub struct ConnectionV {
    pub peer: Seq<char>,
    pub state: ConnectionState,
    pub is_open: bool,
    pub disconnect_seen: bool,
    pub outbox: Seq<Seq<u8>>,
}

impl View for Connection {
    type V = ConnectionV;

    open spec fn view(&self) -> ConnectionV {
        ConnectionV {
            peer: self.peer@,
            state: self.state,
            is_open: self.is_open,
            disconnect_seen: self.disconnect_seen,
            outbox: frames_view(self.outbox@),
        }
    }
}

/// The model of closing: the open flag drops, everything else stays.
pub open spec fn spec_close(c: ConnectionV) -> ConnectionV {
    ConnectionV { is_open: false, ..c }
}

/// The model of sending: a closed connection refuses; an illegal or
/// ill-formed packet is refused with the connection untouched; otherwise
/// the encoded frame joins the outbound queue atomically.
pub open spec fn spec_send(c: ConnectionV, p: PacketV) -> (ConnectionV, Result<(), SendError>) {
    if !c.is_open {
        (c, Err(SendError::ConnectionClosed))
    } else if !(legal_in(c.state, Direction::Clientbound, p) && wf_packet(p)) {
        (c, Err(SendError::PacketNotAllowed))
    } else {
        (ConnectionV { outbox: c.outbox.push(spec_encode(p)), ..c }, Ok(()))
    }
}

/// Closing a closed connection changes nothing: close is idempotent, and
/// it never fails.
pub proof fn lemma_close_idempotent(c: ConnectionV)
    ensures
        spec_close(spec_close(c)) == spec_close(c),
{
}

/// Whether a packet is legal to travel in the given state and direction.
pub fn packet_legal(state: ConnectionState, dir: Direction, p: &Packet) -> (r: bool)
    ensures
        r == legal_in(state, dir, p@),
{
    match (state, dir) {
        (ConnectionState::Handshake, Direction::Serverbound) => matches!(p, Packet::Handshake(..)),
        (ConnectionState::Status, Direction::Serverbound) => matches!(
            p,
            Packet::StatusRequest | Packet::StatusPing { .. }
        ),
        (ConnectionState::Status, Direction::Clientbound) => matches!(
            p,
            Packet::StatusResponse(..) | Packet::StatusPong { .. }
        ),
        (ConnectionState::Login, Direction::Serverbound) => matches!(p, Packet::LoginStart { .. }),
        _ => false,
    }
}

/// Whether a packet's fields sit within the schema's bounds, so that
/// encoding cannot fail.
pub fn packet_wf(p: &Packet) -> (r: bool)
    ensures
        r == wf_packet(p@),
{
    match p {
        Packet::Handshake(h) => h.server_address.len() <= MAX_SHORT_FIELD,
        Packet::StatusRequest => true,
        Packet::StatusPing { .. } => true,
        Packet::StatusResponse(pl) => {
            if !(pl.version_name.len() <= MAX_SHORT_FIELD && pl.sample.len() <= MAX_SAMPLE_ENTRIES
                && pl.description.len() <= MAX_LONG_FIELD && pl.favicon.len()
                <= MAX_LONG_FIELD) {
                return false;
            }
            let n: usize = pl.sample.len();
            let mut k: usize = 0;
            #[verifier::loop_isolation(false)]
            while k < n
                invariant
                    n == pl.sample@.len(),
                    k <= n,
                    forall|t: int| 0 <= t < k ==> crate::packet::wf_sample(
                        #[trigger] samples_view(pl.sample@)[t],
                    ),
                decreases n - k,
            {
                if !(pl.sample[k].name.len() <= MAX_SHORT_FIELD && pl.sample[k].id.len()
                    <= MAX_SHORT_FIELD) {
                    assert(!crate::packet::wf_sample(samples_view(pl.sample@)[k as int]));
                    return false;
                }
                assert(crate::packet::wf_sample(samples_view(pl.sample@)[k as int]));
                k = k + 1;
            }
            true
        },
        Packet::StatusPong { .. } => true,
        Packet::LoginStart { name } => name.len() <= MAX_SHORT_FIELD,
    }
}

impl Connection {
    /// A freshly accepted connection: open, in the handshake state, with an
    /// empty outbound queue and its lifecycle hooks not yet run.
    pub fn new(peer: String) -> (c: Connection)
        ensures
            c@.peer == peer@,
            c@.state == ConnectionState::Handshake,
            c@.is_open,
            !c@.disconnect_seen,
            c@.outbox == Seq::<Seq<u8>>::empty(),
    {
        let c = Connection {
            peer,
            state: ConnectionState::Handshake,
            is_open: true,
            disconnect_seen: false,
            outbox: Vec::new(),
        };
        assert(frames_view(c.outbox@) =~= Seq::<Seq<u8>>::empty());
        c
    }

    /// The peer's address: always available, immutable for the
    /// connection's lifetime.
    pub fn address(&self) -> (r: &String)
        ensures
            r@ == self@.peer,
    {
        &self.peer
    }

    /// Closes the connection. Duplicate and concurrent close requests are
    /// no-ops: the first drops the open flag, the rest change nothing, and
    /// no call fails.
    pub fn close(&mut self)
        ensures
            final(self)@ == spec_close(old(self)@),
    {
        self.is_open = false;
    }

    /// Queues one packet for the transport: encodes it and appends the
    /// whole frame to the outbound queue, so concurrent sends can never
    /// interleave bytes of distinct packets. Refuses a closed connection
    /// and any packet not legal to send in the current state.
    pub fn send(&mut self, p: &Packet) -> (r: Result<(), SendError>)
        ensures
            final(self)@ == spec_send(old(self)@, p@).0,
            r == spec_send(old(self)@, p@).1,
    {
        if !self.is_open {
            return Err(SendError::ConnectionClosed);
        }
        if !packet_legal(self.state, Direction::Clientbound, p) || !packet_wf(p) {
            return Err(SendError::PacketNotAllowed);
        }
        let frame = encode(p);
        self.outbox.push(frame);
        assert(frames_view(self.outbox@) =~= frames_view(old(self).outbox@).push(
            spec_encode(p@),
        ));
        Ok(())
    }

    /// Records that the disconnect lifecycle hook ran, and reports whether
    /// this call was the one that may run it: true exactly once per
    /// connection, however many times the dispatch unit retires it.
    pub fn mark_disconnected(&mut self) -> (fired: bool)
        ensures
            final(self)@ == (ConnectionV { disconnect_seen: true, ..old(self)@ }),
            fired == !old(self)@.disconnect_seen,
    {
        let fired = !self.disconnect_seen;
        self.disconnect_seen = true;
        fired
    }
}

} // verus!
