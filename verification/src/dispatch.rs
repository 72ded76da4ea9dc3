//! The dispatch core: one step takes the connection's state as of the
//! frame's arrival, decodes the frame against it, and runs the state's
//! handler — transitioning, replying, or closing. A closed connection
//! dispatches nothing. The handler table is the match below: handshake,
//! status and login handlers as the protocol requires, and the play state
//! deliberately admits no packet, so any frame there closes the connection
//! rather than being misrouted to another state's handler.

use vstd::prelude::*;
use crate::state::valid_transition;
use crate::state::ConnectionState;
use crate::state::Direction;
use crate::packet::known_id;
use crate::packet::samples_view;
use crate::packet::wf_handshake;
use crate::packet::wf_status_payload;
use crate::packet::HandshakeFieldsV;
use crate::packet::Packet;
use crate::packet::PacketV;
use crate::packet::PlayerSample;
use crate::packet::ProtocolError;
use crate::packet::StatusPayload;
use crate::packet::StatusPayloadV;
use crate::codec::decode;
use crate::codec::encode;
use crate::codec::lemma_decode_encode;
use crate::codec::lemma_decode_yields_legal;
use crate::codec::lemma_unknown_id_rejected;
use crate::codec::spec_decode;
use crate::codec::spec_encode;
use crate::connection::frames_view;
use crate::connection::spec_close;
use crate::connection::Connection;
use crate::connection::ConnectionV;
use crate::wire::read_bytes;

verus! {

/// The handler table's model: what each state's handler does with a packet
/// that decoded successfully against that state. The handshake handler
/// grants the transitions 1 -> `Status` and 2 -> `Login` and closes on any
/// other request; the status handler replies to a request with the
/// configured payload and to a ping with a pong echoing its payload; the
/// login handler acknowledges by closing; no other packet can reach here,
/// but the table is total and closes on anything else.
pub open spec fn spec_handle(cfg: StatusPayloadV, c: ConnectionV, p: PacketV) -> (
    ConnectionV,
    Result<(), ProtocolError>,
) {
    match p {
        PacketV::Handshake(h) => if h.next_state == 1 {
            (ConnectionV { state: ConnectionState::Status, ..c }, Ok(()))
        } else if h.next_state == 2 {
            (ConnectionV { state: ConnectionState::Login, ..c }, Ok(()))
        } else {
            (spec_close(c), Err(ProtocolError::IllegalStateTransition))
        },
        PacketV::StatusRequest => (
            ConnectionV {
                outbox: c.outbox.push(spec_encode(PacketV::StatusResponse(cfg))),
                ..c
            },
            Ok(()),
        ),
        PacketV::StatusPing { payload } => (
            ConnectionV {
                outbox: c.outbox.push(spec_encode(PacketV::StatusPong { payload })),
                ..c
            },
            Ok(()),
        ),
        PacketV::LoginStart { .. } => (spec_close(c), Ok(())),
        _ => (spec_close(c), Err(ProtocolError::PacketNotAllowedInState)),
    }
}

/// One dispatch step's model: a closed connection dispatches nothing; a
/// frame that fails to decode against the state it arrived in closes the
/// connection with that error and leaves the state exactly as before;
/// otherwise the state's handler runs. `Ok(true)` means a packet was
/// dispatched, `Ok(false)` that the connection was already closed.
pub open spec fn spec_step(cfg: StatusPayloadV, c: ConnectionV, frame: Seq<u8>) -> (
    ConnectionV,
    Result<bool, ProtocolError>,
) {
    if !c.is_open {
        (c, Ok(false))
    } else {
        match spec_decode(c.state, Direction::Serverbound, frame) {
            Err(e) => (spec_close(c), Err(e)),
            Ok(p) => {
                let outcome = spec_handle(cfg, c, p);
                (
                    outcome.0,
                    match outcome.1 {
                        Ok(()) => Ok(true),
                        Err(e) => Err(e),
                    },
                )
            },
        }
    }
}

/// Running a whole inbound frame sequence, one step after another, each
/// step against the connection's state as of that frame's arrival.
pub open spec fn spec_run(cfg: StatusPayloadV, c: ConnectionV, frames: Seq<Seq<u8>>) -> ConnectionV
    decreases frames.len(),
{
    if frames.len() == 0 {
        c
    } else {
        spec_run(cfg, spec_step(cfg, c, frames[0]).0, frames.skip(1))
    }
}

/// Copies a byte field.
fn copy_bytes(v: &Vec<u8>) -> (r: Vec<u8>)
    ensures
        r@ == v@,
{
    let r = read_bytes(v, 0, v.len());
    assert(r@ =~= v@);
    r
}

/// Copies a status payload, preserving its model.
fn clone_payload(p: &StatusPayload) -> (r: StatusPayload)
    ensures
        r@ == p@,
{
    let mut sample: Vec<PlayerSample> = Vec::new();
    let n: usize = p.sample.len();
    let mut k: usize = 0;
    #[verifier::loop_isolation(false)]
    while k < n
        invariant
            k <= n,
            samples_view(sample@) == samples_view(p.sample@).take(k as int),
        decreases n - k,
    {
        let entry = PlayerSample { name: copy_bytes(&p.sample[k].name), id: copy_bytes(
            &p.sample[k].id,
        ) };
        sample.push(entry);
        assert(samples_view(sample@) =~= samples_view(p.sample@).take(k as int + 1));
        k = k + 1;
    }
    assert(samples_view(p.sample@).take(n as int) =~= samples_view(p.sample@));
    let r = StatusPayload {
        version_protocol: p.version_protocol,
        version_name: copy_bytes(&p.version_name),
        players_max: p.players_max,
        players_online: p.players_online,
        sample,
        description: copy_bytes(&p.description),
        favicon: copy_bytes(&p.favicon),
    };
    r
}

/// One dispatch step: reads nothing itself, but takes the frame the
/// transport delivered, decodes it against the connection's current state,
/// and runs that state's handler. On a decode error or an illegal
/// handshake the connection is closed and only this connection is touched.
/// Returns `Ok(true)` if a packet was dispatched, `Ok(false)` if the
/// connection was already closed, and the protocol error otherwise.
pub fn dispatch_frame(cfg: &StatusPayload, conn: &mut Connection, frame: &Vec<u8>) -> (r: Result<
    bool,
    ProtocolError,
>)
    requires
        wf_status_payload(cfg@),
    ensures
        final(conn)@ == spec_step(cfg@, old(conn)@, frame@).0,
        r == spec_step(cfg@, old(conn)@, frame@).1,
{
    if !conn.is_open {
        return Ok(false);
    }
    let p = match decode(conn.state, Direction::Serverbound, frame) {
        Err(e) => {
            conn.is_open = false;
            return Err(e);
        },
        Ok(p) => p,
    };
    match p {
        Packet::Handshake(h) => {
            if h.next_state == 1 {
                conn.state = ConnectionState::Status;
                Ok(true)
            } else if h.next_state == 2 {
                conn.state = ConnectionState::Login;
                Ok(true)
            } else {
                conn.is_open = false;
                Err(ProtocolError::IllegalStateTransition)
            }
        },
        Packet::StatusRequest => {
            let reply = Packet::StatusResponse(clone_payload(cfg));
            let frame_out = encode(&reply);
            conn.outbox.push(frame_out);
            assert(frames_view(conn.outbox@) =~= frames_view(old(conn).outbox@).push(
                spec_encode(PacketV::StatusResponse(cfg@)),
            ));
            Ok(true)
        },
        Packet::StatusPing { payload } => {
            let reply = Packet::StatusPong { payload };
            let frame_out = encode(&reply);
            conn.outbox.push(frame_out);
            assert(frames_view(conn.outbox@) =~= frames_view(old(conn).outbox@).push(
                spec_encode(PacketV::StatusPong { payload }),
            ));
            Ok(true)
        },
        Packet::LoginStart { .. } => {
            conn.is_open = false;
            Ok(true)
        },
        Packet::StatusResponse(..) => {
            conn.is_open = false;
            Err(ProtocolError::PacketNotAllowedInState)
        },
        Packet::StatusPong { .. } => {
            conn.is_open = false;
            Err(ProtocolError::PacketNotAllowedInState)
        },
    }
}

/// Drives one connection over a sequence of delivered frames, in order,
/// one at a time: each frame is decoded against the state as of its
/// arrival, and frames arriving after the connection closed are not
/// dispatched.
pub fn run_connection(cfg: &StatusPayload, conn: &mut Connection, frames: &Vec<Vec<u8>>)
    requires
        wf_status_payload(cfg@),
    ensures
        final(conn)@ == spec_run(cfg@, old(conn)@, frames_view(frames@)),
{
    let n: usize = frames.len();
    assert(frames_view(frames@).skip(0) =~= frames_view(frames@));
    let mut i: usize = 0;
    #[verifier::loop_isolation(false)]
    while i < n
        invariant
            i <= n,
            spec_run(cfg@, old(conn)@, frames_view(frames@)) == spec_run(
                cfg@,
                conn@,
                frames_view(frames@).skip(i as int),
            ),
        decreases n - i,
    {
        let ghost pre = conn@;
        let _ = dispatch_frame(cfg, conn, &frames[i]);
        proof {
            let fv = frames_view(frames@);
            let tail = fv.skip(i as int);
            assert(tail[0] == frames@[i as int]@);
            assert(tail.skip(1) =~= fv.skip(i as int + 1));
            assert(spec_run(cfg@, pre, tail) == spec_run(
                cfg@,
                spec_step(cfg@, pre, tail[0]).0,
                tail.skip(1),
            ));
            assert(conn@ == spec_step(cfg@, pre, tail[0]).0);
        }
        i = i + 1;
    }
    assert(frames_view(frames@).skip(n as int) =~= Seq::<Seq<u8>>::empty());
}

/// A valid handshake whose next-state indicator asks for `Status` moves
/// the connection to `Status` and leaves it open, and a subsequent status
/// request is then accepted and answered with the configured status
/// response.
pub proof fn lemma_handshake_to_status(cfg: StatusPayloadV, c: ConnectionV, h: HandshakeFieldsV)
    requires
        c.is_open,
        c.state == ConnectionState::Handshake,
        wf_handshake(h),
        h.next_state == 1,
    ensures
        spec_step(cfg, c, spec_encode(PacketV::Handshake(h))).1 == Ok::<bool, ProtocolError>(true),
        spec_step(cfg, c, spec_encode(PacketV::Handshake(h))).0.state == ConnectionState::Status,
        spec_step(cfg, c, spec_encode(PacketV::Handshake(h))).0.is_open,
        spec_step(
            cfg,
            spec_step(cfg, c, spec_encode(PacketV::Handshake(h))).0,
            spec_encode(PacketV::StatusRequest),
        ).1 == Ok::<bool, ProtocolError>(true),
        spec_step(
            cfg,
            spec_step(cfg, c, spec_encode(PacketV::Handshake(h))).0,
            spec_encode(PacketV::StatusRequest),
        ).0.outbox == c.outbox.push(spec_encode(PacketV::StatusResponse(cfg))),
{
    lemma_decode_encode(
        ConnectionState::Handshake,
        Direction::Serverbound,
        PacketV::Handshake(h),
    );
    lemma_decode_encode(ConnectionState::Status, Direction::Serverbound, PacketV::StatusRequest);
}

/// A valid handshake whose next-state indicator asks for `Login` moves the
/// connection to `Login` and leaves it open.
pub proof fn lemma_handshake_to_login(cfg: StatusPayloadV, c: ConnectionV, h: HandshakeFieldsV)
    requires
        c.is_open,
        c.state == ConnectionState::Handshake,
        wf_handshake(h),
        h.next_state == 2,
    ensures
        spec_step(cfg, c, spec_encode(PacketV::Handshake(h))).1 == Ok::<bool, ProtocolError>(true),
        spec_step(cfg, c, spec_encode(PacketV::Handshake(h))).0.state == ConnectionState::Login,
        spec_step(cfg, c, spec_encode(PacketV::Handshake(h))).0.is_open,
{
    lemma_decode_encode(
        ConnectionState::Handshake,
        Direction::Serverbound,
        PacketV::Handshake(h),
    );
}

/// A handshake asking for any state other than `Status` or `Login` closes
/// the connection with `IllegalStateTransition`, and once a connection is
/// closed no frame whatever is dispatched on it: every later step leaves
/// it untouched.
pub proof fn lemma_handshake_rejected(cfg: StatusPayloadV, c: ConnectionV, h: HandshakeFieldsV)
    requires
        c.is_open,
        c.state == ConnectionState::Handshake,
        wf_handshake(h),
        h.next_state != 1,
        h.next_state != 2,
    ensures
        spec_step(cfg, c, spec_encode(PacketV::Handshake(h))).0.is_open == false,
        spec_step(cfg, c, spec_encode(PacketV::Handshake(h))).1 == Err::<bool, ProtocolError>(
            ProtocolError::IllegalStateTransition,
        ),
        forall|f: Seq<u8>|
            spec_step(cfg, spec_step(cfg, c, spec_encode(PacketV::Handshake(h))).0, f)
                == (spec_step(cfg, c, spec_encode(PacketV::Handshake(h))).0, Ok::<
                bool,
                ProtocolError,
            >(false)),
{
    lemma_decode_encode(
        ConnectionState::Handshake,
        Direction::Serverbound,
        PacketV::Handshake(h),
    );
}

/// The state machine's transition relation is respected by every dispatch
/// step: a step either leaves the connection's state alone or moves it
/// along a valid transition — out of `Handshake`, into `Status` or
/// `Login`, and never anything else.
pub proof fn lemma_step_transitions_valid(cfg: StatusPayloadV, c: ConnectionV, frame: Seq<u8>)
    ensures
        spec_step(cfg, c, frame).0.state == c.state || valid_transition(
            c.state,
            spec_step(cfg, c, frame).0.state,
        ),
{
    if c.is_open {
        lemma_decode_yields_legal(c.state, Direction::Serverbound, frame);
    }
}

/// A closed connection dispatches nothing: a step on it changes nothing
/// and reports that no packet was dispatched.
pub proof fn lemma_closed_dispatches_nothing(cfg: StatusPayloadV, c: ConnectionV, frame: Seq<u8>)
    requires
        !c.is_open,
    ensures
        spec_step(cfg, c, frame) == (c, Ok::<bool, ProtocolError>(false)),
{
}

/// The ping property: a ping dispatched in the `Status` state queues
/// exactly one reply, and that reply decodes (clientbound, same state) to
/// a pong whose payload equals the ping's, byte for byte.
pub proof fn lemma_ping_pong_echo(cfg: StatusPayloadV, c: ConnectionV, payload: u64)
    requires
        c.is_open,
        c.state == ConnectionState::Status,
    ensures
        spec_step(cfg, c, spec_encode(PacketV::StatusPing { payload })).1 == Ok::<
            bool,
            ProtocolError,
        >(true),
        spec_step(cfg, c, spec_encode(PacketV::StatusPing { payload })).0.outbox == c.outbox.push(
            spec_encode(PacketV::StatusPong { payload }),
        ),
        spec_decode(
            ConnectionState::Status,
            Direction::Clientbound,
            spec_encode(PacketV::StatusPong { payload }),
        ) == Ok::<PacketV, ProtocolError>(PacketV::StatusPong { payload }),
{
    lemma_decode_encode(
        ConnectionState::Status,
        Direction::Serverbound,
        PacketV::StatusPing { payload },
    );
    lemma_decode_encode(
        ConnectionState::Status,
        Direction::Clientbound,
        PacketV::StatusPong { payload },
    );
}

/// A status request dispatched in the `Status` state — whatever traffic
/// came before — queues exactly one reply: the configured status response,
/// whose decoded version protocol and version name are the configured
/// ones.
pub proof fn lemma_status_request_answered(cfg: StatusPayloadV, c: ConnectionV)
    requires
        c.is_open,
        c.state == ConnectionState::Status,
        wf_status_payload(cfg),
    ensures
        spec_step(cfg, c, spec_encode(PacketV::StatusRequest)).1 == Ok::<bool, ProtocolError>(
            true,
        ),
        spec_step(cfg, c, spec_encode(PacketV::StatusRequest)).0.outbox == c.outbox.push(
            spec_encode(PacketV::StatusResponse(cfg)),
        ),
        spec_decode(
            ConnectionState::Status,
            Direction::Clientbound,
            spec_encode(PacketV::StatusResponse(cfg)),
        ) == Ok::<PacketV, ProtocolError>(PacketV::StatusResponse(cfg)),
{
    lemma_decode_encode(ConnectionState::Status, Direction::Serverbound, PacketV::StatusRequest);
    lemma_decode_encode(
        ConnectionState::Status,
        Direction::Clientbound,
        PacketV::StatusResponse(cfg),
    );
}

/// A well-framed frame whose discriminator byte names no variant of the
/// connection's current state fails with `UnknownPacketId` and closes the
/// connection, its state and queue otherwise exactly as before the call —
/// and by the server's dispatch contract, no other connection is touched.
pub proof fn lemma_unknown_discriminator(cfg: StatusPayloadV, c: ConnectionV, frame: Seq<u8>)
    requires
        c.is_open,
        frame.len() >= 5,
        frame.len() == 4 + crate::wire::dec_u32_at(frame, 0) as int,
        !known_id(c.state, Direction::Serverbound, frame[4]),
    ensures
        spec_step(cfg, c, frame) == (spec_close(c), Err::<bool, ProtocolError>(
            ProtocolError::UnknownPacketId,
        )),
        spec_step(cfg, c, frame).0.state == c.state,
        spec_step(cfg, c, frame).0.outbox == c.outbox,
{
    lemma_unknown_id_rejected(c.state, Direction::Serverbound, frame);
}

} // verus!
