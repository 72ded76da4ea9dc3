//! The typed packet schema: the packet variants, the fields each carries,
//! which variants are legal in which state and direction, and the
//! well-formedness bounds under which encoding is infallible.
//!
//! Text-valued fields (server address, player name, version name, the
//! status description and favicon) are carried as UTF-8 bytes; producing and
//! checking the text itself is the embedding application's concern.

use vstd::prelude::*;
use crate::state::ConnectionState;
use crate::state::Direction;

verus! {

/// Longest admitted short text field (addresses, names, identifiers).
pub const MAX_SHORT_FIELD: usize = 0xFFFF;

/// Longest admitted long field (status description, favicon image data).
pub const MAX_LONG_FIELD: usize = 0xFFFFFF;

/// Most entries admitted in a status player sample list.
pub const MAX_SAMPLE_ENTRIES: usize = 0xFFF;

/// Fields of the handshake packet a client opens a connection with.
/// `next_state` is the client's request: 1 for `Status`, 2 for `Login`.
pub struct HandshakeFields {
    pub protocol_version: u32,
    pub server_address: Vec<u8>,
    pub server_port: u16,
    pub next_state: u32,
}

/// One entry of the status response's player sample: a player name and a
/// textual identifier.
pub struct PlayerSample {
    pub name: Vec<u8>,
    pub id: Vec<u8>,
}

/// The status response payload: server version, player counts and sample,
/// description and favicon. Supplied by the embedding application; this core
/// only carries and serializes it.
pub struct StatusPayload {
    pub version_protocol: u32,
    pub version_name: Vec<u8>,
    pub players_max: u32,
    pub players_online: u32,
    pub sample: Vec<PlayerSample>,
    pub description: Vec<u8>,
    pub favicon: Vec<u8>,
}

/// A typed packet. The schema below says which variants may travel in which
/// state and direction.
pub enum Packet {
    /// Serverbound, handshake state: the opening declaration of intent.
    Handshake(HandshakeFields),
    /// Serverbound, status state: ask for the server's status payload.
    StatusRequest,
    /// Serverbound, status state: a latency probe carrying an opaque payload.
    StatusPing { payload: u64 },
    /// Clientbound, status state: the reply to a status request.
    StatusResponse(StatusPayload),
    /// Clientbound, status state: echoes a ping's payload verbatim.
    StatusPong { payload: u64 },
    /// Serverbound, login state: the player's declared name.
    LoginStart { name: Vec<u8> },
}

/// Mathematical model of `HandshakeFields`.
pub struct HandshakeFieldsV {
    pub protocol_version: u32,
    pub server_address: Seq<u8>,
    pub server_port: u16,
    pub next_state: u32,
}

/// Mathematical model of `PlayerSample`.
pub struct PlayerSampleV {
    pub name: Seq<u8>,
    pub id: Seq<u8>,
}

/// Mathematical model of `StatusPayload`.
pub struct StatusPayloadV {
    pub version_protocol: u32,
    pub version_name: Seq<u8>,
    pub players_max: u32,
    pub players_online: u32,
    pub sample: Seq<PlayerSampleV>,
    pub description: Seq<u8>,
    pub favicon: Seq<u8>,
}

/// Mathematical model of `Packet`.
pub enum PacketV {
    Handshake(HandshakeFieldsV),
    StatusRequest,
    StatusPing { payload: u64 },
    StatusResponse(StatusPayloadV),
    StatusPong { payload: u64 },
    LoginStart { name: Seq<u8> },
}

impl View for HandshakeFields {
    type V = HandshakeFieldsV;

    open spec fn view(&self) -> HandshakeFieldsV {
        HandshakeFieldsV {
            protocol_version: self.protocol_version,
            server_address: self.server_address@,
            server_port: self.server_port,
            next_state: self.next_state,
        }
    }
}

impl View for PlayerSample {
    type V = PlayerSampleV;

    open spec fn view(&self) -> PlayerSampleV {
        PlayerSampleV { name: self.name@, id: self.id@ }
    }
}

/// The model of a sample list: each entry's model, in order.
pub open spec fn samples_view(s: Seq<PlayerSample>) -> Seq<PlayerSampleV> {
    s.map_values(|x: PlayerSample| x@)
}

impl View for StatusPayload {
    type V = StatusPayloadV;

    open spec fn view(&self) -> StatusPayloadV {
        StatusPayloadV {
            version_protocol: self.version_protocol,
            version_name: self.version_name@,
            players_max: self.players_max,
            players_online: self.players_online,
            sample: samples_view(self.sample@),
            description: self.description@,
            favicon: self.favicon@,
        }
    }
}

impl View for Packet {
    type V = PacketV;

    open spec fn view(&self) -> PacketV {
        match self {
            Packet::Handshake(h) => PacketV::Handshake(h@),
            Packet::StatusRequest => PacketV::StatusRequest,
            Packet::StatusPing { payload } => PacketV::StatusPing { payload: *payload },
            Packet::StatusResponse(p) => PacketV::StatusResponse(p@),
            Packet::StatusPong { payload } => PacketV::StatusPong { payload: *payload },
            Packet::LoginStart { name } => PacketV::LoginStart { name: name@ },
        }
    }
}

/// Well-formedness of a handshake: the address fits a short field.
pub open spec fn wf_handshake(h: HandshakeFieldsV) -> bool {
    h.server_address.len() <= MAX_SHORT_FIELD as int
}

/// Well-formedness of one player sample entry.
pub open spec fn wf_sample(s: PlayerSampleV) -> bool {
    s.name.len() <= MAX_SHORT_FIELD as int && s.id.len() <= MAX_SHORT_FIELD as int
}

/// Well-formedness of a status payload: every field fits its bound.
pub open spec fn wf_status_payload(p: StatusPayloadV) -> bool {
    &&& p.version_name.len() <= MAX_SHORT_FIELD as int
    &&& p.sample.len() <= MAX_SAMPLE_ENTRIES as int
    &&& (forall|i: int| 0 <= i < p.sample.len() ==> wf_sample(#[trigger] p.sample[i]))
    &&& p.description.len() <= MAX_LONG_FIELD as int
    &&& p.favicon.len() <= MAX_LONG_FIELD as int
}

/// Well-formedness of a packet: the bounds under which encoding cannot fail.
pub open spec fn wf_packet(p: PacketV) -> bool {
    match p {
        PacketV::Handshake(h) => wf_handshake(h),
        PacketV::StatusRequest => true,
        PacketV::StatusPing { .. } => true,
        PacketV::StatusResponse(pl) => wf_status_payload(pl),
        PacketV::StatusPong { .. } => true,
        PacketV::LoginStart { name } => name.len() <= MAX_SHORT_FIELD as int,
    }
}

/// The leading discriminator byte a packet is framed with.
pub open spec fn packet_id(p: PacketV) -> u8 {
    match p {
        PacketV::Handshake(..) => 0x00,
        PacketV::StatusRequest => 0x00,
        PacketV::StatusPing { .. } => 0x01,
        PacketV::StatusResponse(..) => 0x00,
        PacketV::StatusPong { .. } => 0x01,
        PacketV::LoginStart { .. } => 0x00,
    }
}

/// Whether a discriminator byte opens any variant of the given state's and
/// direction's packet set.
pub open spec fn known_id(state: ConnectionState, dir: Direction, id: u8) -> bool {
    match (state, dir) {
        (ConnectionState::Handshake, Direction::Serverbound) => id == 0x00,
        (ConnectionState::Status, Direction::Serverbound) => id == 0x00 || id == 0x01,
        (ConnectionState::Status, Direction::Clientbound) => id == 0x00 || id == 0x01,
        (ConnectionState::Login, Direction::Serverbound) => id == 0x00,
        _ => false,
    }
}

/// The per-state, per-direction packet sets: exactly these variants are
/// legal to receive or send in the given state. `Play` admits no traffic in
/// this core.
pub open spec fn legal_in(state: ConnectionState, dir: Direction, p: PacketV) -> bool {
    match (state, dir) {
        (ConnectionState::Handshake, Direction::Serverbound) => p matches PacketV::Handshake(..),
        (ConnectionState::Status, Direction::Serverbound) => p matches PacketV::StatusRequest
            || p matches PacketV::StatusPing { .. },
        (ConnectionState::Status, Direction::Clientbound) => p matches PacketV::StatusResponse(..)
            || p matches PacketV::StatusPong { .. },
        (ConnectionState::Login, Direction::Serverbound) => p matches PacketV::LoginStart { .. },
        _ => false,
    }
}

/// The ordered list of discriminator bytes that may open a frame in the
/// given state and direction: the schema as a pure lookup, no I/O.
pub fn admissible_ids(state: ConnectionState, dir: Direction) -> (r: Vec<u8>)
    ensures
        forall|id: u8| r@.contains(id) == known_id(state, dir, id),
        forall|p: PacketV| legal_in(state, dir, p) ==> r@.contains(packet_id(p)),
{
    let r: Vec<u8> = match (state, dir) {
        (ConnectionState::Handshake, Direction::Serverbound) => vec![0x00u8],
        (ConnectionState::Status, Direction::Serverbound) => vec![0x00u8, 0x01u8],
        (ConnectionState::Status, Direction::Clientbound) => vec![0x00u8, 0x01u8],
        (ConnectionState::Login, Direction::Serverbound) => vec![0x00u8],
        _ => Vec::new(),
    };
    assert forall|id: u8| r@.contains(id) == known_id(state, dir, id) by {
        if known_id(state, dir, id) {
            if id == 0x00 {
                assert(r@[0] == id);
            } else {
                assert(r@[1] == id);
            }
        } else {
            assert(forall|i: int| 0 <= i < r@.len() ==> r@[i] != id);
        }
    }
    r
}

/// Everything that can go wrong while decoding or dispatching a frame.
/// Every value closes the offending connection and only that connection.
#[derive(Clone, Copy, PartialEq, Eq, Structural, Debug)]
pub enum ProtocolError {
    /// The frame's discriminator names no variant of the current state.
    UnknownPacketId,
    /// A field violates its encoding or the frame carries trailing bytes.
    MalformedField,
    /// Fewer bytes were supplied than the variant requires.
    TruncatedFrame,
    /// A handshake asked for a state the machine does not grant.
    IllegalStateTransition,
    /// An outbound packet is not legal in the connection's current state.
    PacketNotAllowedInState,
}

} // verus!
