//! The protocol phases a connection moves through, and the transition
//! relation between them.

use vstd::prelude::*;

verus! {

/// The protocol phase a connection is currently in. A connection starts in
/// `Handshake`; the only transitions are `Handshake -> Status` and
/// `Handshake -> Login`, chosen by the client's handshake packet. `Play` is
/// terminal and carries no implemented traffic in this core.
#[derive(Clone, Copy, PartialEq, Eq, Structural, Debug)]
pub enum ConnectionState {
    Handshake,
    Status,
    Login,
    Play,
}

/// Which way a packet travels: from the client to the server or back.
#[derive(Clone, Copy, PartialEq, Eq, Structural, Debug)]
pub enum Direction {
    Serverbound,
    Clientbound,
}

/// The state machine's transition relation: the only legal transitions are
/// out of `Handshake`, into `Status` or `Login`.
pub open spec fn valid_transition(from: ConnectionState, to: ConnectionState) -> bool {
    from == ConnectionState::Handshake && (to == ConnectionState::Status
        || to == ConnectionState::Login)
}

} // verus!
