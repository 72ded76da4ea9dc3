//! A verified connection state machine and typed packet dispatch core for a
//! length-prefixed game protocol: per-state packet schema, byte-level codec
//! with a proved decode/encode round trip, a connection model with idempotent
//! close, and the per-state handlers that drive status and login traffic.

pub mod state;
pub mod packet;
pub mod wire;
pub mod codec;
pub mod connection;
pub mod dispatch;
pub mod server;

pub use state::ConnectionState;
pub use state::Direction;
pub use packet::Packet;
pub use packet::ProtocolError;
pub use packet::StatusPayload;
pub use connection::Connection;
pub use server::Server;
