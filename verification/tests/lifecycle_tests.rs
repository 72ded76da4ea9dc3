use protocol_core::codec::{decode, encode};
use protocol_core::connection::{Connection, SendError};
use protocol_core::dispatch::{dispatch_frame, run_connection};
use protocol_core::packet::{HandshakeFields, Packet, ProtocolError, StatusPayload};
use protocol_core::server::Server;
use protocol_core::state::{ConnectionState, Direction};

fn config() -> StatusPayload {
    StatusPayload {
        version_protocol: 757,
        version_name: b"1.18.2".to_vec(),
        players_max: 5,
        players_online: 5,
        sample: Vec::new(),
        description: b"{\"text\":\"A verified server\"}".to_vec(),
        favicon: Vec::new(),
    }
}

fn handshake(next_state: u32) -> Vec<u8> {
    encode(&Packet::Handshake(HandshakeFields {
        protocol_version: 757,
        server_address: b"localhost".to_vec(),
        server_port: 25565,
        next_state,
    }))
}

#[test]
fn handshake_next_state_one_reaches_status() {
    let cfg = config();
    let mut conn = Connection::new("peer:1".to_string());
    assert_eq!(dispatch_frame(&cfg, &mut conn, &handshake(1)), Ok(true));
    assert_eq!(conn.state, ConnectionState::Status);
    assert!(conn.is_open);
    assert_eq!(dispatch_frame(&cfg, &mut conn, &encode(&Packet::StatusRequest)), Ok(true));
    assert_eq!(conn.outbox.len(), 1);
}

#[test]
fn handshake_next_state_two_reaches_login() {
    let cfg = config();
    let mut conn = Connection::new("peer:2".to_string());
    assert_eq!(dispatch_frame(&cfg, &mut conn, &handshake(2)), Ok(true));
    assert_eq!(conn.state, ConnectionState::Login);
    assert!(conn.is_open);
}

#[test]
fn handshake_next_state_other_closes() {
    let cfg = config();
    let mut conn = Connection::new("peer:3".to_string());
    assert_eq!(
        dispatch_frame(&cfg, &mut conn, &handshake(9)),
        Err(ProtocolError::IllegalStateTransition)
    );
    assert!(!conn.is_open);
    assert_eq!(dispatch_frame(&cfg, &mut conn, &encode(&Packet::StatusRequest)), Ok(false));
    assert_eq!(conn.outbox.len(), 0);
}

#[test]
fn frames_after_close_are_not_dispatched() {
    let cfg = config();
    let mut conn = Connection::new("peer:4".to_string());
    let frames = vec![handshake(9), handshake(1), encode(&Packet::StatusRequest)];
    run_connection(&cfg, &mut conn, &frames);
    assert!(!conn.is_open);
    assert_eq!(conn.state, ConnectionState::Handshake);
    assert_eq!(conn.outbox.len(), 0);
}

#[test]
fn unknown_discriminator_closes_only_that_connection() {
    let mut server = Server::new(config());
    let a = server.accept("peer:5".to_string());
    let b = server.accept("peer:6".to_string());
    assert_eq!(server.dispatch(a, &handshake(1)), Ok(true));
    assert_eq!(server.dispatch(b, &handshake(1)), Ok(true));
    let bad = vec![0, 0, 0, 1, 0x07];
    assert_eq!(server.dispatch(a, &bad), Err(ProtocolError::UnknownPacketId));
    assert!(!server.conns[a].is_open);
    assert!(server.conns[b].is_open);
    assert_eq!(server.conns[b].state, ConnectionState::Status);
    assert_eq!(server.dispatch(b, &encode(&Packet::StatusRequest)), Ok(true));
    assert_eq!(server.conns[b].outbox.len(), 1);
}

#[test]
fn closing_twice_is_harmless() {
    let mut server = Server::new(config());
    let a = server.accept("peer:7".to_string());
    let b = server.accept("peer:8".to_string());
    assert_eq!(server.dispatch(b, &handshake(1)), Ok(true));
    server.close_connection(a);
    server.close_connection(a);
    assert!(!server.conns[a].is_open);
    assert!(server.conns[b].is_open);
    assert_eq!(server.conns[b].state, ConnectionState::Status);
    assert_eq!(server.connection_count(), 2);
}

#[test]
fn send_is_refused_when_closed_or_illegal() {
    let mut conn = Connection::new("peer:9".to_string());
    assert_eq!(
        conn.send(&Packet::StatusPong { payload: 3 }),
        Err(SendError::PacketNotAllowed)
    );
    conn.state = ConnectionState::Status;
    assert_eq!(conn.send(&Packet::StatusPong { payload: 3 }), Ok(()));
    assert_eq!(conn.outbox.len(), 1);
    conn.close();
    assert_eq!(
        conn.send(&Packet::StatusPong { payload: 3 }),
        Err(SendError::ConnectionClosed)
    );
    assert_eq!(conn.outbox.len(), 1);
}

#[test]
fn address_is_always_available() {
    let conn = Connection::new("203.0.113.9:4321".to_string());
    assert_eq!(conn.address(), "203.0.113.9:4321");
    let mut conn = conn;
    conn.close();
    assert_eq!(conn.address(), "203.0.113.9:4321");
}

#[test]
fn status_scenario_request_then_ping() {
    let cfg = config();
    let mut conn = Connection::new("client:1".to_string());

    assert_eq!(dispatch_frame(&cfg, &mut conn, &handshake(1)), Ok(true));
    assert_eq!(conn.state, ConnectionState::Status);

    assert_eq!(dispatch_frame(&cfg, &mut conn, &encode(&Packet::StatusRequest)), Ok(true));
    assert_eq!(conn.outbox.len(), 1);
    match decode(ConnectionState::Status, Direction::Clientbound, &conn.outbox[0]) {
        Ok(Packet::StatusResponse(pl)) => {
            assert_eq!(pl.players_online, 5);
            assert_eq!(pl.players_max, 5);
            assert_eq!(pl.version_protocol, 757);
            assert_eq!(pl.version_name, b"1.18.2".to_vec());
        }
        _ => panic!("expected a status response"),
    }

    let ping = encode(&Packet::StatusPing { payload: 0x1122334455667788 });
    assert_eq!(dispatch_frame(&cfg, &mut conn, &ping), Ok(true));
    assert_eq!(conn.outbox.len(), 2);
    match decode(ConnectionState::Status, Direction::Clientbound, &conn.outbox[1]) {
        Ok(Packet::StatusPong { payload }) => assert_eq!(payload, 0x1122334455667788),
        _ => panic!("expected a pong"),
    }

    conn.close();
    assert!(conn.mark_disconnected());
    assert!(!conn.mark_disconnected());
}

#[test]
fn login_scenario_acknowledges_by_closing() {
    let cfg = config();
    let mut conn = Connection::new("client:2".to_string());
    assert_eq!(dispatch_frame(&cfg, &mut conn, &handshake(2)), Ok(true));
    assert_eq!(conn.state, ConnectionState::Login);
    let login = encode(&Packet::LoginStart { name: b"alice".to_vec() });
    assert_eq!(dispatch_frame(&cfg, &mut conn, &login), Ok(true));
    assert!(!conn.is_open);
    assert_eq!(conn.outbox.len(), 0);
    assert!(conn.mark_disconnected());
    assert!(!conn.mark_disconnected());
}

#[test]
fn status_response_version_matches_config_after_prior_traffic() {
    let cfg = config();
    let mut conn = Connection::new("client:3".to_string());
    assert_eq!(dispatch_frame(&cfg, &mut conn, &handshake(1)), Ok(true));
    for i in 0..3u64 {
        let ping = encode(&Packet::StatusPing { payload: i });
        assert_eq!(dispatch_frame(&cfg, &mut conn, &ping), Ok(true));
    }
    assert_eq!(dispatch_frame(&cfg, &mut conn, &encode(&Packet::StatusRequest)), Ok(true));
    match decode(ConnectionState::Status, Direction::Clientbound, &conn.outbox[3]) {
        Ok(Packet::StatusResponse(pl)) => {
            assert_eq!(pl.version_protocol, 757);
            assert_eq!(pl.version_name, b"1.18.2".to_vec());
        }
        _ => panic!("expected a status response"),
    }
}
