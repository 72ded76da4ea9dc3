use protocol_core::codec::{decode, encode};
use protocol_core::packet::{
    admissible_ids, HandshakeFields, Packet, PlayerSample, ProtocolError, StatusPayload,
};
use protocol_core::state::{ConnectionState, Direction};

fn sample_payload() -> StatusPayload {
    StatusPayload {
        version_protocol: 757,
        version_name: b"1.18.2".to_vec(),
        players_max: 5,
        players_online: 5,
        sample: vec![
            PlayerSample {
                name: b"alice".to_vec(),
                id: b"00000000-0000-0000-0000-000000000001".to_vec(),
            },
            PlayerSample {
                name: b"bob".to_vec(),
                id: b"00000000-0000-0000-0000-000000000002".to_vec(),
            },
        ],
        description: b"{\"text\":\"A server\"}".to_vec(),
        favicon: Vec::new(),
    }
}

#[test]
fn round_trip_handshake() {
    let p = Packet::Handshake(HandshakeFields {
        protocol_version: 757,
        server_address: b"example.test".to_vec(),
        server_port: 25565,
        next_state: 1,
    });
    let frame = encode(&p);
    match decode(ConnectionState::Handshake, Direction::Serverbound, &frame) {
        Ok(Packet::Handshake(h)) => {
            assert_eq!(h.protocol_version, 757);
            assert_eq!(h.server_address, b"example.test".to_vec());
            assert_eq!(h.server_port, 25565);
            assert_eq!(h.next_state, 1);
        }
        other => panic!("expected a handshake, got {:?}", discriminant_name(&other)),
    }
}

#[test]
fn round_trip_status_request() {
    let frame = encode(&Packet::StatusRequest);
    match decode(ConnectionState::Status, Direction::Serverbound, &frame) {
        Ok(Packet::StatusRequest) => {}
        other => panic!("expected a status request, got {:?}", discriminant_name(&other)),
    }
}

#[test]
fn round_trip_status_ping() {
    let frame = encode(&Packet::StatusPing { payload: 0x1122334455667788 });
    match decode(ConnectionState::Status, Direction::Serverbound, &frame) {
        Ok(Packet::StatusPing { payload }) => assert_eq!(payload, 0x1122334455667788),
        other => panic!("expected a ping, got {:?}", discriminant_name(&other)),
    }
}

#[test]
fn round_trip_status_pong() {
    let frame = encode(&Packet::StatusPong { payload: u64::MAX });
    match decode(ConnectionState::Status, Direction::Clientbound, &frame) {
        Ok(Packet::StatusPong { payload }) => assert_eq!(payload, u64::MAX),
        other => panic!("expected a pong, got {:?}", discriminant_name(&other)),
    }
}

#[test]
fn round_trip_status_response() {
    let p = Packet::StatusResponse(sample_payload());
    let frame = encode(&p);
    match decode(ConnectionState::Status, Direction::Clientbound, &frame) {
        Ok(Packet::StatusResponse(pl)) => {
            assert_eq!(pl.version_protocol, 757);
            assert_eq!(pl.version_name, b"1.18.2".to_vec());
            assert_eq!(pl.players_max, 5);
            assert_eq!(pl.players_online, 5);
            assert_eq!(pl.sample.len(), 2);
            assert_eq!(pl.sample[0].name, b"alice".to_vec());
            assert_eq!(
                pl.sample[1].id,
                b"00000000-0000-0000-0000-000000000002".to_vec()
            );
            assert_eq!(pl.description, b"{\"text\":\"A server\"}".to_vec());
            assert_eq!(pl.favicon, Vec::<u8>::new());
        }
        other => panic!("expected a status response, got {:?}", discriminant_name(&other)),
    }
}

#[test]
fn round_trip_login_start() {
    let p = Packet::LoginStart { name: b"alice".to_vec() };
    let frame = encode(&p);
    match decode(ConnectionState::Login, Direction::Serverbound, &frame) {
        Ok(Packet::LoginStart { name }) => assert_eq!(name, b"alice".to_vec()),
        other => panic!("expected a login start, got {:?}", discriminant_name(&other)),
    }
}

#[test]
fn ping_frame_exact_bytes() {
    let frame = encode(&Packet::StatusPing { payload: 0x1122334455667788 });
    assert_eq!(
        frame,
        vec![0, 0, 0, 9, 0x01, 0x11, 0x22, 0x33, 0x44, 0x55, 0x66, 0x77, 0x88]
    );
}

#[test]
fn empty_payload_fields_round_trip() {
    let p = Packet::Handshake(HandshakeFields {
        protocol_version: 0,
        server_address: Vec::new(),
        server_port: 0,
        next_state: 0,
    });
    let frame = encode(&p);
    assert_eq!(frame, vec![0, 0, 0, 15, 0, 0, 0, 0, 0, 0, 0, 0, 0, 0, 0, 0, 0, 0, 0]);
    match decode(ConnectionState::Handshake, Direction::Serverbound, &frame) {
        Ok(Packet::Handshake(h)) => {
            assert_eq!(h.server_address, Vec::<u8>::new());
            assert_eq!(h.next_state, 0);
        }
        other => panic!("expected a handshake, got {:?}", discriminant_name(&other)),
    }
}

#[test]
fn unknown_discriminator_is_rejected() {
    let frame = vec![0, 0, 0, 1, 0x07];
    match decode(ConnectionState::Status, Direction::Serverbound, &frame) {
        Err(ProtocolError::UnknownPacketId) => {}
        other => panic!("expected an unknown-id error, got {:?}", discriminant_name(&other)),
    }
}

#[test]
fn packet_of_another_state_is_unknown_here() {
    let frame = encode(&Packet::StatusPing { payload: 1 });
    match decode(ConnectionState::Handshake, Direction::Serverbound, &frame) {
        Err(ProtocolError::UnknownPacketId) => {}
        other => panic!("expected an unknown-id error, got {:?}", discriminant_name(&other)),
    }
}

#[test]
fn play_state_admits_no_packet() {
    let frame = encode(&Packet::StatusRequest);
    match decode(ConnectionState::Play, Direction::Serverbound, &frame) {
        Err(ProtocolError::UnknownPacketId) => {}
        other => panic!("expected an unknown-id error, got {:?}", discriminant_name(&other)),
    }
}

#[test]
fn truncated_frame_is_rejected() {
    let frame = vec![0, 0, 0, 9, 0x01, 0x11];
    match decode(ConnectionState::Status, Direction::Serverbound, &frame) {
        Err(ProtocolError::TruncatedFrame) => {}
        other => panic!("expected a truncation error, got {:?}", discriminant_name(&other)),
    }
    let empty: Vec<u8> = Vec::new();
    match decode(ConnectionState::Status, Direction::Serverbound, &empty) {
        Err(ProtocolError::TruncatedFrame) => {}
        other => panic!("expected a truncation error, got {:?}", discriminant_name(&other)),
    }
}

#[test]
fn trailing_bytes_are_malformed() {
    let frame = vec![0, 0, 0, 1, 0x00, 0xAA];
    match decode(ConnectionState::Status, Direction::Serverbound, &frame) {
        Err(ProtocolError::MalformedField) => {}
        other => panic!("expected a malformed-field error, got {:?}", discriminant_name(&other)),
    }
}

#[test]
fn oversized_name_length_is_malformed() {
    let mut frame = vec![0, 0, 0, 5, 0x00];
    frame.extend_from_slice(&[0x00, 0x01, 0x00, 0x01]);
    match decode(ConnectionState::Login, Direction::Serverbound, &frame) {
        Err(ProtocolError::MalformedField) => {}
        other => panic!("expected a malformed-field error, got {:?}", discriminant_name(&other)),
    }
}

#[test]
fn longest_admitted_name_round_trips() {
    let name = vec![0x41u8; 0xFFFF];
    let p = Packet::LoginStart { name: name.clone() };
    let frame = encode(&p);
    assert_eq!(frame.len(), 4 + 1 + 4 + 0xFFFF);
    match decode(ConnectionState::Login, Direction::Serverbound, &frame) {
        Ok(Packet::LoginStart { name: decoded }) => assert_eq!(decoded, name),
        other => panic!("expected a login start, got {:?}", discriminant_name(&other)),
    }
}

#[test]
fn schema_lookup_lists_admissible_ids() {
    assert_eq!(
        admissible_ids(ConnectionState::Handshake, Direction::Serverbound),
        vec![0x00]
    );
    assert_eq!(
        admissible_ids(ConnectionState::Status, Direction::Serverbound),
        vec![0x00, 0x01]
    );
    assert_eq!(
        admissible_ids(ConnectionState::Status, Direction::Clientbound),
        vec![0x00, 0x01]
    );
    assert_eq!(
        admissible_ids(ConnectionState::Login, Direction::Serverbound),
        vec![0x00]
    );
    assert_eq!(
        admissible_ids(ConnectionState::Play, Direction::Serverbound),
        Vec::<u8>::new()
    );
}

fn discriminant_name(r: &Result<Packet, ProtocolError>) -> String {
    match r {
        Ok(Packet::Handshake(..)) => "Ok(Handshake)".to_string(),
        Ok(Packet::StatusRequest) => "Ok(StatusRequest)".to_string(),
        Ok(Packet::StatusPing { .. }) => "Ok(StatusPing)".to_string(),
        Ok(Packet::StatusResponse(..)) => "Ok(StatusResponse)".to_string(),
        Ok(Packet::StatusPong { .. }) => "Ok(StatusPong)".to_string(),
        Ok(Packet::LoginStart { .. }) => "Ok(LoginStart)".to_string(),
        Err(e) => format!("Err({:?})", e),
    }
}
