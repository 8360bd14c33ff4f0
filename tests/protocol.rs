use wire_protocol::clientbound::{ClientBoundPackets, StatusClientBound};
use wire_protocol::datatypes::{StringBuffer, VarInt};
use wire_protocol::protocol::{
    frame_action, handle_handshake, handle_packet, run_handler, Action, FrameAction, ProtocolHandler,
    RuntimeError, States, MAX_FRAME_LENGTH,
};
use wire_protocol::serverbound::{Handler, ServerBoundPackets};

fn handshake(version: u64, address: &str, port: [u8; 2], intent: u64) -> Vec<u8> {
    let mut packet = vec![0x00];
    packet.extend(VarInt::encode(version).unwrap());
    packet.extend(StringBuffer::encode(address).unwrap());
    packet.extend(port);
    packet.extend(VarInt::encode(intent).unwrap());
    packet
}

fn status_document() -> String {
    let mut version = json::JsonValue::new_object();
    version.insert("name", "1.21.8").unwrap();
    version.insert("protocol", 772).unwrap();
    let mut players = json::JsonValue::new_object();
    players.insert("max", -1).unwrap();
    players.insert("online", 0).unwrap();
    players.insert("sample", json::JsonValue::new_array()).unwrap();
    let mut description = json::JsonValue::new_object();
    description.insert("text", ":D").unwrap();
    let mut status = json::JsonValue::new_object();
    status.insert("version", version).unwrap();
    status.insert("players", players).unwrap();
    status.insert("description", description).unwrap();
    status.insert("enforcesSecureChat", false).unwrap();
    json::stringify(status)
}

fn clientbound() -> ClientBoundPackets {
    ClientBoundPackets { status: StatusClientBound { status_document: status_document() } }
}

fn connection_in(status: States) -> ProtocolHandler {
    let mut this = ProtocolHandler::new();
    this.status = status;
    this
}

#[test]
fn handshake_happy_path_moves_to_status() {
    let packet = handshake(772, "localhost", [0x63, 0xDD], 1);
    let mut this = ProtocolHandler::new();
    assert_eq!(this.status, States::HandShake);
    assert_eq!(handle_handshake(&mut this, &packet, packet[0]), None);
    assert_eq!(this.status, States::Status);
    assert_eq!(this.protocol_version, 772);
}

#[test]
fn handshake_login_intent_moves_to_login() {
    let packet = handshake(767, "example.org", [0x63, 0xDD], 2);
    let mut this = ProtocolHandler::new();
    assert_eq!(handle_handshake(&mut this, &packet, packet[0]), None);
    assert_eq!(this.status, States::Login);
    assert_eq!(this.protocol_version, 767);
}

#[test]
fn handshake_bad_intent_is_refused() {
    let packet = handshake(772, "localhost", [0x63, 0xDD], 5);
    let mut this = ProtocolHandler::new();
    assert_eq!(handle_handshake(&mut this, &packet, packet[0]), Some(RuntimeError::IncorrectIntent));
    assert_eq!(this.status, States::HandShake);
    assert_eq!(this.protocol_version, 0);
}

#[test]
fn handshake_wrong_opcode_is_refused() {
    let mut packet = handshake(772, "localhost", [0x63, 0xDD], 1);
    packet[0] = 0x01;
    let mut this = ProtocolHandler::new();
    assert_eq!(handle_handshake(&mut this, &packet, packet[0]), Some(RuntimeError::IncorrectProtocol));
    packet[0] = 0xFF;
    assert_eq!(handle_handshake(&mut this, &packet, packet[0]), Some(RuntimeError::IncorrectProtocol));
    assert_eq!(this.status, States::HandShake);
}

#[test]
fn handshake_truncated_is_decode_error() {
    let packet = handshake(772, "localhost", [0x63, 0xDD], 1);
    for n in 1..packet.len() {
        let prefix = packet[..n].to_vec();
        let mut this = ProtocolHandler::new();
        assert_eq!(handle_handshake(&mut this, &prefix, prefix[0]), Some(RuntimeError::DecodeError));
        assert_eq!(this.status, States::HandShake);
    }
}

#[test]
fn handshake_invalid_address_is_decode_error() {
    let packet = vec![0x00, 0x84, 0x06, 0x02, 0xC3, 0x28, 0x63, 0xDD, 0x01];
    let mut this = ProtocolHandler::new();
    assert_eq!(handle_handshake(&mut this, &packet, packet[0]), Some(RuntimeError::DecodeError));
}

#[test]
fn handle_packet_runs_handshake_first() {
    let registry = ServerBoundPackets::new();
    let packets = clientbound();
    let packet = handshake(772, "localhost", [0x63, 0xDD], 1);
    let mut this = ProtocolHandler::new();
    assert!(matches!(handle_packet(&mut this, &packet, &registry, &packets), Action::Nothing));
    assert_eq!(this.status, States::Status);
    let bad = handshake(772, "localhost", [0x63, 0xDD], 5);
    let mut other = ProtocolHandler::new();
    assert!(matches!(
        handle_packet(&mut other, &bad, &registry, &packets),
        Action::Fail(RuntimeError::IncorrectIntent)
    ));
}

#[test]
fn status_request_sends_status_document() {
    let registry = ServerBoundPackets::new();
    let packets = clientbound();
    let mut this = connection_in(States::Status);
    let response = match handle_packet(&mut this, &vec![0x00], &registry, &packets) {
        Action::Send(bytes) => bytes,
        other => panic!("unexpected action {:?}", other),
    };
    assert_eq!(response[0], 0x00);
    let text = StringBuffer(&response).decode(1).unwrap();
    assert_eq!(text.offset as usize, response.len());
    let document = json::parse(&text.value).unwrap();
    assert_eq!(document["version"]["protocol"].as_i32(), Some(772));
    assert_eq!(document["version"]["name"].as_str(), Some("1.21.8"));
    assert_eq!(this.status, States::Status);
}

#[test]
fn status_response_frames_document() {
    let status = StatusClientBound { status_document: "{}".to_string() };
    assert_eq!(status.status_response(), vec![0x00, 0x02, b'{', b'}']);
}

#[test]
fn ping_response_is_big_endian() {
    assert_eq!(StatusClientBound::ping_response(1), vec![0x01, 0, 0, 0, 0, 0, 0, 0, 1]);
    assert_eq!(
        StatusClientBound::ping_response(0x0102030405060708),
        vec![0x01, 1, 2, 3, 4, 5, 6, 7, 8]
    );
    assert_eq!(StatusClientBound::ping_response(-1), vec![0x01, 0xFF, 0xFF, 0xFF, 0xFF, 0xFF, 0xFF, 0xFF, 0xFF]);
}

#[test]
fn ping_request_is_echoed() {
    let registry = ServerBoundPackets::new();
    let packets = clientbound();
    let mut this = connection_in(States::Status);
    let packet = vec![0x01, 0x80, 0, 0, 0, 0x12, 0x34, 0x56, 0x78];
    match handle_packet(&mut this, &packet, &registry, &packets) {
        Action::Send(bytes) => assert_eq!(bytes, packet),
        other => panic!("unexpected action {:?}", other),
    }
}

#[test]
fn short_ping_request_is_decode_error() {
    let packets = clientbound();
    assert!(matches!(
        run_handler(Handler::PingResponse, &vec![0x01, 0, 0], &packets),
        Action::Fail(RuntimeError::DecodeError)
    ));
}

#[test]
fn unknown_opcode_is_ignored() {
    let registry = ServerBoundPackets::new();
    let packets = clientbound();
    let mut this = connection_in(States::Status);
    assert!(matches!(handle_packet(&mut this, &vec![0x7F, 1, 2], &registry, &packets), Action::Nothing));
    let mut login = connection_in(States::Login);
    assert!(matches!(handle_packet(&mut login, &vec![0x00], &registry, &packets), Action::Nothing));
    assert_eq!(login.status, States::Login);
}

#[test]
fn registry_lookup() {
    let registry = ServerBoundPackets::new();
    assert_eq!(registry.lookup(States::Status, 0x00), Some(Handler::StatusResponse));
    assert_eq!(registry.lookup(States::Status, 0x01), Some(Handler::PingResponse));
    assert_eq!(registry.lookup(States::Status, 0x02), None);
    assert_eq!(registry.lookup(States::HandShake, 0x00), None);
    assert_eq!(registry.lookup(States::Play, 0x00), None);
}

#[test]
fn frame_action_bounds() {
    assert_eq!(frame_action(0), FrameAction::Close);
    assert_eq!(frame_action(1), FrameAction::Read(1));
    assert_eq!(frame_action(MAX_FRAME_LENGTH), FrameAction::Read(1048576));
    assert_eq!(frame_action(MAX_FRAME_LENGTH + 1), FrameAction::TooLarge);
    assert_eq!(frame_action(34359738367), FrameAction::TooLarge);
}

#[test]
fn clean_close_before_first_byte() {
    let decoder = wire_protocol::datatypes::LengthDecoder::new();
    let length = decoder.end_of_stream().unwrap();
    assert_eq!(frame_action(length), FrameAction::Close);
}

#[test]
fn oversized_frame_is_rejected_before_reading() {
    let mut decoder = wire_protocol::datatypes::LengthDecoder::new();
    let prefix = VarInt::encode(MAX_FRAME_LENGTH + 1).unwrap();
    let mut length = None;
    for byte in prefix {
        if let wire_protocol::datatypes::LengthStep::Complete(value) = decoder.push_byte(byte) {
            length = Some(value);
        }
    }
    assert_eq!(length, Some(1048577));
    assert_eq!(frame_action(length.unwrap()), FrameAction::TooLarge);
}
