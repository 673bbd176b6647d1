//! Tests of the bridge session state.

use shared::bridge::{BridgeError, ConnectionState};
use shared::frame::FrameBuilder;
use shared::message::{ControlMessage, Message, MessageType, MAX_PAYLOAD_SIZE};

#[test]
fn test_connection_state_default() {
    let state = ConnectionState::default();
    assert!(!state.connected);
    assert!(state.esp32_ip.is_none());
    assert_eq!(state.bytes_sent, 0);
}

#[test]
fn default_port_mirrors_max_payload_size() {
    let state = ConnectionState::default();
    assert_eq!(state.port, MAX_PAYLOAD_SIZE as u16);
    assert_eq!(state.bytes_received, 0);
    assert_eq!(state.session_id, 0);
}

#[test]
fn connect_and_disconnect_lifecycle() {
    let mut state = ConnectionState::default();
    state.connect("192.168.4.1".to_owned(), 5288);
    assert!(state.is_connected());
    assert_eq!(state.esp32_ip.as_deref(), Some("192.168.4.1"));
    assert_eq!(state.port, 5288);

    state.disconnect();
    assert!(!state.is_connected());
    assert!(state.esp32_ip.is_none());
    assert_eq!(state.session_id, 0);
}

#[test]
fn record_sent_requires_a_connection() {
    let mut state = ConnectionState::default();
    assert_eq!(state.record_sent(10), Err(BridgeError::NotConnected));
    assert_eq!(state.bytes_sent, 0);

    state.connect("10.0.0.2".to_owned(), 80);
    assert_eq!(state.record_sent(10), Ok(10));
    assert_eq!(state.record_sent(5), Ok(5));
    assert_eq!(state.bytes_sent, 15);
    assert_eq!(state.stats_snapshot(), (true, 15, 0, 0));
}

#[test]
fn handshake_builds_a_frame_and_marks_the_session() {
    let mut state = ConnectionState::default();
    let mut buffer = vec![0u8; 256];
    assert_eq!(state.perform_handshake(&mut buffer), Err(BridgeError::NotConnected));

    state.connect("10.0.0.2".to_owned(), 80);
    let len = state.perform_handshake(&mut buffer).unwrap();
    assert_eq!(state.session_id, 12345);

    let (header, msg) = FrameBuilder::parse_frame(&buffer[..len]).unwrap();
    assert_eq!(header.sequence, 0);
    assert_eq!(header.channel, 0);
    assert_eq!(
        msg,
        Message::Control(ControlMessage::HandshakeRequest { version: 1, features: 0xFF })
    );
}

#[test]
fn handshake_reports_a_hopeless_buffer() {
    let mut state = ConnectionState::default();
    state.connect("10.0.0.2".to_owned(), 80);
    let mut tiny = vec![0u8; 8];
    let result = state.perform_handshake(&mut tiny);
    assert!(matches!(result, Err(BridgeError::ProtocolError(_))));
    assert_eq!(state.session_id, 0);
}

#[test]
fn process_incoming_counts_only_valid_frames() {
    let mut state = ConnectionState::default();
    let mut builder = FrameBuilder::new();
    let mut buffer = vec![0u8; 256];
    let len = builder
        .build_frame(&Message::Pong { timestamp: 7 }, 2, &mut buffer)
        .unwrap();

    let (header, msg) = state.process_incoming(&buffer[..len]).unwrap();
    assert_eq!(header.channel, 2);
    assert_eq!(msg.message_type(), MessageType::Pong);
    assert_eq!(state.bytes_received, len as u64);

    let mut corrupted = buffer[..len].to_vec();
    corrupted[12] ^= 0x01;
    assert!(state.process_incoming(&corrupted).is_err());
    assert_eq!(state.bytes_received, len as u64);
}
