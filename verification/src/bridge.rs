//! Session state of the host-side bridge boundary: an explicitly owned
//! session object handed by reference into each boundary call, holding the
//! connection flag, the peer address, the frame builder and the transfer
//! counters. The foreign-function shell around it stays outside the core.

use vstd::prelude::*;

use crate::frame::{spec_parse_frame, FrameBuilder, FrameError};
use crate::message::{
    spec_message_fields, ControlMessage, Header, Message, SpecMessage, MAX_PAYLOAD_SIZE,
};

verus! {

/// Errors of the host-binding boundary.
#[derive(Debug, Clone, PartialEq, Eq)]
pub enum BridgeError {
    /// No session is connected.
    NotConnected,
    /// Establishing the connection failed.
    ConnectionFailed(String),
    /// The protocol layer rejected a frame or message.
    ProtocolError(String),
    /// The foreign-function boundary failed.
    JniError(String),
    /// The network transport failed.
    NetworkError(String),
}

/// The saturating 64-bit sum of a counter and an increment.
pub open spec fn spec_saturating_add_u64(a: u64, b: u64) -> u64 {
    if a + b > u64::MAX {
        u64::MAX
    } else {
        (a + b) as u64
    }
}

/// The handshake request this side opens a session with.
pub open spec fn spec_handshake_message() -> SpecMessage {
    SpecMessage::Control(ControlMessage::HandshakeRequest { version: 1, features: 0xFF })
}

/// Connection state of one bridge session.
pub struct ConnectionState {
    /// Whether a session is currently connected.
    pub connected: bool,
    /// The peer's address, while connected.
    pub esp32_ip: Option<String>,
    /// The peer's TCP port.
    pub port: u16,
    /// Frame builder for protocol encoding.
    pub frame_builder: FrameBuilder,
    /// Session identifier, assigned by the handshake.
    pub session_id: u32,
    /// Total bytes sent this session.
    pub bytes_sent: u64,
    /// Total bytes received this session.
    pub bytes_received: u64,
}

impl Default for ConnectionState {
    /// A fresh, disconnected session with zeroed counters. The port
    /// placeholder mirrors the maximum payload size until a real port is
    /// set by `connect`.
    fn default() -> (r: Self)
        ensures
            !r.connected,
            r.esp32_ip is None,
            r.port == MAX_PAYLOAD_SIZE as u16,
            r.frame_builder.spec_sequence() == 0,
            r.session_id == 0,
            r.bytes_sent == 0,
            r.bytes_received == 0,
    {
        ConnectionState {
            connected: false,
            esp32_ip: None,
            port: MAX_PAYLOAD_SIZE as u16,
            frame_builder: FrameBuilder::new(),
            session_id: 0,
            bytes_sent: 0,
            bytes_received: 0,
        }
    }
}

impl ConnectionState {
    /// Record a connection to the given peer; the session identifier is
    /// cleared until a handshake assigns one.
    pub fn connect(&mut self, ip: String, port: u16)
        ensures
            final(self).connected,
            final(self).esp32_ip == Some(ip),
            final(self).port == port,
            final(self).session_id == 0,
            final(self).frame_builder == old(self).frame_builder,
            final(self).bytes_sent == old(self).bytes_sent,
            final(self).bytes_received == old(self).bytes_received,
    {
        self.esp32_ip = Some(ip);
        self.port = port;
        self.connected = true;
        self.session_id = 0;
    }

    /// Record a disconnect: the session ends, its counters stay readable.
    pub fn disconnect(&mut self)
        ensures
            !final(self).connected,
            final(self).esp32_ip is None,
            final(self).session_id == 0,
            final(self).port == old(self).port,
            final(self).frame_builder == old(self).frame_builder,
            final(self).bytes_sent == old(self).bytes_sent,
            final(self).bytes_received == old(self).bytes_received,
    {
        self.connected = false;
        self.esp32_ip = None;
        self.session_id = 0;
    }

    /// Whether a session is connected.
    pub fn is_connected(&self) -> (r: bool)
        ensures
            r == self.connected,
    {
        self.connected
    }

    /// Account for `len` bytes handed to the transport. Fails with
    /// `NotConnected`, changing nothing, exactly when no session is
    /// connected; otherwise returns `len` and raises the sent counter,
    /// which never decreases.
    pub fn record_sent(&mut self, len: usize) -> (r: Result<usize, BridgeError>)
        ensures
            match r {
                Ok(n) => {
                    &&& old(self).connected
                    &&& n == len
                    &&& final(self).bytes_sent == spec_saturating_add_u64(
                        old(self).bytes_sent,
                        len as u64,
                    )
                    &&& final(self).bytes_received == old(self).bytes_received
                    &&& final(self).connected == old(self).connected
                    &&& final(self).esp32_ip == old(self).esp32_ip
                    &&& final(self).port == old(self).port
                    &&& final(self).session_id == old(self).session_id
                    &&& final(self).frame_builder == old(self).frame_builder
                },
                Err(e) => {
                    &&& e == BridgeError::NotConnected
                    &&& !old(self).connected
                    &&& *final(self) == *old(self)
                },
            },
            r is Ok <==> old(self).connected,
    {
        if !self.connected {
            return Err(BridgeError::NotConnected);
        }
        self.bytes_sent = self.bytes_sent.saturating_add(len as u64);
        Ok(len)
    }

    /// A read-only snapshot of the session statistics: the connection
    /// flag, bytes sent, bytes received and the session identifier.
    pub fn stats_snapshot(&self) -> (r: (bool, u64, u64, u32))
        ensures
            r.0 == self.connected,
            r.1 == self.bytes_sent,
            r.2 == self.bytes_received,
            r.3 == self.session_id,
    {
        (self.connected, self.bytes_sent, self.bytes_received, self.session_id)
    }

    /// Build the handshake request frame on channel zero into the front of
    /// `buffer`, and mark the session identifier the handshake will
    /// establish. Fails with `NotConnected`, changing nothing, exactly
    /// when no session is connected, and with `ProtocolError` when the
    /// frame does not fit in `buffer`.
    pub fn perform_handshake(&mut self, buffer: &mut Vec<u8>) -> (r: Result<usize, BridgeError>)
        ensures
            final(self).connected == old(self).connected,
            final(self).esp32_ip == old(self).esp32_ip,
            final(self).port == old(self).port,
            final(self).bytes_sent == old(self).bytes_sent,
            final(self).bytes_received == old(self).bytes_received,
            match r {
                Ok(n) => {
                    &&& old(self).connected
                    &&& n == 13 + spec_message_fields(spec_handshake_message()).len()
                    &&& n <= old(buffer)@.len()
                    &&& final(buffer)@ == crate::frame::spec_frame(
                        old(self).frame_builder.spec_sequence(),
                        0,
                        spec_handshake_message(),
                    ) + old(buffer)@.skip(n as int)
                    &&& final(buffer)@.len() == old(buffer)@.len()
                    &&& final(self).frame_builder.spec_sequence() == (old(
                        self,
                    ).frame_builder.spec_sequence() + 1) % 0x10000
                    &&& final(self).session_id == 12345
                },
                Err(e) => {
                    &&& *final(buffer) == *old(buffer)
                    &&& final(self).frame_builder == old(self).frame_builder
                    &&& final(self).session_id == old(self).session_id
                    &&& (e == BridgeError::NotConnected <==> !old(self).connected)
                    &&& (!old(self).connected || e is ProtocolError)
                },
            },
            r is Ok <==> (old(self).connected && old(buffer)@.len() >= 16 && 13
                + spec_message_fields(spec_handshake_message()).len() <= old(buffer)@.len()),
    {
        if !self.connected {
            return Err(BridgeError::NotConnected);
        }
        let msg = Message::Control(
            ControlMessage::HandshakeRequest { version: 1, features: 0xFF },
        );
        match self.frame_builder.build_frame(&msg, 0, buffer) {
            Ok(n) => {
                self.session_id = 12345;
                Ok(n)
            },
            Err(_) => Err(BridgeError::ProtocolError("handshake frame build failed".to_owned())),
        }
    }

    /// Parse one incoming frame and account for its bytes: the received
    /// counter rises by the input length exactly when the frame passes
    /// every check of `parse_frame`; a rejected frame changes nothing and
    /// reports the same error `parse_frame` gives.
    pub fn process_incoming(&mut self, data: &[u8]) -> (r: Result<(Header, Message), FrameError>)
        ensures
            final(self).connected == old(self).connected,
            final(self).esp32_ip == old(self).esp32_ip,
            final(self).port == old(self).port,
            final(self).session_id == old(self).session_id,
            final(self).bytes_sent == old(self).bytes_sent,
            final(self).frame_builder == old(self).frame_builder,
            match r {
                Ok(p) => {
                    &&& spec_parse_frame(data@) == Ok::<_, FrameError>((p.0, p.1@))
                    &&& p.1.wf()
                    &&& final(self).bytes_received == spec_saturating_add_u64(
                        old(self).bytes_received,
                        data@.len() as u64,
                    )
                },
                Err(e) => {
                    &&& spec_parse_frame(data@) == Err::<(Header, SpecMessage), _>(e)
                    &&& final(self).bytes_received == old(self).bytes_received
                },
            },
    {
        match FrameBuilder::parse_frame(data) {
            Ok(p) => {
                self.bytes_received = self.bytes_received.saturating_add(data.len() as u64);
                Ok(p)
            },
            Err(e) => Err(e),
        }
    }
}

} // verus!
