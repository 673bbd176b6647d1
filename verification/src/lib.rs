//! Core of a USB-to-WiFi bridging stack for framed projection data: a
//! fixed-capacity ring buffer with zero-copy views, a binary wire protocol
//! with CRC-16 integrity checking over a typed message model, and a
//! transport-agnostic bidirectional forwarding layer, with the session
//! state a host binding drives at the boundary.

use vstd::prelude::*;

pub mod bridge;
pub mod buffer;
pub mod crc;
pub mod forward;
pub mod frame;
pub mod message;
pub mod varint;

pub use crate::bridge::{BridgeError, ConnectionState};
pub use crate::buffer::{BufferError, BufferSlice, ZeroCopyBuffer, BUFFER_SIZE};
pub use crate::forward::{
    DataForwarder, EndpointReader, EndpointWriter, ForwarderConfig, ForwarderError, ForwarderResult,
    ForwarderState, ForwardingStats,
};
pub use crate::frame::{FrameBuilder, FrameError};
pub use crate::message::{
    ControlMessage, DataPayload, Header, Message, MessageType, MAX_PAYLOAD_SIZE,
};

verus! {

/// Maximum transfer unit for a single transport packet.
pub const MTU: usize = 16384;

} // verus!
