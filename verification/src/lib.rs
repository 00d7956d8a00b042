//! USB-CAN-A adapter driver: identifiers, CAN messages, the adapter's wire
//! protocol, and the byte-buffer state that the transports drive.

pub mod backends;
pub mod frame;
pub mod frontends;
pub mod message;
pub mod protocol;
pub mod types;

pub use frame::Frame;
pub use message::CanMessage;
pub use protocol::{hex_to_bytes, parse_can_id, ParsedFrame, ParsedFrameMeta, Protocol};
pub use types::{CanFrameType, ExtendedId, Id, StandardId};
