//! CAN frame type with multiple constructors: a builder-style wrapper
//! around [`CanMessage`] that also records the frame type.

use vstd::prelude::*;

use crate::message::{CanMessage, MAX_DATA_LEN};
use crate::protocol::{
    collect_hex_digits, hex_to_bytes, spec_hex_to_bytes, spec_hex_u32, u32_from_hex_digits,
};
use crate::types::{CanFrameType, ExtendedId, Id, StandardId, EXTENDED_ID_MAX, STANDARD_ID_MAX};

verus! {

/// A CAN frame that can be sent over USB-CAN adapter
///
/// This is a builder-style wrapper around [`CanMessage`] with additional
/// constructors for common use cases.
#[derive(Debug, Clone, Copy)]
pub struct Frame {
    /// The underlying CAN message
    pub message: CanMessage,
    /// Frame type (Standard or Extended)
    pub frame_type: CanFrameType,
}

impl Frame {
    /// The frame that wraps `message`, its type read off the identifier.
    pub open spec fn spec_from_message(message: CanMessage) -> Frame {
        Frame { message, frame_type: CanFrameType::spec_from_id(message.spec_id()) }
    }

    /// `self` is the data frame with raw identifier `id` and data `data`,
    /// standard when `id <= 0x7FF` and extended otherwise.
    pub open spec fn is_data_frame_with(self, id: u32, data: Seq<u8>) -> bool {
        &&& self.message.spec_id().raw_value() == id
        &&& (self.message.spec_id() is Standard <==> id <= STANDARD_ID_MAX)
        &&& self.frame_type == CanFrameType::spec_from_id(self.message.spec_id())
        &&& self.message.spec_data() == data
        &&& self.message.spec_dlc() == data.len()
        &&& !self.message.spec_rtr()
    }

    /// Create a frame from a [`CanMessage`]
    pub fn from_message(message: CanMessage) -> (r: Frame)
        ensures
            r == Frame::spec_from_message(message),
    {
        let frame_type = if message.is_extended() {
            CanFrameType::Extended
        } else {
            CanFrameType::Standard
        };
        Frame { message, frame_type }
    }

    /// Create a standard frame with ID and data
    pub fn standard(id: StandardId, data: &[u8]) -> (r: Frame)
        requires
            data@.len() <= MAX_DATA_LEN,
        ensures
            r.message.spec_id() == Id::Standard(id),
            r.message.spec_data() == data@,
            r.message.spec_dlc() == data@.len(),
            !r.message.spec_rtr(),
            r.frame_type == CanFrameType::Standard,
    {
        let message = match CanMessage::new(Id::Standard(id), data) {
            Some(m) => m,
            None => unreached(),
        };
        Frame { message, frame_type: CanFrameType::Standard }
    }

    /// Create an extended frame with ID and data
    pub fn extended(id: ExtendedId, data: &[u8]) -> (r: Frame)
        requires
            data@.len() <= MAX_DATA_LEN,
        ensures
            r.message.spec_id() == Id::Extended(id),
            r.message.spec_data() == data@,
            r.message.spec_dlc() == data@.len(),
            !r.message.spec_rtr(),
            r.frame_type == CanFrameType::Extended,
    {
        let message = match CanMessage::new(Id::Extended(id), data) {
            Some(m) => m,
            None => unreached(),
        };
        Frame { message, frame_type: CanFrameType::Extended }
    }

    /// Convert hex string to binary data
    ///
    /// # Arguments
    /// * `hex` - Hex string (e.g., "DEADBEEF", spaces allowed)
    ///
    /// # Returns
    /// Vector of bytes
    pub fn hex_to_bytes(hex: &str) -> (r: Option<Vec<u8>>)
        ensures
            r is Some <==> spec_hex_to_bytes(hex@) is Some,
            r matches Some(bytes) ==> spec_hex_to_bytes(hex@) == Some(bytes@),
    {
        hex_to_bytes(hex)
    }

    /// Create a frame from raw ID value and data
    ///
    /// ID is automatically determined as Standard (<= 0x7FF) or Extended
    pub fn with_id(id: u32, data: &[u8]) -> (r: Frame)
        requires
            id <= EXTENDED_ID_MAX,
            data@.len() <= MAX_DATA_LEN,
        ensures
            r.is_data_frame_with(id, data@),
    {
        let can_id = match CanMessage::id_from_raw(id) {
            Some(can_id) => can_id,
            None => unreached(),
        };
        let frame_type = if id <= 0x7FF {
            CanFrameType::Standard
        } else {
            CanFrameType::Extended
        };
        let message = match CanMessage::new(can_id, data) {
            Some(m) => m,
            None => unreached(),
        };
        Frame { message, frame_type }
    }

    /// Create a frame from hex strings: the hex digits of `hex_id` give the
    /// identifier and those of `hex_data` the data (other characters are
    /// ignored). `None` when the identifier has no hex digit or overflows a
    /// `u32`, or the data has an odd number of hex digits.
    pub fn from_hex(hex_id: &str, hex_data: &str) -> (r: Option<Frame>)
        requires
            spec_hex_u32(hex_id@) matches Some(id) ==> id <= EXTENDED_ID_MAX,
            spec_hex_to_bytes(hex_data@) matches Some(data) ==> data.len() <= MAX_DATA_LEN,
        ensures
            r is Some <==> spec_hex_u32(hex_id@) is Some && spec_hex_to_bytes(hex_data@) is Some,
            r matches Some(f) ==> f.is_data_frame_with(
                spec_hex_u32(hex_id@).unwrap(),
                spec_hex_to_bytes(hex_data@).unwrap(),
            ),
    {
        let digits = collect_hex_digits(hex_id);
        let id = match u32_from_hex_digits(&digits) {
            Some(id) => id,
            None => return None,
        };
        let data = match Self::hex_to_bytes(hex_data) {
            Some(data) => data,
            None => return None,
        };
        Some(Self::with_id(id, data.as_slice()))
    }

    /// Create a remote transmission request (RTR) frame
    pub fn rtr(id: Id) -> (r: Frame)
        ensures
            r.message.spec_id() == id,
            r.message.spec_rtr(),
            r.message.spec_dlc() == 0,
            r.message.spec_data() == Seq::<u8>::empty(),
            r.frame_type == CanFrameType::spec_from_id(id),
    {
        let frame_type = match id {
            Id::Standard(_) => CanFrameType::Standard,
            Id::Extended(_) => CanFrameType::Extended,
        };
        let message = match CanMessage::new_remote(id, 0) {
            Some(m) => m,
            None => unreached(),
        };
        Frame { message, frame_type }
    }

    /// Get the frame ID
    pub fn id(&self) -> (r: Id)
        ensures
            r == self.message.spec_id(),
    {
        self.message.id()
    }

    /// Get the raw ID value as `u32`
    pub fn raw_id(&self) -> (r: u32)
        ensures
            r == self.message.spec_id().raw_value(),
    {
        CanMessage::raw_id(self.message.id())
    }

    /// Get the frame data
    pub fn data(&self) -> (r: &[u8])
        ensures
            r@ == self.message.spec_data(),
    {
        self.message.data()
    }

    /// Get the DLC (Data Length Code)
    pub fn dlc(&self) -> (r: u8)
        ensures
            r == self.message.spec_dlc(),
    {
        self.message.dlc() as u8
    }

    /// Check if this is an extended frame
    pub fn is_extended(&self) -> (r: bool)
        ensures
            r == (self.frame_type == CanFrameType::Extended),
    {
        self.frame_type == CanFrameType::Extended
    }

    /// Check if this is an RTR frame
    pub fn is_rtr(&self) -> (r: bool)
        ensures
            r == self.message.spec_rtr(),
    {
        self.message.is_remote_frame()
    }
}

/// A message wrapped into a frame and taken out again is the same message,
/// and the frame's type is that of the message's identifier.
pub proof fn lemma_message_frame_roundtrip(message: CanMessage)
    ensures
        Frame::spec_from_message(message).message == message,
        Frame::spec_from_message(message).frame_type == CanFrameType::spec_from_id(message.spec_id()),
        (Frame::spec_from_message(message).frame_type == CanFrameType::Extended) == (message.spec_id() is Extended),
{
}

impl From<CanMessage> for Frame {
    fn from(message: CanMessage) -> (r: Frame) {
        Self::from_message(message)
    }
}

impl vstd::std_specs::convert::FromSpecImpl<CanMessage> for Frame {
    open spec fn obeys_from_spec() -> bool {
        true
    }

    open spec fn from_spec(message: CanMessage) -> Frame {
        Frame::spec_from_message(message)
    }
}

impl From<Frame> for CanMessage {
    fn from(frame: Frame) -> (r: CanMessage) {
        frame.message
    }
}

impl vstd::std_specs::convert::FromSpecImpl<Frame> for CanMessage {
    open spec fn obeys_from_spec() -> bool {
        true
    }

    open spec fn from_spec(frame: Frame) -> CanMessage {
        frame.message
    }
}

} // verus!
