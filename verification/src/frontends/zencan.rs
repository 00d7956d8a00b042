//! zencan frontend: the conversions between this crate's [`CanMessage`] and
//! the message of `zencan-common`'s `BusManager`, here taken field by field
//! as a [`ZenMessage`].

use vstd::prelude::*;

use crate::message::CanMessage;
use crate::types::{ExtendedId, Id, StandardId};

verus! {

/// A zencan CAN identifier.
#[derive(Debug, Clone, Copy, PartialEq, Eq, Structural)]
pub enum ZenCanId {
    /// An extended 29-bit identifier
    Extended(u32),
    /// A standard 11-bit identifier
    Std(u16),
}

/// The fields of a zencan CAN message.
#[derive(Debug, Clone, Copy, PartialEq, Eq)]
pub struct ZenMessage {
    /// The data payload of the message; only the first `dlc` bytes are used
    pub data: [u8; 8],
    /// The length of the data payload
    pub dlc: u8,
    /// Indicates this message is a remote transmission request
    pub rtr: bool,
    /// The id of this message
    pub id: ZenCanId,
}

impl ZenMessage {
    /// The payload: the first `dlc` bytes of the data.
    pub open spec fn spec_payload(self) -> Seq<u8> {
        self.data@.take(self.dlc as int)
    }
}

/// Receive error adapter
#[derive(Debug)]
pub struct ZenCanRecvError(pub String);

/// The identifier that a zencan id stands for, if it is in range.
pub open spec fn spec_id_of_zencan(id: ZenCanId) -> Option<(bool, u32)> {
    match id {
        ZenCanId::Std(raw) => if raw <= 0x7FF {
            Some((false, raw as u32))
        } else {
            None
        },
        ZenCanId::Extended(raw) => if raw <= 0x1FFF_FFFF {
            Some((true, raw))
        } else {
            None
        },
    }
}

/// `id` and `zen` name the same identifier.
pub open spec fn same_id(id: Id, zen: ZenCanId) -> bool {
    spec_id_of_zencan(zen) == Some((id is Extended, id.raw_value()))
}

/// `m` is the message that `zen` describes: same identifier, same remote
/// flag and length, and the payload of a data frame.
pub open spec fn is_message_of(zen: ZenMessage, m: CanMessage) -> bool {
    &&& same_id(m.spec_id(), zen.id)
    &&& m.spec_rtr() == zen.rtr
    &&& m.spec_dlc() == zen.dlc
    &&& m.spec_data() == (if zen.rtr { Seq::<u8>::empty() } else { zen.spec_payload() })
}

/// `zen` is the zencan message for `m`: same identifier and remote flag; a
/// remote frame has no payload and zeroed data, a data frame keeps its
/// length and payload.
pub open spec fn is_zencan_of(m: CanMessage, zen: ZenMessage) -> bool {
    &&& same_id(m.spec_id(), zen.id)
    &&& zen.rtr == m.spec_rtr()
    &&& m.spec_rtr() ==> zen.dlc == 0 && zen.data@ == Seq::new(8, |i: int| 0u8)
    &&& !m.spec_rtr() ==> zen.dlc == m.spec_dlc() && zen.spec_payload() == m.spec_data()
}

/// Convert a zencan message into an `embedded-can` style message.
///
/// Returns `None` if the ID or DLC is out of range.
pub fn message_from_zencan(msg: &ZenMessage) -> (r: Option<CanMessage>)
    requires
        !msg.rtr ==> msg.dlc <= 8,
    ensures
        r is Some <==> spec_id_of_zencan(msg.id) is Some && msg.dlc <= 8,
        r matches Some(m) ==> is_message_of(*msg, m),
{
    let id = match msg.id {
        ZenCanId::Std(raw) => match StandardId::new(raw) {
            Some(id) => Id::Standard(id),
            None => return None,
        },
        ZenCanId::Extended(raw) => match ExtendedId::new(raw) {
            Some(id) => Id::Extended(id),
            None => return None,
        },
    };
    if msg.rtr {
        CanMessage::new_remote(id, msg.dlc as usize)
    } else {
        let payload = vstd::slice::slice_subrange(msg.data.as_slice(), 0, msg.dlc as usize);
        CanMessage::new(id, payload)
    }
}

/// Convert a message into a zencan message: a remote frame becomes a zencan
/// remote request (no payload), a data frame keeps its payload.
pub fn message_to_zencan(msg: &CanMessage) -> (r: ZenMessage)
    ensures
        is_zencan_of(*msg, r),
        forall|j: int| r.dlc <= j < 8 ==> #[trigger] r.data@[j] == 0u8,
{
    let id = match msg.id() {
        Id::Standard(std) => ZenCanId::Std(std.as_raw()),
        Id::Extended(ext) => ZenCanId::Extended(ext.as_raw()),
    };
    let mut data: [u8; 8] = [0u8; 8];
    if msg.is_remote_frame() {
        assert(data@ =~= Seq::new(8, |i: int| 0u8));
        return ZenMessage { data, dlc: 0, rtr: true, id };
    }
    let payload = msg.data();
    let len: usize = payload.len();
    let mut i: usize = 0;
    while i < len
        invariant
            len == payload@.len(),
            len <= 8,
            i <= len,
            forall|j: int| 0 <= j < i ==> #[trigger] data@[j] == payload@[j],
            forall|j: int| i <= j < 8 ==> #[trigger] data@[j] == 0u8,
        decreases len - i,
    {
        data[i] = payload[i];
        i = i + 1;
    }
    assert(data@.take(len as int) =~= payload@);
    ZenMessage { data, dlc: len as u8, rtr: false, id }
}

/// A data message goes to zencan and back unchanged: the zencan message is
/// accepted by `message_from_zencan`, and gives back the same identifier,
/// data and length, still a data frame.
pub proof fn lemma_data_message_roundtrip(msg: CanMessage, zen: ZenMessage, back: CanMessage)
    requires
        !msg.spec_rtr(),
        msg.spec_dlc() <= 8,
        is_zencan_of(msg, zen),
        is_message_of(zen, back),
    ensures
        spec_id_of_zencan(zen.id) is Some && zen.dlc <= 8,
        back.spec_id() == msg.spec_id(),
        back.spec_data() == msg.spec_data(),
        back.spec_dlc() == msg.spec_dlc(),
        !back.spec_rtr(),
{
    lemma_same_id_unique(msg.spec_id(), back.spec_id(), zen.id);
}

/// A remote request goes to zencan and back as a remote request with the
/// same identifier and no data; its length becomes 0.
pub proof fn lemma_remote_message_roundtrip(msg: CanMessage, zen: ZenMessage, back: CanMessage)
    requires
        msg.spec_rtr(),
        is_zencan_of(msg, zen),
        is_message_of(zen, back),
    ensures
        spec_id_of_zencan(zen.id) is Some && zen.dlc <= 8,
        back.spec_id() == msg.spec_id(),
        back.spec_rtr(),
        back.spec_dlc() == 0,
        back.spec_data() == Seq::<u8>::empty(),
{
    lemma_same_id_unique(msg.spec_id(), back.spec_id(), zen.id);
}

/// A zencan data message with an identifier in range and at most 8 data
/// bytes comes back from a round trip through this crate's message with
/// the same identifier, length and payload.
pub proof fn lemma_zencan_data_roundtrip(zen: ZenMessage, m: CanMessage, back: ZenMessage)
    requires
        !zen.rtr,
        zen.dlc <= 8,
        spec_id_of_zencan(zen.id) is Some,
        is_message_of(zen, m),
        is_zencan_of(m, back),
    ensures
        back.id == zen.id,
        back.dlc == zen.dlc,
        back.spec_payload() == zen.spec_payload(),
        !back.rtr,
{
    match (zen.id, back.id) {
        (ZenCanId::Std(a), ZenCanId::Std(b)) => {},
        (ZenCanId::Extended(a), ZenCanId::Extended(b)) => {},
        _ => {},
    }
}

/// A zencan id names at most one identifier.
pub proof fn lemma_same_id_unique(a: Id, b: Id, zen: ZenCanId)
    requires
        same_id(a, zen),
        same_id(b, zen),
    ensures
        a == b,
{
    match (a, b) {
        (Id::Standard(x), Id::Standard(y)) => {
            assert(x.value() as u32 == y.value() as u32);
            StandardId::lemma_value_injective(x, y);
        },
        (Id::Extended(x), Id::Extended(y)) => {
            ExtendedId::lemma_value_injective(x, y);
        },
        _ => {},
    }
}

} // verus!
