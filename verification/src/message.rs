//! The owned CAN 2.0 message type (classic CAN, up to 8 data bytes) used for
//! received messages, with the constructors and accessors of a CAN frame.

use vstd::prelude::*;

use crate::types::{ExtendedId, Id, StandardId, EXTENDED_ID_MAX, STANDARD_ID_MAX};

verus! {

/// Largest data length of a classic CAN frame.
pub const MAX_DATA_LEN: usize = 8;

/// The identifier that a raw value stands for: standard up to `0x7FF`,
/// extended up to `0x1FFF_FFFF`, none above.
pub open spec fn spec_id_from_raw(raw: u32) -> Option<(bool, u32)> {
    if raw <= STANDARD_ID_MAX {
        Some((false, raw))
    } else if raw <= EXTENDED_ID_MAX {
        Some((true, raw))
    } else {
        None
    }
}

/// A CAN 2.0 message (classic CAN, up to 8 data bytes).
#[derive(Debug, Clone, Copy, PartialEq, Eq)]
pub struct CanMessage {
    id: Id,
    data: [u8; MAX_DATA_LEN],
    dlc: u8,
    rtr: bool,
}

impl CanMessage {
    #[verifier::type_invariant]
    spec fn dlc_in_range(self) -> bool {
        self.dlc as usize <= MAX_DATA_LEN
    }

    /// The identifier of the message.
    pub closed spec fn spec_id(self) -> Id {
        self.id
    }

    /// The data length code of the message.
    pub closed spec fn spec_dlc(self) -> nat {
        self.dlc as nat
    }

    /// Whether the message is a remote transmission request.
    pub closed spec fn spec_rtr(self) -> bool {
        self.rtr
    }

    /// The data of the message: empty for a remote frame, else its first
    /// `dlc` bytes.
    pub closed spec fn spec_data(self) -> Seq<u8> {
        if self.rtr {
            Seq::empty()
        } else {
            self.data@.take(self.dlc as int)
        }
    }

    /// Extract the raw ID value (11-bit or 29-bit) as `u32`.
    pub fn raw_id(id: Id) -> (r: u32)
        ensures
            r == id.raw_value(),
            r <= EXTENDED_ID_MAX,
            id is Standard ==> r <= STANDARD_ID_MAX,
    {
        match id {
            Id::Standard(id) => id.as_raw() as u32,
            Id::Extended(id) => id.as_raw(),
        }
    }

    /// Build an [`Id`] from a raw value, choosing standard vs. extended by range.
    ///
    /// Returns `None` if `raw` does not fit in 29 bits.
    pub fn id_from_raw(raw: u32) -> (r: Option<Id>)
        ensures
            r is Some <==> spec_id_from_raw(raw) is Some,
            r matches Some(id) ==> spec_id_from_raw(raw) == Some((id is Extended, id.raw_value())),
    {
        if raw <= 0x7FF {
            match StandardId::new(raw as u16) {
                Some(id) => Some(Id::Standard(id)),
                None => None,
            }
        } else {
            match ExtendedId::new(raw) {
                Some(id) => Some(Id::Extended(id)),
                None => None,
            }
        }
    }

    /// A data frame with identifier `id` and data `data`; `None` when `data`
    /// holds more than 8 bytes.
    pub fn new(id: Id, data: &[u8]) -> (r: Option<CanMessage>)
        ensures
            r is Some <==> data@.len() <= MAX_DATA_LEN,
            r matches Some(m) ==> {
                &&& m.spec_id() == id
                &&& m.spec_data() == data@
                &&& m.spec_dlc() == data@.len()
                &&& !m.spec_rtr()
            },
    {
        if data.len() > MAX_DATA_LEN {
            return None;
        }
        let mut buf: [u8; MAX_DATA_LEN] = [0u8; MAX_DATA_LEN];
        let len: usize = data.len();
        let mut i: usize = 0;
        while i < len
            invariant
                len == data@.len(),
                len <= MAX_DATA_LEN,
                i <= len,
                forall|j: int| 0 <= j < i ==> #[trigger] buf@[j] == data@[j],
            decreases len - i,
        {
            buf[i] = data[i];
            i = i + 1;
        }
        assert(buf@.take(len as int) =~= data@);
        Some(CanMessage { id, data: buf, dlc: len as u8, rtr: false })
    }

    /// A remote transmission request with identifier `id` and data length
    /// code `dlc`; `None` when `dlc` is above 8.
    pub fn new_remote(id: Id, dlc: usize) -> (r: Option<CanMessage>)
        ensures
            r is Some <==> dlc <= MAX_DATA_LEN,
            r matches Some(m) ==> {
                &&& m.spec_id() == id
                &&& m.spec_data() == Seq::<u8>::empty()
                &&& m.spec_dlc() == dlc
                &&& m.spec_rtr()
            },
    {
        if dlc > MAX_DATA_LEN {
            return None;
        }
        Some(CanMessage { id, data: [0u8; MAX_DATA_LEN], dlc: dlc as u8, rtr: true })
    }

    /// Copy of a CAN frame given by its parts: a remote request of length
    /// `dlc` when `is_remote`, else a data frame carrying `data`; `None` when
    /// the length is above 8.
    pub fn from_parts(id: Id, is_remote: bool, dlc: usize, data: &[u8]) -> (r: Option<CanMessage>)
        ensures
            r is Some <==> (if is_remote { dlc <= MAX_DATA_LEN } else { data@.len() <= MAX_DATA_LEN }),
            r matches Some(m) ==> {
                &&& m.spec_id() == id
                &&& m.spec_rtr() == is_remote
                &&& m.spec_dlc() == (if is_remote { dlc as nat } else { data@.len() })
                &&& m.spec_data() == (if is_remote { Seq::<u8>::empty() } else { data@ })
            },
    {
        if is_remote {
            CanMessage::new_remote(id, dlc)
        } else {
            CanMessage::new(id, data)
        }
    }

    /// Whether the message has an extended identifier.
    pub fn is_extended(&self) -> (r: bool)
        ensures
            r == (self.spec_id() is Extended),
    {
        match self.id {
            Id::Extended(_) => true,
            Id::Standard(_) => false,
        }
    }

    /// Whether the message is a remote transmission request.
    pub fn is_remote_frame(&self) -> (r: bool)
        ensures
            r == self.spec_rtr(),
    {
        self.rtr
    }

    /// The identifier of the message.
    pub fn id(&self) -> (r: Id)
        ensures
            r == self.spec_id(),
    {
        self.id
    }

    /// The data length code of the message.
    pub fn dlc(&self) -> (r: usize)
        ensures
            r == self.spec_dlc(),
            r <= MAX_DATA_LEN,
    {
        proof {
            use_type_invariant(self);
        }
        self.dlc as usize
    }

    /// The data of the message: empty for a remote frame.
    pub fn data(&self) -> (r: &[u8])
        ensures
            r@ == self.spec_data(),
            r@.len() <= MAX_DATA_LEN,
            !self.spec_rtr() ==> r@.len() == self.spec_dlc(),
    {
        proof {
            use_type_invariant(self);
        }
        if self.rtr {
            vstd::slice::slice_subrange(self.data.as_slice(), 0, 0)
        } else {
            vstd::slice::slice_subrange(self.data.as_slice(), 0, self.dlc as usize)
        }
    }
}

} // verus!
