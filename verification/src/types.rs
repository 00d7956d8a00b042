//! Common type definitions shared by all protocols and adapters: CAN
//! identifiers and the frame type.

use vstd::prelude::*;

verus! {

/// Largest standard (11-bit) identifier.
pub const STANDARD_ID_MAX: u16 = 0x7FF;

/// Largest extended (29-bit) identifier.
pub const EXTENDED_ID_MAX: u32 = 0x1FFF_FFFF;

/// Asks `embedded_can::StandardId::new` whether `raw` is a valid standard
/// identifier, and gives back the raw value of the identifier it built.
///
/// Trusted: `embedded_can::StandardId::new` returns `Some` exactly when
/// `raw <= 0x7FF`, and `as_raw` gives back the value it was built from.
#[verifier::external_body]
fn embedded_standard_id(raw: u16) -> (r: Option<u16>)
    ensures
        r == (if raw <= STANDARD_ID_MAX { Some(raw) } else { None::<u16> }),
{
    match embedded_can::StandardId::new(raw) {
        Some(id) => Some(id.as_raw()),
        None => None,
    }
}

/// Asks `embedded_can::ExtendedId::new` whether `raw` is a valid extended
/// identifier, and gives back the raw value of the identifier it built.
///
/// Trusted: `embedded_can::ExtendedId::new` returns `Some` exactly when
/// `raw <= 0x1FFF_FFFF`, and `as_raw` gives back the value it was built from.
#[verifier::external_body]
fn embedded_extended_id(raw: u32) -> (r: Option<u32>)
    ensures
        r == (if raw <= EXTENDED_ID_MAX { Some(raw) } else { None::<u32> }),
{
    match embedded_can::ExtendedId::new(raw) {
        Some(id) => Some(id.as_raw()),
        None => None,
    }
}

/// Standard 11-bit CAN identifier (`0..=0x7FF`).
#[derive(Debug, Clone, Copy, PartialEq, Eq, Structural)]
pub struct StandardId {
    raw: u16,
}

impl StandardId {
    #[verifier::type_invariant]
    spec fn in_range(self) -> bool {
        self.raw <= STANDARD_ID_MAX
    }

    /// The raw value of the identifier.
    pub closed spec fn value(self) -> u16 {
        self.raw
    }

    /// Two standard identifiers with the same raw value are the same.
    pub proof fn lemma_value_injective(a: StandardId, b: StandardId)
        requires
            a.value() == b.value(),
        ensures
            a == b,
    {
    }

    /// Tries to create a `StandardId` from a raw 16-bit integer; `None` if
    /// `raw` is out of range of an 11-bit integer (`> 0x7FF`).
    pub fn new(raw: u16) -> (r: Option<StandardId>)
        ensures
            r is Some <==> raw <= STANDARD_ID_MAX,
            r matches Some(id) ==> id.value() == raw,
    {
        match embedded_standard_id(raw) {
            Some(checked) => Some(StandardId { raw: checked }),
            None => None,
        }
    }

    /// Returns this identifier as a raw 16-bit integer.
    pub fn as_raw(&self) -> (r: u16)
        ensures
            r == self.value(),
            r <= STANDARD_ID_MAX,
    {
        proof {
            use_type_invariant(self);
        }
        self.raw
    }
}

/// Extended 29-bit CAN identifier (`0..=0x1FFF_FFFF`).
#[derive(Debug, Clone, Copy, PartialEq, Eq, Structural)]
pub struct ExtendedId {
    raw: u32,
}

impl ExtendedId {
    #[verifier::type_invariant]
    spec fn in_range(self) -> bool {
        self.raw <= EXTENDED_ID_MAX
    }

    /// The raw value of the identifier.
    pub closed spec fn value(self) -> u32 {
        self.raw
    }

    /// Two extended identifiers with the same raw value are the same.
    pub proof fn lemma_value_injective(a: ExtendedId, b: ExtendedId)
        requires
            a.value() == b.value(),
        ensures
            a == b,
    {
    }

    /// Tries to create an `ExtendedId` from a raw 32-bit integer; `None` if
    /// `raw` is out of range of a 29-bit integer (`> 0x1FFF_FFFF`).
    pub fn new(raw: u32) -> (r: Option<ExtendedId>)
        ensures
            r is Some <==> raw <= EXTENDED_ID_MAX,
            r matches Some(id) ==> id.value() == raw,
    {
        match embedded_extended_id(raw) {
            Some(checked) => Some(ExtendedId { raw: checked }),
            None => None,
        }
    }

    /// Returns this identifier as a raw 32-bit integer.
    pub fn as_raw(&self) -> (r: u32)
        ensures
            r == self.value(),
            r <= EXTENDED_ID_MAX,
    {
        proof {
            use_type_invariant(self);
        }
        self.raw
    }
}

/// A CAN identifier (standard or extended).
#[derive(Debug, Clone, Copy, PartialEq, Eq, Structural)]
pub enum Id {
    /// Standard 11-bit identifier.
    Standard(StandardId),
    /// Extended 29-bit identifier.
    Extended(ExtendedId),
}

impl Id {
    /// The raw value of an identifier, standard or extended.
    pub open spec fn raw_value(self) -> u32 {
        match self {
            Id::Standard(s) => s.value() as u32,
            Id::Extended(e) => e.value(),
        }
    }

    /// The raw value is in the range of the identifier's kind, as it is for
    /// every identifier that a program holds.
    pub open spec fn in_range(self) -> bool {
        match self {
            Id::Standard(s) => s.value() <= STANDARD_ID_MAX,
            Id::Extended(e) => e.value() <= EXTENDED_ID_MAX,
        }
    }
}

/// CAN frame type (Standard or Extended).
#[derive(Debug, Clone, Copy, PartialEq, Eq, Structural)]
pub enum CanFrameType {
    /// Standard frame (11-bit ID)
    Standard,
    /// Extended frame (29-bit ID)
    Extended,
}

impl CanFrameType {
    /// The byte that stands for this frame type on the wire.
    pub open spec fn spec_code(self) -> u8 {
        match self {
            CanFrameType::Standard => 0x01,
            CanFrameType::Extended => 0x02,
        }
    }

    /// The byte that stands for this frame type on the wire
    /// (`0x01` standard, `0x02` extended).
    pub fn code(&self) -> (r: u8)
        ensures
            r == self.spec_code(),
    {
        match self {
            CanFrameType::Standard => 0x01,
            CanFrameType::Extended => 0x02,
        }
    }

    /// The frame type that matches an identifier.
    pub open spec fn spec_from_id(id: Id) -> CanFrameType {
        match id {
            Id::Standard(_) => CanFrameType::Standard,
            Id::Extended(_) => CanFrameType::Extended,
        }
    }
}

impl From<Id> for CanFrameType {
    fn from(id: Id) -> (r: CanFrameType) {
        match id {
            Id::Standard(_) => CanFrameType::Standard,
            Id::Extended(_) => CanFrameType::Extended,
        }
    }
}

impl vstd::std_specs::convert::FromSpecImpl<Id> for CanFrameType {
    open spec fn obeys_from_spec() -> bool {
        true
    }

    open spec fn from_spec(id: Id) -> CanFrameType {
        CanFrameType::spec_from_id(id)
    }
}

} // verus!
