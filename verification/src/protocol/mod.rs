//! Wire protocols of CAN adapters: the [`Protocol`] abstraction, the frames
//! it parses, and hex-string helpers.

use vstd::prelude::*;

use crate::message::CanMessage;
use crate::types::{CanFrameType, Id};

pub mod wareshare_usb_can_a;

pub use wareshare_usb_can_a::{
    CMD_FRAME_MARKER, CMD_FRAME_SIZE, DATA_FRAME_HEADER_SIZE, DATA_FRAME_MAX_SIZE, FRAME_FOOTER, FRAME_START,
};

use wareshare_usb_can_a::WaveshareUsbCanA;

verus! {

/// The fields of a parsed frame: id, data, extended flag.
pub type FrameFields = (u16, Seq<u8>, bool);

/// A parsed CAN frame from the wire
#[derive(Debug, Clone)]
pub struct ParsedFrame {
    /// Frame ID (11-bit or 29-bit)
    pub id: u16,
    /// Frame data (0-8 bytes)
    pub data: Vec<u8>,
    /// True if extended frame (29-bit ID)
    pub is_extended: bool,
}

impl View for ParsedFrame {
    type V = FrameFields;

    open spec fn view(&self) -> FrameFields {
        (self.id, self.data@, self.is_extended)
    }
}

/// Metadata of a single parsed frame (no-alloc variant).
///
/// Frame data is copied into the caller-provided buffer by
/// [`Protocol::parse_next_frame`].
#[derive(Debug, Clone, Copy, PartialEq, Eq, Structural)]
pub struct ParsedFrameMeta {
    /// Frame ID (11-bit or 29-bit)
    pub id: u16,
    /// Data Length Code (0-8)
    pub dlc: u8,
    /// True if extended frame (29-bit ID)
    pub is_extended: bool,
}

impl ParsedFrameMeta {
    /// The fields of the frame this metadata describes, its data being the
    /// first `dlc` bytes of `data_out`.
    pub open spec fn spec_fields(self, data_out: Seq<u8>) -> FrameFields {
        (self.id, data_out.take(self.dlc as int), self.is_extended)
    }
}

/// Every frame that repeated applications of the parsing step `step` find
/// in `buffer`, and how many bytes they drop in all: a step that finds a
/// frame drops some bytes and parsing goes on after them; a step that finds
/// none ends it.
pub open spec fn parse_steps(step: spec_fn(Seq<u8>) -> (int, Option<FrameFields>), buffer: Seq<u8>) -> (int, Seq<FrameFields>)
    decreases buffer.len(),
{
    let (consumed, frame) = step(buffer);
    match frame {
        Some(fields) => if 0 < consumed <= buffer.len() {
            let (more, frames) = parse_steps(step, buffer.skip(consumed));
            (consumed + more, seq![fields] + frames)
        } else {
            (consumed, Seq::empty())
        },
        None => (consumed, Seq::empty()),
    }
}

/// Wire protocol of a CAN adapter.
///
/// Implementations are typically zero-sized types; all state lives in the
/// associated [`Protocol::Config`].
pub trait Protocol {
    /// Protocol-specific configuration (CAN speed, mode, filters, ...)
    type Config;

    /// Maximum size in bytes of the settings frame written by
    /// [`Protocol::build_settings_frame`]
    const SETTINGS_FRAME_MAX_SIZE: usize;

    /// Maximum size in bytes of a data frame written by
    /// [`Protocol::build_data_frame`]
    const DATA_FRAME_MAX_SIZE: usize;

    /// The settings frame for `config`.
    spec fn spec_settings_frame(&self, config: Self::Config) -> Seq<u8>;

    /// The wire bytes that carry a CAN message, or `None` when the protocol
    /// cannot carry it.
    spec fn spec_data_frame(&self, frame_type: CanFrameType, id: u32, data: Seq<u8>) -> Option<Seq<u8>>;

    /// One parsing step over `buffer`: how many bytes may be dropped from
    /// its front, and the next complete frame if there is one.
    spec fn spec_parse_next(&self, buffer: Seq<u8>) -> (int, Option<FrameFields>);

    /// The room that [`Protocol::build_data_frame`] asks of its output
    /// buffer (the value of `DATA_FRAME_MAX_SIZE`).
    spec fn spec_data_frame_room(&self) -> nat;

    /// Build the settings frame sent right after connecting.
    ///
    /// Returns the number of bytes written to `out`; an error, with `out`
    /// untouched, when `out` is shorter than the settings frame.
    fn build_settings_frame(&self, config: &Self::Config, out: &mut [u8]) -> (r: Result<usize, &'static str>)
        ensures
            r is Ok <==> old(out)@.len() >= self.spec_settings_frame(*config).len(),
            r matches Ok(n) ==> {
                &&& n == self.spec_settings_frame(*config).len()
                &&& final(out)@ == self.spec_settings_frame(*config) + old(out)@.skip(n as int)
            },
            r is Err ==> final(out)@ == old(out)@,
    ;

    /// Build a wire data frame for the transmission of a CAN message.
    ///
    /// Returns the number of bytes written to `out`; an error, with `out`
    /// untouched, when `out` is shorter than `DATA_FRAME_MAX_SIZE` or the
    /// protocol cannot carry the message.
    fn build_data_frame(
        &self,
        frame_type: CanFrameType,
        id: u32,
        data: &[u8],
        out: &mut [u8],
    ) -> (r: Result<usize, &'static str>)
        ensures
            r is Ok <==> old(out)@.len() >= self.spec_data_frame_room()
                && self.spec_data_frame(frame_type, id, data@) is Some,
            r matches Ok(n) ==> {
                &&& self.spec_data_frame(frame_type, id, data@) == Some(final(out)@.take(n as int))
                &&& n <= self.spec_data_frame_room()
                &&& final(out)@.skip(n as int) == old(out)@.skip(n as int)
                &&& final(out)@.len() == old(out)@.len()
            },
            r is Err ==> final(out)@ == old(out)@,
    ;

    /// Scan `buffer` for the next complete incoming frame, skipping junk bytes.
    ///
    /// Returns `(consumed, frame)`:
    /// - `consumed` is the number of bytes that can be dropped from the front
    ///   of the buffer (junk bytes, plus the frame itself if one was found).
    ///   When an incomplete frame is found, only the junk before it is
    ///   reported as consumed so the partial frame stays in the buffer.
    /// - `frame` is `Some(meta)` when a complete frame was parsed; its data
    ///   (0-8 bytes) is copied into `data_out`.
    fn parse_next_frame(
        &self,
        buffer: &[u8],
        data_out: &mut [u8; 8],
        debug_traffic: bool,
    ) -> (r: (usize, Option<ParsedFrameMeta>))
        ensures
            r.0 as int == self.spec_parse_next(buffer@).0,
            r.0 <= buffer@.len(),
            r.1 is Some <==> self.spec_parse_next(buffer@).1 is Some,
            r.1 matches Some(meta) ==> {
                &&& meta.dlc <= 8
                &&& r.0 > 0
                &&& self.spec_parse_next(buffer@).1 == Some(meta.spec_fields(final(data_out)@))
                &&& final(data_out)@.skip(meta.dlc as int) == old(data_out)@.skip(meta.dlc as int)
            },
            r.1 is None ==> final(data_out)@ == old(data_out)@,
    ;

    /// Parse all complete frames in `buffer`, appending them to `output`.
    ///
    /// Allocating convenience built on [`Protocol::parse_next_frame`].
    /// Returns the number of bytes consumed from the buffer.
    fn parse_frames(&self, buffer: &[u8], output: &mut Vec<ParsedFrame>, debug_traffic: bool) -> (consumed: usize)
        ensures
            consumed <= buffer@.len(),
            consumed as int == parse_steps(|b: Seq<u8>| self.spec_parse_next(b), buffer@).0,
            final(output)@.map_values(|f: ParsedFrame| f@) == old(output)@.map_values(|f: ParsedFrame| f@)
                + parse_steps(|b: Seq<u8>| self.spec_parse_next(b), buffer@).1,
    {
        let mut total: usize = 0;
        let mut data_out: [u8; 8] = [0u8; 8];
        let ghost done: Seq<FrameFields> = Seq::empty();
        let ghost initial = old(output)@.map_values(|f: ParsedFrame| f@);
        let ghost step = |b: Seq<u8>| self.spec_parse_next(b);
        proof {
            assert(step =~= (|b: Seq<u8>| self.spec_parse_next(b)));
            assert(buffer@.skip(0) =~= buffer@);
            assert(done + parse_steps(|b: Seq<u8>| self.spec_parse_next(b), buffer@).1 =~= parse_steps(|b: Seq<u8>| self.spec_parse_next(b), buffer@).1);
        }

        loop
            invariant_except_break
                total <= buffer@.len(),
                step == (|b: Seq<u8>| self.spec_parse_next(b)),
                forall|b: Seq<u8>| #[trigger] step(b) == self.spec_parse_next(b),
                parse_steps(|b: Seq<u8>| self.spec_parse_next(b), buffer@) == (
                    total + parse_steps(step, buffer@.skip(total as int)).0,
                    done + parse_steps(step, buffer@.skip(total as int)).1,
                ),
                output@.map_values(|f: ParsedFrame| f@) == initial + done,
            ensures
                total <= buffer@.len(),
                total as int == parse_steps(|b: Seq<u8>| self.spec_parse_next(b), buffer@).0,
                output@.map_values(|f: ParsedFrame| f@) == initial + parse_steps(|b: Seq<u8>| self.spec_parse_next(b), buffer@).1,
            decreases buffer@.len() - total,
        {
            let rest = vstd::slice::slice_subrange(buffer, total, buffer.len());
            let (consumed, frame) = self.parse_next_frame(rest, &mut data_out, debug_traffic);
            let ghost start = total as int;
            proof {
                assert(rest@ =~= buffer@.skip(total as int));
            }
            let ghost before = output@.map_values(|f: ParsedFrame| f@);
            match frame {
                Some(meta) => {
                    let data = vstd::slice::slice_to_vec(
                        vstd::slice::slice_subrange(data_out.as_slice(), 0, meta.dlc as usize),
                    );
                    let parsed = ParsedFrame { id: meta.id, data, is_extended: meta.is_extended };
                    proof {
                        let fields = meta.spec_fields(data_out@);
                        assert(parsed@ == fields);
                        assert(buffer@.skip(total as int).skip(consumed as int) =~= buffer@.skip(total + consumed));
                        let tail = parse_steps(step, buffer@.skip(start + consumed));
                        assert(self.spec_parse_next(buffer@.skip(start)) == (consumed as int, Some(fields)));
                        assert(0 < consumed <= buffer@.skip(start).len());
                        assert(parse_steps(step, buffer@.skip(start)) == (consumed + tail.0, seq![fields] + tail.1));
                        assert(done.push(fields) + tail.1 =~= done + (seq![fields] + tail.1));
                        done = done.push(fields);
                    }
                    output.push(parsed);
                    proof {
                        assert(output@.map_values(|f: ParsedFrame| f@) =~= before.push(parsed@));
                    }
                    total = total + consumed;
                },
                None => {
                    proof {
                        assert(parse_steps(step, buffer@.skip(start)) == (consumed as int, Seq::<FrameFields>::empty()));
                        assert(done + Seq::<FrameFields>::empty() =~= done);
                    }
                    total = total + consumed;
                    break;
                },
            }
        }
        total
    }
}

// ============================================
// USB-CAN-A protocol at module level
// ============================================

/// Build a settings/command frame for USB-CAN adapter configuration
/// (see [`WaveshareUsbCanA::build_settings_frame`]).
pub fn build_settings_frame(speed: u8, mode: u8, frame_type: u8, filter_id: u32, mask_id: u32) -> (r: [u8; CMD_FRAME_SIZE])
    ensures
        r@ == wareshare_usb_can_a::spec_settings_frame(speed, mode, frame_type, filter_id, mask_id),
{
    WaveshareUsbCanA::build_settings_frame(speed, mode, frame_type, filter_id, mask_id)
}

/// Build a data frame for transmission into a caller-provided buffer
/// (see [`WaveshareUsbCanA::build_data_frame_into`]).
pub fn build_data_frame_into(
    frame_type: CanFrameType,
    id: u32,
    data: &[u8],
    out: &mut [u8; DATA_FRAME_MAX_SIZE],
) -> (r: Result<usize, &'static str>)
    ensures
        data@.len() > 8 ==> r == Err::<usize, &'static str>("Data too long (max 8 bytes)")
            && final(out)@ == old(out)@,
        data@.len() <= 8 ==> r == Ok::<usize, &'static str>((data@.len() + 5) as usize),
        r matches Ok(n) ==> final(out)@.take(n as int) == wareshare_usb_can_a::spec_data_frame(frame_type, id, data@)
            && final(out)@.skip(n as int) == old(out)@.skip(n as int),
{
    WaveshareUsbCanA::build_data_frame_into(frame_type, id, data, out)
}

/// Build a data frame for transmission
/// (see [`WaveshareUsbCanA::build_data_frame`]).
pub fn build_data_frame(frame_type: CanFrameType, id: u32, data: &[u8]) -> (r: Result<Vec<u8>, &'static str>)
    ensures
        r is Ok <==> data@.len() <= 8,
        r matches Ok(bytes) ==> bytes@ == wareshare_usb_can_a::spec_data_frame(frame_type, id, data@),
        r matches Err(e) ==> e == "Data too long (max 8 bytes)",
{
    WaveshareUsbCanA::build_data_frame(frame_type, id, data)
}

/// Generate checksum for command frames: sum of the `length` bytes from
/// `offset`, masked to 8 bits.
pub fn generate_checksum(data: &[u8], offset: usize, length: usize) -> (r: u8)
    requires
        offset + length <= data.len(),
    ensures
        r == wareshare_usb_can_a::spec_checksum(data@.subrange(offset as int, offset + length)),
{
    WaveshareUsbCanA::generate_checksum(data, offset, length)
}

/// Scan `buffer` for the next complete USB-CAN-A frame, skipping junk bytes
/// (see [`WaveshareUsbCanA::parse_next_frame`]).
pub fn parse_next_frame(buffer: &[u8], data_out: &mut [u8; 8], debug_traffic: bool) -> (r: (
    usize,
    Option<ParsedFrameMeta>,
))
    ensures
        r.0 as int == wareshare_usb_can_a::spec_parse_next(buffer@).0,
        r.0 <= buffer@.len(),
        r.1 is Some <==> wareshare_usb_can_a::spec_parse_next(buffer@).1 is Some,
        r.1 matches Some(meta) ==> {
            &&& meta.dlc <= 8
            &&& r.0 > 0
            &&& wareshare_usb_can_a::spec_parse_next(buffer@).1 == Some(meta.spec_fields(final(data_out)@))
            &&& final(data_out)@.skip(meta.dlc as int) == old(data_out)@.skip(meta.dlc as int)
        },
        r.1 is None ==> final(data_out)@ == old(data_out)@,
{
    WaveshareUsbCanA::parse_next_frame(buffer, data_out, debug_traffic)
}

/// Parse incoming buffer and extract complete USB-CAN-A frames, appending
/// them to `output`.
///
/// Returns the number of bytes consumed from the buffer
pub fn parse_frames(buffer: &[u8], output: &mut Vec<ParsedFrame>, debug_traffic: bool) -> (consumed: usize)
    ensures
        consumed <= buffer@.len(),
        consumed as int == parse_steps(|b: Seq<u8>| wareshare_usb_can_a::spec_parse_next(b), buffer@).0,
        final(output)@.map_values(|f: ParsedFrame| f@) == old(output)@.map_values(|f: ParsedFrame| f@)
            + parse_steps(|b: Seq<u8>| wareshare_usb_can_a::spec_parse_next(b), buffer@).1,
{
    let consumed = WaveshareUsbCanA.parse_frames(buffer, output, debug_traffic);
    proof {
        let p = WaveshareUsbCanA;
        assert((|b: Seq<u8>| p.spec_parse_next(b)) =~= (|b: Seq<u8>| wareshare_usb_can_a::spec_parse_next(b)));
    }
    consumed
}

// ============================================
// Hex strings
// ============================================

/// A hexadecimal digit: `0-9`, `a-f` or `A-F`.
pub open spec fn is_hex_digit(c: char) -> bool {
    ('0' <= c && c <= '9') || ('a' <= c && c <= 'f') || ('A' <= c && c <= 'F')
}

/// The value of a hexadecimal digit.
pub open spec fn hex_digit_value(c: char) -> nat {
    if '0' <= c && c <= '9' {
        (c as int - '0' as int) as nat
    } else if 'a' <= c && c <= 'f' {
        (c as int - 'a' as int + 10) as nat
    } else {
        (c as int - 'A' as int + 10) as nat
    }
}

/// The hexadecimal digits of `s`, in order; every other character dropped.
pub open spec fn hex_digits_of(s: Seq<char>) -> Seq<char>
    decreases s.len(),
{
    if s.len() == 0 {
        Seq::empty()
    } else if is_hex_digit(s.last()) {
        hex_digits_of(s.drop_last()).push(s.last())
    } else {
        hex_digits_of(s.drop_last())
    }
}

/// The number that a sequence of hexadecimal digits spells.
pub open spec fn hex_value(digits: Seq<char>) -> nat
    decreases digits.len(),
{
    if digits.len() == 0 {
        0
    } else {
        hex_value(digits.drop_last()) * 16 + hex_digit_value(digits.last())
    }
}

/// The bytes that an even number of hexadecimal digits spell, two digits
/// (high, low) per byte.
pub open spec fn spec_hex_pairs(digits: Seq<char>) -> Seq<u8> {
    Seq::new(
        digits.len() / 2,
        |i: int| (16 * hex_digit_value(digits[2 * i]) + hex_digit_value(digits[2 * i + 1])) as u8,
    )
}

/// What `hex_to_bytes` makes of a string: `None` when it holds an odd
/// number of hexadecimal digits, else the bytes they spell.
pub open spec fn spec_hex_to_bytes(s: Seq<char>) -> Option<Seq<u8>> {
    let digits = hex_digits_of(s);
    if digits.len() % 2 != 0 {
        None
    } else {
        Some(spec_hex_pairs(digits))
    }
}

/// The number that the hexadecimal digits of `s` spell, when there is at
/// least one and the number fits in a `u32`.
pub open spec fn spec_hex_u32(s: Seq<char>) -> Option<u32> {
    let digits = hex_digits_of(s);
    if digits.len() == 0 || hex_value(digits) > u32::MAX {
        None
    } else {
        Some(hex_value(digits) as u32)
    }
}

fn is_ascii_hex_digit(c: char) -> (r: bool)
    ensures
        r == is_hex_digit(c),
{
    ('0' <= c && c <= '9') || ('a' <= c && c <= 'f') || ('A' <= c && c <= 'F')
}

/// The hexadecimal digits of `s`, in order.
pub(crate) fn collect_hex_digits(s: &str) -> (r: Vec<char>)
    ensures
        r@ == hex_digits_of(s@),
        forall|i: int| 0 <= i < r@.len() ==> is_hex_digit(#[trigger] r@[i]),
{
    let mut digits: Vec<char> = Vec::new();
    let n: usize = s.unicode_len();
    let mut i: usize = 0;
    while i < n
        invariant
            n == s@.len(),
            i <= n,
            digits@ == hex_digits_of(s@.take(i as int)),
            forall|j: int| 0 <= j < digits@.len() ==> is_hex_digit(#[trigger] digits@[j]),
        decreases n - i,
    {
        let c: char = s.get_char(i);
        proof {
            assert(s@.take(i + 1).drop_last() =~= s@.take(i as int));
        }
        if is_ascii_hex_digit(c) {
            digits.push(c);
        }
        i = i + 1;
    }
    assert(s@.take(n as int) =~= s@);
    digits
}

/// Parses two hexadecimal digits with `u8::from_str_radix`.
///
/// Trusted: `u8::from_str_radix` in base 16 accepts any two hexadecimal
/// digits and gives the byte they spell, high digit first.
#[verifier::external_body]
fn u8_from_hex_pair(high: char, low: char) -> (r: Option<u8>)
    requires
        is_hex_digit(high),
        is_hex_digit(low),
    ensures
        r == Some((16 * hex_digit_value(high) + hex_digit_value(low)) as u8),
{
    let pair: String = [high, low].iter().collect();
    u8::from_str_radix(&pair, 16).ok()
}

/// Parses hexadecimal digits with `u32::from_str_radix`.
///
/// Trusted: `u32::from_str_radix` in base 16 fails on an empty string and
/// on a number above `u32::MAX`, and otherwise gives the number the digits
/// spell.
#[verifier::external_body]
pub(crate) fn u32_from_hex_digits(digits: &Vec<char>) -> (r: Option<u32>)
    requires
        forall|i: int| 0 <= i < digits@.len() ==> is_hex_digit(#[trigger] digits@[i]),
    ensures
        r == (if digits@.len() == 0 || hex_value(digits@) > u32::MAX {
            None
        } else {
            Some(hex_value(digits@) as u32)
        }),
{
    let text: String = digits.iter().collect();
    u32::from_str_radix(&text, 16).ok()
}

/// Convert hex string to binary data
///
/// # Arguments
/// * `hex` - Hex string (e.g., "DEADBEEF", spaces allowed)
///
/// # Returns
/// Vector of bytes; `None` when the string holds an odd number of hex
/// digits. Characters that are not hex digits are ignored.
pub fn hex_to_bytes(hex: &str) -> (r: Option<Vec<u8>>)
    ensures
        r is Some <==> spec_hex_to_bytes(hex@) is Some,
        r matches Some(bytes) ==> spec_hex_to_bytes(hex@) == Some(bytes@),
{
    let digits = collect_hex_digits(hex);

    if digits.len() % 2 != 0 {
        return None;
    }

    let mut bytes: Vec<u8> = Vec::new();
    let mut i: usize = 0;
    while i < digits.len()
        invariant
            digits@.len() % 2 == 0,
            i % 2 == 0,
            i <= digits@.len(),
            forall|j: int| 0 <= j < digits@.len() ==> is_hex_digit(#[trigger] digits@[j]),
            bytes@ == spec_hex_pairs(digits@).take(i as int / 2),
        decreases digits@.len() - i,
    {
        let byte = match u8_from_hex_pair(digits[i], digits[i + 1]) {
            Some(b) => b,
            None => return None,
        };
        proof {
            assert(spec_hex_pairs(digits@).take(i as int / 2).push(byte) =~= spec_hex_pairs(digits@).take(
                (i + 2) as int / 2,
            ));
        }
        bytes.push(byte);
        i = i + 2;
    }
    assert(spec_hex_pairs(digits@).take(digits@.len() as int / 2) =~= spec_hex_pairs(digits@));
    Some(bytes)
}

/// Parse a CAN ID from hex string
///
/// Supports 1-8 character hex strings for both standard (11-bit) and
/// extended (29-bit) IDs; non-hex characters are ignored.
pub fn parse_can_id(hex_id: &str) -> (r: Option<Id>)
    ensures
        r is Some <==> (spec_hex_u32(hex_id@) matches Some(raw) && crate::message::spec_id_from_raw(raw) is Some),
        r matches Some(id) ==> spec_hex_u32(hex_id@) == Some(id.raw_value())
            && crate::message::spec_id_from_raw(id.raw_value()) == Some((id is Extended, id.raw_value())),
{
    let digits = collect_hex_digits(hex_id);
    let id = match u32_from_hex_digits(&digits) {
        Some(id) => id,
        None => return None,
    };
    CanMessage::id_from_raw(id)
}

} // verus!
