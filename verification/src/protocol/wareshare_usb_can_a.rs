//! USB-CAN-A wire protocol: configuration types, the settings (command)
//! frame, and data frames in both directions.

use vstd::prelude::*;

use crate::protocol::{parse_steps, FrameFields, ParsedFrameMeta, Protocol};
use crate::types::CanFrameType;

verus! {

/// USB-CAN command frame size
pub const CMD_FRAME_SIZE: usize = 20;

/// USB-CAN data frame header size (0xAA + info + id)
pub const DATA_FRAME_HEADER_SIZE: usize = 4;

/// USB-CAN data frame footer byte
pub const FRAME_FOOTER: u8 = 0x55;

/// USB-CAN command frame marker
pub const CMD_FRAME_MARKER: u8 = 0x55;

/// USB-CAN frame start byte
pub const FRAME_START: u8 = 0xAA;

/// Max wire size of a data frame: header(2) + id(2) + data(8) + footer(1)
pub const DATA_FRAME_MAX_SIZE: usize = 13;

/// Wire length of the shortest data frame (no data): the parser looks at a
/// position only while at least this many bytes remain from it.
pub const MIN_FRAME_LEN: usize = 5;

// ============================================
// Byte-level model of the wire format
// ============================================

/// The four little-endian bytes of `x`.
pub open spec fn spec_le_bytes(x: u32) -> Seq<u8> {
    seq![
        (x & 0xFF) as u8,
        ((x >> 8) & 0xFF) as u8,
        ((x >> 16) & 0xFF) as u8,
        ((x >> 24) & 0xFF) as u8,
    ]
}

/// The sum of a byte sequence.
pub open spec fn spec_byte_sum(s: Seq<u8>) -> nat
    decreases s.len(),
{
    if s.len() == 0 {
        0
    } else {
        spec_byte_sum(s.drop_last()) + s.last() as nat
    }
}

/// Checksum of a byte sequence: the sum of its bytes, masked to 8 bits.
pub open spec fn spec_checksum(s: Seq<u8>) -> u8 {
    (spec_byte_sum(s) % 256) as u8
}

/// The first 19 bytes of a settings frame: everything but the checksum.
pub open spec fn spec_settings_body(speed: u8, mode: u8, frame_type: u8, filter_id: u32, mask_id: u32) -> Seq<u8> {
    seq![FRAME_START, CMD_FRAME_MARKER, 0x12u8, speed, frame_type]
        + spec_le_bytes(filter_id)
        + spec_le_bytes(mask_id)
        + seq![mode, 0x01u8, 0u8, 0u8, 0u8, 0u8]
}

/// The settings frame: the body, then the checksum of its bytes 2 to 18.
pub open spec fn spec_settings_frame(speed: u8, mode: u8, frame_type: u8, filter_id: u32, mask_id: u32) -> Seq<u8> {
    let body = spec_settings_body(speed, mode, frame_type, filter_id, mask_id);
    body.push(spec_checksum(body.subrange(2, 19)))
}

/// The info byte of a data frame: `0xC0`, plus `0x20` for an extended
/// frame, plus the data length.
pub open spec fn spec_info_byte(frame_type: CanFrameType, len: nat) -> u8 {
    (0xC0 + (if frame_type == CanFrameType::Extended { 0x20int } else { 0int }) + len) as u8
}

/// The wire bytes of a data frame: start, info, the low 16 bits of the id
/// (little endian), the data, the footer.
pub open spec fn spec_data_frame(frame_type: CanFrameType, id: u32, data: Seq<u8>) -> Seq<u8> {
    seq![FRAME_START, spec_info_byte(frame_type, data.len()), (id & 0xFF) as u8, ((id >> 8) & 0xFF) as u8]
        + data
        + seq![FRAME_FOOTER]
}

/// A frame start at `k`: the start byte, an info byte whose high nibble is
/// `0xC` or `0xE`, and a data length of at most 8.
pub open spec fn frame_start_at(buf: Seq<u8>, k: int) -> bool {
    &&& 0 <= k
    &&& k + 1 < buf.len()
    &&& buf[k] == FRAME_START
    &&& (buf[k + 1] >> 4u8 == 0x0Cu8 || buf[k + 1] >> 4u8 == 0x0Eu8)
    &&& buf[k + 1] & 0x0Fu8 <= 8
}

/// Data length announced by the info byte at `k + 1`.
pub open spec fn dlc_at(buf: Seq<u8>, k: int) -> int {
    (buf[k + 1] & 0x0Fu8) as int
}

/// Wire length of the frame that starts at `k`.
pub open spec fn frame_len_at(buf: Seq<u8>, k: int) -> int {
    dlc_at(buf, k) + 5
}

/// A complete, well-terminated frame at `k`.
pub open spec fn complete_frame_at(buf: Seq<u8>, k: int) -> bool {
    &&& frame_start_at(buf, k)
    &&& k + frame_len_at(buf, k) <= buf.len()
    &&& buf[k + frame_len_at(buf, k) - 1] == FRAME_FOOTER
}

/// A frame start at `k` whose frame runs past the end of the buffer.
pub open spec fn partial_frame_at(buf: Seq<u8>, k: int) -> bool {
    &&& frame_start_at(buf, k)
    &&& k + frame_len_at(buf, k) > buf.len()
}

/// The parser stops at `k`: at least 5 bytes remain from `k`, and a
/// complete frame or the beginning of one lies there.
pub open spec fn stops_at(buf: Seq<u8>, k: int) -> bool {
    &&& buf.len() - k >= MIN_FRAME_LEN
    &&& (complete_frame_at(buf, k) || partial_frame_at(buf, k))
}

/// The first position from `k` on where the parser stops, or the position
/// from which fewer than 5 bytes remain.
pub open spec fn first_stop_from(buf: Seq<u8>, k: int) -> int
    decreases buf.len() - k,
{
    if buf.len() - k < MIN_FRAME_LEN || stops_at(buf, k) {
        k
    } else {
        first_stop_from(buf, k + 1)
    }
}

/// The fields of the complete frame at `k`: id (little endian), data,
/// extended flag.
pub open spec fn frame_fields_at(buf: Seq<u8>, k: int) -> FrameFields {
    (
        (buf[k + 2] as int + 256 * buf[k + 3] as int) as u16,
        buf.subrange(k + 4, k + 4 + dlc_at(buf, k)),
        buf[k + 1] & 0x20u8 != 0,
    )
}

/// What one parsing step makes of `buf`: how many bytes may be dropped
/// from its front, and the next complete frame if there is one.
pub open spec fn spec_parse_next(buf: Seq<u8>) -> (int, Option<FrameFields>) {
    let k = first_stop_from(buf, 0);
    if buf.len() - k < MIN_FRAME_LEN || partial_frame_at(buf, k) {
        (k, None)
    } else {
        (k + frame_len_at(buf, k), Some(frame_fields_at(buf, k)))
    }
}


// ============================================
// Laws of the wire format
// ============================================

/// The parser skips only junk: it stops at the first position, from `start`
/// on, that holds a complete frame or the start of an incomplete one; and
/// when there is none, it stops where fewer than 5 bytes remain.
pub proof fn lemma_first_stop_is_least(buf: Seq<u8>, start: int)
    requires
        0 <= start <= buf.len(),
    ensures
        start <= first_stop_from(buf, start) <= buf.len(),
        forall|j: int| start <= j < first_stop_from(buf, start) ==> !stops_at(buf, j),
        buf.len() - first_stop_from(buf, start) >= MIN_FRAME_LEN ==> stops_at(buf, first_stop_from(buf, start)),
        buf.len() - first_stop_from(buf, start) < MIN_FRAME_LEN ==> first_stop_from(buf, start) == (
            if buf.len() - start < MIN_FRAME_LEN { start } else { buf.len() - (MIN_FRAME_LEN - 1) }),
    decreases buf.len() - start,
{
    if buf.len() - start < MIN_FRAME_LEN || stops_at(buf, start) {
    } else {
        lemma_first_stop_is_least(buf, start + 1);
    }
}

/// What one parsing step reports: it drops no more than the buffer holds,
/// and a frame it returns is the complete frame at the first stop
/// position, its bytes being exactly the dropped tail.
pub proof fn lemma_parse_next_shape(buf: Seq<u8>)
    ensures
        0 <= spec_parse_next(buf).0 <= buf.len(),
        spec_parse_next(buf).1 matches Some(f) ==> {
            let k = first_stop_from(buf, 0);
            &&& complete_frame_at(buf, k)
            &&& spec_parse_next(buf).0 == k + frame_len_at(buf, k)
            &&& f == frame_fields_at(buf, k)
            &&& f.1.len() <= 8
            &&& spec_parse_next(buf).0 > 0
        },
        forall|j: int| 0 <= j < first_stop_from(buf, 0) ==> !stops_at(buf, j),
{
    lemma_first_stop_is_least(buf, 0);
}

/// Every complete frame is found: the parser stops at or before it, and when
/// nothing but junk (no frame start) comes before it, the parsing step
/// returns exactly that frame, whatever follows it.
pub proof fn lemma_complete_frame_found(buf: Seq<u8>, k: int)
    requires
        complete_frame_at(buf, k),
    ensures
        first_stop_from(buf, 0) <= k,
        stops_at(buf, first_stop_from(buf, 0)),
        (forall|j: int| 0 <= j < k ==> !frame_start_at(buf, j)) ==> spec_parse_next(buf) == (
            k + frame_len_at(buf, k),
            Some(frame_fields_at(buf, k)),
        ),
{
    lemma_first_stop_is_least(buf, 0);
    assert(stops_at(buf, k));
    if forall|j: int| 0 <= j < k ==> !frame_start_at(buf, j) {
        let f = first_stop_from(buf, 0);
        assert(stops_at(buf, f));
        assert(frame_start_at(buf, f));
        assert(f == k);
    }
}

/// When a parsing step finds no complete frame, what it leaves in the
/// buffer is either an incomplete frame, from its start byte on, or fewer
/// than 5 bytes: the junk before a partial frame is dropped, the partial
/// frame itself is kept for when more data arrives.
pub proof fn lemma_partial_frame_stays(buf: Seq<u8>)
    requires
        spec_parse_next(buf).1 is None,
    ensures
        ({
            let kept = buf.skip(spec_parse_next(buf).0);
            ||| kept.len() < MIN_FRAME_LEN
            ||| (frame_start_at(kept, 0) && frame_len_at(kept, 0) > kept.len())
        }),
{
    let k = first_stop_from(buf, 0);
    lemma_first_stop_is_least(buf, 0);
    let kept = buf.skip(k);
    if buf.len() - k >= MIN_FRAME_LEN {
        assert(partial_frame_at(buf, k));
        assert(kept[0] == buf[k] && kept[1] == buf[k + 1]);
    }
}

proof fn lemma_info_byte_decodes(frame_type: CanFrameType, len: nat)
    requires
        len <= 8,
    ensures
        ({
            let info = spec_info_byte(frame_type, len);
            &&& (info >> 4u8 == 0x0Cu8 || info >> 4u8 == 0x0Eu8)
            &&& (info & 0x0Fu8) as nat == len
            &&& (info & 0x20u8 != 0) == (frame_type == CanFrameType::Extended)
        }),
{
    let l = len as u8;
    let info = spec_info_byte(frame_type, len);
    if frame_type == CanFrameType::Extended {
        assert(info == 0xE0u8 + l);
        assert(l <= 8 ==> {
            let x: u8 = (0xE0u8 + l) as u8;
            &&& x >> 4u8 == 0x0Eu8
            &&& x & 0x0Fu8 == l
            &&& x & 0x20u8 != 0
        }) by (bit_vector);
    } else {
        assert(info == 0xC0u8 + l);
        assert(l <= 8 ==> {
            let x: u8 = (0xC0u8 + l) as u8;
            &&& x >> 4u8 == 0x0Cu8
            &&& x & 0x0Fu8 == l
            &&& x & 0x20u8 == 0
        }) by (bit_vector);
    }
}

/// A data frame that `build_data_frame` writes is read back by
/// `parse_next_frame`, whatever bytes follow it: the parser drops exactly
/// the frame and gives back the low 16 bits of the id, the data, and the
/// extended flag.
pub proof fn lemma_data_frame_roundtrip(frame_type: CanFrameType, id: u32, data: Seq<u8>, rest: Seq<u8>)
    requires
        data.len() <= 8,
    ensures
        spec_parse_next(spec_data_frame(frame_type, id, data) + rest) == (
            spec_data_frame(frame_type, id, data).len() as int,
            Some(((id & 0xFFFF) as u16, data, frame_type == CanFrameType::Extended)),
        ),
{
    let frame = spec_data_frame(frame_type, id, data);
    let buf = frame + rest;
    lemma_info_byte_decodes(frame_type, data.len());
    assert(buf[0] == FRAME_START);
    assert(buf[1] == spec_info_byte(frame_type, data.len()));
    assert(dlc_at(buf, 0) == data.len());
    assert(buf[frame_len_at(buf, 0) - 1] == FRAME_FOOTER);
    assert(complete_frame_at(buf, 0));
    assert(first_stop_from(buf, 0) == 0);
    let b2 = (id & 0xFF) as u8;
    let b3 = ((id >> 8) & 0xFF) as u8;
    assert(buf[2] == b2 && buf[3] == b3);
    assert((id & 0xFF) as u8 as int + 256 * (((id >> 8) & 0xFF) as u8 as int) == (id & 0xFFFF) as int) by (bit_vector);
    assert(buf.subrange(4, 4 + data.len() as int) =~= data);
}

/// A CAN message as it goes into `build_data_frame`: frame type, id, data.
pub type OutgoingFrame = (CanFrameType, u32, Seq<u8>);

/// The wire bytes of several data frames, one after another.
pub open spec fn spec_data_frames(frames: Seq<OutgoingFrame>) -> Seq<u8>
    decreases frames.len(),
{
    if frames.len() == 0 {
        Seq::empty()
    } else {
        spec_data_frame(frames[0].0, frames[0].1, frames[0].2) + spec_data_frames(frames.drop_first())
    }
}

/// What the parser gives back for a frame that was built from `f`.
pub open spec fn spec_received_fields(f: OutgoingFrame) -> FrameFields {
    ((f.1 & 0xFFFF) as u16, f.2, f.0 == CanFrameType::Extended)
}

/// A stream of data frames, each carrying at most 8 data bytes, is parsed back
/// completely and in order: all its bytes are consumed and every frame is
/// found with its data, extended flag and the low 16 bits of its id.
pub proof fn lemma_data_frames_stream_roundtrip(frames: Seq<OutgoingFrame>)
    requires
        forall|i: int| 0 <= i < frames.len() ==> (#[trigger] frames[i]).2.len() <= 8,
    ensures
        parse_steps(|b: Seq<u8>| spec_parse_next(b), spec_data_frames(frames)) == (
            spec_data_frames(frames).len() as int,
            frames.map_values(|f: OutgoingFrame| spec_received_fields(f)),
        ),
    decreases frames.len(),
{
    let step = |b: Seq<u8>| spec_parse_next(b);
    let buf = spec_data_frames(frames);
    if frames.len() == 0 {
        assert(buf.len() == 0);
        assert(first_stop_from(buf, 0) == 0);
        assert(frames.map_values(|f: OutgoingFrame| spec_received_fields(f)) =~= Seq::<FrameFields>::empty());
    } else {
        let f = frames[0];
        let head = spec_data_frame(f.0, f.1, f.2);
        let tail = spec_data_frames(frames.drop_first());
        assert(forall|i: int| 0 <= i < frames.drop_first().len() ==> #[trigger] frames.drop_first()[i] == frames[i + 1]);
        lemma_data_frames_stream_roundtrip(frames.drop_first());
        lemma_data_frame_roundtrip(f.0, f.1, f.2, tail);
        assert(buf.skip(head.len() as int) =~= tail);
        assert(frames.map_values(|g: OutgoingFrame| spec_received_fields(g)) =~= seq![spec_received_fields(f)]
            + frames.drop_first().map_values(|g: OutgoingFrame| spec_received_fields(g)));
    }
}

/// Little-endian value of four bytes.
pub open spec fn spec_le_value(b: Seq<u8>) -> int {
    b[0] as int + 256 * b[1] as int + 65536 * b[2] as int + 16777216 * b[3] as int
}

/// The settings frame is 20 bytes long and carries each configuration value
/// where the adapter reads it: speed, frame type and mode in their bytes,
/// filter and mask ids little endian, and the checksum of bytes 2 to 18 last.
pub proof fn lemma_settings_frame_fields(speed: u8, mode: u8, frame_type: u8, filter_id: u32, mask_id: u32)
    ensures
        ({
            let f = spec_settings_frame(speed, mode, frame_type, filter_id, mask_id);
            &&& f.len() == CMD_FRAME_SIZE
            &&& f[0] == FRAME_START
            &&& f[1] == CMD_FRAME_MARKER
            &&& f[2] == 0x12u8
            &&& f[3] == speed
            &&& f[4] == frame_type
            &&& spec_le_value(f.subrange(5, 9)) == filter_id as int
            &&& spec_le_value(f.subrange(9, 13)) == mask_id as int
            &&& f[13] == mode
            &&& f[14] == 0x01u8
            &&& f.subrange(15, 19) == seq![0u8, 0u8, 0u8, 0u8]
            &&& f[19] == spec_checksum(f.subrange(2, 19))
        }),
{
    let f = spec_settings_frame(speed, mode, frame_type, filter_id, mask_id);
    let body = spec_settings_body(speed, mode, frame_type, filter_id, mask_id);
    assert(f.subrange(2, 19) =~= body.subrange(2, 19));
    assert(f.subrange(15, 19) =~= seq![0u8, 0u8, 0u8, 0u8]);
    assert(f.subrange(5, 9) =~= spec_le_bytes(filter_id));
    assert(f.subrange(9, 13) =~= spec_le_bytes(mask_id));
    lemma_le_bytes_value(filter_id);
    lemma_le_bytes_value(mask_id);
}

proof fn lemma_le_bytes_value(x: u32)
    ensures
        spec_le_value(spec_le_bytes(x)) == x as int,
{
    assert((x & 0xFF) as u8 as int + 256 * (((x >> 8) & 0xFF) as u8 as int) + 65536 * (((x >> 16) & 0xFF) as u8 as int)
        + 16777216 * (((x >> 24) & 0xFF) as u8 as int) == x as int) by (bit_vector);
}

// ============================================
// Protocol-specific configuration types
// ============================================

/// CAN bus speed options
#[derive(Debug, Clone, Copy, PartialEq, Eq, Structural)]
pub enum CanSpeed {
    /// 1 Mbps
    Bps1000000,
    /// 800 Kbps
    Bps800000,
    /// 500 Kbps
    Bps500000,
    /// 400 Kbps
    Bps400000,
    /// 250 Kbps
    Bps250000,
    /// 200 Kbps
    Bps200000,
    /// 125 Kbps
    Bps125000,
    /// 100 Kbps
    Bps100000,
    /// 50 Kbps
    Bps50000,
    /// 20 Kbps
    Bps20000,
    /// 10 Kbps
    Bps10000,
    /// 5 Kbps
    Bps5000,
}

/// Error when parsing CAN speed
#[derive(Debug, Clone, Copy, PartialEq, Eq, Structural)]
pub struct InvalidCanSpeed(pub u32);

impl CanSpeed {
    /// Speed in bits per second.
    pub open spec fn spec_bps(self) -> u32 {
        match self {
            CanSpeed::Bps1000000 => 1000000,
            CanSpeed::Bps800000 => 800000,
            CanSpeed::Bps500000 => 500000,
            CanSpeed::Bps400000 => 400000,
            CanSpeed::Bps250000 => 250000,
            CanSpeed::Bps200000 => 200000,
            CanSpeed::Bps125000 => 125000,
            CanSpeed::Bps100000 => 100000,
            CanSpeed::Bps50000 => 50000,
            CanSpeed::Bps20000 => 20000,
            CanSpeed::Bps10000 => 10000,
            CanSpeed::Bps5000 => 5000,
        }
    }

    /// The byte that selects this speed in the settings frame.
    pub open spec fn spec_code(self) -> u8 {
        match self {
            CanSpeed::Bps1000000 => 0x01,
            CanSpeed::Bps800000 => 0x02,
            CanSpeed::Bps500000 => 0x03,
            CanSpeed::Bps400000 => 0x04,
            CanSpeed::Bps250000 => 0x05,
            CanSpeed::Bps200000 => 0x06,
            CanSpeed::Bps125000 => 0x07,
            CanSpeed::Bps100000 => 0x08,
            CanSpeed::Bps50000 => 0x09,
            CanSpeed::Bps20000 => 0x0a,
            CanSpeed::Bps10000 => 0x0b,
            CanSpeed::Bps5000 => 0x0c,
        }
    }

    /// The speed whose rate in bits per second is `value`, if any.
    pub open spec fn spec_from_bps(value: u32) -> Result<CanSpeed, InvalidCanSpeed> {
        if value == 1000000 {
            Ok(CanSpeed::Bps1000000)
        } else if value == 800000 {
            Ok(CanSpeed::Bps800000)
        } else if value == 500000 {
            Ok(CanSpeed::Bps500000)
        } else if value == 400000 {
            Ok(CanSpeed::Bps400000)
        } else if value == 250000 {
            Ok(CanSpeed::Bps250000)
        } else if value == 200000 {
            Ok(CanSpeed::Bps200000)
        } else if value == 125000 {
            Ok(CanSpeed::Bps125000)
        } else if value == 100000 {
            Ok(CanSpeed::Bps100000)
        } else if value == 50000 {
            Ok(CanSpeed::Bps50000)
        } else if value == 20000 {
            Ok(CanSpeed::Bps20000)
        } else if value == 10000 {
            Ok(CanSpeed::Bps10000)
        } else if value == 5000 {
            Ok(CanSpeed::Bps5000)
        } else {
            Err(InvalidCanSpeed(value))
        }
    }

    /// Get speed in bits per second
    pub fn as_bps(&self) -> (r: u32)
        ensures
            r == self.spec_bps(),
    {
        match self {
            CanSpeed::Bps1000000 => 1000000,
            CanSpeed::Bps800000 => 800000,
            CanSpeed::Bps500000 => 500000,
            CanSpeed::Bps400000 => 400000,
            CanSpeed::Bps250000 => 250000,
            CanSpeed::Bps200000 => 200000,
            CanSpeed::Bps125000 => 125000,
            CanSpeed::Bps100000 => 100000,
            CanSpeed::Bps50000 => 50000,
            CanSpeed::Bps20000 => 20000,
            CanSpeed::Bps10000 => 10000,
            CanSpeed::Bps5000 => 5000,
        }
    }

    /// The byte that selects this speed in the settings frame
    /// (`0x01` for 1 Mbps up to `0x0c` for 5 Kbps).
    pub fn code(&self) -> (r: u8)
        ensures
            r == self.spec_code(),
    {
        match self {
            CanSpeed::Bps1000000 => 0x01,
            CanSpeed::Bps800000 => 0x02,
            CanSpeed::Bps500000 => 0x03,
            CanSpeed::Bps400000 => 0x04,
            CanSpeed::Bps250000 => 0x05,
            CanSpeed::Bps200000 => 0x06,
            CanSpeed::Bps125000 => 0x07,
            CanSpeed::Bps100000 => 0x08,
            CanSpeed::Bps50000 => 0x09,
            CanSpeed::Bps20000 => 0x0a,
            CanSpeed::Bps10000 => 0x0b,
            CanSpeed::Bps5000 => 0x0c,
        }
    }
}

impl TryFrom<u32> for CanSpeed {
    type Error = InvalidCanSpeed;

    fn try_from(value: u32) -> (r: Result<CanSpeed, InvalidCanSpeed>) {
        match value {
            1000000 => Ok(CanSpeed::Bps1000000),
            800000 => Ok(CanSpeed::Bps800000),
            500000 => Ok(CanSpeed::Bps500000),
            400000 => Ok(CanSpeed::Bps400000),
            250000 => Ok(CanSpeed::Bps250000),
            200000 => Ok(CanSpeed::Bps200000),
            125000 => Ok(CanSpeed::Bps125000),
            100000 => Ok(CanSpeed::Bps100000),
            50000 => Ok(CanSpeed::Bps50000),
            20000 => Ok(CanSpeed::Bps20000),
            10000 => Ok(CanSpeed::Bps10000),
            5000 => Ok(CanSpeed::Bps5000),
            _ => Err(InvalidCanSpeed(value)),
        }
    }
}

impl vstd::std_specs::convert::TryFromSpecImpl<u32> for CanSpeed {
    open spec fn obeys_try_from_spec() -> bool {
        true
    }

    open spec fn try_from_spec(value: u32) -> Result<CanSpeed, InvalidCanSpeed> {
        CanSpeed::spec_from_bps(value)
    }
}

/// A speed's rate in bits per second converts back to that speed, and a
/// rate that converts to a speed is that speed's rate.
pub proof fn lemma_speed_bps_roundtrip(speed: CanSpeed, value: u32)
    ensures
        CanSpeed::spec_from_bps(speed.spec_bps()) == Ok::<CanSpeed, InvalidCanSpeed>(speed),
        CanSpeed::spec_from_bps(value) matches Ok(s) ==> s.spec_bps() == value,
        CanSpeed::spec_from_bps(value) is Err ==> CanSpeed::spec_from_bps(value) == Err::<CanSpeed, InvalidCanSpeed>(InvalidCanSpeed(value)),
{
}

/// Distinct speeds have distinct codes and distinct rates.
pub proof fn lemma_speed_codes_distinct(a: CanSpeed, b: CanSpeed)
    ensures
        a != b ==> a.spec_code() != b.spec_code(),
        a != b ==> a.spec_bps() != b.spec_bps(),
{
}

/// Each speed runs at the rate its name gives, in bits per second; a rate
/// converts to a speed exactly when it is one of those twelve rates; and the
/// settings codes count up as the rate goes down, so a faster speed always
/// has a smaller code.
pub proof fn lemma_speed_rates(speed: CanSpeed, other: CanSpeed, value: u32)
    ensures
        speed == CanSpeed::Bps1000000 ==> speed.spec_bps() == 1_000_000,
        speed == CanSpeed::Bps800000 ==> speed.spec_bps() == 800_000,
        speed == CanSpeed::Bps500000 ==> speed.spec_bps() == 500_000,
        speed == CanSpeed::Bps400000 ==> speed.spec_bps() == 400_000,
        speed == CanSpeed::Bps250000 ==> speed.spec_bps() == 250_000,
        speed == CanSpeed::Bps200000 ==> speed.spec_bps() == 200_000,
        speed == CanSpeed::Bps125000 ==> speed.spec_bps() == 125_000,
        speed == CanSpeed::Bps100000 ==> speed.spec_bps() == 100_000,
        speed == CanSpeed::Bps50000 ==> speed.spec_bps() == 50_000,
        speed == CanSpeed::Bps20000 ==> speed.spec_bps() == 20_000,
        speed == CanSpeed::Bps10000 ==> speed.spec_bps() == 10_000,
        speed == CanSpeed::Bps5000 ==> speed.spec_bps() == 5_000,
        CanSpeed::spec_from_bps(value) is Ok <==> (value == 1_000_000 || value == 800_000 || value == 500_000
            || value == 400_000 || value == 250_000 || value == 200_000 || value == 125_000 || value == 100_000
            || value == 50_000 || value == 20_000 || value == 10_000 || value == 5_000),
        CanSpeed::spec_from_bps(value) == Ok::<CanSpeed, InvalidCanSpeed>(speed) <==> value == speed.spec_bps(),
        speed.spec_bps() > other.spec_bps() <==> speed.spec_code() < other.spec_code(),
        0x01 <= speed.spec_code() <= 0x0c,
{
}

/// CAN bus operation mode
#[derive(Debug, Clone, Copy, PartialEq, Eq, Structural)]
pub enum CanMode {
    /// Normal mode
    Normal,
    /// Loopback mode
    Loopback,
    /// Silent mode
    Silent,
    /// Loopback + Silent mode
    LoopbackSilent,
}

impl CanMode {
    /// The byte that selects this mode in the settings frame.
    pub open spec fn spec_code(self) -> u8 {
        match self {
            CanMode::Normal => 0x00,
            CanMode::Loopback => 0x01,
            CanMode::Silent => 0x02,
            CanMode::LoopbackSilent => 0x03,
        }
    }

    /// The byte that selects this mode in the settings frame.
    pub fn code(&self) -> (r: u8)
        ensures
            r == self.spec_code(),
    {
        match self {
            CanMode::Normal => 0x00,
            CanMode::Loopback => 0x01,
            CanMode::Silent => 0x02,
            CanMode::LoopbackSilent => 0x03,
        }
    }
}

/// Configuration of the USB-CAN-A adapter.
#[derive(Debug, Clone, Copy, PartialEq, Eq, Structural)]
pub struct Config {
    /// CAN bus speed
    pub can_speed: CanSpeed,
    /// CAN operation mode
    pub can_mode: CanMode,
    /// CAN frame type
    pub frame_type: CanFrameType,
    /// Filter ID (default: 0 - no filtering)
    pub filter_id: u32,
    /// Mask ID (default: 0 - no masking)
    pub mask_id: u32,
}

impl Config {
    /// The default configuration: 500 Kbps, normal mode, standard frames,
    /// no filter, no mask.
    pub open spec fn spec_default() -> Config {
        Config {
            can_speed: CanSpeed::Bps500000,
            can_mode: CanMode::Normal,
            frame_type: CanFrameType::Standard,
            filter_id: 0,
            mask_id: 0,
        }
    }

    /// The settings frame that configures the adapter as `self` says.
    pub open spec fn spec_settings_frame(self) -> Seq<u8> {
        spec_settings_frame(
            self.can_speed.spec_code(),
            self.can_mode.spec_code(),
            self.frame_type.spec_code(),
            self.filter_id,
            self.mask_id,
        )
    }
}

impl Default for Config {
    fn default() -> (r: Config)
        ensures
            r == Config::spec_default(),
    {
        Config {
            can_speed: CanSpeed::Bps500000,
            can_mode: CanMode::Normal,
            frame_type: CanFrameType::Standard,
            filter_id: 0,
            mask_id: 0,
        }
    }
}

// ============================================
// Protocol implementation
// ============================================

/// USB-CAN-A wire protocol.
#[derive(Debug, Clone, Copy, Default)]
pub struct WaveshareUsbCanA;

proof fn lemma_byte_sum_push(s: Seq<u8>, b: u8)
    ensures
        spec_byte_sum(s.push(b)) == spec_byte_sum(s) + b as nat,
{
    assert(s.push(b).drop_last() =~= s);
}

proof fn lemma_mod_256_step(a: nat, b: nat)
    ensures
        ((a % 256) + b) % 256 == (a + b) % 256,
{
    vstd::arithmetic::div_mod::lemma_add_mod_noop(a as int, b as int, 256);
    vstd::arithmetic::div_mod::lemma_mod_twice(b as int, 256);
    vstd::arithmetic::div_mod::lemma_add_mod_noop((a % 256) as int, b as int, 256);
}

/// The checksum is a running byte sum modulo 256: nothing sums to 0, and
/// appending a byte adds that byte, wrapping at 256.
pub proof fn lemma_checksum_step(s: Seq<u8>, b: u8)
    ensures
        spec_checksum(Seq::<u8>::empty()) == 0,
        spec_checksum(s.push(b)) as int == (spec_checksum(s) as int + b as int) % 256,
{
    lemma_byte_sum_push(s, b);
    lemma_mod_256_step(spec_byte_sum(s), b as nat);
}

/// The data frame of a message, byte by byte: `0xAA`; an info byte whose
/// high nibble is `0xC` for a standard frame and `0xE` for an extended one
/// (bit `0x20` set exactly for an extended frame), with the data length in
/// the low nibble; the low 16 bits of the id, low byte
/// first; the data; and `0x55`.
pub proof fn lemma_data_frame_layout(frame_type: CanFrameType, id: u32, data: Seq<u8>)
    requires
        data.len() <= 8,
    ensures
        ({
            let f = spec_data_frame(frame_type, id, data);
            &&& f.len() == data.len() + 5
            &&& f[0] == 0xAAu8
            &&& (f[1] >> 4u8 == 0x0Cu8 || f[1] >> 4u8 == 0x0Eu8)
            &&& (f[1] & 0x20u8 != 0) == (frame_type == CanFrameType::Extended)
            &&& (f[1] & 0x0Fu8) as int == data.len()
            &&& f[2] as int + 256 * f[3] as int == id as int % 65536
            &&& f.subrange(4, 4 + data.len() as int) == data
            &&& f[4 + data.len() as int] == 0x55u8
        }),
{
    let f = spec_data_frame(frame_type, id, data);
    lemma_info_byte_decodes(frame_type, data.len());
    assert((id & 0xFF) as u8 as int + 256 * (((id >> 8) & 0xFF) as u8 as int) == id as int % 65536) by (bit_vector);
    assert(f.subrange(4, 4 + data.len() as int) =~= data);
}

impl WaveshareUsbCanA {
    /// Generate checksum for command frames: the sum of the `length` bytes
    /// from `offset`, masked to 8 bits.
    pub fn generate_checksum(data: &[u8], offset: usize, length: usize) -> (r: u8)
        requires
            offset + length <= data.len(),
        ensures
            r == spec_checksum(data@.subrange(offset as int, offset + length)),
    {
        let mut acc: u8 = 0;
        let mut i: usize = 0;
        while i < length
            invariant
                offset + length <= data.len(),
                i <= length,
                acc == spec_checksum(data@.subrange(offset as int, offset + i)),
            decreases length - i,
        {
            let b: u8 = data[offset + i];
            proof {
                let prefix = data@.subrange(offset as int, offset + i);
                assert(data@.subrange(offset as int, offset + i + 1) =~= prefix.push(b));
                lemma_byte_sum_push(prefix, b);
                lemma_mod_256_step(spec_byte_sum(prefix), b as nat);
            }
            acc = acc.wrapping_add(b);
            i = i + 1;
        }
        acc
    }

    /// Build a data frame for transmission into a caller-provided buffer (no-alloc).
    ///
    /// Frame format:
    /// - Byte 0: 0xAA (start)
    /// - Byte 1: 0xC0 | (is_extended << 5) | dlc
    /// - Byte 2-3: ID (little endian)
    /// - Byte 4..4+dlc: Data
    /// - Byte 4+dlc: 0x55 (footer)
    ///
    /// Returns the number of bytes written to `out`; an error, with `out`
    /// untouched, when `data` holds more than 8 bytes.
    pub fn build_data_frame_into(
        frame_type: CanFrameType,
        id: u32,
        data: &[u8],
        out: &mut [u8; DATA_FRAME_MAX_SIZE],
    ) -> (r: Result<usize, &'static str>)
        ensures
            data@.len() > 8 ==> r == Err::<usize, &'static str>("Data too long (max 8 bytes)")
                && final(out)@ == old(out)@,
            data@.len() <= 8 ==> r == Ok::<usize, &'static str>((data@.len() + 5) as usize),
            r matches Ok(n) ==> final(out)@.take(n as int) == spec_data_frame(frame_type, id, data@)
                && final(out)@.skip(n as int) == old(out)@.skip(n as int),
    {
        if data.len() > 8 {
            return Err("Data too long (max 8 bytes)");
        }
        let len: usize = data.len();

        // Start byte
        out[0] = FRAME_START;

        // Info byte: 0xC0 | extended_flag | dlc
        let mut info: u8 = 0xC0;
        if frame_type == CanFrameType::Extended {
            info |= 0x20;
        }
        let len_byte: u8 = len as u8;
        proof {
            assert(len_byte <= 8 ==> (0xC0u8 | 0x20u8) | len_byte == 0xE0u8 + len_byte) by (bit_vector);
            assert(len_byte <= 8 ==> 0xC0u8 | len_byte == 0xC0u8 + len_byte) by (bit_vector);
        }
        info |= len_byte;
        assert(info == spec_info_byte(frame_type, len as nat));
        out[1] = info;

        // ID (little endian)
        out[2] = (id & 0xFF) as u8;
        out[3] = ((id >> 8) & 0xFF) as u8;

        // Data
        let ghost before_data = out@;
        let mut i: usize = 0;
        while i < len
            invariant
                len == data@.len(),
                len <= 8,
                i <= len,
                forall|j: int| 0 <= j < 4 ==> #[trigger] out@[j] == before_data[j],
                forall|j: int| 0 <= j < i ==> #[trigger] out@[4 + j] == data@[j],
                forall|j: int| 4 + i <= j < DATA_FRAME_MAX_SIZE ==> #[trigger] out@[j] == before_data[j],
            decreases len - i,
        {
            out[4 + i] = data[i];
            i = i + 1;
        }

        // Footer
        out[4 + len] = FRAME_FOOTER;

        proof {
            let expected = spec_data_frame(frame_type, id, data@);
            assert forall|j: int| 0 <= j < len + 5 implies #[trigger] out@.take(len + 5)[j] == expected[j] by {
                if 4 <= j < 4 + len {
                    assert(out@[4 + (j - 4)] == data@[j - 4]);
                }
            }
            assert(out@.take(len + 5) =~= expected);
            assert(out@.skip(len + 5) =~= old(out)@.skip(len + 5));
        }
        Ok(5 + len)
    }

    /// Build a data frame for transmission
    ///
    /// Allocating variant of [`WaveshareUsbCanA::build_data_frame_into`].
    pub fn build_data_frame(frame_type: CanFrameType, id: u32, data: &[u8]) -> (r: Result<Vec<u8>, &'static str>)
        ensures
            r is Ok <==> data@.len() <= 8,
            r matches Ok(bytes) ==> bytes@ == spec_data_frame(frame_type, id, data@),
            r matches Err(e) ==> e == "Data too long (max 8 bytes)",
    {
        let mut out: [u8; DATA_FRAME_MAX_SIZE] = [0u8; DATA_FRAME_MAX_SIZE];
        let len: usize = match Self::build_data_frame_into(frame_type, id, data, &mut out) {
            Ok(n) => n,
            Err(e) => return Err(e),
        };
        let written = vstd::slice::slice_subrange(out.as_slice(), 0, len);
        assert(written@ =~= out@.take(len as int));
        Ok(vstd::slice::slice_to_vec(written))
    }

    /// Scan `buffer` for the next complete frame, skipping junk bytes.
    ///
    /// Returns `(consumed, frame)`:
    /// - `consumed` is the number of bytes that can be dropped from the front of
    ///   the buffer (junk bytes, plus the frame itself if one was found). When an
    ///   incomplete frame is found at `offset`, only the junk before it is reported
    ///   as consumed so the partial frame stays in the buffer.
    /// - `frame` is `Some(meta)` when a complete frame was parsed; its data
    ///   (0-8 bytes) is copied into `data_out`. Frames with DLC > 8 are treated
    ///   as junk.
    pub fn parse_next_frame(
        buffer: &[u8],
        data_out: &mut [u8; 8],
        debug_traffic: bool,
    ) -> (r: (usize, Option<ParsedFrameMeta>))
        ensures
            r.0 as int == spec_parse_next(buffer@).0,
            r.0 <= buffer@.len(),
            r.1 is Some <==> spec_parse_next(buffer@).1 is Some,
            r.1 matches Some(meta) ==> {
                &&& meta.dlc <= 8
                &&& r.0 > 0
                &&& spec_parse_next(buffer@).1 == Some(meta.spec_fields(final(data_out)@))
                &&& final(data_out)@.skip(meta.dlc as int) == old(data_out)@.skip(meta.dlc as int)
            },
            r.1 is None ==> final(data_out)@ == old(data_out)@,
    {
        let mut offset: usize = 0;

        while buffer.len() - offset >= MIN_FRAME_LEN
            invariant
                offset <= buffer@.len(),
                first_stop_from(buffer@, 0) == first_stop_from(buffer@, offset as int),
                data_out@ == old(data_out)@,
            decreases buffer@.len() - offset,
        {
            // Look for frame start
            if buffer[offset] != FRAME_START {
                offset += 1;
                continue;
            }

            let info: u8 = buffer[offset + 1];

            // Check if it's a data frame (0xC0-0xCF for standard, 0xE0-0xEF for extended)
            let frame_type_nibble: u8 = info >> 4;
            if frame_type_nibble != 0x0C && frame_type_nibble != 0x0E {
                offset += 1;
                continue;
            }

            let dlc: usize = (info & 0x0F) as usize;
            if dlc > 8 {
                // Not a valid classic-CAN frame; treat start byte as junk
                offset += 1;
                continue;
            }
            let frame_len: usize = dlc + 5; // header(2) + id(2) + data(dlc) + footer(1)

            // Check if we have the complete frame
            if buffer.len() - offset < frame_len {
                // Wait for more data
                return (offset, None);
            }

            // Verify end byte
            if buffer[offset + frame_len - 1] != FRAME_FOOTER {
                offset += 1;
                continue;
            }

            // Extract ID (little endian)
            let id: u16 = buffer[offset + 2] as u16 + 256 * (buffer[offset + 3] as u16);

            // Extract data
            let data_start: usize = offset + 4;
            let mut i: usize = 0;
            while i < dlc
                invariant
                    dlc <= 8,
                    data_start + dlc <= buffer.len(),
                    i <= dlc,
                    forall|j: int| 0 <= j < i ==> #[trigger] data_out@[j] == buffer@[data_start + j],
                    forall|j: int| i <= j < 8 ==> #[trigger] data_out@[j] == old(data_out)@[j],
                decreases dlc - i,
            {
                data_out[i] = buffer[data_start + i];
                i = i + 1;
            }

            // Determine frame type
            let is_extended: bool = (info & 0x20) != 0;

            let meta = ParsedFrameMeta { id, dlc: dlc as u8, is_extended };
            proof {
                assert(data_out@.take(dlc as int) =~= buffer@.subrange(data_start as int, data_start + dlc));
                assert(data_out@.skip(dlc as int) =~= old(data_out)@.skip(dlc as int));
            }
            return (offset + frame_len, Some(meta));
        }

        (offset, None)
    }

    /// Build a settings/command frame for USB-CAN adapter configuration
    ///
    /// Frame format (20 bytes):
    /// - Byte 0: 0xAA (start)
    /// - Byte 1: 0x55 (command marker)
    /// - Byte 2: 0x12 (command type)
    /// - Byte 3: speed
    /// - Byte 4: frame_type
    /// - Byte 5-8: filter_id (little endian)
    /// - Byte 9-12: mask_id (little endian)
    /// - Byte 13: mode
    /// - Byte 14: 0x01
    /// - Byte 15-18: reserved (0)
    /// - Byte 19: checksum
    pub fn build_settings_frame(speed: u8, mode: u8, frame_type: u8, filter_id: u32, mask_id: u32) -> (r: [u8; CMD_FRAME_SIZE])
        ensures
            r@ == spec_settings_frame(speed, mode, frame_type, filter_id, mask_id),
    {
        let mut frame: [u8; CMD_FRAME_SIZE] = [0u8; CMD_FRAME_SIZE];

        frame[0] = FRAME_START;
        frame[1] = CMD_FRAME_MARKER;
        frame[2] = 0x12;
        frame[3] = speed;
        frame[4] = frame_type;

        // Filter ID (byte 5-8) - little endian
        frame[5] = (filter_id & 0xFF) as u8;
        frame[6] = ((filter_id >> 8) & 0xFF) as u8;
        frame[7] = ((filter_id >> 16) & 0xFF) as u8;
        frame[8] = ((filter_id >> 24) & 0xFF) as u8;

        // Mask ID (byte 9-12) - little endian
        frame[9] = (mask_id & 0xFF) as u8;
        frame[10] = ((mask_id >> 8) & 0xFF) as u8;
        frame[11] = ((mask_id >> 16) & 0xFF) as u8;
        frame[12] = ((mask_id >> 24) & 0xFF) as u8;

        frame[13] = mode;
        frame[14] = 0x01;
        // Byte 15-18 are already 0

        let ghost body = spec_settings_body(speed, mode, frame_type, filter_id, mask_id);
        assert(frame@.subrange(0, 19) =~= body);
        let checksum: u8 = Self::generate_checksum(&frame, 2, 17);
        assert(frame@.subrange(2, 19) =~= body.subrange(2, 19));
        frame[19] = checksum;
        assert(frame@ =~= body.push(checksum));
        frame
    }
}

/// The settings frame of a configuration carries each of its values where
/// the adapter reads them: the speed's code in byte 3 (`0x01` for 1 Mbps
/// down to `0x0c` for 5 Kbps), the frame type in byte 4 (`0x01` standard,
/// `0x02` extended), the filter and mask ids little endian in bytes 5-8 and
/// 9-12, the mode in byte 13 (`0x00` normal, `0x01` loopback, `0x02` silent,
/// `0x03` loopback and silent), and last the checksum of bytes 2 to 18.
pub proof fn lemma_config_settings_frame(config: Config)
    ensures
        ({
            let f = WaveshareUsbCanA.spec_settings_frame(config);
            &&& f.len() == 20
            &&& f[0] == 0xAAu8 && f[1] == 0x55u8 && f[2] == 0x12u8
            &&& config.can_speed == CanSpeed::Bps1000000 ==> f[3] == 0x01u8
            &&& config.can_speed == CanSpeed::Bps800000 ==> f[3] == 0x02u8
            &&& config.can_speed == CanSpeed::Bps500000 ==> f[3] == 0x03u8
            &&& config.can_speed == CanSpeed::Bps400000 ==> f[3] == 0x04u8
            &&& config.can_speed == CanSpeed::Bps250000 ==> f[3] == 0x05u8
            &&& config.can_speed == CanSpeed::Bps200000 ==> f[3] == 0x06u8
            &&& config.can_speed == CanSpeed::Bps125000 ==> f[3] == 0x07u8
            &&& config.can_speed == CanSpeed::Bps100000 ==> f[3] == 0x08u8
            &&& config.can_speed == CanSpeed::Bps50000 ==> f[3] == 0x09u8
            &&& config.can_speed == CanSpeed::Bps20000 ==> f[3] == 0x0au8
            &&& config.can_speed == CanSpeed::Bps10000 ==> f[3] == 0x0bu8
            &&& config.can_speed == CanSpeed::Bps5000 ==> f[3] == 0x0cu8
            &&& config.frame_type == CanFrameType::Standard ==> f[4] == 0x01u8
            &&& config.frame_type == CanFrameType::Extended ==> f[4] == 0x02u8
            &&& f[5] as int + 256 * f[6] as int + 65536 * f[7] as int + 16777216 * f[8] as int == config.filter_id as int
            &&& f[9] as int + 256 * f[10] as int + 65536 * f[11] as int + 16777216 * f[12] as int == config.mask_id as int
            &&& config.can_mode == CanMode::Normal ==> f[13] == 0x00u8
            &&& config.can_mode == CanMode::Loopback ==> f[13] == 0x01u8
            &&& config.can_mode == CanMode::Silent ==> f[13] == 0x02u8
            &&& config.can_mode == CanMode::LoopbackSilent ==> f[13] == 0x03u8
            &&& f[14] == 0x01u8 && f[15] == 0u8 && f[16] == 0u8 && f[17] == 0u8 && f[18] == 0u8
            &&& f[19] as nat == spec_byte_sum(f.subrange(2, 19)) % 256
            &&& f[19] as int == (0x12 + f[3] + f[4] + f[5] + f[6] + f[7] + f[8] + f[9] + f[10] + f[11] + f[12]
                + f[13] + f[14] + f[15] + f[16] + f[17] + f[18]) % 256
        }),
{
    let f = WaveshareUsbCanA.spec_settings_frame(config);
    lemma_settings_frame_fields(
        config.can_speed.spec_code(),
        config.can_mode.spec_code(),
        config.frame_type.spec_code(),
        config.filter_id,
        config.mask_id,
    );
    assert(f.subrange(5, 9)[0] == f[5] && f.subrange(5, 9)[1] == f[6]);
    assert(f.subrange(5, 9)[2] == f[7] && f.subrange(5, 9)[3] == f[8]);
    assert(f.subrange(9, 13)[0] == f[9] && f.subrange(9, 13)[1] == f[10]);
    assert(f.subrange(9, 13)[2] == f[11] && f.subrange(9, 13)[3] == f[12]);
    assert(f.subrange(15, 19)[0] == f[15] && f.subrange(15, 19)[1] == f[16]);
    assert(f.subrange(15, 19)[2] == f[17] && f.subrange(15, 19)[3] == f[18]);
    let body = f.subrange(2, 19);
    assert(body.len() == 17);
    assert(spec_byte_sum(body) == 0x12 + f[3] + f[4] + f[5] + f[6] + f[7] + f[8] + f[9] + f[10] + f[11] + f[12]
        + f[13] + f[14] + f[15] + f[16] + f[17] + f[18]) by {
        reveal_with_fuel(spec_byte_sum, 18);
    }
}

impl Protocol for WaveshareUsbCanA {
    type Config = Config;

    const SETTINGS_FRAME_MAX_SIZE: usize = CMD_FRAME_SIZE;

    const DATA_FRAME_MAX_SIZE: usize = DATA_FRAME_MAX_SIZE;

    open spec fn spec_settings_frame(&self, config: Config) -> Seq<u8> {
        config.spec_settings_frame()
    }

    open spec fn spec_data_frame(&self, frame_type: CanFrameType, id: u32, data: Seq<u8>) -> Option<Seq<u8>> {
        if data.len() <= 8 {
            Some(spec_data_frame(frame_type, id, data))
        } else {
            None
        }
    }

    open spec fn spec_parse_next(&self, buffer: Seq<u8>) -> (int, Option<FrameFields>) {
        spec_parse_next(buffer)
    }

    open spec fn spec_data_frame_room(&self) -> nat {
        DATA_FRAME_MAX_SIZE as nat
    }

    fn build_settings_frame(&self, config: &Config, out: &mut [u8]) -> (r: Result<usize, &'static str>)
        ensures
            old(out)@.len() < CMD_FRAME_SIZE ==> r == Err::<usize, &'static str>(
                "Output buffer too small for settings frame",
            ),
            old(out)@.len() >= CMD_FRAME_SIZE ==> r == Ok::<usize, &'static str>(CMD_FRAME_SIZE),
    {
        proof {
            lemma_settings_frame_fields(
                config.can_speed.spec_code(),
                config.can_mode.spec_code(),
                config.frame_type.spec_code(),
                config.filter_id,
                config.mask_id,
            );
        }
        if out.len() < CMD_FRAME_SIZE {
            return Err("Output buffer too small for settings frame");
        }
        let frame = Self::build_settings_frame(
            config.can_speed.code(),
            config.can_mode.code(),
            config.frame_type.code(),
            config.filter_id,
            config.mask_id,
        );
        let mut i: usize = 0;
        while i < CMD_FRAME_SIZE
            invariant
                i <= CMD_FRAME_SIZE,
                out@.len() == old(out)@.len(),
                old(out)@.len() >= CMD_FRAME_SIZE,
                frame@.len() == CMD_FRAME_SIZE,
                forall|j: int| 0 <= j < i ==> #[trigger] out@[j] == frame@[j],
                forall|j: int| i <= j < out@.len() ==> #[trigger] out@[j] == old(out)@[j],
            decreases CMD_FRAME_SIZE - i,
        {
            out[i] = frame[i];
            i = i + 1;
        }
        assert(out@ =~= frame@ + old(out)@.skip(CMD_FRAME_SIZE as int));
        Ok(CMD_FRAME_SIZE)
    }

    fn build_data_frame(
        &self,
        frame_type: CanFrameType,
        id: u32,
        data: &[u8],
        out: &mut [u8],
    ) -> (r: Result<usize, &'static str>)
        ensures
            old(out)@.len() < DATA_FRAME_MAX_SIZE ==> r == Err::<usize, &'static str>(
                "Output buffer too small for data frame",
            ),
            old(out)@.len() >= DATA_FRAME_MAX_SIZE && data@.len() > 8 ==> r == Err::<usize, &'static str>(
                "Data too long (max 8 bytes)",
            ),
            old(out)@.len() >= DATA_FRAME_MAX_SIZE && data@.len() <= 8 ==> r == Ok::<usize, &'static str>(
                (data@.len() + 5) as usize,
            ),
    {
        if out.len() < DATA_FRAME_MAX_SIZE {
            return Err("Output buffer too small for data frame");
        }
        let mut frame: [u8; DATA_FRAME_MAX_SIZE] = [0u8; DATA_FRAME_MAX_SIZE];
        let len: usize = match Self::build_data_frame_into(frame_type, id, data, &mut frame) {
            Ok(n) => n,
            Err(e) => return Err(e),
        };
        let mut i: usize = 0;
        while i < len
            invariant
                len <= DATA_FRAME_MAX_SIZE,
                i <= len,
                out@.len() == old(out)@.len(),
                old(out)@.len() >= DATA_FRAME_MAX_SIZE,
                frame@.len() == DATA_FRAME_MAX_SIZE,
                forall|j: int| 0 <= j < i ==> #[trigger] out@[j] == frame@[j],
                forall|j: int| i <= j < out@.len() ==> #[trigger] out@[j] == old(out)@[j],
            decreases len - i,
        {
            out[i] = frame[i];
            i = i + 1;
        }
        assert(out@.take(len as int) =~= frame@.take(len as int));
        assert(out@.skip(len as int) =~= old(out)@.skip(len as int));
        Ok(len)
    }

    fn parse_next_frame(
        &self,
        buffer: &[u8],
        data_out: &mut [u8; 8],
        debug_traffic: bool,
    ) -> (r: (usize, Option<ParsedFrameMeta>)) {
        Self::parse_next_frame(buffer, data_out, debug_traffic)
    }
}

} // verus!
