//! What a CAN adapter client decides without touching its byte stream: the
//! frames it writes, and the messages it makes of the bytes it has read.
//! Every transport (blocking or async `embedded-io`, tokio serial) drives one
//! of these.

use vstd::prelude::*;

use crate::backends::rx_buffer::{RxBuffer, RX_BUFFER_SIZE};
use crate::frame::Frame;
use crate::message::CanMessage;
use crate::protocol::wareshare_usb_can_a::{
    spec_data_frame, spec_data_frames, spec_received_fields, OutgoingFrame, WaveshareUsbCanA,
};
use crate::protocol::{FrameFields, ParsedFrame, ParsedFrameMeta, Protocol};
use crate::types::{CanFrameType, ExtendedId, Id, StandardId, STANDARD_ID_MAX};

verus! {

/// A parsed frame makes a CAN message: its id fits an extended id, or a
/// standard one when the frame is not extended, and it has at most 8 data
/// bytes.
pub open spec fn fields_make_message(fields: FrameFields) -> bool {
    &&& (fields.2 || fields.0 <= STANDARD_ID_MAX)
    &&& fields.1.len() <= 8
}

/// `message` is the data frame that the parsed fields describe.
pub open spec fn message_carries(message: CanMessage, fields: FrameFields) -> bool {
    &&& message.spec_id().raw_value() == fields.0 as u32
    &&& (message.spec_id() is Extended) == fields.2
    &&& message.spec_data() == fields.1
    &&& message.spec_dlc() == fields.1.len()
    &&& !message.spec_rtr()
}

/// Repeated parsing steps with `step` from `buffer`, dropping frames that
/// make no CAN message, up to the first one that does: the bytes dropped in
/// all, and that frame if there is one.
pub open spec fn skip_to_message(step: spec_fn(Seq<u8>) -> (int, Option<FrameFields>), buffer: Seq<u8>) -> (int, Option<FrameFields>)
    decreases buffer.len(),
{
    let (consumed, frame) = step(buffer);
    match frame {
        Some(fields) => if fields_make_message(fields) {
            (consumed, Some(fields))
        } else if 0 < consumed <= buffer.len() {
            let (more, found) = skip_to_message(step, buffer.skip(consumed));
            (consumed + more, found)
        } else {
            (consumed, None)
        },
        None => (consumed, None),
    }
}

/// Two identifiers of the same kind with the same raw value are the same.
pub proof fn lemma_id_determined(a: Id, b: Id)
    requires
        (a is Extended) == (b is Extended),
        a.raw_value() == b.raw_value(),
    ensures
        a == b,
{
    match (a, b) {
        (Id::Standard(x), Id::Standard(y)) => StandardId::lemma_value_injective(x, y),
        (Id::Extended(x), Id::Extended(y)) => ExtendedId::lemma_value_injective(x, y),
        _ => {},
    }
}

/// What a USB-CAN-A reader gives back of what a writer sent: a data frame
/// whose id fits in 16 bits and whose type matches its id, once encoded by
/// `encode_frame` and received (with whatever follows it), is parsed as one
/// frame that `try_read` turns into a message
/// with the frame's own identifier and data.
pub proof fn lemma_frame_survives_wire(frame: Frame, rest: Seq<u8>)
    requires
        !frame.message.spec_rtr(),
        frame.frame_type == CanFrameType::spec_from_id(frame.message.spec_id()),
        frame.message.spec_id().raw_value() <= 0xFFFF,
        frame.message.spec_id().in_range(),
        frame.message.spec_data().len() <= 8,
    ensures
        ({
            let bytes = spec_data_frame(
                frame.frame_type,
                frame.message.spec_id().raw_value(),
                frame.message.spec_data(),
            );
            let (consumed, parsed) = WaveshareUsbCanA.spec_parse_next(bytes + rest);
            &&& WaveshareUsbCanA.spec_data_frame(
                frame.frame_type,
                frame.message.spec_id().raw_value(),
                frame.message.spec_data(),
            ) == Some(bytes)
            &&& consumed == bytes.len()
            &&& parsed matches Some(fields) && fields_make_message(fields)
            &&& forall|m: CanMessage| #[trigger] message_carries(m, parsed.unwrap()) ==> {
                &&& m.spec_id() == frame.message.spec_id()
                &&& m.spec_data() == frame.message.spec_data()
                &&& !m.spec_rtr()
            }
        }),
{
    let raw = frame.message.spec_id().raw_value();
    let data = frame.message.spec_data();
    crate::protocol::wareshare_usb_can_a::lemma_data_frame_roundtrip(frame.frame_type, raw, data, rest);
    assert(raw & 0xFFFF == raw) by (bit_vector)
        requires
            raw <= 0xFFFF,
    ;
    let fields = ((raw & 0xFFFF) as u16, data, frame.frame_type == CanFrameType::Extended);
    assert(fields.0 as u32 == raw);
    assert forall|m: CanMessage| #[trigger] message_carries(m, fields) implies {
        &&& m.spec_id() == frame.message.spec_id()
        &&& m.spec_data() == frame.message.spec_data()
        &&& !m.spec_rtr()
    } by {
        lemma_id_determined(m.spec_id(), frame.message.spec_id());
    }
}

/// Reads follow the wire order: when the pending bytes hold a stream of
/// USB-CAN-A data frames (and then anything) whose first frame makes a CAN
/// message, `try_read_valid` finds exactly that frame and leaves exactly the
/// rest of the stream pending. The pending bytes then have the same shape
/// again, so successive reads give the frames one by one, in the order they
/// were sent, none skipped and none repeated.
pub proof fn lemma_reads_follow_wire_order(frames: Seq<OutgoingFrame>, rest: Seq<u8>)
    requires
        frames.len() > 0,
        forall|i: int| 0 <= i < frames.len() ==> (#[trigger] frames[i]).2.len() <= 8,
        fields_make_message(spec_received_fields(frames[0])),
    ensures
        ({
            let buf = spec_data_frames(frames) + rest;
            let found = skip_to_message(|b: Seq<u8>| WaveshareUsbCanA.spec_parse_next(b), buf);
            &&& found.1 == Some(spec_received_fields(frames[0]))
            &&& 0 < found.0 <= buf.len()
            &&& buf.skip(found.0) == spec_data_frames(frames.drop_first()) + rest
        }),
{
    let f = frames[0];
    let head = spec_data_frame(f.0, f.1, f.2);
    let tail = spec_data_frames(frames.drop_first()) + rest;
    let buf = spec_data_frames(frames) + rest;
    assert(buf =~= head + tail);
    crate::protocol::wareshare_usb_can_a::lemma_data_frame_roundtrip(f.0, f.1, f.2, tail);
    assert(buf.skip(head.len() as int) =~= tail);
    assert(head.len() > 0);
}

/// Convert parsed wire metadata, with its data in the first `meta.dlc`
/// bytes of `data`, into a [`CanMessage`]; `None` when the id does not fit
/// a standard id of a frame that is not extended, or the data length is
/// above 8.
pub fn meta_to_message(meta: &ParsedFrameMeta, data: &[u8]) -> (r: Option<CanMessage>)
    requires
        meta.dlc <= data@.len(),
    ensures
        r is Some <==> fields_make_message(meta.spec_fields(data@)),
        r matches Some(m) ==> message_carries(m, meta.spec_fields(data@)),
{
    let can_id = if meta.is_extended {
        match ExtendedId::new(meta.id as u32) {
            Some(id) => Id::Extended(id),
            None => return None,
        }
    } else {
        match StandardId::new(meta.id) {
            Some(id) => Id::Standard(id),
            None => return None,
        }
    };
    let payload = vstd::slice::slice_subrange(data, 0, meta.dlc as usize);
    assert(payload@ == data@.take(meta.dlc as int));
    CanMessage::new(can_id, payload)
}

/// Convert a parsed wire frame into a [`CanMessage`]; `None` when the id
/// does not fit a standard id of a frame that is not extended, or the data
/// is longer than 8 bytes.
pub fn parsed_to_message(parsed: &ParsedFrame) -> (r: Option<CanMessage>)
    ensures
        r is Some <==> fields_make_message(parsed@),
        r matches Some(m) ==> message_carries(m, parsed@),
{
    let can_id = if parsed.is_extended {
        match ExtendedId::new(parsed.id as u32) {
            Some(id) => Id::Extended(id),
            None => return None,
        }
    } else {
        match StandardId::new(parsed.id) {
            Some(id) => Id::Standard(id),
            None => return None,
        }
    };
    CanMessage::new(can_id, parsed.data.as_slice())
}

/// The state of a CAN adapter client apart from its byte stream: the wire
/// protocol, its configuration, and the bytes read but not yet parsed.
pub struct ClientCore<P: Protocol> {
    protocol: P,
    config: P::Config,
    debug_traffic: bool,
    rx: RxBuffer,
}

impl<P: Protocol> ClientCore<P> {
    /// The wire protocol.
    pub closed spec fn spec_protocol(&self) -> P {
        self.protocol
    }

    /// The protocol configuration.
    pub closed spec fn spec_config(&self) -> P::Config {
        self.config
    }

    /// Whether traffic is logged.
    pub closed spec fn spec_debug_traffic(&self) -> bool {
        self.debug_traffic
    }

    /// The bytes read from the adapter and not yet parsed.
    pub closed spec fn spec_pending(&self) -> Seq<u8> {
        self.rx@
    }

    /// A client state with nothing received yet.
    pub fn new(protocol: P, config: P::Config, debug_traffic: bool) -> (r: ClientCore<P>)
        ensures
            r.spec_protocol() == protocol,
            r.spec_config() == config,
            r.spec_debug_traffic() == debug_traffic,
            r.spec_pending() == Seq::<u8>::empty(),
    {
        ClientCore { protocol, config, debug_traffic, rx: RxBuffer::new() }
    }

    /// The wire protocol.
    pub fn protocol(&self) -> (r: &P)
        ensures
            *r == self.spec_protocol(),
    {
        &self.protocol
    }

    /// The protocol configuration.
    pub fn config(&self) -> (r: &P::Config)
        ensures
            *r == self.spec_config(),
    {
        &self.config
    }

    /// Whether traffic is logged.
    pub fn debug_traffic(&self) -> (r: bool)
        ensures
            r == self.spec_debug_traffic(),
    {
        self.debug_traffic
    }

    /// Number of bytes read and not yet parsed.
    pub fn pending_len(&self) -> (r: usize)
        ensures
            r == self.spec_pending().len(),
            r <= RX_BUFFER_SIZE,
    {
        self.rx.len()
    }

    /// The settings frame for the configuration, written to the front of
    /// `out`; its length, or an error when `out` is too short.
    pub fn settings_frame(&self, out: &mut [u8]) -> (r: Result<usize, &'static str>)
        ensures
            r is Ok <==> old(out)@.len() >= self.spec_protocol().spec_settings_frame(self.spec_config()).len(),
            r matches Ok(n) ==> {
                &&& n == self.spec_protocol().spec_settings_frame(self.spec_config()).len()
                &&& final(out)@ == self.spec_protocol().spec_settings_frame(self.spec_config()) + old(out)@.skip(
                    n as int,
                )
            },
            r is Err ==> final(out)@ == old(out)@,
    {
        self.protocol.build_settings_frame(&self.config, out)
    }

    /// The wire frame that carries `frame`, written to the front of `out`;
    /// its length, or an error when `out` is too short or the protocol
    /// cannot carry the frame.
    pub fn encode_frame(&self, frame: &Frame, out: &mut [u8]) -> (r: Result<usize, &'static str>)
        ensures
            r is Ok <==> old(out)@.len() >= self.spec_protocol().spec_data_frame_room() && self.spec_protocol().spec_data_frame(
                frame.frame_type,
                frame.message.spec_id().raw_value(),
                frame.message.spec_data(),
            ) is Some,
            r matches Ok(n) ==> self.spec_protocol().spec_data_frame(
                frame.frame_type,
                frame.message.spec_id().raw_value(),
                frame.message.spec_data(),
            ) == Some(final(out)@.take(n as int)) && final(out)@.skip(n as int) == old(out)@.skip(n as int),
            r matches Ok(n) ==> n <= self.spec_protocol().spec_data_frame_room() && final(out)@.len()
                == old(out)@.len(),
            r is Err ==> final(out)@ == old(out)@,
    {
        self.protocol.build_data_frame(frame.frame_type, frame.raw_id(), frame.data(), out)
    }

    /// Before reading from the stream: a buffer full of data that cannot be
    /// parsed is emptied. Returns how many bytes may be read now.
    pub fn prepare_receive(&mut self) -> (r: usize)
        ensures
            old(self).spec_pending().len() >= RX_BUFFER_SIZE ==> final(self).spec_pending() == Seq::<u8>::empty(),
            old(self).spec_pending().len() < RX_BUFFER_SIZE ==> final(self).spec_pending() == old(self).spec_pending(),
            r == RX_BUFFER_SIZE - final(self).spec_pending().len(),
            r > 0,
            final(self).spec_protocol() == old(self).spec_protocol(),
            final(self).spec_config() == old(self).spec_config(),
            final(self).spec_debug_traffic() == old(self).spec_debug_traffic(),
    {
        self.rx.clear_if_full();
        self.rx.free_space()
    }

    /// Takes bytes read from the stream. When they would not fit, the bytes
    /// pending so far are dropped and only the new ones are kept.
    pub fn receive(&mut self, received: &[u8])
        requires
            received@.len() <= RX_BUFFER_SIZE,
        ensures
            old(self).spec_pending().len() + received@.len() > RX_BUFFER_SIZE ==> final(self).spec_pending()
                == received@,
            old(self).spec_pending().len() + received@.len() <= RX_BUFFER_SIZE ==> final(self).spec_pending()
                == old(self).spec_pending() + received@,
            final(self).spec_protocol() == old(self).spec_protocol(),
            final(self).spec_config() == old(self).spec_config(),
            final(self).spec_debug_traffic() == old(self).spec_debug_traffic(),
    {
        self.rx.push_received(received);
    }

    /// Parse already-buffered data without touching the stream: one parsing
    /// step, whose consumed bytes leave the buffer; the message it found, or
    /// `None` when it found no frame or one that makes no CAN message.
    pub fn try_read(&mut self) -> (r: Option<CanMessage>)
        ensures
            ({
                let (consumed, frame) = old(self).spec_protocol().spec_parse_next(old(self).spec_pending());
                &&& 0 <= consumed <= old(self).spec_pending().len()
                &&& final(self).spec_pending() == old(self).spec_pending().skip(consumed)
                &&& r is Some <==> (frame matches Some(fields) && fields_make_message(fields))
                &&& r matches Some(m) ==> message_carries(m, frame.unwrap())
                &&& frame is Some ==> consumed > 0
            }),
            old(self).spec_pending().len() == 0 ==> r is None && final(self).spec_pending() == Seq::<u8>::empty(),
            final(self).spec_protocol() == old(self).spec_protocol(),
            final(self).spec_config() == old(self).spec_config(),
            final(self).spec_debug_traffic() == old(self).spec_debug_traffic(),
    {
        let mut data: [u8; 8] = [0u8; 8];
        match self.rx.next_frame(&self.protocol, &mut data, self.debug_traffic) {
            Some(meta) => meta_to_message(&meta, data.as_slice()),
            None => None,
        }
    }

    /// Parse already-buffered data until a frame makes a CAN message, or no
    /// complete frame is left; frames that make no message are dropped.
    pub fn try_read_valid(&mut self) -> (r: Option<CanMessage>)
        ensures
            ({
                let step = |b: Seq<u8>| old(self).spec_protocol().spec_parse_next(b);
                let (consumed, found) = skip_to_message(step, old(self).spec_pending());
                &&& final(self).spec_pending() == old(self).spec_pending().skip(consumed)
                &&& r is Some <==> found is Some
                &&& r matches Some(m) ==> message_carries(m, found.unwrap())
            }),
            old(self).spec_pending().len() == 0 ==> r is None && final(self).spec_pending() == Seq::<u8>::empty(),
            final(self).spec_protocol() == old(self).spec_protocol(),
            final(self).spec_config() == old(self).spec_config(),
            final(self).spec_debug_traffic() == old(self).spec_debug_traffic(),
    {
        let ghost step = |b: Seq<u8>| self.protocol.spec_parse_next(b);
        let ghost start = self.rx@;
        let ghost dropped: int = 0;
        proof {
            assert(start.skip(0) =~= start);
        }
        loop
            invariant
                self.protocol == old(self).protocol,
                self.config == old(self).config,
                self.debug_traffic == old(self).debug_traffic,
                start == old(self).rx@,
                step == (|b: Seq<u8>| old(self).protocol.spec_parse_next(b)),
                forall|b: Seq<u8>| #[trigger] step(b) == self.protocol.spec_parse_next(b),
                0 <= dropped <= start.len(),
                self.rx@ == start.skip(dropped),
                skip_to_message(step, start) == (
                    dropped + skip_to_message(step, self.rx@).0,
                    skip_to_message(step, self.rx@).1,
                ),
            decreases self.rx@.len(),
        {
            let ghost before = self.rx@;
            let mut data: [u8; 8] = [0u8; 8];
            let meta = match self.rx.next_frame(&self.protocol, &mut data, self.debug_traffic) {
                Some(meta) => meta,
                None => {
                    proof {
                        assert(start.skip(dropped).skip(step(before).0) =~= start.skip(dropped + step(before).0));
                        assert(step =~= (|b: Seq<u8>| old(self).spec_protocol().spec_parse_next(b)));
                    }
                    return None;
                },
            };
            let ghost consumed = step(before).0;
            match meta_to_message(&meta, data.as_slice()) {
                Some(msg) => {
                    proof {
                        assert(start.skip(dropped).skip(consumed) =~= start.skip(dropped + consumed));
                        assert(step =~= (|b: Seq<u8>| old(self).spec_protocol().spec_parse_next(b)));
                    }
                    return Some(msg);
                },
                None => {
                    proof {
                        assert(before.skip(consumed).len() < before.len());
                        assert(start.skip(dropped).skip(consumed) =~= start.skip(dropped + consumed));
                        dropped = dropped + consumed;
                    }
                },
            }
        }
    }
}

} // verus!
