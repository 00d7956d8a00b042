//! no_std backend over `embedded-io` / `embedded-io-async` byte streams
//! (UART, USB-CDC, ...), generic over the wire [`Protocol`], with
//! fixed-size buffers and no heap allocation.
//!
//! The clients here hold the stream and the [`ClientCore`]; the reads and
//! writes on the stream are made by the code that drives them.

use vstd::prelude::*;

use crate::backends::client_core::ClientCore;
use crate::message::CanMessage;
use crate::protocol::Protocol;

pub use crate::backends::rx_buffer::RX_BUFFER_SIZE;

verus! {

/// Transmit scratch buffer size (bytes).
///
/// Must be at least as long as the protocol's settings frame and data frame
/// room; protocol methods validate and error out otherwise.
pub const TX_BUFFER_SIZE: usize = 64;

/// Errors of the embedded-io backend.
#[derive(Debug)]
pub enum EmbeddedIoError<E> {
    /// Underlying IO error
    Io(E),
    /// Protocol error (frame build/parse failure)
    Protocol(&'static str),
}

impl<E> From<E> for EmbeddedIoError<E> {
    fn from(e: E) -> (r: EmbeddedIoError<E>) {
        EmbeddedIoError::Io(e)
    }
}

impl<E> vstd::std_specs::convert::FromSpecImpl<E> for EmbeddedIoError<E> {
    open spec fn obeys_from_spec() -> bool {
        true
    }

    open spec fn from_spec(e: E) -> EmbeddedIoError<E> {
        EmbeddedIoError::Io(e)
    }
}

/// Blocking CAN adapter client over an `embedded_io::Read` +
/// `embedded_io::Write` stream.
pub struct CanUsbClient<IO, P: Protocol> {
    io: IO,
    state: ClientCore<P>,
}

impl<IO, P: Protocol> CanUsbClient<IO, P> {
    /// The stream.
    pub closed spec fn spec_io(&self) -> IO {
        self.io
    }

    /// The protocol state.
    pub closed spec fn spec_state(&self) -> ClientCore<P> {
        self.state
    }

    /// A client over `io` that has sent its settings frame and received
    /// nothing yet.
    pub fn from_parts(io: IO, protocol: P, config: P::Config, debug_traffic: bool) -> (r: CanUsbClient<IO, P>)
        ensures
            r.spec_io() == io,
            r.spec_state().spec_protocol() == protocol,
            r.spec_state().spec_config() == config,
            r.spec_state().spec_debug_traffic() == debug_traffic,
            r.spec_state().spec_pending() == Seq::<u8>::empty(),
    {
        CanUsbClient { io, state: ClientCore::new(protocol, config, debug_traffic) }
    }

    /// Get a reference to the underlying IO stream.
    pub fn io(&self) -> (r: &IO)
        ensures
            *r == self.spec_io(),
    {
        &self.io
    }

    /// Get a mutable reference to the underlying IO stream.
    pub fn io_mut(&mut self) -> (r: &mut IO)
        ensures
            *r == old(self).spec_io(),
            final(self).spec_io() == *final(r),
            final(self).spec_state() == old(self).spec_state(),
    {
        &mut self.io
    }

    /// Get a reference to the protocol configuration.
    pub fn config(&self) -> (r: &P::Config)
        ensures
            *r == self.spec_state().spec_config(),
    {
        self.state.config()
    }

    /// The protocol state: protocol, configuration, pending bytes.
    pub fn state(&self) -> (r: &ClientCore<P>)
        ensures
            *r == self.spec_state(),
    {
        &self.state
    }

    /// Before reading from the stream: a receive buffer full of data that
    /// cannot be parsed is emptied (see [`ClientCore::prepare_receive`]).
    /// Returns how many bytes may be read now.
    pub fn prepare_receive(&mut self) -> (r: usize)
        ensures
            old(self).spec_state().spec_pending().len() >= RX_BUFFER_SIZE ==> final(self).spec_state().spec_pending() == Seq::<u8>::empty(),
            old(self).spec_state().spec_pending().len() < RX_BUFFER_SIZE ==> final(self).spec_state().spec_pending()
                == old(self).spec_state().spec_pending(),
            r == RX_BUFFER_SIZE - final(self).spec_state().spec_pending().len(),
            r > 0,
            final(self).spec_state().spec_protocol() == old(self).spec_state().spec_protocol(),
            final(self).spec_state().spec_config() == old(self).spec_state().spec_config(),
            final(self).spec_state().spec_debug_traffic() == old(self).spec_state().spec_debug_traffic(),
            final(self).spec_io() == old(self).spec_io(),
    {
        self.state.prepare_receive()
    }

    /// Takes bytes read from the stream (see [`ClientCore::receive`]).
    pub fn receive(&mut self, received: &[u8])
        requires
            received@.len() <= RX_BUFFER_SIZE,
        ensures
            old(self).spec_state().spec_pending().len() + received@.len() > RX_BUFFER_SIZE ==> final(self).spec_state().spec_pending() == received@,
            old(self).spec_state().spec_pending().len() + received@.len() <= RX_BUFFER_SIZE ==> final(self).spec_state().spec_pending() == old(self).spec_state().spec_pending() + received@,
            final(self).spec_state().spec_protocol() == old(self).spec_state().spec_protocol(),
            final(self).spec_state().spec_config() == old(self).spec_state().spec_config(),
            final(self).spec_state().spec_debug_traffic() == old(self).spec_state().spec_debug_traffic(),
            final(self).spec_io() == old(self).spec_io(),
    {
        self.state.receive(received);
    }

    /// Parse already-buffered data without touching the IO stream
    /// (see [`ClientCore::try_read`]).
    pub fn try_read(&mut self) -> (r: Option<CanMessage>)
        ensures
            ({
                let st = old(self).spec_state();
                let (consumed, frame) = st.spec_protocol().spec_parse_next(st.spec_pending());
                &&& 0 <= consumed <= st.spec_pending().len()
                &&& final(self).spec_state().spec_pending() == st.spec_pending().skip(consumed)
                &&& r is Some <==> (frame matches Some(fields)
                    && crate::backends::client_core::fields_make_message(fields))
                &&& r matches Some(m) ==> crate::backends::client_core::message_carries(m, frame.unwrap())
                &&& frame is Some ==> consumed > 0
            }),
            old(self).spec_state().spec_pending().len() == 0 ==> r is None && final(self).spec_state().spec_pending() == Seq::<u8>::empty(),
            final(self).spec_state().spec_protocol() == old(self).spec_state().spec_protocol(),
            final(self).spec_state().spec_config() == old(self).spec_state().spec_config(),
            final(self).spec_state().spec_debug_traffic() == old(self).spec_state().spec_debug_traffic(),
            final(self).spec_io() == old(self).spec_io(),
    {
        self.state.try_read()
    }
}

/// Async CAN adapter client over an `embedded_io_async::Read` +
/// `embedded_io_async::Write` stream.
pub struct AsyncCanUsbClient<IO, P: Protocol> {
    io: IO,
    state: ClientCore<P>,
}

impl<IO, P: Protocol> AsyncCanUsbClient<IO, P> {
    /// The stream.
    pub closed spec fn spec_io(&self) -> IO {
        self.io
    }

    /// The protocol state.
    pub closed spec fn spec_state(&self) -> ClientCore<P> {
        self.state
    }

    /// A client over `io` that has sent its settings frame and received
    /// nothing yet.
    pub fn from_parts(io: IO, protocol: P, config: P::Config, debug_traffic: bool) -> (r: AsyncCanUsbClient<IO, P>)
        ensures
            r.spec_io() == io,
            r.spec_state().spec_protocol() == protocol,
            r.spec_state().spec_config() == config,
            r.spec_state().spec_debug_traffic() == debug_traffic,
            r.spec_state().spec_pending() == Seq::<u8>::empty(),
    {
        AsyncCanUsbClient { io, state: ClientCore::new(protocol, config, debug_traffic) }
    }

    /// Get a reference to the underlying IO stream.
    pub fn io(&self) -> (r: &IO)
        ensures
            *r == self.spec_io(),
    {
        &self.io
    }

    /// Get a mutable reference to the underlying IO stream.
    pub fn io_mut(&mut self) -> (r: &mut IO)
        ensures
            *r == old(self).spec_io(),
            final(self).spec_io() == *final(r),
            final(self).spec_state() == old(self).spec_state(),
    {
        &mut self.io
    }

    /// Get a reference to the protocol configuration.
    pub fn config(&self) -> (r: &P::Config)
        ensures
            *r == self.spec_state().spec_config(),
    {
        self.state.config()
    }

    /// The protocol state: protocol, configuration, pending bytes.
    pub fn state(&self) -> (r: &ClientCore<P>)
        ensures
            *r == self.spec_state(),
    {
        &self.state
    }

    /// Before reading from the stream: a receive buffer full of data that
    /// cannot be parsed is emptied (see [`ClientCore::prepare_receive`]).
    /// Returns how many bytes may be read now.
    pub fn prepare_receive(&mut self) -> (r: usize)
        ensures
            old(self).spec_state().spec_pending().len() >= RX_BUFFER_SIZE ==> final(self).spec_state().spec_pending() == Seq::<u8>::empty(),
            old(self).spec_state().spec_pending().len() < RX_BUFFER_SIZE ==> final(self).spec_state().spec_pending()
                == old(self).spec_state().spec_pending(),
            r == RX_BUFFER_SIZE - final(self).spec_state().spec_pending().len(),
            r > 0,
            final(self).spec_state().spec_protocol() == old(self).spec_state().spec_protocol(),
            final(self).spec_state().spec_config() == old(self).spec_state().spec_config(),
            final(self).spec_state().spec_debug_traffic() == old(self).spec_state().spec_debug_traffic(),
            final(self).spec_io() == old(self).spec_io(),
    {
        self.state.prepare_receive()
    }

    /// Takes bytes read from the stream (see [`ClientCore::receive`]).
    pub fn receive(&mut self, received: &[u8])
        requires
            received@.len() <= RX_BUFFER_SIZE,
        ensures
            old(self).spec_state().spec_pending().len() + received@.len() > RX_BUFFER_SIZE ==> final(self).spec_state().spec_pending() == received@,
            old(self).spec_state().spec_pending().len() + received@.len() <= RX_BUFFER_SIZE ==> final(self).spec_state().spec_pending() == old(self).spec_state().spec_pending() + received@,
            final(self).spec_state().spec_protocol() == old(self).spec_state().spec_protocol(),
            final(self).spec_state().spec_config() == old(self).spec_state().spec_config(),
            final(self).spec_state().spec_debug_traffic() == old(self).spec_state().spec_debug_traffic(),
            final(self).spec_io() == old(self).spec_io(),
    {
        self.state.receive(received);
    }

    /// Parse already-buffered data without touching the IO stream
    /// (see [`ClientCore::try_read`]).
    pub fn try_read(&mut self) -> (r: Option<CanMessage>)
        ensures
            ({
                let st = old(self).spec_state();
                let (consumed, frame) = st.spec_protocol().spec_parse_next(st.spec_pending());
                &&& 0 <= consumed <= st.spec_pending().len()
                &&& final(self).spec_state().spec_pending() == st.spec_pending().skip(consumed)
                &&& r is Some <==> (frame matches Some(fields)
                    && crate::backends::client_core::fields_make_message(fields))
                &&& r matches Some(m) ==> crate::backends::client_core::message_carries(m, frame.unwrap())
                &&& frame is Some ==> consumed > 0
            }),
            old(self).spec_state().spec_pending().len() == 0 ==> r is None && final(self).spec_state().spec_pending() == Seq::<u8>::empty(),
            final(self).spec_state().spec_protocol() == old(self).spec_state().spec_protocol(),
            final(self).spec_state().spec_config() == old(self).spec_state().spec_config(),
            final(self).spec_state().spec_debug_traffic() == old(self).spec_state().spec_debug_traffic(),
            final(self).spec_io() == old(self).spec_io(),
    {
        self.state.try_read()
    }
}

} // verus!
