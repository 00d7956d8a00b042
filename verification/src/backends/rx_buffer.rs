//! The receive buffer that every transport keeps: bytes read from the
//! adapter wait here until the wire protocol has parsed them.

use vstd::prelude::*;

use crate::protocol::{ParsedFrameMeta, Protocol};

verus! {

/// Receive buffer size (bytes)
pub const RX_BUFFER_SIZE: usize = 1024;

/// Bytes received from the adapter and not yet parsed, in arrival order.
pub struct RxBuffer {
    bytes: [u8; RX_BUFFER_SIZE],
    len: usize,
}

impl View for RxBuffer {
    type V = Seq<u8>;

    closed spec fn view(&self) -> Seq<u8> {
        self.bytes@.take(self.len as int)
    }
}

impl RxBuffer {
    #[verifier::type_invariant]
    spec fn len_in_range(self) -> bool {
        self.len <= RX_BUFFER_SIZE
    }

    /// An empty buffer.
    pub fn new() -> (r: RxBuffer)
        ensures
            r@ == Seq::<u8>::empty(),
    {
        let r = RxBuffer { bytes: [0u8; RX_BUFFER_SIZE], len: 0 };
        assert(r@ =~= Seq::<u8>::empty());
        r
    }

    /// Number of buffered bytes.
    pub fn len(&self) -> (r: usize)
        ensures
            r == self@.len(),
            r <= RX_BUFFER_SIZE,
    {
        proof {
            use_type_invariant(self);
        }
        self.len
    }

    /// The buffered bytes.
    pub fn as_slice(&self) -> (r: &[u8])
        ensures
            r@ == self@,
    {
        proof {
            use_type_invariant(self);
        }
        vstd::slice::slice_subrange(self.bytes.as_slice(), 0, self.len)
    }

    /// Room left for incoming bytes.
    pub fn free_space(&self) -> (r: usize)
        ensures
            r == RX_BUFFER_SIZE - self@.len(),
    {
        proof {
            use_type_invariant(self);
        }
        RX_BUFFER_SIZE - self.len
    }

    /// A buffer that is full of data that cannot be parsed is emptied, so
    /// that reading can go on; any other buffer is left as it is.
    pub fn clear_if_full(&mut self)
        ensures
            old(self)@.len() >= RX_BUFFER_SIZE ==> final(self)@ == Seq::<u8>::empty(),
            old(self)@.len() < RX_BUFFER_SIZE ==> final(self)@ == old(self)@,
    {
        proof {
            use_type_invariant(&*self);
        }
        if self.len >= RX_BUFFER_SIZE {
            self.len = 0;
        }
        assert(self.len == 0 ==> self@ =~= Seq::<u8>::empty());
    }

    /// Appends bytes read from the adapter. When they would not fit, the
    /// old contents are dropped first and the buffer then holds only them.
    pub fn push_received(&mut self, received: &[u8])
        requires
            received@.len() <= RX_BUFFER_SIZE,
        ensures
            old(self)@.len() + received@.len() > RX_BUFFER_SIZE ==> final(self)@ == received@,
            old(self)@.len() + received@.len() <= RX_BUFFER_SIZE ==> final(self)@ == old(self)@ + received@,
    {
        proof {
            use_type_invariant(&*self);
        }
        let n: usize = received.len();
        if self.len + n > RX_BUFFER_SIZE {
            self.len = 0;
        }
        let start: usize = self.len;
        let ghost kept = self.bytes@.take(start as int);
        let mut i: usize = 0;
        while i < n
            invariant
                n == received@.len(),
                start + n <= RX_BUFFER_SIZE,
                i <= n,
                self.len == start,
                forall|j: int| 0 <= j < start ==> #[trigger] self.bytes@[j] == kept[j],
                forall|j: int| 0 <= j < i ==> #[trigger] self.bytes@[start + j] == received@[j],
            decreases n - i,
        {
            self.bytes[start + i] = received[i];
            i = i + 1;
        }
        self.len = start + n;
        proof {
            assert forall|j: int| 0 <= j < start + n implies #[trigger] self@[j] == (kept + received@)[j] by {
                if j >= start {
                    assert(self.bytes@[start + (j - start)] == received@[j - start]);
                }
            }
            assert(self@ =~= kept + received@);
            if old(self)@.len() + received@.len() > RX_BUFFER_SIZE {
                assert(kept =~= Seq::<u8>::empty());
            } else {
                assert(kept =~= old(self)@);
            }
        }
    }

    /// Drops the first `n` buffered bytes; the rest moves to the front.
    pub fn consume(&mut self, n: usize)
        requires
            n <= old(self)@.len(),
        ensures
            final(self)@ == old(self)@.skip(n as int),
    {
        proof {
            use_type_invariant(&*self);
        }
        if n == 0 {
            assert(self@.skip(0) =~= self@);
            return;
        }
        let len: usize = self.len;
        let ghost before = self.bytes@;
        let mut i: usize = 0;
        while i < len - n
            invariant
                n <= len,
                len <= RX_BUFFER_SIZE,
                self.len == len,
                i <= len - n,
                forall|j: int| 0 <= j < i ==> #[trigger] self.bytes@[j] == before[j + n],
                forall|j: int| i <= j < RX_BUFFER_SIZE ==> #[trigger] self.bytes@[j] == before[j],
            decreases len - n - i,
        {
            let b: u8 = self.bytes[i + n];
            self.bytes[i] = b;
            i = i + 1;
        }
        self.len = len - n;
        assert(self@ =~= old(self)@.skip(n as int));
    }

    /// One parsing step over the buffered bytes with `protocol`: the bytes
    /// it consumes (junk, and the frame if there is one) leave the buffer,
    /// and the frame's data goes to `data_out`.
    pub fn next_frame<P: Protocol>(&mut self, protocol: &P, data_out: &mut [u8; 8], debug_traffic: bool) -> (r: Option<
        ParsedFrameMeta,
    >)
        ensures
            final(self)@ == old(self)@.skip(protocol.spec_parse_next(old(self)@).0),
            0 <= protocol.spec_parse_next(old(self)@).0 <= old(self)@.len(),
            r is Some <==> protocol.spec_parse_next(old(self)@).1 is Some,
            r matches Some(meta) ==> {
                &&& meta.dlc <= 8
                &&& protocol.spec_parse_next(old(self)@).0 > 0
                &&& protocol.spec_parse_next(old(self)@).1 == Some(meta.spec_fields(final(data_out)@))
            },
            r is None ==> final(data_out)@ == old(data_out)@,
    {
        let (consumed, meta) = protocol.parse_next_frame(self.as_slice(), data_out, debug_traffic);
        if consumed > 0 {
            self.consume(consumed);
        } else {
            assert(self@.skip(0) =~= self@);
        }
        meta
    }
}

} // verus!
