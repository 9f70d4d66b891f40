//! The length-framed wire buffer shared by all codecs.
//!
//! A call's parameters or results travel as one flat byte buffer: each
//! value contributes its canonical encoding in declared field order.
//! Fixed-width values contribute exactly their fixed byte count;
//! variable-length values are preceded by their length as 4 little-endian
//! bytes.  There is no padding and no alignment.

use vstd::bytes::*;
use vstd::prelude::*;
use vstd::slice::{slice_subrange, slice_to_vec};

verus! {

/// The wire form of a variable-length payload: its length as 4
/// little-endian bytes, then the payload itself.
pub open spec fn spec_frame(p: Seq<u8>) -> Seq<u8> {
    spec_u32_to_le_bytes(p.len() as u32) + p
}

/// Whether the buffer `b` starts with a complete frame.
pub open spec fn spec_frame_wf(b: Seq<u8>) -> bool {
    b.len() >= 4 && 4 + spec_frame_len(b) <= b.len()
}

/// The payload length announced by the frame at the start of `b`.
pub open spec fn spec_frame_len(b: Seq<u8>) -> int {
    spec_u32_from_le_bytes(b.take(4)) as int
}

/// The payload of the frame at the start of `b`.
pub open spec fn spec_frame_payload(b: Seq<u8>) -> Seq<u8> {
    b.skip(4).take(spec_frame_len(b))
}

/// A frame followed by arbitrary bytes reads back as its payload, leaving
/// exactly those bytes.
pub proof fn lemma_frame_round_trip(p: Seq<u8>, rest: Seq<u8>)
    requires
        p.len() <= u32::MAX,
    ensures
        spec_frame_wf(spec_frame(p) + rest),
        spec_frame_len(spec_frame(p) + rest) == p.len(),
        spec_frame_payload(spec_frame(p) + rest) == p,
        (spec_frame(p) + rest).skip(4 + p.len() as int) == rest,
{
    lemma_auto_spec_u32_to_from_le_bytes();
    let b = spec_frame(p) + rest;
    assert(b.take(4) =~= spec_u32_to_le_bytes(p.len() as u32));
    assert(spec_frame_len(b) == p.len());
    assert(b.skip(4).take(p.len() as int) =~= p);
    assert(b.skip(4 + p.len() as int) =~= rest);
}

/// Accumulates the wire encoding of a sequence of values.
pub struct WasmEncoder {
    buf: Vec<u8>,
}

impl View for WasmEncoder {
    type V = Seq<u8>;

    closed spec fn view(&self) -> Seq<u8> {
        self.buf@
    }
}

impl WasmEncoder {
    /// An encoder with an empty buffer.
    pub fn new() -> (r: WasmEncoder)
        ensures
            r@ == Seq::<u8>::empty(),
    {
        WasmEncoder { buf: Vec::new() }
    }

    /// Appends the bytes of a fixed-width value.
    pub fn fixed_bytes(&mut self, value: &[u8], length: usize)
        requires
            value@.len() == length,
        ensures
            final(self)@ == old(self)@ + value@,
    {
        self.buf.extend_from_slice(value);
    }

    /// Appends a length as 4 little-endian bytes.
    pub fn length(&mut self, n: u32)
        ensures
            final(self)@ == old(self)@ + spec_u32_to_le_bytes(n),
    {
        let enc = u32_to_le_bytes(n);
        self.buf.extend_from_slice(enc.as_slice());
    }

    /// Appends a variable-length payload as one frame.
    pub fn bytes(&mut self, value: &[u8])
        requires
            value@.len() <= u32::MAX,
        ensures
            final(self)@ == old(self)@ + spec_frame(value@),
    {
        self.length(value.len() as u32);
        self.fixed_bytes(value, value.len());
        proof {
            assert(final(self)@ =~= old(self)@ + spec_frame(value@));
        }
    }

    /// The accumulated wire buffer.
    pub fn buf(self) -> (r: Vec<u8>)
        ensures
            r@ == self@,
    {
        self.buf
    }
}

/// Consumes a wire buffer from front to back.
pub struct WasmDecoder {
    buf: Vec<u8>,
    pos: usize,
}

impl View for WasmDecoder {
    type V = Seq<u8>;

    closed spec fn view(&self) -> Seq<u8> {
        if self.pos <= self.buf@.len() {
            self.buf@.skip(self.pos as int)
        } else {
            Seq::empty()
        }
    }
}

impl WasmDecoder {
    /// The read position never passes the end of the buffer.
    #[verifier::type_invariant]
    closed spec fn wf(self) -> bool {
        self.pos <= self.buf@.len()
    }

    /// A decoder over the given wire buffer.
    pub fn new(buf: &[u8]) -> (r: WasmDecoder)
        ensures
            r@ == buf@,
    {
        let v = slice_to_vec(buf);
        proof {
            assert(v@.skip(0) =~= buf@);
        }
        WasmDecoder { buf: v, pos: 0 }
    }

    /// Reads the next `length` bytes of a fixed-width value.
    pub fn fixed_bytes(&mut self, length: usize) -> (r: Vec<u8>)
        requires
            length <= old(self)@.len(),
        ensures
            r@ == old(self)@.take(length as int),
            final(self)@ == old(self)@.skip(length as int),
    {
        proof {
            use_type_invariant(&*self);
        }
        let bl = self.buf.len();
        assert(self.pos + length <= bl);
        let part = slice_subrange(self.buf.as_slice(), self.pos, self.pos + length);
        let r = slice_to_vec(part);
        self.pos = self.pos + length;
        proof {
            assert(r@ =~= old(self)@.take(length as int));
            assert(final(self)@ =~= old(self)@.skip(length as int));
        }
        r
    }

    /// Reads a length announced as 4 little-endian bytes.
    pub fn length(&mut self) -> (r: u32)
        requires
            old(self)@.len() >= 4,
        ensures
            r as int == spec_frame_len(old(self)@),
            final(self)@ == old(self)@.skip(4),
    {
        let b = self.fixed_bytes(4);
        u32_from_le_bytes(b.as_slice())
    }

    /// Reads one frame and returns its payload.
    pub fn bytes(&mut self) -> (r: Vec<u8>)
        requires
            spec_frame_wf(old(self)@),
        ensures
            r@ == spec_frame_payload(old(self)@),
            final(self)@ == old(self)@.skip(4 + spec_frame_len(old(self)@)),
    {
        let n = self.length();
        let r = self.fixed_bytes(n as usize);
        proof {
            assert(old(self)@.skip(4).take(spec_frame_len(old(self)@)) == spec_frame_payload(
                old(self)@,
            ));
            assert(old(self)@.skip(4).skip(spec_frame_len(old(self)@)) =~= old(self)@.skip(
                4 + spec_frame_len(old(self)@),
            ));
        }
        r
    }

    /// How many bytes remain to be read.
    pub fn remaining(&self) -> (r: usize)
        ensures
            r == self@.len(),
    {
        proof {
            use_type_invariant(&*self);
        }
        self.buf.len() - self.pos
    }
}

} // verus!
