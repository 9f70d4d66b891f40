//! The opaque byte-string codec and its value views.

use vstd::prelude::*;
use vstd::slice::slice_to_vec;

use crate::codec::{
    spec_frame, spec_frame_len, spec_frame_payload, spec_frame_wf, WasmDecoder, WasmEncoder,
};
use crate::hex::{
    hex_decode, hex_encode, is_hex_string, lemma_hex_round_trip, spec_hex, spec_hex_bytes,
    spec_is_hex_str,
};
use crate::proxy::Proxy;
use crate::scdict::{kv_read, ScDict};

verus! {

/// Parsing inverts rendering, for every value.
pub proof fn lemma_bytes_string_round_trip(buf: Seq<u8>)
    ensures
        spec_is_hex_str(spec_hex(buf)),
        spec_hex_bytes(spec_hex(buf)) == buf,
{
    lemma_hex_round_trip(buf);
}

/// A wire buffer that starts with the frame of a byte string decodes to
/// that byte string and leaves exactly the bytes that follow.
pub proof fn lemma_bytes_wire_round_trip(payload: Seq<u8>, rest: Seq<u8>)
    requires
        payload.len() <= u32::MAX,
    ensures
        spec_frame_wf(spec_frame(payload) + rest),
        spec_frame_payload(spec_frame(payload) + rest) == payload,
        (spec_frame(payload) + rest).skip(4 + spec_frame_len(spec_frame(payload) + rest))
            == rest,
{
    crate::codec::lemma_frame_round_trip(payload, rest);
}

/// Decodes a buffer: the bytes themselves, of any length.
pub fn bytes_from_bytes(buf: &[u8]) -> (r: Vec<u8>)
    ensures
        r@ == buf@,
{
    slice_to_vec(buf)
}

/// Encodes a value canonically: the bytes themselves.
pub fn bytes_to_bytes(value: &[u8]) -> (r: Vec<u8>)
    ensures
        r@ == value@,
{
    slice_to_vec(value)
}

/// Parses a lowercase hexadecimal string.
pub fn bytes_from_string(value: &str) -> (r: Vec<u8>)
    requires
        spec_is_hex_str(value@),
    ensures
        r@ == spec_hex_bytes(value@),
{
    hex_decode(value)
}

/// Parses a string, or reports that it is not hexadecimal.
pub fn bytes_try_from_string(value: &str) -> (r: Option<Vec<u8>>)
    ensures
        r is Some <==> spec_is_hex_str(value@),
        r matches Some(v) ==> v@ == spec_hex_bytes(value@),
{
    if is_hex_string(value) {
        Some(hex_decode(value))
    } else {
        None
    }
}

/// Renders a value as lowercase hexadecimal.
pub fn bytes_to_string(value: &[u8]) -> (s: String)
    ensures
        s@ == spec_hex(value@),
{
    hex_encode(value)
}

/// Writes the value as one length-prefixed frame of the wire buffer.
pub fn bytes_encode(enc: &mut WasmEncoder, value: &[u8])
    requires
        value@.len() <= u32::MAX,
    ensures
        final(enc)@ == old(enc)@ + spec_frame(value@),
{
    enc.bytes(value);
}

/// Reads one length-prefixed frame of the wire buffer.
pub fn bytes_decode(dec: &mut WasmDecoder) -> (r: Vec<u8>)
    requires
        spec_frame_wf(old(dec)@),
    ensures
        r@ == spec_frame_payload(old(dec)@),
        final(dec)@ == old(dec)@.skip(4 + spec_frame_len(old(dec)@)),
{
    dec.bytes()
}

/// An immutable view of the byte string stored at one location.
pub struct ScImmutableBytes {
    proxy: Proxy,
}

impl View for ScImmutableBytes {
    type V = Seq<u8>;

    closed spec fn view(&self) -> Seq<u8> {
        self.proxy@
    }
}

impl ScImmutableBytes {
    /// A view bound to the given location.
    pub fn new(proxy: Proxy) -> (r: ScImmutableBytes)
        ensures
            r@ == proxy@,
    {
        ScImmutableBytes { proxy }
    }

    /// Whether the store holds a non-empty value at this location.
    pub fn has(&self, dict: &ScDict) -> (r: bool)
        ensures
            r == (kv_read(dict@, self@).len() > 0),
    {
        self.proxy.has(dict)
    }

    /// The stored bytes rendered as hexadecimal.
    pub fn to_string(&self, dict: &ScDict) -> (s: String)
        ensures
            s@ == spec_hex(kv_read(dict@, self@)),
    {
        let v = self.value(dict);
        hex_encode(v.as_slice())
    }

    /// The stored bytes; empty when absent.
    pub fn value(&self, dict: &ScDict) -> (r: Vec<u8>)
        ensures
            r@ == kv_read(dict@, self@),
    {
        self.proxy.get(dict)
    }
}

/// A mutable view of the byte string stored at one location.
pub struct ScMutableBytes {
    proxy: Proxy,
}

impl View for ScMutableBytes {
    type V = Seq<u8>;

    closed spec fn view(&self) -> Seq<u8> {
        self.proxy@
    }
}

impl ScMutableBytes {
    /// A view bound to the given location.
    pub fn new(proxy: Proxy) -> (r: ScMutableBytes)
        ensures
            r@ == proxy@,
    {
        ScMutableBytes { proxy }
    }

    /// Removes the stored value.
    pub fn delete(&self, dict: &mut ScDict)
        ensures
            final(dict)@ == old(dict)@.remove(self@),
    {
        self.proxy.delete(dict);
    }

    /// Whether the store holds a non-empty value at this location.
    pub fn has(&self, dict: &ScDict) -> (r: bool)
        ensures
            r == (kv_read(dict@, self@).len() > 0),
    {
        self.proxy.has(dict)
    }

    /// Stores `value` at this location.
    pub fn set_value(&self, dict: &mut ScDict, value: &[u8])
        ensures
            final(dict)@ == old(dict)@.insert(self@, value@),
            kv_read(final(dict)@, self@) == value@,
    {
        self.proxy.set(dict, value);
    }

    /// The stored bytes rendered as hexadecimal.
    pub fn to_string(&self, dict: &ScDict) -> (s: String)
        ensures
            s@ == spec_hex(kv_read(dict@, self@)),
    {
        let v = self.value(dict);
        hex_encode(v.as_slice())
    }

    /// The stored bytes; empty when absent.
    pub fn value(&self, dict: &ScDict) -> (r: Vec<u8>)
        ensures
            r@ == kv_read(dict@, self@),
    {
        self.proxy.get(dict)
    }
}

} // verus!
