//! The UTF-8 string codec and its value views.

use vstd::prelude::*;
use vstd::slice::slice_to_vec;
use vstd::utf8::{decode_utf8, encode_utf8, valid_utf8};

use crate::chars::{lemma_utf8_round_trip, string_from_utf8};
use crate::codec::{
    spec_frame, spec_frame_len, spec_frame_payload, spec_frame_wf, WasmDecoder, WasmEncoder,
};
use crate::proxy::Proxy;
use crate::scdict::{kv_read, ScDict};

verus! {

/// Whether the bytes stored under `k` decode as a string: they must be
/// valid UTF-8 (the empty buffer is).
pub open spec fn spec_string_wf(m: Map<Seq<u8>, Seq<u8>>, k: Seq<u8>) -> bool {
    valid_utf8(kv_read(m, k))
}

/// Decoding inverts encoding, for every value.
pub proof fn lemma_string_bytes_round_trip(s: Seq<char>)
    ensures
        valid_utf8(encode_utf8(s)),
        decode_utf8(encode_utf8(s)) == s,
{
    lemma_utf8_round_trip(s);
}

/// The empty buffer decodes to the empty string.
pub proof fn lemma_string_empty_default()
    ensures
        decode_utf8(Seq::<u8>::empty()) == Seq::<char>::empty(),
        valid_utf8(Seq::<u8>::empty()),
{
    lemma_utf8_round_trip(Seq::<char>::empty());
    assert(encode_utf8(Seq::<char>::empty()) =~= Seq::<u8>::empty());
}

/// A wire buffer that starts with the frame of a string decodes to that
/// string and leaves exactly the bytes that follow.
pub proof fn lemma_string_wire_round_trip(s: Seq<char>, rest: Seq<u8>)
    requires
        encode_utf8(s).len() <= u32::MAX,
    ensures
        spec_frame_wf(spec_frame(encode_utf8(s)) + rest),
        valid_utf8(spec_frame_payload(spec_frame(encode_utf8(s)) + rest)),
        decode_utf8(spec_frame_payload(spec_frame(encode_utf8(s)) + rest)) == s,
        (spec_frame(encode_utf8(s)) + rest).skip(
            4 + spec_frame_len(spec_frame(encode_utf8(s)) + rest),
        ) == rest,
{
    crate::codec::lemma_frame_round_trip(encode_utf8(s), rest);
    lemma_utf8_round_trip(s);
}

/// Encodes a value canonically: its UTF-8 bytes.
pub fn string_to_bytes(value: &str) -> (buf: Vec<u8>)
    ensures
        buf@ == encode_utf8(value@),
{
    value.as_bytes_vec()
}

/// Decodes a buffer of UTF-8 bytes.
pub fn string_from_bytes(buf: &[u8]) -> (r: String)
    requires
        valid_utf8(buf@),
    ensures
        r@ == decode_utf8(buf@),
{
    match string_from_utf8(slice_to_vec(buf)) {
        Some(s) => {
            proof {
                lemma_utf8_round_trip(s@);
            }
            s
        },
        None => {
            proof {
                assert(false);
            }
            String::new()
        },
    }
}

/// Decodes a buffer, or reports that it is not valid UTF-8.
pub fn string_try_from_bytes(buf: &[u8]) -> (r: Option<String>)
    ensures
        r is Some <==> valid_utf8(buf@),
        r matches Some(s) ==> s@ == decode_utf8(buf@),
{
    match string_from_utf8(slice_to_vec(buf)) {
        Some(s) => {
            proof {
                lemma_utf8_round_trip(s@);
            }
            Some(s)
        },
        None => None,
    }
}

/// A string value is its own rendering.
pub fn string_from_string(value: &str) -> (r: String)
    ensures
        r@ == value@,
{
    value.to_owned()
}

/// A string value is its own rendering.
pub fn string_to_string(value: &str) -> (r: String)
    ensures
        r@ == value@,
{
    value.to_owned()
}

/// Writes the value's UTF-8 bytes as one length-prefixed frame of the wire
/// buffer.
pub fn string_encode(enc: &mut WasmEncoder, value: &str)
    requires
        encode_utf8(value@).len() <= u32::MAX,
    ensures
        final(enc)@ == old(enc)@ + spec_frame(encode_utf8(value@)),
{
    let buf = string_to_bytes(value);
    enc.bytes(buf.as_slice());
}

/// Reads one length-prefixed frame of the wire buffer as a string.
pub fn string_decode(dec: &mut WasmDecoder) -> (r: String)
    requires
        spec_frame_wf(old(dec)@),
        valid_utf8(spec_frame_payload(old(dec)@)),
    ensures
        r@ == decode_utf8(spec_frame_payload(old(dec)@)),
        final(dec)@ == old(dec)@.skip(4 + spec_frame_len(old(dec)@)),
{
    let buf = dec.bytes();
    string_from_bytes(buf.as_slice())
}

/// An immutable view of the string stored at one location.
pub struct ScImmutableString {
    proxy: Proxy,
}

impl View for ScImmutableString {
    type V = Seq<u8>;

    closed spec fn view(&self) -> Seq<u8> {
        self.proxy@
    }
}

impl ScImmutableString {
    /// A view bound to the given location.
    pub fn new(proxy: Proxy) -> (r: ScImmutableString)
        ensures
            r@ == proxy@,
    {
        ScImmutableString { proxy }
    }

    /// Whether the store holds a non-empty value at this location.
    pub fn has(&self, dict: &ScDict) -> (r: bool)
        ensures
            r == (kv_read(dict@, self@).len() > 0),
    {
        self.proxy.has(dict)
    }

    /// The stored string; a string value is its own rendering.
    pub fn to_string(&self, dict: &ScDict) -> (s: String)
        requires
            spec_string_wf(dict@, self@),
        ensures
            s@ == decode_utf8(kv_read(dict@, self@)),
    {
        self.value(dict)
    }

    /// The stored string; empty when absent.
    pub fn value(&self, dict: &ScDict) -> (r: String)
        requires
            spec_string_wf(dict@, self@),
        ensures
            r@ == decode_utf8(kv_read(dict@, self@)),
    {
        let buf = self.proxy.get(dict);
        string_from_bytes(buf.as_slice())
    }
}

/// A mutable view of the string stored at one location.
pub struct ScMutableString {
    proxy: Proxy,
}

impl View for ScMutableString {
    type V = Seq<u8>;

    closed spec fn view(&self) -> Seq<u8> {
        self.proxy@
    }
}

impl ScMutableString {
    /// A view bound to the given location.
    pub fn new(proxy: Proxy) -> (r: ScMutableString)
        ensures
            r@ == proxy@,
    {
        ScMutableString { proxy }
    }

    /// Removes the stored value.
    pub fn delete(&self, dict: &mut ScDict)
        ensures
            final(dict)@ == old(dict)@.remove(self@),
    {
        self.proxy.delete(dict);
    }

    /// Whether the store holds a non-empty value at this location.
    pub fn has(&self, dict: &ScDict) -> (r: bool)
        ensures
            r == (kv_read(dict@, self@).len() > 0),
    {
        self.proxy.has(dict)
    }

    /// Stores the UTF-8 bytes of `value` at this location.
    pub fn set_value(&self, dict: &mut ScDict, value: &str)
        ensures
            final(dict)@ == old(dict)@.insert(self@, encode_utf8(value@)),
            spec_string_wf(final(dict)@, self@),
            decode_utf8(kv_read(final(dict)@, self@)) == value@,
    {
        let buf = string_to_bytes(value);
        self.proxy.set(dict, buf.as_slice());
        proof {
            lemma_utf8_round_trip(value@);
        }
    }

    /// The stored string; a string value is its own rendering.
    pub fn to_string(&self, dict: &ScDict) -> (s: String)
        requires
            spec_string_wf(dict@, self@),
        ensures
            s@ == decode_utf8(kv_read(dict@, self@)),
    {
        self.value(dict)
    }

    /// The stored string; empty when absent.
    pub fn value(&self, dict: &ScDict) -> (r: String)
        requires
            spec_string_wf(dict@, self@),
        ensures
            r@ == decode_utf8(kv_read(dict@, self@)),
    {
        let buf = self.proxy.get(dict);
        string_from_bytes(buf.as_slice())
    }
}

} // verus!
