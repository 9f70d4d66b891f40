//! The unsigned 8-bit integer codec and its value views.

use vstd::bytes::*;
use vstd::prelude::*;

use crate::codec::{WasmDecoder, WasmEncoder};
use crate::decimal::{
    dec_to_u64, dec_try_to_u64, lemma_udec_round_trip, spec_is_uint_str, spec_udec,
    spec_uint_str_val, u64_to_dec,
};
use crate::proxy::Proxy;
use crate::scdict::{kv_read, ScDict};

verus! {

/// The fixed byte length of an encoded unsigned 8-bit integer.
pub const SC_UINT8_LENGTH: usize = 1;

/// The canonical encoding: one byte holding the value.
pub open spec fn spec_uint8_to_bytes(value: u8) -> Seq<u8> {
    seq![value as u8]
}

/// The value decoded from a buffer: the default 0 for the empty buffer,
/// the little-endian reading otherwise.
pub open spec fn spec_uint8_from_bytes(buf: Seq<u8>) -> u8
    recommends
        buf.len() == 0 || buf.len() == SC_UINT8_LENGTH,
{
    if buf.len() == 0 {
        0u8
    } else {
        buf[0]
    }
}

/// Whether the bytes stored under `k` decode as an unsigned 8-bit integer:
/// absent, or exactly 1 byte.
pub open spec fn spec_uint8_wf(m: Map<Seq<u8>, Seq<u8>>, k: Seq<u8>) -> bool {
    kv_read(m, k).len() == 0 || kv_read(m, k).len() == SC_UINT8_LENGTH
}

/// Decoding inverts encoding, for every value.
pub proof fn lemma_uint8_bytes_round_trip(value: u8)
    ensures
        spec_uint8_to_bytes(value).len() == SC_UINT8_LENGTH,
        spec_uint8_from_bytes(spec_uint8_to_bytes(value)) == value,
{

}

/// The empty buffer decodes to the default value 0.
pub proof fn lemma_uint8_empty_default()
    ensures
        spec_uint8_from_bytes(Seq::<u8>::empty()) == 0u8,
{
}

/// Parsing inverts rendering, for every value.
pub proof fn lemma_uint8_string_round_trip(value: u8)
    ensures
        spec_is_uint_str(spec_udec(value as nat)),
        spec_uint_str_val(spec_udec(value as nat)) == value as int,
{
    lemma_udec_round_trip(value as nat);
}

/// A wire buffer that starts with the encoding of `value` decodes to
/// `value` and leaves exactly the bytes that follow.
pub proof fn lemma_uint8_wire_round_trip(value: u8, rest: Seq<u8>)
    ensures
        (spec_uint8_to_bytes(value) + rest).len() >= SC_UINT8_LENGTH,
        spec_uint8_from_bytes((spec_uint8_to_bytes(value) + rest).take(SC_UINT8_LENGTH as int)) == value,
        (spec_uint8_to_bytes(value) + rest).skip(SC_UINT8_LENGTH as int) == rest,
{
    lemma_uint8_bytes_round_trip(value);
    let b = spec_uint8_to_bytes(value) + rest;
    assert(b.take(SC_UINT8_LENGTH as int) =~= spec_uint8_to_bytes(value));
    assert(b.skip(SC_UINT8_LENGTH as int) =~= rest);
}

/// Decodes a buffer of 0 or 1 bytes.
pub fn uint8_from_bytes(buf: &[u8]) -> (value: u8)
    requires
        buf@.len() == 0 || buf@.len() == SC_UINT8_LENGTH,
    ensures
        value == spec_uint8_from_bytes(buf@),
{
    if buf.len() == 0 {
        0
    } else {
        buf[0]
    }
}

/// Decodes a buffer, or reports a wrong length.
pub fn uint8_try_from_bytes(buf: &[u8]) -> (r: Option<u8>)
    ensures
        r is Some <==> (buf@.len() == 0 || buf@.len() == SC_UINT8_LENGTH),
        r matches Some(value) ==> value == spec_uint8_from_bytes(buf@),
{
    if buf.len() == 0 || buf.len() == SC_UINT8_LENGTH {
        Some(uint8_from_bytes(buf))
    } else {
        None
    }
}

/// Encodes a value canonically.
pub fn uint8_to_bytes(value: u8) -> (buf: Vec<u8>)
    ensures
        buf@ == spec_uint8_to_bytes(value),
        buf@.len() == SC_UINT8_LENGTH,
{
    let mut buf: Vec<u8> = Vec::new();
    buf.push(value as u8);
    proof {
        assert(buf@ =~= seq![value as u8]);
    }
    buf
}

/// Parses a decimal string.
pub fn uint8_from_string(value: &str) -> (r: u8)
    requires
        spec_is_uint_str(value@),
        0 <= spec_uint_str_val(value@) <= u8::MAX,
    ensures
        r as int == spec_uint_str_val(value@),
{
    dec_to_u64(value) as u8
}

/// Parses a decimal string, or reports that it is not one in range.
pub fn uint8_try_from_string(value: &str) -> (r: Option<u8>)
    ensures
        r is Some <==> (spec_is_uint_str(value@) && 0 <= spec_uint_str_val(value@) <= u8::MAX),
        r matches Some(v) ==> v as int == spec_uint_str_val(value@),
{
    match dec_try_to_u64(value) {
        None => None,
        Some(v) => {
            if v <= u8::MAX as u64 {
                Some(v as u8)
            } else {
                None
            }
        },
    }
}

/// Renders a value in decimal.
pub fn uint8_to_string(value: u8) -> (s: String)
    ensures
        s@ == spec_udec(value as nat),
{
    u64_to_dec(value as u64)
}

/// Writes the canonical byte to the wire buffer.
pub fn uint8_encode(enc: &mut WasmEncoder, value: u8)
    ensures
        final(enc)@ == old(enc)@ + spec_uint8_to_bytes(value),
{
    let buf = uint8_to_bytes(value);
    enc.fixed_bytes(buf.as_slice(), SC_UINT8_LENGTH);
}

/// Reads the next byte of the wire buffer.
pub fn uint8_decode(dec: &mut WasmDecoder) -> (r: u8)
    requires
        old(dec)@.len() >= SC_UINT8_LENGTH,
    ensures
        r == spec_uint8_from_bytes(old(dec)@.take(SC_UINT8_LENGTH as int)),
        final(dec)@ == old(dec)@.skip(SC_UINT8_LENGTH as int),
{
    let buf = dec.fixed_bytes(SC_UINT8_LENGTH);
    uint8_from_bytes(buf.as_slice())
}

/// An immutable view of the unsigned 8-bit integer stored at one location.
pub struct ScImmutableUint8 {
    proxy: Proxy,
}

impl View for ScImmutableUint8 {
    type V = Seq<u8>;

    closed spec fn view(&self) -> Seq<u8> {
        self.proxy@
    }
}

impl ScImmutableUint8 {
    /// A view bound to the given location.
    pub fn new(proxy: Proxy) -> (r: ScImmutableUint8)
        ensures
            r@ == proxy@,
    {
        ScImmutableUint8 { proxy }
    }

    /// Whether the store holds a non-empty value at this location.
    pub fn has(&self, dict: &ScDict) -> (r: bool)
        ensures
            r == (kv_read(dict@, self@).len() > 0),
    {
        self.proxy.has(dict)
    }

    /// The stored value rendered in decimal.
    pub fn to_string(&self, dict: &ScDict) -> (s: String)
        requires
            spec_uint8_wf(dict@, self@),
        ensures
            s@ == spec_udec(spec_uint8_from_bytes(kv_read(dict@, self@)) as nat),
    {
        uint8_to_string(self.value(dict))
    }

    /// The stored value; 0 when absent.
    pub fn value(&self, dict: &ScDict) -> (r: u8)
        requires
            spec_uint8_wf(dict@, self@),
        ensures
            r == spec_uint8_from_bytes(kv_read(dict@, self@)),
    {
        let buf = self.proxy.get(dict);
        uint8_from_bytes(buf.as_slice())
    }
}

/// A mutable view of the unsigned 8-bit integer stored at one location.
pub struct ScMutableUint8 {
    proxy: Proxy,
}

impl View for ScMutableUint8 {
    type V = Seq<u8>;

    closed spec fn view(&self) -> Seq<u8> {
        self.proxy@
    }
}

impl ScMutableUint8 {
    /// A view bound to the given location.
    pub fn new(proxy: Proxy) -> (r: ScMutableUint8)
        ensures
            r@ == proxy@,
    {
        ScMutableUint8 { proxy }
    }

    /// Removes the stored value.
    pub fn delete(&self, dict: &mut ScDict)
        ensures
            final(dict)@ == old(dict)@.remove(self@),
    {
        self.proxy.delete(dict);
    }

    /// Whether the store holds a non-empty value at this location.
    pub fn has(&self, dict: &ScDict) -> (r: bool)
        ensures
            r == (kv_read(dict@, self@).len() > 0),
    {
        self.proxy.has(dict)
    }

    /// Stores the canonical encoding of `value` at this location.
    pub fn set_value(&self, dict: &mut ScDict, value: u8)
        ensures
            final(dict)@ == old(dict)@.insert(self@, spec_uint8_to_bytes(value)),
            spec_uint8_wf(final(dict)@, self@),
            spec_uint8_from_bytes(kv_read(final(dict)@, self@)) == value,
    {
        let buf = uint8_to_bytes(value);
        self.proxy.set(dict, buf.as_slice());
        proof {
            lemma_uint8_bytes_round_trip(value);
        }
    }

    /// The stored value rendered in decimal.
    pub fn to_string(&self, dict: &ScDict) -> (s: String)
        requires
            spec_uint8_wf(dict@, self@),
        ensures
            s@ == spec_udec(spec_uint8_from_bytes(kv_read(dict@, self@)) as nat),
    {
        uint8_to_string(self.value(dict))
    }

    /// The stored value; 0 when absent.
    pub fn value(&self, dict: &ScDict) -> (r: u8)
        requires
            spec_uint8_wf(dict@, self@),
        ensures
            r == spec_uint8_from_bytes(kv_read(dict@, self@)),
    {
        let buf = self.proxy.get(dict);
        uint8_from_bytes(buf.as_slice())
    }
}

} // verus!
