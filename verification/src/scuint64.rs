//! The unsigned 64-bit integer codec and its value views.

use vstd::bytes::*;
use vstd::prelude::*;

use crate::codec::{WasmDecoder, WasmEncoder};
use crate::decimal::{
    dec_to_u64, dec_try_to_u64, lemma_udec_round_trip, spec_is_uint_str, spec_udec,
    spec_uint_str_val, u64_to_dec,
};
use crate::proxy::Proxy;
use crate::scdict::{kv_read, ScDict};

verus! {

/// The fixed byte length of an encoded unsigned 64-bit integer.
pub const SC_UINT64_LENGTH: usize = 8;

/// The canonical encoding: 8 little-endian bytes.
pub open spec fn spec_uint64_to_bytes(value: u64) -> Seq<u8> {
    spec_u64_to_le_bytes(value)
}

/// The value decoded from a buffer: the default 0 for the empty buffer,
/// the little-endian reading otherwise.
pub open spec fn spec_uint64_from_bytes(buf: Seq<u8>) -> u64
    recommends
        buf.len() == 0 || buf.len() == SC_UINT64_LENGTH,
{
    if buf.len() == 0 {
        0u64
    } else {
        spec_u64_from_le_bytes(buf.take(8))
    }
}

/// Whether the bytes stored under `k` decode as an unsigned 64-bit integer:
/// absent, or exactly 8 bytes.
pub open spec fn spec_uint64_wf(m: Map<Seq<u8>, Seq<u8>>, k: Seq<u8>) -> bool {
    kv_read(m, k).len() == 0 || kv_read(m, k).len() == SC_UINT64_LENGTH
}

/// Decoding inverts encoding, for every value.
pub proof fn lemma_uint64_bytes_round_trip(value: u64)
    ensures
        spec_uint64_to_bytes(value).len() == SC_UINT64_LENGTH,
        spec_uint64_from_bytes(spec_uint64_to_bytes(value)) == value,
{
    lemma_auto_spec_u64_to_from_le_bytes();
    let b = spec_uint64_to_bytes(value);
    assert(b.take(8) =~= b);
}

/// The empty buffer decodes to the default value 0.
pub proof fn lemma_uint64_empty_default()
    ensures
        spec_uint64_from_bytes(Seq::<u8>::empty()) == 0u64,
{
}

/// Parsing inverts rendering, for every value.
pub proof fn lemma_uint64_string_round_trip(value: u64)
    ensures
        spec_is_uint_str(spec_udec(value as nat)),
        spec_uint_str_val(spec_udec(value as nat)) == value as int,
{
    lemma_udec_round_trip(value as nat);
}

/// A wire buffer that starts with the encoding of `value` decodes to
/// `value` and leaves exactly the bytes that follow.
pub proof fn lemma_uint64_wire_round_trip(value: u64, rest: Seq<u8>)
    ensures
        (spec_uint64_to_bytes(value) + rest).len() >= SC_UINT64_LENGTH,
        spec_uint64_from_bytes((spec_uint64_to_bytes(value) + rest).take(SC_UINT64_LENGTH as int)) == value,
        (spec_uint64_to_bytes(value) + rest).skip(SC_UINT64_LENGTH as int) == rest,
{
    lemma_uint64_bytes_round_trip(value);
    let b = spec_uint64_to_bytes(value) + rest;
    assert(b.take(SC_UINT64_LENGTH as int) =~= spec_uint64_to_bytes(value));
    assert(b.skip(SC_UINT64_LENGTH as int) =~= rest);
}

/// Decodes a buffer of 0 or 8 bytes.
pub fn uint64_from_bytes(buf: &[u8]) -> (value: u64)
    requires
        buf@.len() == 0 || buf@.len() == SC_UINT64_LENGTH,
    ensures
        value == spec_uint64_from_bytes(buf@),
{
    if buf.len() == 0 {
        0
    } else {
        proof {
            assert(buf@.take(8) =~= buf@);
        }
        u64_from_le_bytes(buf)
    }
}

/// Decodes a buffer, or reports a wrong length.
pub fn uint64_try_from_bytes(buf: &[u8]) -> (r: Option<u64>)
    ensures
        r is Some <==> (buf@.len() == 0 || buf@.len() == SC_UINT64_LENGTH),
        r matches Some(value) ==> value == spec_uint64_from_bytes(buf@),
{
    if buf.len() == 0 || buf.len() == SC_UINT64_LENGTH {
        Some(uint64_from_bytes(buf))
    } else {
        None
    }
}

/// Encodes a value canonically.
pub fn uint64_to_bytes(value: u64) -> (buf: Vec<u8>)
    ensures
        buf@ == spec_uint64_to_bytes(value),
        buf@.len() == SC_UINT64_LENGTH,
{
    proof {
        lemma_auto_spec_u64_to_from_le_bytes();
    }
    u64_to_le_bytes(value)
}

/// Parses a decimal string.
pub fn uint64_from_string(value: &str) -> (r: u64)
    requires
        spec_is_uint_str(value@),
        spec_uint_str_val(value@) <= u64::MAX,
    ensures
        r as int == spec_uint_str_val(value@),
{
    dec_to_u64(value)
}

/// Parses a decimal string, or reports that it is not one in range.
pub fn uint64_try_from_string(value: &str) -> (r: Option<u64>)
    ensures
        r is Some <==> (spec_is_uint_str(value@) && spec_uint_str_val(value@) <= u64::MAX),
        r matches Some(v) ==> v as int == spec_uint_str_val(value@),
{
    match dec_try_to_u64(value) {
        None => None,
        Some(v) => {
            if true {
                Some(v as u64)
            } else {
                None
            }
        },
    }
}

/// Renders a value in decimal.
pub fn uint64_to_string(value: u64) -> (s: String)
    ensures
        s@ == spec_udec(value as nat),
{
    u64_to_dec(value)
}

/// Writes the canonical 8 bytes to the wire buffer.
pub fn uint64_encode(enc: &mut WasmEncoder, value: u64)
    ensures
        final(enc)@ == old(enc)@ + spec_uint64_to_bytes(value),
{
    let buf = uint64_to_bytes(value);
    enc.fixed_bytes(buf.as_slice(), SC_UINT64_LENGTH);
}

/// Reads the next 8 bytes of the wire buffer.
pub fn uint64_decode(dec: &mut WasmDecoder) -> (r: u64)
    requires
        old(dec)@.len() >= SC_UINT64_LENGTH,
    ensures
        r == spec_uint64_from_bytes(old(dec)@.take(SC_UINT64_LENGTH as int)),
        final(dec)@ == old(dec)@.skip(SC_UINT64_LENGTH as int),
{
    let buf = dec.fixed_bytes(SC_UINT64_LENGTH);
    uint64_from_bytes(buf.as_slice())
}

/// An immutable view of the unsigned 64-bit integer stored at one location.
pub struct ScImmutableUint64 {
    proxy: Proxy,
}

impl View for ScImmutableUint64 {
    type V = Seq<u8>;

    closed spec fn view(&self) -> Seq<u8> {
        self.proxy@
    }
}

impl ScImmutableUint64 {
    /// A view bound to the given location.
    pub fn new(proxy: Proxy) -> (r: ScImmutableUint64)
        ensures
            r@ == proxy@,
    {
        ScImmutableUint64 { proxy }
    }

    /// Whether the store holds a non-empty value at this location.
    pub fn has(&self, dict: &ScDict) -> (r: bool)
        ensures
            r == (kv_read(dict@, self@).len() > 0),
    {
        self.proxy.has(dict)
    }

    /// The stored value rendered in decimal.
    pub fn to_string(&self, dict: &ScDict) -> (s: String)
        requires
            spec_uint64_wf(dict@, self@),
        ensures
            s@ == spec_udec(spec_uint64_from_bytes(kv_read(dict@, self@)) as nat),
    {
        uint64_to_string(self.value(dict))
    }

    /// The stored value; 0 when absent.
    pub fn value(&self, dict: &ScDict) -> (r: u64)
        requires
            spec_uint64_wf(dict@, self@),
        ensures
            r == spec_uint64_from_bytes(kv_read(dict@, self@)),
    {
        let buf = self.proxy.get(dict);
        uint64_from_bytes(buf.as_slice())
    }
}

/// A mutable view of the unsigned 64-bit integer stored at one location.
pub struct ScMutableUint64 {
    proxy: Proxy,
}

impl View for ScMutableUint64 {
    type V = Seq<u8>;

    closed spec fn view(&self) -> Seq<u8> {
        self.proxy@
    }
}

impl ScMutableUint64 {
    /// A view bound to the given location.
    pub fn new(proxy: Proxy) -> (r: ScMutableUint64)
        ensures
            r@ == proxy@,
    {
        ScMutableUint64 { proxy }
    }

    /// Removes the stored value.
    pub fn delete(&self, dict: &mut ScDict)
        ensures
            final(dict)@ == old(dict)@.remove(self@),
    {
        self.proxy.delete(dict);
    }

    /// Whether the store holds a non-empty value at this location.
    pub fn has(&self, dict: &ScDict) -> (r: bool)
        ensures
            r == (kv_read(dict@, self@).len() > 0),
    {
        self.proxy.has(dict)
    }

    /// Stores the canonical encoding of `value` at this location.
    pub fn set_value(&self, dict: &mut ScDict, value: u64)
        ensures
            final(dict)@ == old(dict)@.insert(self@, spec_uint64_to_bytes(value)),
            spec_uint64_wf(final(dict)@, self@),
            spec_uint64_from_bytes(kv_read(final(dict)@, self@)) == value,
    {
        let buf = uint64_to_bytes(value);
        self.proxy.set(dict, buf.as_slice());
        proof {
            lemma_uint64_bytes_round_trip(value);
        }
    }

    /// The stored value rendered in decimal.
    pub fn to_string(&self, dict: &ScDict) -> (s: String)
        requires
            spec_uint64_wf(dict@, self@),
        ensures
            s@ == spec_udec(spec_uint64_from_bytes(kv_read(dict@, self@)) as nat),
    {
        uint64_to_string(self.value(dict))
    }

    /// The stored value; 0 when absent.
    pub fn value(&self, dict: &ScDict) -> (r: u64)
        requires
            spec_uint64_wf(dict@, self@),
        ensures
            r == spec_uint64_from_bytes(kv_read(dict@, self@)),
    {
        let buf = self.proxy.get(dict);
        uint64_from_bytes(buf.as_slice())
    }
}

} // verus!
