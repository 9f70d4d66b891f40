//! The signed 64-bit integer codec and its value views.

use vstd::bytes::*;
use vstd::prelude::*;

use crate::codec::{WasmDecoder, WasmEncoder};
use crate::decimal::{
    dec_to_i64, dec_try_to_i64, i64_to_dec, lemma_idec_round_trip, spec_idec, spec_int_str_val,
    spec_is_int_str,
};
use crate::proxy::Proxy;
use crate::scdict::{kv_read, ScDict};

verus! {

/// The fixed byte length of an encoded signed 64-bit integer.
pub const SC_INT64_LENGTH: usize = 8;

/// The canonical encoding: 8 little-endian bytes of the two's-complement
/// value.
pub open spec fn spec_int64_to_bytes(value: i64) -> Seq<u8> {
    spec_u64_to_le_bytes(value as u64)
}

/// The value decoded from a buffer: the default 0 for the empty buffer,
/// the little-endian reading otherwise.
pub open spec fn spec_int64_from_bytes(buf: Seq<u8>) -> i64
    recommends
        buf.len() == 0 || buf.len() == SC_INT64_LENGTH,
{
    if buf.len() == 0 {
        0i64
    } else {
        spec_u64_from_le_bytes(buf.take(8)) as i64
    }
}

/// Whether the bytes stored under `k` decode as a signed 64-bit integer:
/// absent, or exactly 8 bytes.
pub open spec fn spec_int64_wf(m: Map<Seq<u8>, Seq<u8>>, k: Seq<u8>) -> bool {
    kv_read(m, k).len() == 0 || kv_read(m, k).len() == SC_INT64_LENGTH
}

/// Decoding inverts encoding, for every value.
pub proof fn lemma_int64_bytes_round_trip(value: i64)
    ensures
        spec_int64_to_bytes(value).len() == SC_INT64_LENGTH,
        spec_int64_from_bytes(spec_int64_to_bytes(value)) == value,
{
    lemma_auto_spec_u64_to_from_le_bytes();
    let b = spec_int64_to_bytes(value);
    assert(b.take(8) =~= b);
    assert(value as u64 as i64 == value) by (bit_vector);
}

/// The empty buffer decodes to the default value 0.
pub proof fn lemma_int64_empty_default()
    ensures
        spec_int64_from_bytes(Seq::<u8>::empty()) == 0i64,
{
}

/// Parsing inverts rendering, for every value.
pub proof fn lemma_int64_string_round_trip(value: i64)
    ensures
        spec_is_int_str(spec_idec(value as int)),
        spec_int_str_val(spec_idec(value as int)) == value as int,
{
    lemma_idec_round_trip(value as int);
}

/// A wire buffer that starts with the encoding of `value` decodes to
/// `value` and leaves exactly the bytes that follow.
pub proof fn lemma_int64_wire_round_trip(value: i64, rest: Seq<u8>)
    ensures
        (spec_int64_to_bytes(value) + rest).len() >= SC_INT64_LENGTH,
        spec_int64_from_bytes((spec_int64_to_bytes(value) + rest).take(SC_INT64_LENGTH as int)) == value,
        (spec_int64_to_bytes(value) + rest).skip(SC_INT64_LENGTH as int) == rest,
{
    lemma_int64_bytes_round_trip(value);
    let b = spec_int64_to_bytes(value) + rest;
    assert(b.take(SC_INT64_LENGTH as int) =~= spec_int64_to_bytes(value));
    assert(b.skip(SC_INT64_LENGTH as int) =~= rest);
}

/// Decodes a buffer of 0 or 8 bytes.
pub fn int64_from_bytes(buf: &[u8]) -> (value: i64)
    requires
        buf@.len() == 0 || buf@.len() == SC_INT64_LENGTH,
    ensures
        value == spec_int64_from_bytes(buf@),
{
    if buf.len() == 0 {
        0
    } else {
        proof {
            assert(buf@.take(8) =~= buf@);
        }
        u64_from_le_bytes(buf) as i64
    }
}

/// Decodes a buffer, or reports a wrong length.
pub fn int64_try_from_bytes(buf: &[u8]) -> (r: Option<i64>)
    ensures
        r is Some <==> (buf@.len() == 0 || buf@.len() == SC_INT64_LENGTH),
        r matches Some(value) ==> value == spec_int64_from_bytes(buf@),
{
    if buf.len() == 0 || buf.len() == SC_INT64_LENGTH {
        Some(int64_from_bytes(buf))
    } else {
        None
    }
}

/// Encodes a value canonically.
pub fn int64_to_bytes(value: i64) -> (buf: Vec<u8>)
    ensures
        buf@ == spec_int64_to_bytes(value),
        buf@.len() == SC_INT64_LENGTH,
{
    proof {
        lemma_auto_spec_u64_to_from_le_bytes();
    }
    u64_to_le_bytes(value as u64)
}

/// Parses a decimal string.
pub fn int64_from_string(value: &str) -> (r: i64)
    requires
        spec_is_int_str(value@),
        i64::MIN <= spec_int_str_val(value@) <= i64::MAX,
    ensures
        r as int == spec_int_str_val(value@),
{
    dec_to_i64(value)
}

/// Parses a decimal string, or reports that it is not one in range.
pub fn int64_try_from_string(value: &str) -> (r: Option<i64>)
    ensures
        r is Some <==> (spec_is_int_str(value@) && i64::MIN <= spec_int_str_val(value@) <= i64::MAX),
        r matches Some(v) ==> v as int == spec_int_str_val(value@),
{
    match dec_try_to_i64(value) {
        None => None,
        Some(v) => {
            if true {
                Some(v as i64)
            } else {
                None
            }
        },
    }
}

/// Renders a value in decimal.
pub fn int64_to_string(value: i64) -> (s: String)
    ensures
        s@ == spec_idec(value as int),
{
    i64_to_dec(value)
}

/// Writes the canonical 8 bytes to the wire buffer.
pub fn int64_encode(enc: &mut WasmEncoder, value: i64)
    ensures
        final(enc)@ == old(enc)@ + spec_int64_to_bytes(value),
{
    let buf = int64_to_bytes(value);
    enc.fixed_bytes(buf.as_slice(), SC_INT64_LENGTH);
}

/// Reads the next 8 bytes of the wire buffer.
pub fn int64_decode(dec: &mut WasmDecoder) -> (r: i64)
    requires
        old(dec)@.len() >= SC_INT64_LENGTH,
    ensures
        r == spec_int64_from_bytes(old(dec)@.take(SC_INT64_LENGTH as int)),
        final(dec)@ == old(dec)@.skip(SC_INT64_LENGTH as int),
{
    let buf = dec.fixed_bytes(SC_INT64_LENGTH);
    int64_from_bytes(buf.as_slice())
}

/// An immutable view of the signed 64-bit integer stored at one location.
pub struct ScImmutableInt64 {
    proxy: Proxy,
}

impl View for ScImmutableInt64 {
    type V = Seq<u8>;

    closed spec fn view(&self) -> Seq<u8> {
        self.proxy@
    }
}

impl ScImmutableInt64 {
    /// A view bound to the given location.
    pub fn new(proxy: Proxy) -> (r: ScImmutableInt64)
        ensures
            r@ == proxy@,
    {
        ScImmutableInt64 { proxy }
    }

    /// Whether the store holds a non-empty value at this location.
    pub fn has(&self, dict: &ScDict) -> (r: bool)
        ensures
            r == (kv_read(dict@, self@).len() > 0),
    {
        self.proxy.has(dict)
    }

    /// The stored value rendered in decimal.
    pub fn to_string(&self, dict: &ScDict) -> (s: String)
        requires
            spec_int64_wf(dict@, self@),
        ensures
            s@ == spec_idec(spec_int64_from_bytes(kv_read(dict@, self@)) as int),
    {
        int64_to_string(self.value(dict))
    }

    /// The stored value; 0 when absent.
    pub fn value(&self, dict: &ScDict) -> (r: i64)
        requires
            spec_int64_wf(dict@, self@),
        ensures
            r == spec_int64_from_bytes(kv_read(dict@, self@)),
    {
        let buf = self.proxy.get(dict);
        int64_from_bytes(buf.as_slice())
    }
}

/// A mutable view of the signed 64-bit integer stored at one location.
pub struct ScMutableInt64 {
    proxy: Proxy,
}

impl View for ScMutableInt64 {
    type V = Seq<u8>;

    closed spec fn view(&self) -> Seq<u8> {
        self.proxy@
    }
}

impl ScMutableInt64 {
    /// A view bound to the given location.
    pub fn new(proxy: Proxy) -> (r: ScMutableInt64)
        ensures
            r@ == proxy@,
    {
        ScMutableInt64 { proxy }
    }

    /// Removes the stored value.
    pub fn delete(&self, dict: &mut ScDict)
        ensures
            final(dict)@ == old(dict)@.remove(self@),
    {
        self.proxy.delete(dict);
    }

    /// Whether the store holds a non-empty value at this location.
    pub fn has(&self, dict: &ScDict) -> (r: bool)
        ensures
            r == (kv_read(dict@, self@).len() > 0),
    {
        self.proxy.has(dict)
    }

    /// Stores the canonical encoding of `value` at this location.
    pub fn set_value(&self, dict: &mut ScDict, value: i64)
        ensures
            final(dict)@ == old(dict)@.insert(self@, spec_int64_to_bytes(value)),
            spec_int64_wf(final(dict)@, self@),
            spec_int64_from_bytes(kv_read(final(dict)@, self@)) == value,
    {
        let buf = int64_to_bytes(value);
        self.proxy.set(dict, buf.as_slice());
        proof {
            lemma_int64_bytes_round_trip(value);
        }
    }

    /// The stored value rendered in decimal.
    pub fn to_string(&self, dict: &ScDict) -> (s: String)
        requires
            spec_int64_wf(dict@, self@),
        ensures
            s@ == spec_idec(spec_int64_from_bytes(kv_read(dict@, self@)) as int),
    {
        int64_to_string(self.value(dict))
    }

    /// The stored value; 0 when absent.
    pub fn value(&self, dict: &ScDict) -> (r: i64)
        requires
            spec_int64_wf(dict@, self@),
        ensures
            r == spec_int64_from_bytes(kv_read(dict@, self@)),
    {
        let buf = self.proxy.get(dict);
        int64_from_bytes(buf.as_slice())
    }
}

} // verus!
