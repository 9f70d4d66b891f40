//! The signed 8-bit integer codec and its value views.

use vstd::bytes::*;
use vstd::prelude::*;

use crate::codec::{WasmDecoder, WasmEncoder};
use crate::decimal::{
    dec_to_i64, dec_try_to_i64, i64_to_dec, lemma_idec_round_trip, spec_idec, spec_int_str_val,
    spec_is_int_str,
};
use crate::proxy::Proxy;
use crate::scdict::{kv_read, ScDict};

verus! {

/// The fixed byte length of an encoded signed 8-bit integer.
pub const SC_INT8_LENGTH: usize = 1;

/// The canonical encoding: one byte holding the two's-complement value.
pub open spec fn spec_int8_to_bytes(value: i8) -> Seq<u8> {
    seq![value as u8]
}

/// The value decoded from a buffer: the default 0 for the empty buffer,
/// the little-endian reading otherwise.
pub open spec fn spec_int8_from_bytes(buf: Seq<u8>) -> i8
    recommends
        buf.len() == 0 || buf.len() == SC_INT8_LENGTH,
{
    if buf.len() == 0 {
        0i8
    } else {
        buf[0] as i8
    }
}

/// Whether the bytes stored under `k` decode as a signed 8-bit integer:
/// absent, or exactly 1 byte.
pub open spec fn spec_int8_wf(m: Map<Seq<u8>, Seq<u8>>, k: Seq<u8>) -> bool {
    kv_read(m, k).len() == 0 || kv_read(m, k).len() == SC_INT8_LENGTH
}

/// Decoding inverts encoding, for every value.
pub proof fn lemma_int8_bytes_round_trip(value: i8)
    ensures
        spec_int8_to_bytes(value).len() == SC_INT8_LENGTH,
        spec_int8_from_bytes(spec_int8_to_bytes(value)) == value,
{
    assert(value as u8 as i8 == value) by (bit_vector);
}

/// The empty buffer decodes to the default value 0.
pub proof fn lemma_int8_empty_default()
    ensures
        spec_int8_from_bytes(Seq::<u8>::empty()) == 0i8,
{
}

/// Parsing inverts rendering, for every value.
pub proof fn lemma_int8_string_round_trip(value: i8)
    ensures
        spec_is_int_str(spec_idec(value as int)),
        spec_int_str_val(spec_idec(value as int)) == value as int,
{
    lemma_idec_round_trip(value as int);
}

/// A wire buffer that starts with the encoding of `value` decodes to
/// `value` and leaves exactly the bytes that follow.
pub proof fn lemma_int8_wire_round_trip(value: i8, rest: Seq<u8>)
    ensures
        (spec_int8_to_bytes(value) + rest).len() >= SC_INT8_LENGTH,
        spec_int8_from_bytes((spec_int8_to_bytes(value) + rest).take(SC_INT8_LENGTH as int)) == value,
        (spec_int8_to_bytes(value) + rest).skip(SC_INT8_LENGTH as int) == rest,
{
    lemma_int8_bytes_round_trip(value);
    let b = spec_int8_to_bytes(value) + rest;
    assert(b.take(SC_INT8_LENGTH as int) =~= spec_int8_to_bytes(value));
    assert(b.skip(SC_INT8_LENGTH as int) =~= rest);
}

/// Decodes a buffer of 0 or 1 bytes.
pub fn int8_from_bytes(buf: &[u8]) -> (value: i8)
    requires
        buf@.len() == 0 || buf@.len() == SC_INT8_LENGTH,
    ensures
        value == spec_int8_from_bytes(buf@),
{
    if buf.len() == 0 {
        0
    } else {
        buf[0] as i8
    }
}

/// Decodes a buffer, or reports a wrong length.
pub fn int8_try_from_bytes(buf: &[u8]) -> (r: Option<i8>)
    ensures
        r is Some <==> (buf@.len() == 0 || buf@.len() == SC_INT8_LENGTH),
        r matches Some(value) ==> value == spec_int8_from_bytes(buf@),
{
    if buf.len() == 0 || buf.len() == SC_INT8_LENGTH {
        Some(int8_from_bytes(buf))
    } else {
        None
    }
}

/// Encodes a value canonically.
pub fn int8_to_bytes(value: i8) -> (buf: Vec<u8>)
    ensures
        buf@ == spec_int8_to_bytes(value),
        buf@.len() == SC_INT8_LENGTH,
{
    let mut buf: Vec<u8> = Vec::new();
    buf.push(value as u8);
    proof {
        assert(buf@ =~= seq![value as u8]);
    }
    buf
}

/// Parses a decimal string.
pub fn int8_from_string(value: &str) -> (r: i8)
    requires
        spec_is_int_str(value@),
        i8::MIN <= spec_int_str_val(value@) <= i8::MAX,
    ensures
        r as int == spec_int_str_val(value@),
{
    dec_to_i64(value) as i8
}

/// Parses a decimal string, or reports that it is not one in range.
pub fn int8_try_from_string(value: &str) -> (r: Option<i8>)
    ensures
        r is Some <==> (spec_is_int_str(value@) && i8::MIN <= spec_int_str_val(value@) <= i8::MAX),
        r matches Some(v) ==> v as int == spec_int_str_val(value@),
{
    match dec_try_to_i64(value) {
        None => None,
        Some(v) => {
            if i8::MIN as i64 <= v && v <= i8::MAX as i64 {
                Some(v as i8)
            } else {
                None
            }
        },
    }
}

/// Renders a value in decimal.
pub fn int8_to_string(value: i8) -> (s: String)
    ensures
        s@ == spec_idec(value as int),
{
    i64_to_dec(value as i64)
}

/// Writes the canonical byte to the wire buffer.
pub fn int8_encode(enc: &mut WasmEncoder, value: i8)
    ensures
        final(enc)@ == old(enc)@ + spec_int8_to_bytes(value),
{
    let buf = int8_to_bytes(value);
    enc.fixed_bytes(buf.as_slice(), SC_INT8_LENGTH);
}

/// Reads the next byte of the wire buffer.
pub fn int8_decode(dec: &mut WasmDecoder) -> (r: i8)
    requires
        old(dec)@.len() >= SC_INT8_LENGTH,
    ensures
        r == spec_int8_from_bytes(old(dec)@.take(SC_INT8_LENGTH as int)),
        final(dec)@ == old(dec)@.skip(SC_INT8_LENGTH as int),
{
    let buf = dec.fixed_bytes(SC_INT8_LENGTH);
    int8_from_bytes(buf.as_slice())
}

/// An immutable view of the signed 8-bit integer stored at one location.
pub struct ScImmutableInt8 {
    proxy: Proxy,
}

impl View for ScImmutableInt8 {
    type V = Seq<u8>;

    closed spec fn view(&self) -> Seq<u8> {
        self.proxy@
    }
}

impl ScImmutableInt8 {
    /// A view bound to the given location.
    pub fn new(proxy: Proxy) -> (r: ScImmutableInt8)
        ensures
            r@ == proxy@,
    {
        ScImmutableInt8 { proxy }
    }

    /// Whether the store holds a non-empty value at this location.
    pub fn has(&self, dict: &ScDict) -> (r: bool)
        ensures
            r == (kv_read(dict@, self@).len() > 0),
    {
        self.proxy.has(dict)
    }

    /// The stored value rendered in decimal.
    pub fn to_string(&self, dict: &ScDict) -> (s: String)
        requires
            spec_int8_wf(dict@, self@),
        ensures
            s@ == spec_idec(spec_int8_from_bytes(kv_read(dict@, self@)) as int),
    {
        int8_to_string(self.value(dict))
    }

    /// The stored value; 0 when absent.
    pub fn value(&self, dict: &ScDict) -> (r: i8)
        requires
            spec_int8_wf(dict@, self@),
        ensures
            r == spec_int8_from_bytes(kv_read(dict@, self@)),
    {
        let buf = self.proxy.get(dict);
        int8_from_bytes(buf.as_slice())
    }
}

/// A mutable view of the signed 8-bit integer stored at one location.
pub struct ScMutableInt8 {
    proxy: Proxy,
}

impl View for ScMutableInt8 {
    type V = Seq<u8>;

    closed spec fn view(&self) -> Seq<u8> {
        self.proxy@
    }
}

impl ScMutableInt8 {
    /// A view bound to the given location.
    pub fn new(proxy: Proxy) -> (r: ScMutableInt8)
        ensures
            r@ == proxy@,
    {
        ScMutableInt8 { proxy }
    }

    /// Removes the stored value.
    pub fn delete(&self, dict: &mut ScDict)
        ensures
            final(dict)@ == old(dict)@.remove(self@),
    {
        self.proxy.delete(dict);
    }

    /// Whether the store holds a non-empty value at this location.
    pub fn has(&self, dict: &ScDict) -> (r: bool)
        ensures
            r == (kv_read(dict@, self@).len() > 0),
    {
        self.proxy.has(dict)
    }

    /// Stores the canonical encoding of `value` at this location.
    pub fn set_value(&self, dict: &mut ScDict, value: i8)
        ensures
            final(dict)@ == old(dict)@.insert(self@, spec_int8_to_bytes(value)),
            spec_int8_wf(final(dict)@, self@),
            spec_int8_from_bytes(kv_read(final(dict)@, self@)) == value,
    {
        let buf = int8_to_bytes(value);
        self.proxy.set(dict, buf.as_slice());
        proof {
            lemma_int8_bytes_round_trip(value);
        }
    }

    /// The stored value rendered in decimal.
    pub fn to_string(&self, dict: &ScDict) -> (s: String)
        requires
            spec_int8_wf(dict@, self@),
        ensures
            s@ == spec_idec(spec_int8_from_bytes(kv_read(dict@, self@)) as int),
    {
        int8_to_string(self.value(dict))
    }

    /// The stored value; 0 when absent.
    pub fn value(&self, dict: &ScDict) -> (r: i8)
        requires
            spec_int8_wf(dict@, self@),
        ensures
            r == spec_int8_from_bytes(kv_read(dict@, self@)),
    {
        let buf = self.proxy.get(dict);
        int8_from_bytes(buf.as_slice())
    }
}

} // verus!
