//! The signed 16-bit integer codec and its value views.

use vstd::bytes::*;
use vstd::prelude::*;

use crate::codec::{WasmDecoder, WasmEncoder};
use crate::decimal::{
    dec_to_i64, dec_try_to_i64, i64_to_dec, lemma_idec_round_trip, spec_idec, spec_int_str_val,
    spec_is_int_str,
};
use crate::proxy::Proxy;
use crate::scdict::{kv_read, ScDict};

verus! {

/// The fixed byte length of an encoded signed 16-bit integer.
pub const SC_INT16_LENGTH: usize = 2;

/// The canonical encoding: 2 little-endian bytes of the two's-complement
/// value.
pub open spec fn spec_int16_to_bytes(value: i16) -> Seq<u8> {
    spec_u16_to_le_bytes(value as u16)
}

/// The value decoded from a buffer: the default 0 for the empty buffer,
/// the little-endian reading otherwise.
pub open spec fn spec_int16_from_bytes(buf: Seq<u8>) -> i16
    recommends
        buf.len() == 0 || buf.len() == SC_INT16_LENGTH,
{
    if buf.len() == 0 {
        0i16
    } else {
        spec_u16_from_le_bytes(buf.take(2)) as i16
    }
}

/// Whether the bytes stored under `k` decode as a signed 16-bit integer:
/// absent, or exactly 2 bytes.
pub open spec fn spec_int16_wf(m: Map<Seq<u8>, Seq<u8>>, k: Seq<u8>) -> bool {
    kv_read(m, k).len() == 0 || kv_read(m, k).len() == SC_INT16_LENGTH
}

/// Decoding inverts encoding, for every value.
pub proof fn lemma_int16_bytes_round_trip(value: i16)
    ensures
        spec_int16_to_bytes(value).len() == SC_INT16_LENGTH,
        spec_int16_from_bytes(spec_int16_to_bytes(value)) == value,
{
    lemma_auto_spec_u16_to_from_le_bytes();
    let b = spec_int16_to_bytes(value);
    assert(b.take(2) =~= b);
    assert(value as u16 as i16 == value) by (bit_vector);
}

/// The empty buffer decodes to the default value 0.
pub proof fn lemma_int16_empty_default()
    ensures
        spec_int16_from_bytes(Seq::<u8>::empty()) == 0i16,
{
}

/// Parsing inverts rendering, for every value.
pub proof fn lemma_int16_string_round_trip(value: i16)
    ensures
        spec_is_int_str(spec_idec(value as int)),
        spec_int_str_val(spec_idec(value as int)) == value as int,
{
    lemma_idec_round_trip(value as int);
}

/// A wire buffer that starts with the encoding of `value` decodes to
/// `value` and leaves exactly the bytes that follow.
pub proof fn lemma_int16_wire_round_trip(value: i16, rest: Seq<u8>)
    ensures
        (spec_int16_to_bytes(value) + rest).len() >= SC_INT16_LENGTH,
        spec_int16_from_bytes((spec_int16_to_bytes(value) + rest).take(SC_INT16_LENGTH as int)) == value,
        (spec_int16_to_bytes(value) + rest).skip(SC_INT16_LENGTH as int) == rest,
{
    lemma_int16_bytes_round_trip(value);
    let b = spec_int16_to_bytes(value) + rest;
    assert(b.take(SC_INT16_LENGTH as int) =~= spec_int16_to_bytes(value));
    assert(b.skip(SC_INT16_LENGTH as int) =~= rest);
}

/// Decodes a buffer of 0 or 2 bytes.
pub fn int16_from_bytes(buf: &[u8]) -> (value: i16)
    requires
        buf@.len() == 0 || buf@.len() == SC_INT16_LENGTH,
    ensures
        value == spec_int16_from_bytes(buf@),
{
    if buf.len() == 0 {
        0
    } else {
        proof {
            assert(buf@.take(2) =~= buf@);
        }
        u16_from_le_bytes(buf) as i16
    }
}

/// Decodes a buffer, or reports a wrong length.
pub fn int16_try_from_bytes(buf: &[u8]) -> (r: Option<i16>)
    ensures
        r is Some <==> (buf@.len() == 0 || buf@.len() == SC_INT16_LENGTH),
        r matches Some(value) ==> value == spec_int16_from_bytes(buf@),
{
    if buf.len() == 0 || buf.len() == SC_INT16_LENGTH {
        Some(int16_from_bytes(buf))
    } else {
        None
    }
}

/// Encodes a value canonically.
pub fn int16_to_bytes(value: i16) -> (buf: Vec<u8>)
    ensures
        buf@ == spec_int16_to_bytes(value),
        buf@.len() == SC_INT16_LENGTH,
{
    proof {
        lemma_auto_spec_u16_to_from_le_bytes();
    }
    u16_to_le_bytes(value as u16)
}

/// Parses a decimal string.
pub fn int16_from_string(value: &str) -> (r: i16)
    requires
        spec_is_int_str(value@),
        i16::MIN <= spec_int_str_val(value@) <= i16::MAX,
    ensures
        r as int == spec_int_str_val(value@),
{
    dec_to_i64(value) as i16
}

/// Parses a decimal string, or reports that it is not one in range.
pub fn int16_try_from_string(value: &str) -> (r: Option<i16>)
    ensures
        r is Some <==> (spec_is_int_str(value@) && i16::MIN <= spec_int_str_val(value@) <= i16::MAX),
        r matches Some(v) ==> v as int == spec_int_str_val(value@),
{
    match dec_try_to_i64(value) {
        None => None,
        Some(v) => {
            if i16::MIN as i64 <= v && v <= i16::MAX as i64 {
                Some(v as i16)
            } else {
                None
            }
        },
    }
}

/// Renders a value in decimal.
pub fn int16_to_string(value: i16) -> (s: String)
    ensures
        s@ == spec_idec(value as int),
{
    i64_to_dec(value as i64)
}

/// Writes the canonical 2 bytes to the wire buffer.
pub fn int16_encode(enc: &mut WasmEncoder, value: i16)
    ensures
        final(enc)@ == old(enc)@ + spec_int16_to_bytes(value),
{
    let buf = int16_to_bytes(value);
    enc.fixed_bytes(buf.as_slice(), SC_INT16_LENGTH);
}

/// Reads the next 2 bytes of the wire buffer.
pub fn int16_decode(dec: &mut WasmDecoder) -> (r: i16)
    requires
        old(dec)@.len() >= SC_INT16_LENGTH,
    ensures
        r == spec_int16_from_bytes(old(dec)@.take(SC_INT16_LENGTH as int)),
        final(dec)@ == old(dec)@.skip(SC_INT16_LENGTH as int),
{
    let buf = dec.fixed_bytes(SC_INT16_LENGTH);
    int16_from_bytes(buf.as_slice())
}

/// An immutable view of the signed 16-bit integer stored at one location.
pub struct ScImmutableInt16 {
    proxy: Proxy,
}

impl View for ScImmutableInt16 {
    type V = Seq<u8>;

    closed spec fn view(&self) -> Seq<u8> {
        self.proxy@
    }
}

impl ScImmutableInt16 {
    /// A view bound to the given location.
    pub fn new(proxy: Proxy) -> (r: ScImmutableInt16)
        ensures
            r@ == proxy@,
    {
        ScImmutableInt16 { proxy }
    }

    /// Whether the store holds a non-empty value at this location.
    pub fn has(&self, dict: &ScDict) -> (r: bool)
        ensures
            r == (kv_read(dict@, self@).len() > 0),
    {
        self.proxy.has(dict)
    }

    /// The stored value rendered in decimal.
    pub fn to_string(&self, dict: &ScDict) -> (s: String)
        requires
            spec_int16_wf(dict@, self@),
        ensures
            s@ == spec_idec(spec_int16_from_bytes(kv_read(dict@, self@)) as int),
    {
        int16_to_string(self.value(dict))
    }

    /// The stored value; 0 when absent.
    pub fn value(&self, dict: &ScDict) -> (r: i16)
        requires
            spec_int16_wf(dict@, self@),
        ensures
            r == spec_int16_from_bytes(kv_read(dict@, self@)),
    {
        let buf = self.proxy.get(dict);
        int16_from_bytes(buf.as_slice())
    }
}

/// A mutable view of the signed 16-bit integer stored at one location.
pub struct ScMutableInt16 {
    proxy: Proxy,
}

impl View for ScMutableInt16 {
    type V = Seq<u8>;

    closed spec fn view(&self) -> Seq<u8> {
        self.proxy@
    }
}

impl ScMutableInt16 {
    /// A view bound to the given location.
    pub fn new(proxy: Proxy) -> (r: ScMutableInt16)
        ensures
            r@ == proxy@,
    {
        ScMutableInt16 { proxy }
    }

    /// Removes the stored value.
    pub fn delete(&self, dict: &mut ScDict)
        ensures
            final(dict)@ == old(dict)@.remove(self@),
    {
        self.proxy.delete(dict);
    }

    /// Whether the store holds a non-empty value at this location.
    pub fn has(&self, dict: &ScDict) -> (r: bool)
        ensures
            r == (kv_read(dict@, self@).len() > 0),
    {
        self.proxy.has(dict)
    }

    /// Stores the canonical encoding of `value` at this location.
    pub fn set_value(&self, dict: &mut ScDict, value: i16)
        ensures
            final(dict)@ == old(dict)@.insert(self@, spec_int16_to_bytes(value)),
            spec_int16_wf(final(dict)@, self@),
            spec_int16_from_bytes(kv_read(final(dict)@, self@)) == value,
    {
        let buf = int16_to_bytes(value);
        self.proxy.set(dict, buf.as_slice());
        proof {
            lemma_int16_bytes_round_trip(value);
        }
    }

    /// The stored value rendered in decimal.
    pub fn to_string(&self, dict: &ScDict) -> (s: String)
        requires
            spec_int16_wf(dict@, self@),
        ensures
            s@ == spec_idec(spec_int16_from_bytes(kv_read(dict@, self@)) as int),
    {
        int16_to_string(self.value(dict))
    }

    /// The stored value; 0 when absent.
    pub fn value(&self, dict: &ScDict) -> (r: i16)
        requires
            spec_int16_wf(dict@, self@),
        ensures
            r == spec_int16_from_bytes(kv_read(dict@, self@)),
    {
        let buf = self.proxy.get(dict);
        int16_from_bytes(buf.as_slice())
    }
}

} // verus!
