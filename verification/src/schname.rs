//! The contract-name-hash codec and its value views: a 32-bit identifier
//! derived from a contract or function name.

use vstd::bytes::*;
use vstd::prelude::*;

use crate::codec::{WasmDecoder, WasmEncoder};
use crate::decimal::{
    dec_to_u64, dec_try_to_u64, lemma_udec_round_trip, spec_is_uint_str, spec_udec,
    spec_uint_str_val, u64_to_dec,
};
use crate::proxy::Proxy;
use crate::scdict::{kv_read, ScDict};

verus! {

/// The fixed byte length of an encoded name hash.
pub const SC_HNAME_LENGTH: usize = 4;

/// A 32-bit name hash.
#[derive(Clone, Copy, Debug, PartialEq, Eq, Structural)]
pub struct ScHname(pub u32);

/// The canonical encoding: 4 little-endian bytes.
pub open spec fn spec_hname_to_bytes(value: ScHname) -> Seq<u8> {
    spec_u32_to_le_bytes(value.0)
}

/// The value decoded from a buffer: the default 0 for the empty buffer,
/// the little-endian reading otherwise.
pub open spec fn spec_hname_from_bytes(buf: Seq<u8>) -> ScHname
    recommends
        buf.len() == 0 || buf.len() == SC_HNAME_LENGTH,
{
    if buf.len() == 0 {
        ScHname(0)
    } else {
        ScHname(spec_u32_from_le_bytes(buf.take(4)))
    }
}

/// Whether the bytes stored under `k` decode as a name hash: absent, or
/// exactly 4 bytes.
pub open spec fn spec_hname_wf(m: Map<Seq<u8>, Seq<u8>>, k: Seq<u8>) -> bool {
    kv_read(m, k).len() == 0 || kv_read(m, k).len() == SC_HNAME_LENGTH
}

/// Decoding inverts encoding, for every value.
pub proof fn lemma_hname_bytes_round_trip(value: ScHname)
    ensures
        spec_hname_to_bytes(value).len() == SC_HNAME_LENGTH,
        spec_hname_from_bytes(spec_hname_to_bytes(value)) == value,
{
    lemma_auto_spec_u32_to_from_le_bytes();
    let b = spec_hname_to_bytes(value);
    assert(b.take(4) =~= b);
}

/// The empty buffer decodes to the default value 0.
pub proof fn lemma_hname_empty_default()
    ensures
        spec_hname_from_bytes(Seq::<u8>::empty()) == ScHname(0),
{
}

/// Parsing inverts rendering, for every value.
pub proof fn lemma_hname_string_round_trip(value: ScHname)
    ensures
        spec_is_uint_str(spec_udec(value.0 as nat)),
        spec_uint_str_val(spec_udec(value.0 as nat)) == value.0 as int,
{
    lemma_udec_round_trip(value.0 as nat);
}

/// A wire buffer that starts with the encoding of `value` decodes to
/// `value` and leaves exactly the bytes that follow.
pub proof fn lemma_hname_wire_round_trip(value: ScHname, rest: Seq<u8>)
    ensures
        (spec_hname_to_bytes(value) + rest).len() >= SC_HNAME_LENGTH,
        spec_hname_from_bytes((spec_hname_to_bytes(value) + rest).take(SC_HNAME_LENGTH as int)) == value,
        (spec_hname_to_bytes(value) + rest).skip(SC_HNAME_LENGTH as int) == rest,
{
    lemma_hname_bytes_round_trip(value);
    let b = spec_hname_to_bytes(value) + rest;
    assert(b.take(SC_HNAME_LENGTH as int) =~= spec_hname_to_bytes(value));
    assert(b.skip(SC_HNAME_LENGTH as int) =~= rest);
}

/// Decodes a buffer of 0 or 4 bytes.
pub fn hname_from_bytes(buf: &[u8]) -> (value: ScHname)
    requires
        buf@.len() == 0 || buf@.len() == SC_HNAME_LENGTH,
    ensures
        value == spec_hname_from_bytes(buf@),
{
    if buf.len() == 0 {
        ScHname(0)
    } else {
        proof {
            assert(buf@.take(4) =~= buf@);
        }
        ScHname(u32_from_le_bytes(buf))
    }
}

/// Decodes a buffer, or reports a wrong length.
pub fn hname_try_from_bytes(buf: &[u8]) -> (r: Option<ScHname>)
    ensures
        r is Some <==> (buf@.len() == 0 || buf@.len() == SC_HNAME_LENGTH),
        r matches Some(value) ==> value == spec_hname_from_bytes(buf@),
{
    if buf.len() == 0 || buf.len() == SC_HNAME_LENGTH {
        Some(hname_from_bytes(buf))
    } else {
        None
    }
}

/// Encodes a value canonically.
pub fn hname_to_bytes(value: ScHname) -> (buf: Vec<u8>)
    ensures
        buf@ == spec_hname_to_bytes(value),
        buf@.len() == SC_HNAME_LENGTH,
{
    proof {
        lemma_auto_spec_u32_to_from_le_bytes();
    }
    u32_to_le_bytes(value.0)
}

/// Parses a decimal string.
pub fn hname_from_string(value: &str) -> (r: ScHname)
    requires
        spec_is_uint_str(value@),
        0 <= spec_uint_str_val(value@) <= u32::MAX,
    ensures
        r.0 as int == spec_uint_str_val(value@),
{
    ScHname(dec_to_u64(value) as u32)
}

/// Parses a decimal string, or reports that it is not one in range.
pub fn hname_try_from_string(value: &str) -> (r: Option<ScHname>)
    ensures
        r is Some <==> (spec_is_uint_str(value@) && 0 <= spec_uint_str_val(value@) <= u32::MAX),
        r matches Some(v) ==> v.0 as int == spec_uint_str_val(value@),
{
    match dec_try_to_u64(value) {
        None => None,
        Some(v) => {
            if v <= u32::MAX as u64 {
                Some(ScHname(v as u32))
            } else {
                None
            }
        },
    }
}

/// Renders a value in decimal.
pub fn hname_to_string(value: ScHname) -> (s: String)
    ensures
        s@ == spec_udec(value.0 as nat),
{
    u64_to_dec(value.0 as u64)
}

/// Writes the canonical 4 bytes to the wire buffer.
pub fn hname_encode(enc: &mut WasmEncoder, value: ScHname)
    ensures
        final(enc)@ == old(enc)@ + spec_hname_to_bytes(value),
{
    let buf = hname_to_bytes(value);
    enc.fixed_bytes(buf.as_slice(), SC_HNAME_LENGTH);
}

/// Reads the next 4 bytes of the wire buffer.
pub fn hname_decode(dec: &mut WasmDecoder) -> (r: ScHname)
    requires
        old(dec)@.len() >= SC_HNAME_LENGTH,
    ensures
        r == spec_hname_from_bytes(old(dec)@.take(SC_HNAME_LENGTH as int)),
        final(dec)@ == old(dec)@.skip(SC_HNAME_LENGTH as int),
{
    let buf = dec.fixed_bytes(SC_HNAME_LENGTH);
    hname_from_bytes(buf.as_slice())
}

/// An immutable view of the name hash stored at one location.
pub struct ScImmutableHname {
    proxy: Proxy,
}

impl View for ScImmutableHname {
    type V = Seq<u8>;

    closed spec fn view(&self) -> Seq<u8> {
        self.proxy@
    }
}

impl ScImmutableHname {
    /// A view bound to the given location.
    pub fn new(proxy: Proxy) -> (r: ScImmutableHname)
        ensures
            r@ == proxy@,
    {
        ScImmutableHname { proxy }
    }

    /// Whether the store holds a non-empty value at this location.
    pub fn has(&self, dict: &ScDict) -> (r: bool)
        ensures
            r == (kv_read(dict@, self@).len() > 0),
    {
        self.proxy.has(dict)
    }

    /// The stored value rendered in decimal.
    pub fn to_string(&self, dict: &ScDict) -> (s: String)
        requires
            spec_hname_wf(dict@, self@),
        ensures
            s@ == spec_udec(spec_hname_from_bytes(kv_read(dict@, self@)).0 as nat),
    {
        hname_to_string(self.value(dict))
    }

    /// The stored value; 0 when absent.
    pub fn value(&self, dict: &ScDict) -> (r: ScHname)
        requires
            spec_hname_wf(dict@, self@),
        ensures
            r == spec_hname_from_bytes(kv_read(dict@, self@)),
    {
        let buf = self.proxy.get(dict);
        hname_from_bytes(buf.as_slice())
    }
}

/// A mutable view of the name hash stored at one location.
pub struct ScMutableHname {
    proxy: Proxy,
}

impl View for ScMutableHname {
    type V = Seq<u8>;

    closed spec fn view(&self) -> Seq<u8> {
        self.proxy@
    }
}

impl ScMutableHname {
    /// A view bound to the given location.
    pub fn new(proxy: Proxy) -> (r: ScMutableHname)
        ensures
            r@ == proxy@,
    {
        ScMutableHname { proxy }
    }

    /// Removes the stored value.
    pub fn delete(&self, dict: &mut ScDict)
        ensures
            final(dict)@ == old(dict)@.remove(self@),
    {
        self.proxy.delete(dict);
    }

    /// Whether the store holds a non-empty value at this location.
    pub fn has(&self, dict: &ScDict) -> (r: bool)
        ensures
            r == (kv_read(dict@, self@).len() > 0),
    {
        self.proxy.has(dict)
    }

    /// Stores the canonical encoding of `value` at this location.
    pub fn set_value(&self, dict: &mut ScDict, value: ScHname)
        ensures
            final(dict)@ == old(dict)@.insert(self@, spec_hname_to_bytes(value)),
            spec_hname_wf(final(dict)@, self@),
            spec_hname_from_bytes(kv_read(final(dict)@, self@)) == value,
    {
        let buf = hname_to_bytes(value);
        self.proxy.set(dict, buf.as_slice());
        proof {
            lemma_hname_bytes_round_trip(value);
        }
    }

    /// The stored value rendered in decimal.
    pub fn to_string(&self, dict: &ScDict) -> (s: String)
        requires
            spec_hname_wf(dict@, self@),
        ensures
            s@ == spec_udec(spec_hname_from_bytes(kv_read(dict@, self@)).0 as nat),
    {
        hname_to_string(self.value(dict))
    }

    /// The stored value; 0 when absent.
    pub fn value(&self, dict: &ScDict) -> (r: ScHname)
        requires
            spec_hname_wf(dict@, self@),
        ensures
            r == spec_hname_from_bytes(kv_read(dict@, self@)),
    {
        let buf = self.proxy.get(dict);
        hname_from_bytes(buf.as_slice())
    }
}

} // verus!
