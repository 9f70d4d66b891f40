//! The hash codec and its value views: a fixed 32-byte identifier
//! rendered as lowercase hexadecimal.

use vstd::prelude::*;

use crate::bytesutil::{spec_zero_bytes, zero_vec};
use crate::codec::{WasmDecoder, WasmEncoder};
use crate::hex::{
    hex_decode, hex_encode, is_hex_string, lemma_hex_round_trip, lemma_hex_str_round_trip,
    spec_hex, spec_hex_bytes, spec_is_hex_str,
};
use crate::proxy::Proxy;
use crate::scdict::{bytes_eq, kv_read, ScDict};
use vstd::slice::slice_to_vec;

verus! {

/// The fixed byte length of a hash.
pub const SC_HASH_LENGTH: usize = 32;

/// A hash value: 32 opaque bytes.
pub struct ScHash {
    id: Vec<u8>,
}

impl View for ScHash {
    type V = Seq<u8>;

    closed spec fn view(&self) -> Seq<u8> {
        self.id@
    }
}

impl ScHash {
    /// The identifier always holds exactly 32 bytes.
    #[verifier::type_invariant]
    closed spec fn wf(self) -> bool {
        self.id@.len() == SC_HASH_LENGTH
    }

    /// The canonical byte encoding: the 32 bytes themselves.
    pub fn to_bytes(&self) -> (buf: Vec<u8>)
        ensures
            buf@ == self@,
    {
        slice_to_vec(self.id.as_slice())
    }

    /// The identifier rendered as 64 lowercase hexadecimal digits.
    pub fn to_string(&self) -> (s: String)
        ensures
            s@ == spec_hex(self@),
    {
        hex_encode(self.id.as_slice())
    }
}

impl PartialEq for ScHash {
    /// Two identifiers are equal exactly when their bytes are.
    fn eq(&self, other: &ScHash) -> (r: bool)
    {
        bytes_eq(self.id.as_slice(), other.id.as_slice())
    }
}

impl vstd::std_specs::cmp::PartialEqSpecImpl for ScHash {
    open spec fn obeys_eq_spec() -> bool {
        true
    }

    open spec fn eq_spec(&self, other: &ScHash) -> bool {
        self@ == other@
    }
}

impl Eq for ScHash {

}

/// The identifier decoded from a buffer: all zero for the empty buffer,
/// the bytes themselves otherwise.
pub open spec fn spec_hash_from_bytes(buf: Seq<u8>) -> Seq<u8>
    recommends
        buf.len() == 0 || buf.len() == SC_HASH_LENGTH,
{
    if buf.len() == 0 {
        spec_zero_bytes(SC_HASH_LENGTH as int)
    } else {
        buf
    }
}

/// Whether the bytes stored under `k` decode as a hash:
/// absent, or exactly 32 bytes.
pub open spec fn spec_hash_wf(m: Map<Seq<u8>, Seq<u8>>, k: Seq<u8>) -> bool {
    kv_read(m, k).len() == 0 || kv_read(m, k).len() == SC_HASH_LENGTH
}

/// Decoding inverts encoding, for every value.
pub proof fn lemma_hash_bytes_round_trip(id: Seq<u8>)
    requires
        id.len() == SC_HASH_LENGTH,
    ensures
        spec_hash_from_bytes(id) == id,
{
}

/// The empty buffer decodes to the all-zero identifier.
pub proof fn lemma_hash_empty_default()
    ensures
        spec_hash_from_bytes(Seq::<u8>::empty()) == spec_zero_bytes(SC_HASH_LENGTH as int),
{
}

/// Parsing inverts rendering, for every value.
pub proof fn lemma_hash_string_round_trip(id: Seq<u8>)
    requires
        id.len() == SC_HASH_LENGTH,
    ensures
        spec_is_hex_str(spec_hex(id)),
        spec_hash_from_bytes(spec_hex_bytes(spec_hex(id))) == id,
{
    lemma_hex_round_trip(id);
}

/// A wire buffer that starts with the 32 bytes of an identifier
/// decodes to that identifier and leaves exactly the bytes that follow.
pub proof fn lemma_hash_wire_round_trip(id: Seq<u8>, rest: Seq<u8>)
    requires
        id.len() == SC_HASH_LENGTH,
    ensures
        (id + rest).len() >= SC_HASH_LENGTH,
        (id + rest).take(SC_HASH_LENGTH as int) == id,
        (id + rest).skip(SC_HASH_LENGTH as int) == rest,
{
    assert((id + rest).take(SC_HASH_LENGTH as int) =~= id);
    assert((id + rest).skip(SC_HASH_LENGTH as int) =~= rest);
}

/// Decodes a buffer of 0 or 32 bytes.
pub fn hash_from_bytes(buf: &[u8]) -> (r: ScHash)
    requires
        buf@.len() == 0 || buf@.len() == SC_HASH_LENGTH,
    ensures
        r@ == spec_hash_from_bytes(buf@),
{
    if buf.len() == 0 {
        ScHash { id: zero_vec(SC_HASH_LENGTH) }
    } else {
        ScHash { id: slice_to_vec(buf) }
    }
}

/// Decodes a buffer, or reports a wrong length.
pub fn hash_try_from_bytes(buf: &[u8]) -> (r: Option<ScHash>)
    ensures
        r is Some <==> (buf@.len() == 0 || buf@.len() == SC_HASH_LENGTH),
        r matches Some(v) ==> v@ == spec_hash_from_bytes(buf@),
{
    if buf.len() == 0 || buf.len() == SC_HASH_LENGTH {
        Some(hash_from_bytes(buf))
    } else {
        None
    }
}

/// Encodes a value canonically.
pub fn hash_to_bytes(value: &ScHash) -> (buf: Vec<u8>)
    ensures
        buf@ == value@,
{
    value.to_bytes()
}

/// Parses a lowercase hexadecimal string of 0 or 64 digits.
pub fn hash_from_string(value: &str) -> (r: ScHash)
    requires
        spec_is_hex_str(value@),
        value@.len() == 0 || value@.len() == 2 * SC_HASH_LENGTH,
    ensures
        r@ == spec_hash_from_bytes(spec_hex_bytes(value@)),
{
    let buf = hex_decode(value);
    proof {
        lemma_hex_str_round_trip(value@);
    }
    hash_from_bytes(buf.as_slice())
}

/// Parses a string, or reports that it is not hexadecimal of a valid
/// length.
pub fn hash_try_from_string(value: &str) -> (r: Option<ScHash>)
    ensures
        r is Some <==> (spec_is_hex_str(value@) && (value@.len() == 0 || value@.len() == 2
            * SC_HASH_LENGTH)),
        r matches Some(v) ==> v@ == spec_hash_from_bytes(spec_hex_bytes(value@)),
{
    if !is_hex_string(value) {
        return None;
    }
    let n = value.unicode_len();
    if n != 0 && n != 2 * SC_HASH_LENGTH {
        return None;
    }
    Some(hash_from_string(value))
}

/// Renders a value as lowercase hexadecimal.
pub fn hash_to_string(value: &ScHash) -> (s: String)
    ensures
        s@ == spec_hex(value@),
{
    value.to_string()
}

/// Writes the 32 identifier bytes to the wire buffer.
pub fn hash_encode(enc: &mut WasmEncoder, value: &ScHash)
    ensures
        final(enc)@ == old(enc)@ + value@,
{
    proof {
        use_type_invariant(value);
    }
    enc.fixed_bytes(value.id.as_slice(), SC_HASH_LENGTH);
}

/// Reads the next 32 bytes of the wire buffer.
pub fn hash_decode(dec: &mut WasmDecoder) -> (r: ScHash)
    requires
        old(dec)@.len() >= SC_HASH_LENGTH,
    ensures
        r@ == old(dec)@.take(SC_HASH_LENGTH as int),
        final(dec)@ == old(dec)@.skip(SC_HASH_LENGTH as int),
{
    let buf = dec.fixed_bytes(SC_HASH_LENGTH);
    ScHash { id: buf }
}

/// An immutable view of the hash stored at one location.
pub struct ScImmutableHash {
    proxy: Proxy,
}

impl View for ScImmutableHash {
    type V = Seq<u8>;

    closed spec fn view(&self) -> Seq<u8> {
        self.proxy@
    }
}

impl ScImmutableHash {
    /// A view bound to the given location.
    pub fn new(proxy: Proxy) -> (r: ScImmutableHash)
        ensures
            r@ == proxy@,
    {
        ScImmutableHash { proxy }
    }

    /// Whether the store holds a non-empty value at this location.
    pub fn has(&self, dict: &ScDict) -> (r: bool)
        ensures
            r == (kv_read(dict@, self@).len() > 0),
    {
        self.proxy.has(dict)
    }

    /// The stored identifier rendered as hexadecimal.
    pub fn to_string(&self, dict: &ScDict) -> (s: String)
        requires
            spec_hash_wf(dict@, self@),
        ensures
            s@ == spec_hex(spec_hash_from_bytes(kv_read(dict@, self@))),
    {
        let v = self.value(dict);
        v.to_string()
    }

    /// The stored identifier; all zero when absent.
    pub fn value(&self, dict: &ScDict) -> (r: ScHash)
        requires
            spec_hash_wf(dict@, self@),
        ensures
            r@ == spec_hash_from_bytes(kv_read(dict@, self@)),
    {
        let buf = self.proxy.get(dict);
        hash_from_bytes(buf.as_slice())
    }
}

/// A mutable view of the hash stored at one location.
pub struct ScMutableHash {
    proxy: Proxy,
}

impl View for ScMutableHash {
    type V = Seq<u8>;

    closed spec fn view(&self) -> Seq<u8> {
        self.proxy@
    }
}

impl ScMutableHash {
    /// A view bound to the given location.
    pub fn new(proxy: Proxy) -> (r: ScMutableHash)
        ensures
            r@ == proxy@,
    {
        ScMutableHash { proxy }
    }

    /// Removes the stored value.
    pub fn delete(&self, dict: &mut ScDict)
        ensures
            final(dict)@ == old(dict)@.remove(self@),
    {
        self.proxy.delete(dict);
    }

    /// Whether the store holds a non-empty value at this location.
    pub fn has(&self, dict: &ScDict) -> (r: bool)
        ensures
            r == (kv_read(dict@, self@).len() > 0),
    {
        self.proxy.has(dict)
    }

    /// Stores the identifier bytes at this location.
    pub fn set_value(&self, dict: &mut ScDict, value: &ScHash)
        ensures
            final(dict)@ == old(dict)@.insert(self@, value@),
            spec_hash_wf(final(dict)@, self@),
            spec_hash_from_bytes(kv_read(final(dict)@, self@)) == value@,
    {
        proof {
            use_type_invariant(value);
        }
        let buf = value.to_bytes();
        self.proxy.set(dict, buf.as_slice());
    }

    /// The stored identifier rendered as hexadecimal.
    pub fn to_string(&self, dict: &ScDict) -> (s: String)
        requires
            spec_hash_wf(dict@, self@),
        ensures
            s@ == spec_hex(spec_hash_from_bytes(kv_read(dict@, self@))),
    {
        let v = self.value(dict);
        v.to_string()
    }

    /// The stored identifier; all zero when absent.
    pub fn value(&self, dict: &ScDict) -> (r: ScHash)
        requires
            spec_hash_wf(dict@, self@),
        ensures
            r@ == spec_hash_from_bytes(kv_read(dict@, self@)),
    {
        let buf = self.proxy.get(dict);
        hash_from_bytes(buf.as_slice())
    }
}

} // verus!
