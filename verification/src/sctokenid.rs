//! The token identifier codec and its value views: a fixed 38-byte identifier
//! rendered as lowercase hexadecimal.

use vstd::prelude::*;

use crate::bytesutil::{spec_zero_bytes, zero_vec};
use crate::codec::{WasmDecoder, WasmEncoder};
use crate::hex::{
    hex_decode, hex_encode, is_hex_string, lemma_hex_round_trip, lemma_hex_str_round_trip,
    spec_hex, spec_hex_bytes, spec_is_hex_str,
};
use crate::proxy::Proxy;
use crate::scdict::{bytes_eq, kv_read, ScDict};
use vstd::slice::slice_to_vec;

verus! {

/// The fixed byte length of a token identifier.
pub const SC_TOKEN_ID_LENGTH: usize = 38;

/// A token identifier: 38 opaque bytes.
pub struct ScTokenID {
    id: Vec<u8>,
}

impl View for ScTokenID {
    type V = Seq<u8>;

    closed spec fn view(&self) -> Seq<u8> {
        self.id@
    }
}

impl ScTokenID {
    /// The identifier always holds exactly 38 bytes.
    #[verifier::type_invariant]
    closed spec fn wf(self) -> bool {
        self.id@.len() == SC_TOKEN_ID_LENGTH
    }

    /// The canonical byte encoding: the 38 bytes themselves.
    pub fn to_bytes(&self) -> (buf: Vec<u8>)
        ensures
            buf@ == self@,
    {
        slice_to_vec(self.id.as_slice())
    }

    /// The identifier rendered as 76 lowercase hexadecimal digits.
    pub fn to_string(&self) -> (s: String)
        ensures
            s@ == spec_hex(self@),
    {
        hex_encode(self.id.as_slice())
    }
}

impl PartialEq for ScTokenID {
    /// Two identifiers are equal exactly when their bytes are.
    fn eq(&self, other: &ScTokenID) -> (r: bool)
    {
        bytes_eq(self.id.as_slice(), other.id.as_slice())
    }
}

impl vstd::std_specs::cmp::PartialEqSpecImpl for ScTokenID {
    open spec fn obeys_eq_spec() -> bool {
        true
    }

    open spec fn eq_spec(&self, other: &ScTokenID) -> bool {
        self@ == other@
    }
}

impl Eq for ScTokenID {

}

/// The identifier decoded from a buffer: all zero for the empty buffer,
/// the bytes themselves otherwise.
pub open spec fn spec_token_id_from_bytes(buf: Seq<u8>) -> Seq<u8>
    recommends
        buf.len() == 0 || buf.len() == SC_TOKEN_ID_LENGTH,
{
    if buf.len() == 0 {
        spec_zero_bytes(SC_TOKEN_ID_LENGTH as int)
    } else {
        buf
    }
}

/// Whether the bytes stored under `k` decode as a token identifier:
/// absent, or exactly 38 bytes.
pub open spec fn spec_token_id_wf(m: Map<Seq<u8>, Seq<u8>>, k: Seq<u8>) -> bool {
    kv_read(m, k).len() == 0 || kv_read(m, k).len() == SC_TOKEN_ID_LENGTH
}

/// Decoding inverts encoding, for every value.
pub proof fn lemma_token_id_bytes_round_trip(id: Seq<u8>)
    requires
        id.len() == SC_TOKEN_ID_LENGTH,
    ensures
        spec_token_id_from_bytes(id) == id,
{
}

/// The empty buffer decodes to the all-zero identifier.
pub proof fn lemma_token_id_empty_default()
    ensures
        spec_token_id_from_bytes(Seq::<u8>::empty()) == spec_zero_bytes(SC_TOKEN_ID_LENGTH as int),
{
}

/// Parsing inverts rendering, for every value.
pub proof fn lemma_token_id_string_round_trip(id: Seq<u8>)
    requires
        id.len() == SC_TOKEN_ID_LENGTH,
    ensures
        spec_is_hex_str(spec_hex(id)),
        spec_token_id_from_bytes(spec_hex_bytes(spec_hex(id))) == id,
{
    lemma_hex_round_trip(id);
}

/// A wire buffer that starts with the 38 bytes of an identifier
/// decodes to that identifier and leaves exactly the bytes that follow.
pub proof fn lemma_token_id_wire_round_trip(id: Seq<u8>, rest: Seq<u8>)
    requires
        id.len() == SC_TOKEN_ID_LENGTH,
    ensures
        (id + rest).len() >= SC_TOKEN_ID_LENGTH,
        (id + rest).take(SC_TOKEN_ID_LENGTH as int) == id,
        (id + rest).skip(SC_TOKEN_ID_LENGTH as int) == rest,
{
    assert((id + rest).take(SC_TOKEN_ID_LENGTH as int) =~= id);
    assert((id + rest).skip(SC_TOKEN_ID_LENGTH as int) =~= rest);
}

/// Decodes a buffer of 0 or 38 bytes.
pub fn token_id_from_bytes(buf: &[u8]) -> (r: ScTokenID)
    requires
        buf@.len() == 0 || buf@.len() == SC_TOKEN_ID_LENGTH,
    ensures
        r@ == spec_token_id_from_bytes(buf@),
{
    if buf.len() == 0 {
        ScTokenID { id: zero_vec(SC_TOKEN_ID_LENGTH) }
    } else {
        ScTokenID { id: slice_to_vec(buf) }
    }
}

/// Decodes a buffer, or reports a wrong length.
pub fn token_id_try_from_bytes(buf: &[u8]) -> (r: Option<ScTokenID>)
    ensures
        r is Some <==> (buf@.len() == 0 || buf@.len() == SC_TOKEN_ID_LENGTH),
        r matches Some(v) ==> v@ == spec_token_id_from_bytes(buf@),
{
    if buf.len() == 0 || buf.len() == SC_TOKEN_ID_LENGTH {
        Some(token_id_from_bytes(buf))
    } else {
        None
    }
}

/// Encodes a value canonically.
pub fn token_id_to_bytes(value: &ScTokenID) -> (buf: Vec<u8>)
    ensures
        buf@ == value@,
{
    value.to_bytes()
}

/// Parses a lowercase hexadecimal string of 0 or 76 digits.
pub fn token_id_from_string(value: &str) -> (r: ScTokenID)
    requires
        spec_is_hex_str(value@),
        value@.len() == 0 || value@.len() == 2 * SC_TOKEN_ID_LENGTH,
    ensures
        r@ == spec_token_id_from_bytes(spec_hex_bytes(value@)),
{
    let buf = hex_decode(value);
    proof {
        lemma_hex_str_round_trip(value@);
    }
    token_id_from_bytes(buf.as_slice())
}

/// Parses a string, or reports that it is not hexadecimal of a valid
/// length.
pub fn token_id_try_from_string(value: &str) -> (r: Option<ScTokenID>)
    ensures
        r is Some <==> (spec_is_hex_str(value@) && (value@.len() == 0 || value@.len() == 2
            * SC_TOKEN_ID_LENGTH)),
        r matches Some(v) ==> v@ == spec_token_id_from_bytes(spec_hex_bytes(value@)),
{
    if !is_hex_string(value) {
        return None;
    }
    let n = value.unicode_len();
    if n != 0 && n != 2 * SC_TOKEN_ID_LENGTH {
        return None;
    }
    Some(token_id_from_string(value))
}

/// Renders a value as lowercase hexadecimal.
pub fn token_id_to_string(value: &ScTokenID) -> (s: String)
    ensures
        s@ == spec_hex(value@),
{
    value.to_string()
}

/// Writes the 38 identifier bytes to the wire buffer.
pub fn token_id_encode(enc: &mut WasmEncoder, value: &ScTokenID)
    ensures
        final(enc)@ == old(enc)@ + value@,
{
    proof {
        use_type_invariant(value);
    }
    enc.fixed_bytes(value.id.as_slice(), SC_TOKEN_ID_LENGTH);
}

/// Reads the next 38 bytes of the wire buffer.
pub fn token_id_decode(dec: &mut WasmDecoder) -> (r: ScTokenID)
    requires
        old(dec)@.len() >= SC_TOKEN_ID_LENGTH,
    ensures
        r@ == old(dec)@.take(SC_TOKEN_ID_LENGTH as int),
        final(dec)@ == old(dec)@.skip(SC_TOKEN_ID_LENGTH as int),
{
    let buf = dec.fixed_bytes(SC_TOKEN_ID_LENGTH);
    ScTokenID { id: buf }
}

/// An immutable view of the token identifier stored at one location.
pub struct ScImmutableTokenID {
    proxy: Proxy,
}

impl View for ScImmutableTokenID {
    type V = Seq<u8>;

    closed spec fn view(&self) -> Seq<u8> {
        self.proxy@
    }
}

impl ScImmutableTokenID {
    /// A view bound to the given location.
    pub fn new(proxy: Proxy) -> (r: ScImmutableTokenID)
        ensures
            r@ == proxy@,
    {
        ScImmutableTokenID { proxy }
    }

    /// Whether the store holds a non-empty value at this location.
    pub fn has(&self, dict: &ScDict) -> (r: bool)
        ensures
            r == (kv_read(dict@, self@).len() > 0),
    {
        self.proxy.has(dict)
    }

    /// The stored identifier rendered as hexadecimal.
    pub fn to_string(&self, dict: &ScDict) -> (s: String)
        requires
            spec_token_id_wf(dict@, self@),
        ensures
            s@ == spec_hex(spec_token_id_from_bytes(kv_read(dict@, self@))),
    {
        let v = self.value(dict);
        v.to_string()
    }

    /// The stored identifier; all zero when absent.
    pub fn value(&self, dict: &ScDict) -> (r: ScTokenID)
        requires
            spec_token_id_wf(dict@, self@),
        ensures
            r@ == spec_token_id_from_bytes(kv_read(dict@, self@)),
    {
        let buf = self.proxy.get(dict);
        token_id_from_bytes(buf.as_slice())
    }
}

/// A mutable view of the token identifier stored at one location.
pub struct ScMutableTokenID {
    proxy: Proxy,
}

impl View for ScMutableTokenID {
    type V = Seq<u8>;

    closed spec fn view(&self) -> Seq<u8> {
        self.proxy@
    }
}

impl ScMutableTokenID {
    /// A view bound to the given location.
    pub fn new(proxy: Proxy) -> (r: ScMutableTokenID)
        ensures
            r@ == proxy@,
    {
        ScMutableTokenID { proxy }
    }

    /// Removes the stored value.
    pub fn delete(&self, dict: &mut ScDict)
        ensures
            final(dict)@ == old(dict)@.remove(self@),
    {
        self.proxy.delete(dict);
    }

    /// Whether the store holds a non-empty value at this location.
    pub fn has(&self, dict: &ScDict) -> (r: bool)
        ensures
            r == (kv_read(dict@, self@).len() > 0),
    {
        self.proxy.has(dict)
    }

    /// Stores the identifier bytes at this location.
    pub fn set_value(&self, dict: &mut ScDict, value: &ScTokenID)
        ensures
            final(dict)@ == old(dict)@.insert(self@, value@),
            spec_token_id_wf(final(dict)@, self@),
            spec_token_id_from_bytes(kv_read(final(dict)@, self@)) == value@,
    {
        proof {
            use_type_invariant(value);
        }
        let buf = value.to_bytes();
        self.proxy.set(dict, buf.as_slice());
    }

    /// The stored identifier rendered as hexadecimal.
    pub fn to_string(&self, dict: &ScDict) -> (s: String)
        requires
            spec_token_id_wf(dict@, self@),
        ensures
            s@ == spec_hex(spec_token_id_from_bytes(kv_read(dict@, self@))),
    {
        let v = self.value(dict);
        v.to_string()
    }

    /// The stored identifier; all zero when absent.
    pub fn value(&self, dict: &ScDict) -> (r: ScTokenID)
        requires
            spec_token_id_wf(dict@, self@),
        ensures
            r@ == spec_token_id_from_bytes(kv_read(dict@, self@)),
    {
        let buf = self.proxy.get(dict);
        token_id_from_bytes(buf.as_slice())
    }
}

} // verus!
