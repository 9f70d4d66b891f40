//! The boolean codec and its value views.

use vstd::prelude::*;

use crate::codec::{WasmDecoder, WasmEncoder};
use crate::proxy::Proxy;
use crate::scdict::{kv_read, ScDict};

verus! {

/// The fixed byte length of an encoded boolean.
pub const SC_BOOL_LENGTH: usize = 1;

/// The canonical encoding: one byte, 1 for true and 0 for false.
pub open spec fn spec_bool_to_bytes(value: bool) -> Seq<u8> {
    if value {
        seq![1u8]
    } else {
        seq![0u8]
    }
}

/// The value decoded from a buffer: the default false for the empty
/// buffer, otherwise whether the byte is non-zero.
pub open spec fn spec_bool_from_bytes(buf: Seq<u8>) -> bool
    recommends
        buf.len() == 0 || buf.len() == SC_BOOL_LENGTH,
{
    buf.len() > 0 && buf[0] != 0
}

/// Whether the bytes stored under `k` decode as a boolean: absent, or
/// exactly 1 byte.
pub open spec fn spec_bool_wf(m: Map<Seq<u8>, Seq<u8>>, k: Seq<u8>) -> bool {
    kv_read(m, k).len() == 0 || kv_read(m, k).len() == SC_BOOL_LENGTH
}

/// The decimal-free rendering of a boolean.
pub open spec fn spec_bool_to_string(value: bool) -> Seq<char> {
    if value {
        seq!['t', 'r', 'u', 'e']
    } else {
        seq!['f', 'a', 'l', 's', 'e']
    }
}

/// Whether `s` is a rendering of a boolean.
pub open spec fn spec_is_bool_str(s: Seq<char>) -> bool {
    s == spec_bool_to_string(true) || s == spec_bool_to_string(false)
}

/// Decoding inverts encoding, for every value.
pub proof fn lemma_bool_bytes_round_trip(value: bool)
    ensures
        spec_bool_to_bytes(value).len() == SC_BOOL_LENGTH,
        spec_bool_from_bytes(spec_bool_to_bytes(value)) == value,
{
}

/// The empty buffer decodes to the default value false.
pub proof fn lemma_bool_empty_default()
    ensures
        spec_bool_from_bytes(Seq::<u8>::empty()) == false,
{
}

/// Parsing inverts rendering, for every value.
pub proof fn lemma_bool_string_round_trip(value: bool)
    ensures
        spec_is_bool_str(spec_bool_to_string(value)),
        (spec_bool_to_string(value) == spec_bool_to_string(true)) == value,
{
    assert(spec_bool_to_string(true) != spec_bool_to_string(false)) by {
        assert(spec_bool_to_string(true).len() == 4);
        assert(spec_bool_to_string(false).len() == 5);
    }
}

/// A wire buffer that starts with the encoding of `value` decodes to
/// `value` and leaves exactly the bytes that follow.
pub proof fn lemma_bool_wire_round_trip(value: bool, rest: Seq<u8>)
    ensures
        (spec_bool_to_bytes(value) + rest).len() >= SC_BOOL_LENGTH,
        spec_bool_from_bytes((spec_bool_to_bytes(value) + rest).take(SC_BOOL_LENGTH as int)) == value,
        (spec_bool_to_bytes(value) + rest).skip(SC_BOOL_LENGTH as int) == rest,
{
    lemma_bool_bytes_round_trip(value);
    let b = spec_bool_to_bytes(value) + rest;
    assert(b.take(SC_BOOL_LENGTH as int) =~= spec_bool_to_bytes(value));
    assert(b.skip(SC_BOOL_LENGTH as int) =~= rest);
}

/// Decodes a buffer of 0 or 1 bytes.
pub fn bool_from_bytes(buf: &[u8]) -> (value: bool)
    requires
        buf@.len() == 0 || buf@.len() == SC_BOOL_LENGTH,
    ensures
        value == spec_bool_from_bytes(buf@),
{
    if buf.len() == 0 {
        false
    } else {
        buf[0] != 0
    }
}

/// Decodes a buffer, or reports a wrong length.
pub fn bool_try_from_bytes(buf: &[u8]) -> (r: Option<bool>)
    ensures
        r is Some <==> (buf@.len() == 0 || buf@.len() == SC_BOOL_LENGTH),
        r matches Some(value) ==> value == spec_bool_from_bytes(buf@),
{
    if buf.len() == 0 || buf.len() == SC_BOOL_LENGTH {
        Some(bool_from_bytes(buf))
    } else {
        None
    }
}

/// Encodes a value canonically.
pub fn bool_to_bytes(value: bool) -> (buf: Vec<u8>)
    ensures
        buf@ == spec_bool_to_bytes(value),
        buf@.len() == SC_BOOL_LENGTH,
{
    let mut buf: Vec<u8> = Vec::new();
    if value {
        buf.push(1);
    } else {
        buf.push(0);
    }
    proof {
        assert(buf@ =~= spec_bool_to_bytes(value));
    }
    buf
}

/// Parses `"true"` or `"false"`.
pub fn bool_from_string(value: &str) -> (r: bool)
    requires
        spec_is_bool_str(value@),
    ensures
        r == (value@ == spec_bool_to_string(true)),
{
    value.get_char(0) == 't'
}

/// Parses a string, or reports that it is not a rendering of a boolean.
pub fn bool_try_from_string(value: &str) -> (r: Option<bool>)
    ensures
        r is Some <==> spec_is_bool_str(value@),
        r matches Some(v) ==> v == (value@ == spec_bool_to_string(true)),
{
    let n = value.unicode_len();
    if n == 4 {
        if value.get_char(0) == 't' && value.get_char(1) == 'r' && value.get_char(2) == 'u'
            && value.get_char(3) == 'e' {
            proof {
                assert(value@ =~= spec_bool_to_string(true));
            }
            Some(true)
        } else {
            proof {
                assert(value@ != spec_bool_to_string(true) && value@ != spec_bool_to_string(
                    false,
                ));
            }
            None
        }
    } else if n == 5 {
        if value.get_char(0) == 'f' && value.get_char(1) == 'a' && value.get_char(2) == 'l'
            && value.get_char(3) == 's' && value.get_char(4) == 'e' {
            proof {
                assert(value@ =~= spec_bool_to_string(false));
            }
            Some(false)
        } else {
            proof {
                assert(value@ != spec_bool_to_string(true) && value@ != spec_bool_to_string(
                    false,
                ));
            }
            None
        }
    } else {
        None
    }
}

/// Renders a value as `"true"` or `"false"`.
pub fn bool_to_string(value: bool) -> (s: String)
    ensures
        s@ == spec_bool_to_string(value),
{
    let lit = if value {
        "true"
    } else {
        "false"
    };
    proof {
        reveal_strlit("true");
        reveal_strlit("false");
        assert("true"@ =~= spec_bool_to_string(true));
        assert("false"@ =~= spec_bool_to_string(false));
    }
    lit.to_owned()
}

/// Writes the canonical byte to the wire buffer.
pub fn bool_encode(enc: &mut WasmEncoder, value: bool)
    ensures
        final(enc)@ == old(enc)@ + spec_bool_to_bytes(value),
{
    let buf = bool_to_bytes(value);
    enc.fixed_bytes(buf.as_slice(), SC_BOOL_LENGTH);
}

/// Reads the next byte of the wire buffer.
pub fn bool_decode(dec: &mut WasmDecoder) -> (r: bool)
    requires
        old(dec)@.len() >= SC_BOOL_LENGTH,
    ensures
        r == spec_bool_from_bytes(old(dec)@.take(SC_BOOL_LENGTH as int)),
        final(dec)@ == old(dec)@.skip(SC_BOOL_LENGTH as int),
{
    let buf = dec.fixed_bytes(SC_BOOL_LENGTH);
    bool_from_bytes(buf.as_slice())
}

/// An immutable view of the boolean stored at one location.
pub struct ScImmutableBool {
    proxy: Proxy,
}

impl View for ScImmutableBool {
    type V = Seq<u8>;

    closed spec fn view(&self) -> Seq<u8> {
        self.proxy@
    }
}

impl ScImmutableBool {
    /// A view bound to the given location.
    pub fn new(proxy: Proxy) -> (r: ScImmutableBool)
        ensures
            r@ == proxy@,
    {
        ScImmutableBool { proxy }
    }

    /// Whether the store holds a non-empty value at this location.
    pub fn has(&self, dict: &ScDict) -> (r: bool)
        ensures
            r == (kv_read(dict@, self@).len() > 0),
    {
        self.proxy.has(dict)
    }

    /// The stored value rendered as `"true"` or `"false"`.
    pub fn to_string(&self, dict: &ScDict) -> (s: String)
        requires
            spec_bool_wf(dict@, self@),
        ensures
            s@ == spec_bool_to_string(spec_bool_from_bytes(kv_read(dict@, self@))),
    {
        bool_to_string(self.value(dict))
    }

    /// The stored value; false when absent.
    pub fn value(&self, dict: &ScDict) -> (r: bool)
        requires
            spec_bool_wf(dict@, self@),
        ensures
            r == spec_bool_from_bytes(kv_read(dict@, self@)),
    {
        let buf = self.proxy.get(dict);
        bool_from_bytes(buf.as_slice())
    }
}

/// A mutable view of the boolean stored at one location.
pub struct ScMutableBool {
    proxy: Proxy,
}

impl View for ScMutableBool {
    type V = Seq<u8>;

    closed spec fn view(&self) -> Seq<u8> {
        self.proxy@
    }
}

impl ScMutableBool {
    /// A view bound to the given location.
    pub fn new(proxy: Proxy) -> (r: ScMutableBool)
        ensures
            r@ == proxy@,
    {
        ScMutableBool { proxy }
    }

    /// Removes the stored value.
    pub fn delete(&self, dict: &mut ScDict)
        ensures
            final(dict)@ == old(dict)@.remove(self@),
    {
        self.proxy.delete(dict);
    }

    /// Whether the store holds a non-empty value at this location.
    pub fn has(&self, dict: &ScDict) -> (r: bool)
        ensures
            r == (kv_read(dict@, self@).len() > 0),
    {
        self.proxy.has(dict)
    }

    /// Stores the canonical encoding of `value` at this location.
    pub fn set_value(&self, dict: &mut ScDict, value: bool)
        ensures
            final(dict)@ == old(dict)@.insert(self@, spec_bool_to_bytes(value)),
            spec_bool_wf(final(dict)@, self@),
            spec_bool_from_bytes(kv_read(final(dict)@, self@)) == value,
    {
        let buf = bool_to_bytes(value);
        self.proxy.set(dict, buf.as_slice());
    }

    /// The stored value rendered as `"true"` or `"false"`.
    pub fn to_string(&self, dict: &ScDict) -> (s: String)
        requires
            spec_bool_wf(dict@, self@),
        ensures
            s@ == spec_bool_to_string(spec_bool_from_bytes(kv_read(dict@, self@))),
    {
        bool_to_string(self.value(dict))
    }

    /// The stored value; false when absent.
    pub fn value(&self, dict: &ScDict) -> (r: bool)
        requires
            spec_bool_wf(dict@, self@),
        ensures
            r == spec_bool_from_bytes(kv_read(dict@, self@)),
    {
        let buf = self.proxy.get(dict);
        bool_from_bytes(buf.as_slice())
    }
}

} // verus!
