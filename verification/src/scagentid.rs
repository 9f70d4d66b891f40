//! The agent-identifier codec and its value views.
//!
//! An agent identifier names an account on the chain: an address together
//! with the name hash of the contract acting for it (0 for a plain
//! account).  Its canonical encoding is the tagged address bytes followed
//! by the name hash as 4 little-endian bytes; the string rendering is the
//! lowercase hexadecimal form of those bytes.

use vstd::bytes::*;
use vstd::prelude::*;
use vstd::slice::{slice_subrange, slice_to_vec};

use crate::bytesutil::{spec_zero_bytes, zero_vec};
use crate::codec::{WasmDecoder, WasmEncoder};
use crate::hex::{
    hex_decode, hex_encode, is_hex_string, lemma_hex_round_trip, spec_hex, spec_hex_bytes,
    spec_is_hex_str,
};
use crate::proxy::Proxy;
use crate::scaddress::{
    spec_address_len, spec_address_tag_ok, ScAddress, SC_ADDRESS_ETH, SC_ADDRESS_ETH_LENGTH,
    SC_ADDRESS_LENGTH,
};
use crate::schname::ScHname;
use crate::scdict::{bytes_eq, kv_read, ScDict};

verus! {

/// Whether `b` is a well-formed encoded agent identifier: a well-formed
/// tagged address followed by 4 name-hash bytes.
pub open spec fn spec_agent_id_wf_bytes(b: Seq<u8>) -> bool {
    b.len() > 0 && spec_address_tag_ok(b[0]) && b.len() == spec_address_len(b[0]) + 4
}

/// The agent identifier decoded from a buffer: the all-zero account for
/// the empty buffer, the bytes themselves otherwise.
pub open spec fn spec_agent_id_from_bytes(buf: Seq<u8>) -> Seq<u8>
    recommends
        buf.len() == 0 || spec_agent_id_wf_bytes(buf),
{
    if buf.len() == 0 {
        spec_zero_bytes(SC_ADDRESS_LENGTH as int + 4)
    } else {
        buf
    }
}

/// Whether the bytes stored under `k` decode as an agent identifier.
pub open spec fn spec_agent_id_wf(m: Map<Seq<u8>, Seq<u8>>, k: Seq<u8>) -> bool {
    kv_read(m, k).len() == 0 || spec_agent_id_wf_bytes(kv_read(m, k))
}

/// An agent identifier: an address and a contract name hash.
pub struct ScAgentID {
    id: Vec<u8>,
}

impl View for ScAgentID {
    type V = Seq<u8>;

    closed spec fn view(&self) -> Seq<u8> {
        self.id@
    }
}

impl ScAgentID {
    /// The bytes always form a well-formed encoded agent identifier.
    #[verifier::type_invariant]
    closed spec fn wf(self) -> bool {
        spec_agent_id_wf_bytes(self.id@)
    }

    /// The identifier for `address` acting through the contract named by
    /// `hname`.
    pub fn new(address: &ScAddress, hname: ScHname) -> (r: ScAgentID)
        ensures
            r@ == address@ + spec_u32_to_le_bytes(hname.0),
    {
        proof {
            vstd::bytes::lemma_auto_spec_u32_to_from_le_bytes();
        }
        let mut id = address.to_bytes();
        let enc = u32_to_le_bytes(hname.0);
        id.extend_from_slice(enc.as_slice());
        proof {
            assert(id@ =~= address@ + spec_u32_to_le_bytes(hname.0));
            assert(id@[0] == address@[0]);
        }
        ScAgentID { id }
    }

    /// The address part.
    pub fn address(&self) -> (r: ScAddress)
        ensures
            r@ == self@.take(spec_address_len(self@[0])),
    {
        proof {
            use_type_invariant(self);
        }
        let alen: usize = if self.id[0] == SC_ADDRESS_ETH {
            SC_ADDRESS_ETH_LENGTH
        } else {
            SC_ADDRESS_LENGTH
        };
        let part = slice_subrange(self.id.as_slice(), 0, alen);
        proof {
            assert(part@ =~= self@.take(spec_address_len(self@[0])));
            assert(part@[0] == self@[0]);
        }
        crate::scaddress::address_from_bytes(part)
    }

    /// The contract name hash part.
    pub fn hname(&self) -> (r: ScHname)
        ensures
            r.0 == spec_u32_from_le_bytes(self@.skip(spec_address_len(self@[0]))),
    {
        proof {
            use_type_invariant(self);
        }
        let alen: usize = if self.id[0] == SC_ADDRESS_ETH {
            SC_ADDRESS_ETH_LENGTH
        } else {
            SC_ADDRESS_LENGTH
        };
        let part = slice_subrange(self.id.as_slice(), alen, self.id.len());
        proof {
            assert(part@ =~= self@.skip(spec_address_len(self@[0])));
        }
        ScHname(u32_from_le_bytes(part))
    }

    /// The canonical byte encoding.
    pub fn to_bytes(&self) -> (buf: Vec<u8>)
        ensures
            buf@ == self@,
    {
        slice_to_vec(self.id.as_slice())
    }

    /// The identifier rendered as lowercase hexadecimal.
    pub fn to_string(&self) -> (s: String)
        ensures
            s@ == spec_hex(self@),
    {
        hex_encode(self.id.as_slice())
    }
}

impl PartialEq for ScAgentID {
    /// Two agent identifiers are equal exactly when their bytes are.
    fn eq(&self, other: &ScAgentID) -> (r: bool) {
        bytes_eq(self.id.as_slice(), other.id.as_slice())
    }
}

impl vstd::std_specs::cmp::PartialEqSpecImpl for ScAgentID {
    open spec fn obeys_eq_spec() -> bool {
        true
    }

    open spec fn eq_spec(&self, other: &ScAgentID) -> bool {
        self@ == other@
    }
}

impl Eq for ScAgentID {

}

/// Decoding inverts encoding, for every value.
pub proof fn lemma_agent_id_bytes_round_trip(b: Seq<u8>)
    requires
        spec_agent_id_wf_bytes(b),
    ensures
        spec_agent_id_from_bytes(b) == b,
{
}

/// The empty buffer decodes to the all-zero account identifier.
pub proof fn lemma_agent_id_empty_default()
    ensures
        spec_agent_id_from_bytes(Seq::<u8>::empty()) == spec_zero_bytes(
            SC_ADDRESS_LENGTH as int + 4,
        ),
        spec_agent_id_wf_bytes(spec_zero_bytes(SC_ADDRESS_LENGTH as int + 4)),
{
    assert(spec_zero_bytes(SC_ADDRESS_LENGTH as int + 4)[0] == 0u8);
}

/// Parsing inverts rendering, for every value.
pub proof fn lemma_agent_id_string_round_trip(b: Seq<u8>)
    requires
        spec_agent_id_wf_bytes(b),
    ensures
        spec_is_hex_str(spec_hex(b)),
        spec_agent_id_from_bytes(spec_hex_bytes(spec_hex(b))) == b,
{
    lemma_hex_round_trip(b);
}

/// Whether `buf` is a well-formed encoded agent identifier.
pub fn agent_id_bytes_wf(buf: &[u8]) -> (r: bool)
    ensures
        r == spec_agent_id_wf_bytes(buf@),
{
    if buf.len() == 0 {
        return false;
    }
    let t = buf[0];
    if t == SC_ADDRESS_ETH {
        buf.len() == SC_ADDRESS_ETH_LENGTH + 4
    } else if t == 0 || t == 8 || t == 16 {
        buf.len() == SC_ADDRESS_LENGTH + 4
    } else {
        false
    }
}

/// Decodes an empty or well-formed buffer.
pub fn agent_id_from_bytes(buf: &[u8]) -> (r: ScAgentID)
    requires
        buf@.len() == 0 || spec_agent_id_wf_bytes(buf@),
    ensures
        r@ == spec_agent_id_from_bytes(buf@),
{
    if buf.len() == 0 {
        let id = zero_vec(SC_ADDRESS_LENGTH + 4);
        proof {
            assert(id@[0] == 0u8);
        }
        ScAgentID { id }
    } else {
        ScAgentID { id: slice_to_vec(buf) }
    }
}

/// Decodes a buffer, or reports that it is not a well-formed agent
/// identifier.
pub fn agent_id_try_from_bytes(buf: &[u8]) -> (r: Option<ScAgentID>)
    ensures
        r is Some <==> (buf@.len() == 0 || spec_agent_id_wf_bytes(buf@)),
        r matches Some(v) ==> v@ == spec_agent_id_from_bytes(buf@),
{
    if buf.len() == 0 || agent_id_bytes_wf(buf) {
        Some(agent_id_from_bytes(buf))
    } else {
        None
    }
}

/// Encodes a value canonically.
pub fn agent_id_to_bytes(value: &ScAgentID) -> (buf: Vec<u8>)
    ensures
        buf@ == value@,
{
    value.to_bytes()
}

/// Parses a lowercase hexadecimal string denoting a well-formed agent
/// identifier.
pub fn agent_id_from_string(value: &str) -> (r: ScAgentID)
    requires
        spec_is_hex_str(value@),
        spec_agent_id_wf_bytes(spec_hex_bytes(value@)),
    ensures
        r@ == spec_hex_bytes(value@),
{
    let id = hex_decode(value);
    ScAgentID { id }
}

/// Parses a string, or reports that it does not denote an agent
/// identifier.
pub fn agent_id_try_from_string(value: &str) -> (r: Option<ScAgentID>)
    ensures
        r is Some <==> (spec_is_hex_str(value@) && spec_agent_id_wf_bytes(
            spec_hex_bytes(value@),
        )),
        r matches Some(v) ==> v@ == spec_hex_bytes(value@),
{
    if !is_hex_string(value) {
        return None;
    }
    let b = hex_decode(value);
    if agent_id_bytes_wf(b.as_slice()) {
        Some(agent_id_from_string(value))
    } else {
        None
    }
}

/// Renders a value as lowercase hexadecimal.
pub fn agent_id_to_string(value: &ScAgentID) -> (s: String)
    ensures
        s@ == spec_hex(value@),
{
    value.to_string()
}

/// Whether the start of `b` is a well-formed encoded agent identifier
/// followed by anything.
pub open spec fn spec_agent_id_decode_wf(b: Seq<u8>) -> bool {
    b.len() >= 1 && spec_address_tag_ok(b[0]) && b.len() >= spec_address_len(b[0]) + 4
}

/// A wire buffer that starts with a well-formed agent identifier decodes
/// to that identifier and leaves exactly the bytes that follow.
pub proof fn lemma_agent_id_wire_round_trip(b: Seq<u8>, rest: Seq<u8>)
    requires
        spec_agent_id_wf_bytes(b),
    ensures
        spec_agent_id_decode_wf(b + rest),
        (b + rest).take(spec_address_len((b + rest)[0]) + 4) == b,
        (b + rest).skip(spec_address_len((b + rest)[0]) + 4) == rest,
{
    assert((b + rest)[0] == b[0]);
    assert((b + rest).take(spec_address_len(b[0]) + 4) =~= b);
    assert((b + rest).skip(spec_address_len(b[0]) + 4) =~= rest);
}

/// Writes the identifier bytes to the wire buffer.
pub fn agent_id_encode(enc: &mut WasmEncoder, value: &ScAgentID)
    ensures
        final(enc)@ == old(enc)@ + value@,
{
    proof {
        use_type_invariant(value);
    }
    let len = value.id.len();
    enc.fixed_bytes(value.id.as_slice(), len);
}

/// Reads one agent identifier from the wire buffer; its discriminator
/// byte dictates how many bytes follow.
pub fn agent_id_decode(dec: &mut WasmDecoder) -> (r: ScAgentID)
    requires
        spec_agent_id_decode_wf(old(dec)@),
    ensures
        r@ == old(dec)@.take(spec_address_len(old(dec)@[0]) + 4),
        final(dec)@ == old(dec)@.skip(spec_address_len(old(dec)@[0]) + 4),
{
    let ghost orig = old(dec)@;
    let tag = dec.fixed_bytes(1);
    let t = tag[0];
    proof {
        assert(tag@ =~= orig.take(1));
        assert(t == orig[0]);
    }
    let rest_len: usize = if t == SC_ADDRESS_ETH {
        SC_ADDRESS_ETH_LENGTH + 3
    } else {
        SC_ADDRESS_LENGTH + 3
    };
    let rest = dec.fixed_bytes(rest_len);
    let mut id: Vec<u8> = Vec::new();
    id.push(t);
    id.extend_from_slice(rest.as_slice());
    proof {
        assert(id@ =~= orig.take(spec_address_len(orig[0]) + 4));
        assert(final(dec)@ =~= orig.skip(spec_address_len(orig[0]) + 4));
    }
    ScAgentID { id }
}

/// An immutable view of the agent identifier stored at one location.
pub struct ScImmutableAgentID {
    proxy: Proxy,
}

impl View for ScImmutableAgentID {
    type V = Seq<u8>;

    closed spec fn view(&self) -> Seq<u8> {
        self.proxy@
    }
}

impl ScImmutableAgentID {
    /// A view bound to the given location.
    pub fn new(proxy: Proxy) -> (r: ScImmutableAgentID)
        ensures
            r@ == proxy@,
    {
        ScImmutableAgentID { proxy }
    }

    /// Whether the store holds a non-empty value at this location.
    pub fn has(&self, dict: &ScDict) -> (r: bool)
        ensures
            r == (kv_read(dict@, self@).len() > 0),
    {
        self.proxy.has(dict)
    }

    /// The stored identifier rendered as hexadecimal.
    pub fn to_string(&self, dict: &ScDict) -> (s: String)
        requires
            spec_agent_id_wf(dict@, self@),
        ensures
            s@ == spec_hex(spec_agent_id_from_bytes(kv_read(dict@, self@))),
    {
        let v = self.value(dict);
        v.to_string()
    }

    /// The stored identifier; the all-zero account when absent.
    pub fn value(&self, dict: &ScDict) -> (r: ScAgentID)
        requires
            spec_agent_id_wf(dict@, self@),
        ensures
            r@ == spec_agent_id_from_bytes(kv_read(dict@, self@)),
    {
        let buf = self.proxy.get(dict);
        agent_id_from_bytes(buf.as_slice())
    }
}

/// A mutable view of the agent identifier stored at one location.
pub struct ScMutableAgentID {
    proxy: Proxy,
}

impl View for ScMutableAgentID {
    type V = Seq<u8>;

    closed spec fn view(&self) -> Seq<u8> {
        self.proxy@
    }
}

impl ScMutableAgentID {
    /// A view bound to the given location.
    pub fn new(proxy: Proxy) -> (r: ScMutableAgentID)
        ensures
            r@ == proxy@,
    {
        ScMutableAgentID { proxy }
    }

    /// Removes the stored value.
    pub fn delete(&self, dict: &mut ScDict)
        ensures
            final(dict)@ == old(dict)@.remove(self@),
    {
        self.proxy.delete(dict);
    }

    /// Whether the store holds a non-empty value at this location.
    pub fn has(&self, dict: &ScDict) -> (r: bool)
        ensures
            r == (kv_read(dict@, self@).len() > 0),
    {
        self.proxy.has(dict)
    }

    /// Stores the identifier bytes at this location.
    pub fn set_value(&self, dict: &mut ScDict, value: &ScAgentID)
        ensures
            final(dict)@ == old(dict)@.insert(self@, value@),
            spec_agent_id_wf(final(dict)@, self@),
            spec_agent_id_from_bytes(kv_read(final(dict)@, self@)) == value@,
    {
        proof {
            use_type_invariant(value);
        }
        let buf = value.to_bytes();
        self.proxy.set(dict, buf.as_slice());
    }

    /// The stored identifier rendered as hexadecimal.
    pub fn to_string(&self, dict: &ScDict) -> (s: String)
        requires
            spec_agent_id_wf(dict@, self@),
        ensures
            s@ == spec_hex(spec_agent_id_from_bytes(kv_read(dict@, self@))),
    {
        let v = self.value(dict);
        v.to_string()
    }

    /// The stored identifier; the all-zero account when absent.
    pub fn value(&self, dict: &ScDict) -> (r: ScAgentID)
        requires
            spec_agent_id_wf(dict@, self@),
        ensures
            r@ == spec_agent_id_from_bytes(kv_read(dict@, self@)),
    {
        let buf = self.proxy.get(dict);
        agent_id_from_bytes(buf.as_slice())
    }
}

} // verus!
