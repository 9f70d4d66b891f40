//! The address codec and its value views.
//!
//! An address is a tagged byte string: a leading discriminator byte
//! followed by the address payload.  Chain-native addresses carry a
//! 32-byte payload; the alternate external-chain variant carries a 20-byte
//! payload and renders as a `0x`-prefixed hexadecimal string, collapsing
//! the all-zero address to the literal `0x0`.  Native addresses render as
//! plain lowercase hexadecimal of their full tagged bytes.

use vstd::prelude::*;
use vstd::slice::{slice_subrange, slice_to_vec};

use crate::bytesutil::{spec_zero_bytes, zero_vec};
use crate::codec::{WasmDecoder, WasmEncoder};
use crate::hex::{
    hex_decode, hex_encode, is_hex_string, lemma_hex_round_trip, lemma_hex_str_round_trip,
    spec_hex, spec_hex_bytes, spec_is_hex_str,
};
use crate::proxy::Proxy;
use crate::scdict::{bytes_eq, kv_read, ScDict};

verus! {

/// The discriminator of a chain-native account address.
pub const SC_ADDRESS_ED25519: u8 = 0;

/// The discriminator of a chain-native alias address.
pub const SC_ADDRESS_ALIAS: u8 = 8;

/// The discriminator of a chain-native NFT address.
pub const SC_ADDRESS_NFT: u8 = 16;

/// The discriminator of an external-chain address.
pub const SC_ADDRESS_ETH: u8 = 32;

/// The byte length of an encoded chain-native address: tag plus 32 bytes.
pub const SC_ADDRESS_LENGTH: usize = 33;

/// The byte length of an encoded external-chain address: tag plus 20
/// bytes.
pub const SC_ADDRESS_ETH_LENGTH: usize = 21;

/// Whether `t` is a known address discriminator.
pub open spec fn spec_address_tag_ok(t: u8) -> bool {
    t == SC_ADDRESS_ED25519 || t == SC_ADDRESS_ALIAS || t == SC_ADDRESS_NFT || t == SC_ADDRESS_ETH
}

/// The encoded length that the discriminator `t` dictates.
pub open spec fn spec_address_len(t: u8) -> int {
    if t == SC_ADDRESS_ETH {
        SC_ADDRESS_ETH_LENGTH as int
    } else {
        SC_ADDRESS_LENGTH as int
    }
}

/// Whether `b` is a well-formed encoded address.
pub open spec fn spec_address_wf_bytes(b: Seq<u8>) -> bool {
    b.len() > 0 && spec_address_tag_ok(b[0]) && b.len() == spec_address_len(b[0])
}

/// The address decoded from a buffer: the all-zero native address for the
/// empty buffer, the bytes themselves otherwise.
pub open spec fn spec_address_from_bytes(buf: Seq<u8>) -> Seq<u8>
    recommends
        buf.len() == 0 || spec_address_wf_bytes(buf),
{
    if buf.len() == 0 {
        spec_zero_bytes(SC_ADDRESS_LENGTH as int)
    } else {
        buf
    }
}

/// Whether the bytes stored under `k` decode as an address.
pub open spec fn spec_address_wf(m: Map<Seq<u8>, Seq<u8>>, k: Seq<u8>) -> bool {
    kv_read(m, k).len() == 0 || spec_address_wf_bytes(kv_read(m, k))
}

/// The rendering of an encoded address.
pub open spec fn spec_address_to_string(b: Seq<u8>) -> Seq<char>
    recommends
        spec_address_wf_bytes(b),
{
    if b.len() > 0 && b[0] == SC_ADDRESS_ETH {
        if b.skip(1) == spec_zero_bytes(20) {
            seq!['0', 'x', '0']
        } else {
            seq!['0', 'x'] + spec_hex(b.skip(1))
        }
    } else {
        spec_hex(b)
    }
}

/// Whether `s` parses as an address.
pub open spec fn spec_is_address_str(s: Seq<char>) -> bool {
    if s.len() >= 2 && s[0] == '0' && s[1] == 'x' {
        (s.len() == 3 && s[2] == '0') || (s.len() == 42 && spec_is_hex_str(s.skip(2)))
    } else {
        spec_is_hex_str(s) && spec_address_wf_bytes(spec_hex_bytes(s))
    }
}

/// The encoded address that `s` denotes.
pub open spec fn spec_address_from_string(s: Seq<char>) -> Seq<u8>
    recommends
        spec_is_address_str(s),
{
    if s.len() >= 2 && s[0] == '0' && s[1] == 'x' {
        if s.len() == 3 && s[2] == '0' {
            seq![SC_ADDRESS_ETH] + spec_zero_bytes(20)
        } else {
            seq![SC_ADDRESS_ETH] + spec_hex_bytes(s.skip(2))
        }
    } else {
        spec_hex_bytes(s)
    }
}

/// An address value: a discriminator byte and its payload.
pub struct ScAddress {
    id: Vec<u8>,
}

impl View for ScAddress {
    type V = Seq<u8>;

    closed spec fn view(&self) -> Seq<u8> {
        self.id@
    }
}

impl ScAddress {
    /// The bytes always form a well-formed encoded address.
    #[verifier::type_invariant]
    closed spec fn wf(self) -> bool {
        spec_address_wf_bytes(self.id@)
    }

    /// The canonical byte encoding, always well-formed.
    pub fn to_bytes(&self) -> (buf: Vec<u8>)
        ensures
            buf@ == self@,
            spec_address_wf_bytes(self@),
    {
        proof {
            use_type_invariant(self);
        }
        slice_to_vec(self.id.as_slice())
    }

    /// The address rendered as a string.
    pub fn to_string(&self) -> (s: String)
        ensures
            s@ == spec_address_to_string(self@),
    {
        proof {
            use_type_invariant(self);
        }
        if self.id[0] == SC_ADDRESS_ETH {
            let payload = slice_subrange(self.id.as_slice(), 1, SC_ADDRESS_ETH_LENGTH);
            proof {
                assert(payload@ =~= self.id@.skip(1));
            }
            let mut zero = true;
            let mut i: usize = 0;
            while i < payload.len()
                invariant
                    0 <= i <= payload@.len(),
                    zero == forall|j: int| 0 <= j < i ==> payload@[j] == 0u8,
                decreases payload@.len() - i,
            {
                if payload[i] != 0 {
                    zero = false;
                }
                i = i + 1;
            }
            if zero {
                proof {
                    assert(payload@ =~= spec_zero_bytes(20));
                    reveal_strlit("0x0");
                    assert("0x0"@ =~= seq!['0', 'x', '0']);
                }
                "0x0".to_owned()
            } else {
                proof {
                    assert(payload@ != spec_zero_bytes(20)) by {
                        let j = choose|j: int|
                            0 <= j < payload@.len() && payload@[j] != 0u8;
                        assert(spec_zero_bytes(20)[j] == 0u8);
                    }
                    reveal_strlit("0x");
                    assert("0x"@ =~= seq!['0', 'x']);
                }
                let mut s = "0x".to_owned();
                let hexpart = hex_encode(payload);
                s.append(hexpart.as_str());
                s
            }
        } else {
            hex_encode(self.id.as_slice())
        }
    }
}

impl PartialEq for ScAddress {
    /// Two addresses are equal exactly when their bytes are.
    fn eq(&self, other: &ScAddress) -> (r: bool) {
        bytes_eq(self.id.as_slice(), other.id.as_slice())
    }
}

impl vstd::std_specs::cmp::PartialEqSpecImpl for ScAddress {
    open spec fn obeys_eq_spec() -> bool {
        true
    }

    open spec fn eq_spec(&self, other: &ScAddress) -> bool {
        self@ == other@
    }
}

impl Eq for ScAddress {

}

/// Decoding inverts encoding, for every value.
pub proof fn lemma_address_bytes_round_trip(b: Seq<u8>)
    requires
        spec_address_wf_bytes(b),
    ensures
        spec_address_from_bytes(b) == b,
{
}

/// The empty buffer decodes to the all-zero native address.
pub proof fn lemma_address_empty_default()
    ensures
        spec_address_from_bytes(Seq::<u8>::empty()) == spec_zero_bytes(SC_ADDRESS_LENGTH as int),
        spec_address_wf_bytes(spec_zero_bytes(SC_ADDRESS_LENGTH as int)),
{
    assert(spec_zero_bytes(SC_ADDRESS_LENGTH as int)[0] == 0u8);
}

/// Parsing inverts rendering, for every value.
pub proof fn lemma_address_string_round_trip(b: Seq<u8>)
    requires
        spec_address_wf_bytes(b),
    ensures
        spec_is_address_str(spec_address_to_string(b)),
        spec_address_from_string(spec_address_to_string(b)) == b,
{
    let s = spec_address_to_string(b);
    if b[0] == SC_ADDRESS_ETH {
        assert(b.len() == SC_ADDRESS_ETH_LENGTH);
        let payload = b.skip(1);
        assert(payload.len() == 20);
        if payload == spec_zero_bytes(20) {
            assert(s == seq!['0', 'x', '0']);
            assert(spec_address_from_string(s) == seq![SC_ADDRESS_ETH] + spec_zero_bytes(20));
            assert(seq![SC_ADDRESS_ETH] + spec_zero_bytes(20) =~= b);
        } else {
            lemma_hex_round_trip(payload);
            assert(s == seq!['0', 'x'] + spec_hex(payload));
            assert(s.len() == 42);
            assert(s[0] == '0' && s[1] == 'x');
            assert(s.skip(2) =~= spec_hex(payload));
            assert(spec_address_from_string(s) == seq![SC_ADDRESS_ETH] + spec_hex_bytes(
                s.skip(2),
            ));
            assert(seq![SC_ADDRESS_ETH] + spec_hex_bytes(s.skip(2)) =~= b);
        }
    } else {
        lemma_hex_round_trip(b);
        assert(s == spec_hex(b));
        assert(s.len() == 66);
        assert(!(s.len() >= 2 && s[0] == '0' && s[1] == 'x')) by {
            if s.len() >= 2 && s[1] == 'x' {
                assert(crate::chars::spec_is_hex_digit(s[1]));
            }
        }
        assert(spec_address_from_string(s) == spec_hex_bytes(s));
    }
}

/// Whether `buf` is a well-formed encoded address.
pub fn address_bytes_wf(buf: &[u8]) -> (r: bool)
    ensures
        r == spec_address_wf_bytes(buf@),
{
    if buf.len() == 0 {
        return false;
    }
    let t = buf[0];
    if t == SC_ADDRESS_ETH {
        buf.len() == SC_ADDRESS_ETH_LENGTH
    } else if t == SC_ADDRESS_ED25519 || t == SC_ADDRESS_ALIAS || t == SC_ADDRESS_NFT {
        buf.len() == SC_ADDRESS_LENGTH
    } else {
        false
    }
}

/// Decodes an empty or well-formed buffer.
pub fn address_from_bytes(buf: &[u8]) -> (r: ScAddress)
    requires
        buf@.len() == 0 || spec_address_wf_bytes(buf@),
    ensures
        r@ == spec_address_from_bytes(buf@),
{
    if buf.len() == 0 {
        let id = zero_vec(SC_ADDRESS_LENGTH);
        proof {
            assert(id@[0] == 0u8);
        }
        ScAddress { id }
    } else {
        ScAddress { id: slice_to_vec(buf) }
    }
}

/// Decodes a buffer, or reports that it is not a well-formed address.
pub fn address_try_from_bytes(buf: &[u8]) -> (r: Option<ScAddress>)
    ensures
        r is Some <==> (buf@.len() == 0 || spec_address_wf_bytes(buf@)),
        r matches Some(v) ==> v@ == spec_address_from_bytes(buf@),
{
    if buf.len() == 0 || address_bytes_wf(buf) {
        Some(address_from_bytes(buf))
    } else {
        None
    }
}

/// Encodes a value canonically.
pub fn address_to_bytes(value: &ScAddress) -> (buf: Vec<u8>)
    ensures
        buf@ == value@,
{
    value.to_bytes()
}

/// Parses an address string.
pub fn address_from_string(value: &str) -> (r: ScAddress)
    requires
        spec_is_address_str(value@),
    ensures
        r@ == spec_address_from_string(value@),
{
    let n = value.unicode_len();
    if n >= 2 && value.get_char(0) == '0' && value.get_char(1) == 'x' {
        let mut id: Vec<u8> = Vec::new();
        id.push(SC_ADDRESS_ETH);
        if n == 3 {
            let zeros = zero_vec(20);
            id.extend_from_slice(zeros.as_slice());
            proof {
                assert(id@ =~= seq![SC_ADDRESS_ETH] + spec_zero_bytes(20));
            }
        } else {
            let hexpart = value.substring_char(2, n);
            proof {
                assert(hexpart@ =~= value@.skip(2));
            }
            let payload = hex_decode(hexpart);
            id.extend_from_slice(payload.as_slice());
            proof {
                lemma_hex_str_round_trip(value@.skip(2));
                assert(id@ =~= seq![SC_ADDRESS_ETH] + spec_hex_bytes(value@.skip(2)));
            }
        }
        ScAddress { id }
    } else {
        let id = hex_decode(value);
        ScAddress { id }
    }
}

/// Parses a string, or reports that it does not denote an address.
pub fn address_try_from_string(value: &str) -> (r: Option<ScAddress>)
    ensures
        r is Some <==> spec_is_address_str(value@),
        r matches Some(v) ==> v@ == spec_address_from_string(value@),
{
    let n = value.unicode_len();
    if n >= 2 && value.get_char(0) == '0' && value.get_char(1) == 'x' {
        if n == 3 && value.get_char(2) == '0' {
            return Some(address_from_string(value));
        }
        if n != 42 {
            return None;
        }
        let hexpart = value.substring_char(2, n);
        proof {
            assert(hexpart@ =~= value@.skip(2));
        }
        if is_hex_string(hexpart) {
            Some(address_from_string(value))
        } else {
            None
        }
    } else {
        if !is_hex_string(value) {
            return None;
        }
        let b = hex_decode(value);
        if address_bytes_wf(b.as_slice()) {
            Some(address_from_string(value))
        } else {
            None
        }
    }
}

/// Renders a value as a string.
pub fn address_to_string(value: &ScAddress) -> (s: String)
    ensures
        s@ == spec_address_to_string(value@),
{
    value.to_string()
}

/// Whether the start of `b` is a well-formed encoded address followed by
/// anything.
pub open spec fn spec_address_decode_wf(b: Seq<u8>) -> bool {
    b.len() >= 1 && spec_address_tag_ok(b[0]) && b.len() >= spec_address_len(b[0])
}

/// A wire buffer that starts with a well-formed tagged address decodes to
/// that address and leaves exactly the bytes that follow.
pub proof fn lemma_address_wire_round_trip(b: Seq<u8>, rest: Seq<u8>)
    requires
        spec_address_wf_bytes(b),
    ensures
        spec_address_decode_wf(b + rest),
        (b + rest).take(spec_address_len((b + rest)[0])) == b,
        (b + rest).skip(spec_address_len((b + rest)[0])) == rest,
{
    assert((b + rest)[0] == b[0]);
    assert((b + rest).take(spec_address_len(b[0])) =~= b);
    assert((b + rest).skip(spec_address_len(b[0])) =~= rest);
}

/// Writes the tagged address bytes to the wire buffer.
pub fn address_encode(enc: &mut WasmEncoder, value: &ScAddress)
    ensures
        final(enc)@ == old(enc)@ + value@,
{
    proof {
        use_type_invariant(value);
    }
    let len = value.id.len();
    enc.fixed_bytes(value.id.as_slice(), len);
}

/// Reads one tagged address from the wire buffer; its discriminator byte
/// dictates how many bytes follow.
pub fn address_decode(dec: &mut WasmDecoder) -> (r: ScAddress)
    requires
        spec_address_decode_wf(old(dec)@),
    ensures
        r@ == old(dec)@.take(spec_address_len(old(dec)@[0])),
        final(dec)@ == old(dec)@.skip(spec_address_len(old(dec)@[0])),
{
    let ghost orig = old(dec)@;
    let tag = dec.fixed_bytes(1);
    let t = tag[0];
    proof {
        assert(tag@ =~= orig.take(1));
        assert(t == orig[0]);
    }
    let rest_len: usize = if t == SC_ADDRESS_ETH {
        SC_ADDRESS_ETH_LENGTH - 1
    } else {
        SC_ADDRESS_LENGTH - 1
    };
    let rest = dec.fixed_bytes(rest_len);
    let mut id: Vec<u8> = Vec::new();
    id.push(t);
    id.extend_from_slice(rest.as_slice());
    proof {
        assert(id@ =~= orig.take(spec_address_len(orig[0])));
        assert(final(dec)@ =~= orig.skip(spec_address_len(orig[0])));
    }
    ScAddress { id }
}

/// An immutable view of the address stored at one location.
pub struct ScImmutableAddress {
    proxy: Proxy,
}

impl View for ScImmutableAddress {
    type V = Seq<u8>;

    closed spec fn view(&self) -> Seq<u8> {
        self.proxy@
    }
}

impl ScImmutableAddress {
    /// A view bound to the given location.
    pub fn new(proxy: Proxy) -> (r: ScImmutableAddress)
        ensures
            r@ == proxy@,
    {
        ScImmutableAddress { proxy }
    }

    /// Whether the store holds a non-empty value at this location.
    pub fn has(&self, dict: &ScDict) -> (r: bool)
        ensures
            r == (kv_read(dict@, self@).len() > 0),
    {
        self.proxy.has(dict)
    }

    /// The stored address rendered as a string.
    pub fn to_string(&self, dict: &ScDict) -> (s: String)
        requires
            spec_address_wf(dict@, self@),
        ensures
            s@ == spec_address_to_string(spec_address_from_bytes(kv_read(dict@, self@))),
    {
        let v = self.value(dict);
        v.to_string()
    }

    /// The stored address; the all-zero native address when absent.
    pub fn value(&self, dict: &ScDict) -> (r: ScAddress)
        requires
            spec_address_wf(dict@, self@),
        ensures
            r@ == spec_address_from_bytes(kv_read(dict@, self@)),
    {
        let buf = self.proxy.get(dict);
        address_from_bytes(buf.as_slice())
    }
}

/// A mutable view of the address stored at one location.
pub struct ScMutableAddress {
    proxy: Proxy,
}

impl View for ScMutableAddress {
    type V = Seq<u8>;

    closed spec fn view(&self) -> Seq<u8> {
        self.proxy@
    }
}

impl ScMutableAddress {
    /// A view bound to the given location.
    pub fn new(proxy: Proxy) -> (r: ScMutableAddress)
        ensures
            r@ == proxy@,
    {
        ScMutableAddress { proxy }
    }

    /// Removes the stored value.
    pub fn delete(&self, dict: &mut ScDict)
        ensures
            final(dict)@ == old(dict)@.remove(self@),
    {
        self.proxy.delete(dict);
    }

    /// Whether the store holds a non-empty value at this location.
    pub fn has(&self, dict: &ScDict) -> (r: bool)
        ensures
            r == (kv_read(dict@, self@).len() > 0),
    {
        self.proxy.has(dict)
    }

    /// Stores the tagged address bytes at this location.
    pub fn set_value(&self, dict: &mut ScDict, value: &ScAddress)
        ensures
            final(dict)@ == old(dict)@.insert(self@, value@),
            spec_address_wf(final(dict)@, self@),
            spec_address_from_bytes(kv_read(final(dict)@, self@)) == value@,
    {
        proof {
            use_type_invariant(value);
        }
        let buf = value.to_bytes();
        self.proxy.set(dict, buf.as_slice());
    }

    /// The stored address rendered as a string.
    pub fn to_string(&self, dict: &ScDict) -> (s: String)
        requires
            spec_address_wf(dict@, self@),
        ensures
            s@ == spec_address_to_string(spec_address_from_bytes(kv_read(dict@, self@))),
    {
        let v = self.value(dict);
        v.to_string()
    }

    /// The stored address; the all-zero native address when absent.
    pub fn value(&self, dict: &ScDict) -> (r: ScAddress)
        requires
            spec_address_wf(dict@, self@),
        ensures
            r@ == spec_address_from_bytes(kv_read(dict@, self@)),
    {
        let buf = self.proxy.get(dict);
        address_from_bytes(buf.as_slice())
    }
}

} // verus!
