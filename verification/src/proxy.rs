//! Locations in the byte-keyed store.
//!
//! A `Proxy` is an immutable, cheaply clonable path descriptor.  Composing it
//! with an array index appends the 4-byte little-endian encoding of the
//! index; composing it with a map key appends the key's encoded bytes.
//! Composition is plain concatenation, so it is associative and supports
//! arbitrary nesting depth.

use vstd::bytes::*;
use vstd::utf8::encode_utf8;
use vstd::prelude::*;

use crate::scdict::{kv_read, ScDict};

verus! {

/// The well-known root prefix under which call parameters are stored.
pub const PARAMS_ROOT_PREFIX: u8 = 112;

/// The well-known root prefix under which contract state is stored.
pub const STATE_ROOT_PREFIX: u8 = 115;

/// The storage key of the array element at `index` under the array root `p`.
pub open spec fn arr_elem_key(p: Seq<u8>, index: int) -> Seq<u8> {
    p + spec_u32_to_le_bytes(index as u32)
}

/// Whether `k` is the key of one of the first `n` elements of the array
/// rooted at `p`.
pub open spec fn is_arr_elem_key(p: Seq<u8>, n: int, k: Seq<u8>) -> bool {
    exists|i: int| 0 <= i < n && k == arr_elem_key(p, i)
}

/// Whether the bytes stored under `k` are a well-formed container length:
/// absent, or exactly 4 bytes.
pub open spec fn spec_length_wf(m: Map<Seq<u8>, Seq<u8>>, k: Seq<u8>) -> bool {
    kv_read(m, k).len() == 0 || kv_read(m, k).len() == 4
}

/// The container length stored under `k`: the little-endian decoding of the
/// stored 4 bytes, or 0 when nothing is stored.
pub open spec fn spec_length(m: Map<Seq<u8>, Seq<u8>>, k: Seq<u8>) -> u32 {
    if kv_read(m, k).len() == 4 {
        spec_u32_from_le_bytes(kv_read(m, k))
    } else {
        0u32
    }
}

/// Location composition is associative: composing with an array index and
/// then a map key reaches the same storage key as composing with their
/// concatenation, so a nested container's entry and the directly composed
/// path denote the same location.
pub proof fn lemma_composition_associative(p: Seq<u8>, index: u32, key: Seq<u8>)
    ensures
        arr_elem_key(p, index as int) + key == p + (spec_u32_to_le_bytes(index) + key),
{
    assert(arr_elem_key(p, index as int) + key =~= p + (spec_u32_to_le_bytes(index) + key));
}

/// Distinct array indices always address distinct element locations.
pub proof fn lemma_index_keys_distinct(p: Seq<u8>, i: u32, j: u32)
    requires
        i != j,
    ensures
        arr_elem_key(p, i as int) != arr_elem_key(p, j as int),
{
    lemma_auto_spec_u32_to_from_le_bytes();
    if arr_elem_key(p, i as int) == arr_elem_key(p, j as int) {
        assert(spec_u32_to_le_bytes(i) =~= spec_u32_to_le_bytes(j)) by {
            assert(forall|x: int|
                0 <= x < 4 ==> #[trigger] spec_u32_to_le_bytes(i)[x] == arr_elem_key(
                    p,
                    i as int,
                )[p.len() + x]);
            assert(forall|x: int|
                0 <= x < 4 ==> #[trigger] spec_u32_to_le_bytes(j)[x] == arr_elem_key(
                    p,
                    j as int,
                )[p.len() + x]);
        }
        assert(spec_u32_from_le_bytes(spec_u32_to_le_bytes(i)) == i);
        assert(spec_u32_from_le_bytes(spec_u32_to_le_bytes(j)) == j);
    }
}

/// Distinct map keys always address distinct entry locations.
pub proof fn lemma_map_keys_distinct(p: Seq<u8>, k1: Seq<u8>, k2: Seq<u8>)
    requires
        k1 != k2,
    ensures
        p + k1 != p + k2,
{
    if p + k1 == p + k2 {
        assert(k1 =~= k2) by {
            assert((p + k1).len() == (p + k2).len());
            assert(forall|x: int| 0 <= x < k1.len() ==> #[trigger] k1[x] == (p + k1)[p.len() + x]);
            assert(forall|x: int| 0 <= x < k2.len() ==> #[trigger] k2[x] == (p + k2)[p.len() + x]);
        }
    }
}

/// The length of an element key: always 4 more than its parent's.
pub proof fn lemma_elem_key_len(p: Seq<u8>, i: u32)
    ensures
        arr_elem_key(p, i as int).len() == p.len() + 4,
{
    lemma_auto_spec_u32_to_from_le_bytes();
}

/// Element keys determine their parent key and index: equal keys over
/// equally long parents come from the same parent and index.
pub proof fn lemma_elem_key_injective(p1: Seq<u8>, i: u32, p2: Seq<u8>, j: u32)
    requires
        p1.len() == p2.len(),
        arr_elem_key(p1, i as int) == arr_elem_key(p2, j as int),
    ensures
        p1 == p2,
        i == j,
{
    lemma_auto_spec_u32_to_from_le_bytes();
    let k1 = arr_elem_key(p1, i as int);
    let k2 = arr_elem_key(p2, j as int);
    assert(p1 =~= k1.take(p1.len() as int));
    assert(p2 =~= k2.take(p2.len() as int));
    assert(spec_u32_to_le_bytes(i) =~= k1.skip(p1.len() as int));
    assert(spec_u32_to_le_bytes(j) =~= k2.skip(p2.len() as int));
    assert(spec_u32_from_le_bytes(spec_u32_to_le_bytes(i)) == i);
    assert(spec_u32_from_le_bytes(spec_u32_to_le_bytes(j)) == j);
}

/// An array's length field never collides with any of its element
/// locations: element keys are strictly longer.
pub proof fn lemma_length_key_distinct(p: Seq<u8>, i: u32)
    ensures
        p != arr_elem_key(p, i as int),
{
    lemma_auto_spec_u32_to_from_le_bytes();
}

/// An immutable path into the store.  Owns no data beyond its key bytes.
pub struct Proxy {
    key: Vec<u8>,
}

impl Clone for Proxy {
    /// A clone addresses the same location.
    fn clone(&self) -> (r: Proxy)
        ensures
            r@ == self@,
    {
        Proxy::new(self.key.as_slice())
    }
}

impl View for Proxy {
    type V = Seq<u8>;

    closed spec fn view(&self) -> Seq<u8> {
        self.key@
    }
}

/// The root location for call parameters.
pub fn params_proxy() -> (r: Proxy)
    ensures
        r@ == seq![PARAMS_ROOT_PREFIX],
{
    let mut key: Vec<u8> = Vec::new();
    key.push(PARAMS_ROOT_PREFIX);
    proof {
        assert(key@ =~= seq![PARAMS_ROOT_PREFIX]);
    }
    Proxy { key }
}

/// The root location for contract state.
pub fn state_proxy() -> (r: Proxy)
    ensures
        r@ == seq![STATE_ROOT_PREFIX],
{
    let mut key: Vec<u8> = Vec::new();
    key.push(STATE_ROOT_PREFIX);
    proof {
        assert(key@ =~= seq![STATE_ROOT_PREFIX]);
    }
    Proxy { key }
}

impl Proxy {
    /// A location at the given root key.
    pub fn new(root: &[u8]) -> (r: Proxy)
        ensures
            r@ == root@,
    {
        let mut key: Vec<u8> = Vec::new();
        key.extend_from_slice(root);
        proof {
            assert(key@ =~= root@);
        }
        Proxy { key }
    }

    /// The child location under a named field: the parent key followed by
    /// the UTF-8 bytes of the name.
    pub fn root(&self, name: &str) -> (r: Proxy)
        ensures
            r@ == self@ + encode_utf8(name@),
    {
        let mut key: Vec<u8> = Vec::new();
        key.extend_from_slice(self.key.as_slice());
        key.extend_from_slice(name.as_bytes());
        proof {
            assert(key@ =~= self@ + encode_utf8(name@));
        }
        Proxy { key }
    }

    /// The child location under a map key: the parent key followed by the
    /// key's bytes.
    pub fn key(&self, key: &[u8]) -> (r: Proxy)
        ensures
            r@ == self@ + key@,
    {
        let mut k: Vec<u8> = Vec::new();
        k.extend_from_slice(self.key.as_slice());
        k.extend_from_slice(key);
        proof {
            assert(k@ =~= self@ + key@);
        }
        Proxy { key: k }
    }

    /// The child location of an array element: the parent key followed by
    /// the 4-byte little-endian encoding of the index.
    pub fn index(&self, index: u32) -> (r: Proxy)
        ensures
            r@ == arr_elem_key(self@, index as int),
    {
        let mut k: Vec<u8> = Vec::new();
        k.extend_from_slice(self.key.as_slice());
        let enc = u32_to_le_bytes(index);
        k.extend_from_slice(enc.as_slice());
        proof {
            assert(k@ =~= self@ + spec_u32_to_le_bytes(index));
        }
        Proxy { key: k }
    }

    /// Whether the store holds a non-empty value at this location.
    pub fn has(&self, dict: &ScDict) -> (r: bool)
        ensures
            r == (kv_read(dict@, self@).len() > 0),
    {
        dict.has(self.key.as_slice())
    }

    /// The bytes stored at this location; empty when absent.
    pub fn get(&self, dict: &ScDict) -> (r: Vec<u8>)
        ensures
            r@ == kv_read(dict@, self@),
    {
        dict.get(self.key.as_slice())
    }

    /// Stores `value` at this location.
    pub fn set(&self, dict: &mut ScDict, value: &[u8])
        ensures
            final(dict)@ == old(dict)@.insert(self@, value@),
    {
        dict.set(self.key.as_slice(), value);
    }

    /// Removes this location from the store.
    pub fn delete(&self, dict: &mut ScDict)
        ensures
            final(dict)@ == old(dict)@.remove(self@),
    {
        dict.delete(self.key.as_slice());
    }

    /// The length of the container rooted at this location.
    pub fn length(&self, dict: &ScDict) -> (r: u32)
        requires
            spec_length_wf(dict@, self@),
        ensures
            r == spec_length(dict@, self@),
    {
        let b = dict.get(self.key.as_slice());
        if b.len() == 4 {
            u32_from_le_bytes(b.as_slice())
        } else {
            0
        }
    }

    /// Stores `n` as the length of the container rooted at this location.
    pub fn set_length(&self, dict: &mut ScDict, n: u32)
        ensures
            final(dict)@ == old(dict)@.insert(self@, spec_u32_to_le_bytes(n)),
            spec_length_wf(final(dict)@, self@),
            spec_length(final(dict)@, self@) == n,
    {
        let enc = u32_to_le_bytes(n);
        dict.set(self.key.as_slice(), enc.as_slice());
        proof {
            lemma_auto_spec_u32_to_from_le_bytes();
        }
    }

    /// Reserves the next array slot: increments the stored length and
    /// returns the location of the element at the old length.
    pub fn append(&self, dict: &mut ScDict) -> (r: Proxy)
        requires
            spec_length_wf(old(dict)@, self@),
            spec_length(old(dict)@, self@) < u32::MAX,
        ensures
            r@ == arr_elem_key(self@, spec_length(old(dict)@, self@) as int),
            final(dict)@ == old(dict)@.insert(
                self@,
                spec_u32_to_le_bytes((spec_length(old(dict)@, self@) + 1) as u32),
            ),
            spec_length_wf(final(dict)@, self@),
            spec_length(final(dict)@, self@) == spec_length(old(dict)@, self@) + 1,
    {
        let len = self.length(dict);
        self.set_length(dict, len + 1);
        self.index(len)
    }

    /// Removes every element of the array rooted at this location, then
    /// removes the stored length, so the array reads as empty.
    pub fn clear_array(&self, dict: &mut ScDict)
        requires
            spec_length_wf(old(dict)@, self@),
        ensures
            !final(dict)@.contains_key(self@),
            spec_length(final(dict)@, self@) == 0,
            spec_length_wf(final(dict)@, self@),
            forall|i: int|
                0 <= i < spec_length(old(dict)@, self@) ==> !final(dict)@.contains_key(
                    #[trigger] arr_elem_key(self@, i),
                ),
            forall|k: Seq<u8>|
                k != self@ && !is_arr_elem_key(
                    self@,
                    spec_length(old(dict)@, self@) as int,
                    k,
                ) ==> #[trigger] kv_read(final(dict)@, k) == kv_read(old(dict)@, k)
                    && final(dict)@.contains_key(k) == old(dict)@.contains_key(k),
    {
        let len = self.length(dict);
        let ghost n = len as int;
        let mut i: u32 = 0;
        while i < len
            invariant
                0 <= i <= len,
                n == len as int,
                forall|j: int|
                    0 <= j < i ==> !dict@.contains_key(#[trigger] arr_elem_key(self@, j)),
                forall|k: Seq<u8>|
                    !is_arr_elem_key(self@, i as int, k) ==> #[trigger] kv_read(dict@, k)
                        == kv_read(old(dict)@, k) && dict@.contains_key(k) == old(
                        dict,
                    )@.contains_key(k),
            decreases len - i,
        {
            let elem = self.index(i);
            let ghost prev = dict@;
            elem.delete(dict);
            proof {
                assert forall|k: Seq<u8>| !is_arr_elem_key(self@, i + 1, k) implies #[trigger]
                    kv_read(dict@, k) == kv_read(old(dict)@, k) && dict@.contains_key(k) == old(
                    dict,
                )@.contains_key(k) by {
                    assert(k != arr_elem_key(self@, i as int)) by {
                        if k == arr_elem_key(self@, i as int) {
                            assert(is_arr_elem_key(self@, i + 1, k)) by {
                                assert(0 <= (i as int) && (i as int) < i + 1 && k
                                    == arr_elem_key(self@, i as int));
                            }
                        }
                    }
                    assert(!is_arr_elem_key(self@, i as int, k)) by {
                        if is_arr_elem_key(self@, i as int, k) {
                            let j = choose|j: int|
                                0 <= j < i as int && k == arr_elem_key(self@, j);
                            assert(0 <= j < i + 1 && k == arr_elem_key(self@, j));
                        }
                    }
                    assert(kv_read(prev, k) == kv_read(old(dict)@, k));
                    assert(kv_read(dict@, k) == kv_read(prev, k));
                }
                assert forall|j: int| 0 <= j < i + 1 implies !dict@.contains_key(
                    #[trigger] arr_elem_key(self@, j),
                ) by {}
            }
            i = i + 1;
        }
        let ghost prev = dict@;
        self.delete(dict);
        proof {
            assert forall|k: Seq<u8>|
                k != self@ && !is_arr_elem_key(self@, n, k) implies #[trigger] kv_read(
                final(dict)@,
                k,
            ) == kv_read(old(dict)@, k) && final(dict)@.contains_key(k) == old(
                dict,
            )@.contains_key(k) by {
                assert(kv_read(prev, k) == kv_read(old(dict)@, k));
                assert(kv_read(final(dict)@, k) == kv_read(prev, k));
            }
        }
    }

    /// Clears a keyed map.  A map's entries are addressed only through
    /// caller-known keys and cannot be enumerated here, so this removes only
    /// the value stored at the map's own location (the companion length
    /// field, when an index array is kept alongside the map); entries under
    /// composed keys are untouched.
    pub fn clear_map(&self, dict: &mut ScDict)
        ensures
            final(dict)@ == old(dict)@.remove(self@),
    {
        dict.delete(self.key.as_slice());
    }
}

} // verus!
