//! Array and map views over string elements, including the nested
//! compositions array-of-array, array-of-map, map-of-array and map-of-map.
//!
//! A container owns no data: it derives child locations from its root
//! location and wraps them in scalar views or in further container views.
//! An array stores its length at its own root location as 4 little-endian
//! bytes and its elements at index-composed child locations.  A map
//! addresses entries at key-composed child locations and stores nothing at
//! its root; since its keys cannot be enumerated, clearing a map removes
//! only the value at its root location (a companion array's length field,
//! when one is kept).

use vstd::prelude::*;
use vstd::utf8::encode_utf8;

use crate::chars::lemma_encode_utf8_injective;
use crate::proxy::{
    arr_elem_key, is_arr_elem_key, lemma_elem_key_injective, lemma_elem_key_len,
    lemma_map_keys_distinct, spec_length, spec_length_wf, Proxy,
};
use crate::scaddress::{ScAddress, ScImmutableAddress, ScMutableAddress};
use crate::scdict::{kv_read, ScDict};
use crate::scstring::{string_to_bytes, ScImmutableString, ScMutableString};

verus! {

/// Distinct string keys always address distinct map entry locations.
pub proof fn lemma_string_map_keys_distinct(p: Seq<u8>, k1: Seq<char>, k2: Seq<char>)
    requires
        k1 != k2,
    ensures
        p + encode_utf8(k1) != p + encode_utf8(k2),
{
    lemma_encode_utf8_injective(k1, k2);
    lemma_map_keys_distinct(p, encode_utf8(k1), encode_utf8(k2));
}

/// Writing one map entry leaves every entry under a different key
/// unchanged.
pub proof fn lemma_map_set_preserves_other_entries(
    m: Map<Seq<u8>, Seq<u8>>,
    p: Seq<u8>,
    k1: Seq<char>,
    k2: Seq<char>,
    v: Seq<u8>,
)
    requires
        k1 != k2,
    ensures
        kv_read(m.insert(p + encode_utf8(k1), v), p + encode_utf8(k2)) == kv_read(
            m,
            p + encode_utf8(k2),
        ),
{
    lemma_string_map_keys_distinct(p, k1, k2);
}

/// Reserving an array slot only rewrites the stored length: every element
/// location keeps its value.
pub proof fn lemma_append_preserves_elements(
    m: Map<Seq<u8>, Seq<u8>>,
    p: Seq<u8>,
    v: Seq<u8>,
    i: u32,
)
    ensures
        kv_read(m.insert(p, v), arr_elem_key(p, i as int)) == kv_read(m, arr_elem_key(p, i as int)),
{
    crate::proxy::lemma_length_key_distinct(p, i);
}

/// An immutable view of an array of strings.
pub struct ScImmutableStringArray {
    proxy: Proxy,
}

impl View for ScImmutableStringArray {
    type V = Seq<u8>;

    closed spec fn view(&self) -> Seq<u8> {
        self.proxy@
    }
}

impl ScImmutableStringArray {
    /// A view bound to the given root location.
    pub fn new(proxy: Proxy) -> (r: ScImmutableStringArray)
        ensures
            r@ == proxy@,
    {
        ScImmutableStringArray { proxy }
    }

    /// The stored element count.
    pub fn length(&self, dict: &ScDict) -> (r: u32)
        requires
            spec_length_wf(dict@, self@),
        ensures
            r == spec_length(dict@, self@),
    {
        self.proxy.length(dict)
    }

    /// The view of the element at `index`, which must lie below the
    /// current length.
    pub fn get_string(&self, dict: &ScDict, index: u32) -> (r: ScImmutableString)
        requires
            spec_length_wf(dict@, self@),
            index < spec_length(dict@, self@),
        ensures
            r@ == arr_elem_key(self@, index as int),
    {
        ScImmutableString::new(self.proxy.index(index))
    }
}

/// A mutable view of an array of strings.
pub struct ScMutableStringArray {
    proxy: Proxy,
}

impl View for ScMutableStringArray {
    type V = Seq<u8>;

    closed spec fn view(&self) -> Seq<u8> {
        self.proxy@
    }
}

impl ScMutableStringArray {
    /// A view bound to the given root location.
    pub fn new(proxy: Proxy) -> (r: ScMutableStringArray)
        ensures
            r@ == proxy@,
    {
        ScMutableStringArray { proxy }
    }

    /// The stored element count.
    pub fn length(&self, dict: &ScDict) -> (r: u32)
        requires
            spec_length_wf(dict@, self@),
        ensures
            r == spec_length(dict@, self@),
    {
        self.proxy.length(dict)
    }

    /// The view of the element at `index`, which must lie below the
    /// current length.
    pub fn get_string(&self, dict: &ScDict, index: u32) -> (r: ScMutableString)
        requires
            spec_length_wf(dict@, self@),
            index < spec_length(dict@, self@),
        ensures
            r@ == arr_elem_key(self@, index as int),
    {
        ScMutableString::new(self.proxy.index(index))
    }

    /// Reserves the next slot: increments the stored length and returns
    /// the view of the element at the old length.
    pub fn append_string(&self, dict: &mut ScDict) -> (r: ScMutableString)
        requires
            spec_length_wf(old(dict)@, self@),
            spec_length(old(dict)@, self@) < u32::MAX,
        ensures
            r@ == arr_elem_key(self@, spec_length(old(dict)@, self@) as int),
            final(dict)@ == old(dict)@.insert(
                self@,
                vstd::bytes::spec_u32_to_le_bytes((spec_length(old(dict)@, self@) + 1) as u32),
            ),
            spec_length_wf(final(dict)@, self@),
            spec_length(final(dict)@, self@) == spec_length(old(dict)@, self@) + 1,
    {
        let p = self.proxy.append(dict);
        ScMutableString::new(p)
    }

    /// Removes every element, then the stored length, so the array reads
    /// as empty.
    pub fn clear(&self, dict: &mut ScDict)
        requires
            spec_length_wf(old(dict)@, self@),
        ensures
            !final(dict)@.contains_key(self@),
            spec_length(final(dict)@, self@) == 0,
            forall|i: int|
                0 <= i < spec_length(old(dict)@, self@) ==> !final(dict)@.contains_key(
                    #[trigger] arr_elem_key(self@, i),
                ),
            forall|k: Seq<u8>|
                k != self@ && !is_arr_elem_key(
                    self@,
                    spec_length(old(dict)@, self@) as int,
                    k,
                ) ==> #[trigger] kv_read(final(dict)@, k) == kv_read(old(dict)@, k)
                    && final(dict)@.contains_key(k) == old(dict)@.contains_key(k),
    {
        self.proxy.clear_array(dict);
    }
}

/// An immutable view of a map from strings to strings.
pub struct ScImmutableStringMap {
    proxy: Proxy,
}

impl View for ScImmutableStringMap {
    type V = Seq<u8>;

    closed spec fn view(&self) -> Seq<u8> {
        self.proxy@
    }
}

impl ScImmutableStringMap {
    /// A view bound to the given root location.
    pub fn new(proxy: Proxy) -> (r: ScImmutableStringMap)
        ensures
            r@ == proxy@,
    {
        ScImmutableStringMap { proxy }
    }

    /// The view of the entry under `key`; obtaining it needs no existence
    /// check, and reading an absent entry yields the default value.
    pub fn get_string(&self, key: &str) -> (r: ScImmutableString)
        ensures
            r@ == self@ + encode_utf8(key@),
    {
        let kb = string_to_bytes(key);
        ScImmutableString::new(self.proxy.key(kb.as_slice()))
    }
}

/// A mutable view of a map from strings to strings.
pub struct ScMutableStringMap {
    proxy: Proxy,
}

impl View for ScMutableStringMap {
    type V = Seq<u8>;

    closed spec fn view(&self) -> Seq<u8> {
        self.proxy@
    }
}

impl ScMutableStringMap {
    /// A view bound to the given root location.
    pub fn new(proxy: Proxy) -> (r: ScMutableStringMap)
        ensures
            r@ == proxy@,
    {
        ScMutableStringMap { proxy }
    }

    /// The view of the entry under `key`; obtaining it needs no existence
    /// check, and reading an absent entry yields the default value.
    pub fn get_string(&self, key: &str) -> (r: ScMutableString)
        ensures
            r@ == self@ + encode_utf8(key@),
    {
        let kb = string_to_bytes(key);
        ScMutableString::new(self.proxy.key(kb.as_slice()))
    }

    /// Removes the value at the map's own root location (the companion
    /// length field, when an index array is kept); keyed entries stay.
    pub fn clear(&self, dict: &mut ScDict)
        ensures
            final(dict)@ == old(dict)@.remove(self@),
    {
        self.proxy.clear_map(dict);
    }
}

/// An immutable view of an array of string maps.
pub struct ScImmutableStringMapArray {
    proxy: Proxy,
}

impl View for ScImmutableStringMapArray {
    type V = Seq<u8>;

    closed spec fn view(&self) -> Seq<u8> {
        self.proxy@
    }
}

impl ScImmutableStringMapArray {
    /// A view bound to the given root location.
    pub fn new(proxy: Proxy) -> (r: ScImmutableStringMapArray)
        ensures
            r@ == proxy@,
    {
        ScImmutableStringMapArray { proxy }
    }

    /// The stored element count.
    pub fn length(&self, dict: &ScDict) -> (r: u32)
        requires
            spec_length_wf(dict@, self@),
        ensures
            r == spec_length(dict@, self@),
    {
        self.proxy.length(dict)
    }

    /// The map at `index`, which must lie below the current length.
    pub fn get_string_map(&self, dict: &ScDict, index: u32) -> (r: ScImmutableStringMap)
        requires
            spec_length_wf(dict@, self@),
            index < spec_length(dict@, self@),
        ensures
            r@ == arr_elem_key(self@, index as int),
    {
        ScImmutableStringMap::new(self.proxy.index(index))
    }
}

/// A mutable view of an array of string maps.
pub struct ScMutableStringMapArray {
    proxy: Proxy,
}

impl View for ScMutableStringMapArray {
    type V = Seq<u8>;

    closed spec fn view(&self) -> Seq<u8> {
        self.proxy@
    }
}

impl ScMutableStringMapArray {
    /// A view bound to the given root location.
    pub fn new(proxy: Proxy) -> (r: ScMutableStringMapArray)
        ensures
            r@ == proxy@,
    {
        ScMutableStringMapArray { proxy }
    }

    /// The stored element count.
    pub fn length(&self, dict: &ScDict) -> (r: u32)
        requires
            spec_length_wf(dict@, self@),
        ensures
            r == spec_length(dict@, self@),
    {
        self.proxy.length(dict)
    }

    /// The map at `index`, which must lie below the current length.
    pub fn get_string_map(&self, dict: &ScDict, index: u32) -> (r: ScMutableStringMap)
        requires
            spec_length_wf(dict@, self@),
            index < spec_length(dict@, self@),
        ensures
            r@ == arr_elem_key(self@, index as int),
    {
        ScMutableStringMap::new(self.proxy.index(index))
    }

    /// Reserves the next slot: increments the stored length and returns
    /// the map at the old length.
    pub fn append_string_map(&self, dict: &mut ScDict) -> (r: ScMutableStringMap)
        requires
            spec_length_wf(old(dict)@, self@),
            spec_length(old(dict)@, self@) < u32::MAX,
        ensures
            r@ == arr_elem_key(self@, spec_length(old(dict)@, self@) as int),
            spec_length_wf(final(dict)@, self@),
            spec_length(final(dict)@, self@) == spec_length(old(dict)@, self@) + 1,
            final(dict)@ == old(dict)@.insert(
                self@,
                vstd::bytes::spec_u32_to_le_bytes((spec_length(old(dict)@, self@) + 1) as u32),
            ),
    {
        let p = self.proxy.append(dict);
        ScMutableStringMap::new(p)
    }

    /// Clears each contained map (removing its companion field at the
    /// element location), then the stored length, so the array reads as
    /// empty.
    pub fn clear(&self, dict: &mut ScDict)
        requires
            spec_length_wf(old(dict)@, self@),
        ensures
            !final(dict)@.contains_key(self@),
            spec_length(final(dict)@, self@) == 0,
            forall|i: int|
                0 <= i < spec_length(old(dict)@, self@) ==> !final(dict)@.contains_key(
                    #[trigger] arr_elem_key(self@, i),
                ),
            forall|k: Seq<u8>|
                k != self@ && !is_arr_elem_key(
                    self@,
                    spec_length(old(dict)@, self@) as int,
                    k,
                ) ==> #[trigger] kv_read(final(dict)@, k) == kv_read(old(dict)@, k)
                    && final(dict)@.contains_key(k) == old(dict)@.contains_key(k),
    {
        self.proxy.clear_array(dict);
    }
}

/// An immutable view of an array of addresses.
pub struct ScImmutableAddressArray {
    proxy: Proxy,
}

impl View for ScImmutableAddressArray {
    type V = Seq<u8>;

    closed spec fn view(&self) -> Seq<u8> {
        self.proxy@
    }
}

impl ScImmutableAddressArray {
    /// A view bound to the given root location.
    pub fn new(proxy: Proxy) -> (r: ScImmutableAddressArray)
        ensures
            r@ == proxy@,
    {
        ScImmutableAddressArray { proxy }
    }

    /// The stored element count.
    pub fn length(&self, dict: &ScDict) -> (r: u32)
        requires
            spec_length_wf(dict@, self@),
        ensures
            r == spec_length(dict@, self@),
    {
        self.proxy.length(dict)
    }

    /// The view of the element at `index`, which must lie below the
    /// current length.
    pub fn get_address(&self, dict: &ScDict, index: u32) -> (r: ScImmutableAddress)
        requires
            spec_length_wf(dict@, self@),
            index < spec_length(dict@, self@),
        ensures
            r@ == arr_elem_key(self@, index as int),
    {
        ScImmutableAddress::new(self.proxy.index(index))
    }
}

/// A mutable view of an array of addresses.
pub struct ScMutableAddressArray {
    proxy: Proxy,
}

impl View for ScMutableAddressArray {
    type V = Seq<u8>;

    closed spec fn view(&self) -> Seq<u8> {
        self.proxy@
    }
}

impl ScMutableAddressArray {
    /// A view bound to the given root location.
    pub fn new(proxy: Proxy) -> (r: ScMutableAddressArray)
        ensures
            r@ == proxy@,
    {
        ScMutableAddressArray { proxy }
    }

    /// The stored element count.
    pub fn length(&self, dict: &ScDict) -> (r: u32)
        requires
            spec_length_wf(dict@, self@),
        ensures
            r == spec_length(dict@, self@),
    {
        self.proxy.length(dict)
    }

    /// The view of the element at `index`, which must lie below the
    /// current length.
    pub fn get_address(&self, dict: &ScDict, index: u32) -> (r: ScMutableAddress)
        requires
            spec_length_wf(dict@, self@),
            index < spec_length(dict@, self@),
        ensures
            r@ == arr_elem_key(self@, index as int),
    {
        ScMutableAddress::new(self.proxy.index(index))
    }

    /// Reserves the next slot: increments the stored length and returns
    /// the view of the element at the old length.
    pub fn append_address(&self, dict: &mut ScDict) -> (r: ScMutableAddress)
        requires
            spec_length_wf(old(dict)@, self@),
            spec_length(old(dict)@, self@) < u32::MAX,
        ensures
            r@ == arr_elem_key(self@, spec_length(old(dict)@, self@) as int),
            final(dict)@ == old(dict)@.insert(
                self@,
                vstd::bytes::spec_u32_to_le_bytes((spec_length(old(dict)@, self@) + 1) as u32),
            ),
            spec_length_wf(final(dict)@, self@),
            spec_length(final(dict)@, self@) == spec_length(old(dict)@, self@) + 1,
    {
        let p = self.proxy.append(dict);
        ScMutableAddress::new(p)
    }

    /// Removes every element, then the stored length, so the array reads
    /// as empty.
    pub fn clear(&self, dict: &mut ScDict)
        requires
            spec_length_wf(old(dict)@, self@),
        ensures
            !final(dict)@.contains_key(self@),
            spec_length(final(dict)@, self@) == 0,
            forall|i: int|
                0 <= i < spec_length(old(dict)@, self@) ==> !final(dict)@.contains_key(
                    #[trigger] arr_elem_key(self@, i),
                ),
            forall|k: Seq<u8>|
                k != self@ && !is_arr_elem_key(
                    self@,
                    spec_length(old(dict)@, self@) as int,
                    k,
                ) ==> #[trigger] kv_read(final(dict)@, k) == kv_read(old(dict)@, k)
                    && final(dict)@.contains_key(k) == old(dict)@.contains_key(k),
    {
        self.proxy.clear_array(dict);
    }
}

/// An immutable view of a map from addresses to addresses.
pub struct ScImmutableAddressMap {
    proxy: Proxy,
}

impl View for ScImmutableAddressMap {
    type V = Seq<u8>;

    closed spec fn view(&self) -> Seq<u8> {
        self.proxy@
    }
}

impl ScImmutableAddressMap {
    /// A view bound to the given root location.
    pub fn new(proxy: Proxy) -> (r: ScImmutableAddressMap)
        ensures
            r@ == proxy@,
    {
        ScImmutableAddressMap { proxy }
    }

    /// The view of the entry under `key`: the key's tagged bytes compose
    /// the entry location.
    pub fn get_address(&self, key: &ScAddress) -> (r: ScImmutableAddress)
        ensures
            r@ == self@ + key@,
    {
        let kb = key.to_bytes();
        ScImmutableAddress::new(self.proxy.key(kb.as_slice()))
    }
}

/// A mutable view of a map from addresses to addresses.
pub struct ScMutableAddressMap {
    proxy: Proxy,
}

impl View for ScMutableAddressMap {
    type V = Seq<u8>;

    closed spec fn view(&self) -> Seq<u8> {
        self.proxy@
    }
}

impl ScMutableAddressMap {
    /// A view bound to the given root location.
    pub fn new(proxy: Proxy) -> (r: ScMutableAddressMap)
        ensures
            r@ == proxy@,
    {
        ScMutableAddressMap { proxy }
    }

    /// The view of the entry under `key`: the key's tagged bytes compose
    /// the entry location.
    pub fn get_address(&self, key: &ScAddress) -> (r: ScMutableAddress)
        ensures
            r@ == self@ + key@,
    {
        let kb = key.to_bytes();
        ScMutableAddress::new(self.proxy.key(kb.as_slice()))
    }

    /// Removes the value at the map's own root location; keyed entries
    /// stay.
    pub fn clear(&self, dict: &mut ScDict)
        ensures
            final(dict)@ == old(dict)@.remove(self@),
    {
        self.proxy.clear_map(dict);
    }
}

/// The length of the nested array at index `i` of the array rooted at
/// `p`, as stored in `m`.
pub open spec fn spec_inner_len(m: Map<Seq<u8>, Seq<u8>>, p: Seq<u8>, i: int) -> u32 {
    spec_length(m, arr_elem_key(p, i))
}

/// Whether `k` is the key of an element of one of the first `n` nested
/// arrays of the array rooted at `p`, with nested lengths read from `m`.
pub open spec fn is_nested_elem_key(
    m: Map<Seq<u8>, Seq<u8>>,
    p: Seq<u8>,
    n: int,
    k: Seq<u8>,
) -> bool {
    exists|i: int, j: int|
        0 <= i < n && 0 <= j < spec_inner_len(m, p, i) && k == arr_elem_key(
            arr_elem_key(p, i),
            j,
        )
}

/// An immutable view of an array of string arrays.
pub struct ScImmutableStringArrayArray {
    proxy: Proxy,
}

impl View for ScImmutableStringArrayArray {
    type V = Seq<u8>;

    closed spec fn view(&self) -> Seq<u8> {
        self.proxy@
    }
}

impl ScImmutableStringArrayArray {
    /// A view bound to the given root location.
    pub fn new(proxy: Proxy) -> (r: ScImmutableStringArrayArray)
        ensures
            r@ == proxy@,
    {
        ScImmutableStringArrayArray { proxy }
    }

    /// The stored element count.
    pub fn length(&self, dict: &ScDict) -> (r: u32)
        requires
            spec_length_wf(dict@, self@),
        ensures
            r == spec_length(dict@, self@),
    {
        self.proxy.length(dict)
    }

    /// The nested array at `index`, which must lie below the current
    /// length.
    pub fn get_string_array(&self, dict: &ScDict, index: u32) -> (r: ScImmutableStringArray)
        requires
            spec_length_wf(dict@, self@),
            index < spec_length(dict@, self@),
        ensures
            r@ == arr_elem_key(self@, index as int),
    {
        ScImmutableStringArray::new(self.proxy.index(index))
    }
}

/// A mutable view of an array of string arrays.
pub struct ScMutableStringArrayArray {
    proxy: Proxy,
}

impl View for ScMutableStringArrayArray {
    type V = Seq<u8>;

    closed spec fn view(&self) -> Seq<u8> {
        self.proxy@
    }
}

impl ScMutableStringArrayArray {
    /// A view bound to the given root location.
    pub fn new(proxy: Proxy) -> (r: ScMutableStringArrayArray)
        ensures
            r@ == proxy@,
    {
        ScMutableStringArrayArray { proxy }
    }

    /// The stored element count.
    pub fn length(&self, dict: &ScDict) -> (r: u32)
        requires
            spec_length_wf(dict@, self@),
        ensures
            r == spec_length(dict@, self@),
    {
        self.proxy.length(dict)
    }

    /// The nested array at `index`, which must lie below the current
    /// length.
    pub fn get_string_array(&self, dict: &ScDict, index: u32) -> (r: ScMutableStringArray)
        requires
            spec_length_wf(dict@, self@),
            index < spec_length(dict@, self@),
        ensures
            r@ == arr_elem_key(self@, index as int),
    {
        ScMutableStringArray::new(self.proxy.index(index))
    }

    /// Reserves the next slot: increments the stored length and returns
    /// the nested array at the old length.
    pub fn append_string_array(&self, dict: &mut ScDict) -> (r: ScMutableStringArray)
        requires
            spec_length_wf(old(dict)@, self@),
            spec_length(old(dict)@, self@) < u32::MAX,
        ensures
            r@ == arr_elem_key(self@, spec_length(old(dict)@, self@) as int),
            spec_length_wf(final(dict)@, self@),
            spec_length(final(dict)@, self@) == spec_length(old(dict)@, self@) + 1,
            final(dict)@ == old(dict)@.insert(
                self@,
                vstd::bytes::spec_u32_to_le_bytes((spec_length(old(dict)@, self@) + 1) as u32),
            ),
    {
        let p = self.proxy.append(dict);
        ScMutableStringArray::new(p)
    }

    /// Recursively clears every nested array, then removes the stored
    /// length, so the outer array and all previously nested arrays read
    /// as empty.
    pub fn clear(&self, dict: &mut ScDict)
        requires
            spec_length_wf(old(dict)@, self@),
            forall|i: int|
                0 <= i < spec_length(old(dict)@, self@) ==> spec_length_wf(
                    old(dict)@,
                    #[trigger] arr_elem_key(self@, i),
                ),
        ensures
            !final(dict)@.contains_key(self@),
            spec_length(final(dict)@, self@) == 0,
            forall|i: int|
                0 <= i < spec_length(old(dict)@, self@) ==> !final(dict)@.contains_key(
                    #[trigger] arr_elem_key(self@, i),
                ) && spec_length(final(dict)@, arr_elem_key(self@, i)) == 0,
            forall|i: int, j: int|
                0 <= i < spec_length(old(dict)@, self@) && 0 <= j < spec_inner_len(
                    old(dict)@,
                    self@,
                    i,
                ) ==> !final(dict)@.contains_key(
                    #[trigger] arr_elem_key(arr_elem_key(self@, i), j),
                ),
            forall|k: Seq<u8>|
                k != self@ && !is_arr_elem_key(self@, spec_length(old(dict)@, self@) as int, k)
                    && !is_nested_elem_key(
                    old(dict)@,
                    self@,
                    spec_length(old(dict)@, self@) as int,
                    k,
                ) ==> #[trigger] kv_read(final(dict)@, k) == kv_read(old(dict)@, k)
                    && final(dict)@.contains_key(k) == old(dict)@.contains_key(k),
    {
        let ghost p = self@;
        let ghost orig = old(dict)@;
        let len = self.proxy.length(dict);
        let ghost n = len as int;
        let mut i: u32 = 0;
        while i < len
            invariant
                self@ == p,
                0 <= i <= len,
                n == len as int,
                n == spec_length(orig, p),
                spec_length_wf(orig, p),
                forall|x: int|
                    0 <= x < n ==> spec_length_wf(orig, #[trigger] arr_elem_key(p, x)),
                forall|x: int| 0 <= x < i ==> !dict@.contains_key(#[trigger] arr_elem_key(p, x)),
                forall|x: int, y: int|
                    0 <= x < i && 0 <= y < spec_inner_len(orig, p, x) ==> !dict@.contains_key(
                        #[trigger] arr_elem_key(arr_elem_key(p, x), y),
                    ),
                forall|k: Seq<u8>|
                    !is_arr_elem_key(p, i as int, k) && !is_nested_elem_key(orig, p, i as int, k)
                        ==> #[trigger] kv_read(dict@, k) == kv_read(orig, k)
                        && dict@.contains_key(k) == orig.contains_key(k),
            decreases len - i,
        {
            let ghost r = arr_elem_key(p, i as int);
            proof {
                lemma_elem_key_len(p, i);
                assert(!is_arr_elem_key(p, i as int, r)) by {
                    if is_arr_elem_key(p, i as int, r) {
                        let x = choose|x: int| 0 <= x < i as int && r == arr_elem_key(p, x);
                        lemma_elem_key_injective(p, i, p, x as u32);
                    }
                }
                assert(!is_nested_elem_key(orig, p, i as int, r)) by {
                    if is_nested_elem_key(orig, p, i as int, r) {
                        let (x, y) = choose|x: int, y: int|
                            0 <= x < i as int && 0 <= y < spec_inner_len(orig, p, x) && r
                                == arr_elem_key(arr_elem_key(p, x), y);
                        lemma_elem_key_len(p, x as u32);
                        lemma_elem_key_len(arr_elem_key(p, x), y as u32);
                    }
                }
                assert(kv_read(dict@, r) == kv_read(orig, r));
                assert(spec_length(dict@, r) == spec_inner_len(orig, p, i as int));
            }
            let inner = ScMutableStringArray::new(self.proxy.index(i));
            let ghost pre = dict@;
            inner.clear(dict);
            proof {
                let ghost m = spec_length(pre, r) as int;
                assert(m == spec_inner_len(orig, p, i as int));
                // the earlier elements and their nested elements stay absent
                assert forall|x: int| 0 <= x < i + 1 implies !dict@.contains_key(
                    #[trigger] arr_elem_key(p, x),
                ) by {
                    if x < i as int {
                        let kx = arr_elem_key(p, x);
                        lemma_elem_key_len(p, x as u32);
                        assert(kx != r) by {
                            if kx == r {
                                lemma_elem_key_injective(p, x as u32, p, i);
                            }
                        }
                        assert(!is_arr_elem_key(r, m, kx)) by {
                            if is_arr_elem_key(r, m, kx) {
                                let y = choose|y: int| 0 <= y < m && kx == arr_elem_key(r, y);
                                lemma_elem_key_len(r, y as u32);
                            }
                        }
                        assert(kv_read(dict@, kx) == kv_read(pre, kx));
                        assert(dict@.contains_key(kx) == pre.contains_key(kx));
                    }
                }
                assert forall|x: int, y: int|
                    0 <= x < i + 1 && 0 <= y < spec_inner_len(orig, p, x) implies !dict
                    @.contains_key(#[trigger] arr_elem_key(arr_elem_key(p, x), y)) by {
                    let kx = arr_elem_key(arr_elem_key(p, x), y);
                    lemma_elem_key_len(p, x as u32);
                    lemma_elem_key_len(arr_elem_key(p, x), y as u32);
                    if x < i as int {
                        assert(kx != r) by {
                            lemma_elem_key_len(p, i);
                        }
                        assert(!is_arr_elem_key(r, m, kx)) by {
                            if is_arr_elem_key(r, m, kx) {
                                let y2 = choose|y2: int| 0 <= y2 < m && kx == arr_elem_key(r, y2);
                                lemma_elem_key_len(r, y2 as u32);
                                lemma_elem_key_len(p, i);
                                lemma_elem_key_injective(
                                    arr_elem_key(p, x),
                                    y as u32,
                                    r,
                                    y2 as u32,
                                );
                                lemma_elem_key_injective(p, x as u32, p, i);
                            }
                        }
                        assert(kv_read(dict@, kx) == kv_read(pre, kx));
                        assert(dict@.contains_key(kx) == pre.contains_key(kx));
                    } else {
                        assert(x == i as int);
                        assert(!dict@.contains_key(arr_elem_key(r, y)));
                    }
                }
                // everything outside the first i + 1 element families is untouched
                assert forall|k: Seq<u8>|
                    !is_arr_elem_key(p, i + 1, k) && !is_nested_elem_key(orig, p, i + 1, k)
                        implies #[trigger] kv_read(dict@, k) == kv_read(orig, k)
                    && dict@.contains_key(k) == orig.contains_key(k) by {
                    assert(k != r) by {
                        if k == r {
                            assert(is_arr_elem_key(p, i + 1, k)) by {
                                assert(0 <= (i as int) < i + 1 && k == arr_elem_key(p, i as int));
                            }
                        }
                    }
                    assert(!is_arr_elem_key(r, m, k)) by {
                        if is_arr_elem_key(r, m, k) {
                            let y = choose|y: int| 0 <= y < m && k == arr_elem_key(r, y);
                            assert(is_nested_elem_key(orig, p, i + 1, k)) by {
                                assert(0 <= (i as int) < i + 1 && 0 <= y < spec_inner_len(
                                    orig,
                                    p,
                                    i as int,
                                ) && k == arr_elem_key(arr_elem_key(p, i as int), y));
                            }
                        }
                    }
                    assert(kv_read(dict@, k) == kv_read(pre, k));
                    assert(!is_arr_elem_key(p, i as int, k)) by {
                        if is_arr_elem_key(p, i as int, k) {
                            let x = choose|x: int| 0 <= x < i as int && k == arr_elem_key(p, x);
                            assert(0 <= x < i + 1 && k == arr_elem_key(p, x));
                        }
                    }
                    assert(!is_nested_elem_key(orig, p, i as int, k)) by {
                        if is_nested_elem_key(orig, p, i as int, k) {
                            let (x, y) = choose|x: int, y: int|
                                0 <= x < i as int && 0 <= y < spec_inner_len(orig, p, x) && k
                                    == arr_elem_key(arr_elem_key(p, x), y);
                            assert(0 <= x < i + 1 && 0 <= y < spec_inner_len(orig, p, x) && k
                                == arr_elem_key(arr_elem_key(p, x), y));
                        }
                    }
                }
            }
            i = i + 1;
        }
        let ghost pre2 = dict@;
        self.proxy.delete(dict);
        proof {
            assert forall|k: Seq<u8>|
                k != p && !is_arr_elem_key(p, n, k) && !is_nested_elem_key(orig, p, n, k)
                    implies #[trigger] kv_read(final(dict)@, k) == kv_read(orig, k)
                && final(dict)@.contains_key(k) == orig.contains_key(k) by {
                assert(kv_read(pre2, k) == kv_read(orig, k));
                assert(kv_read(final(dict)@, k) == kv_read(pre2, k));
            }
            assert forall|x: int| 0 <= x < n implies !final(dict)@.contains_key(
                #[trigger] arr_elem_key(p, x),
            ) && spec_length(final(dict)@, arr_elem_key(p, x)) == 0 by {
                lemma_elem_key_len(p, x as u32);
            }
        }
    }
}

/// An immutable view of a map from strings to string arrays.
pub struct ScImmutableStringArrayMap {
    proxy: Proxy,
}

impl View for ScImmutableStringArrayMap {
    type V = Seq<u8>;

    closed spec fn view(&self) -> Seq<u8> {
        self.proxy@
    }
}

impl ScImmutableStringArrayMap {
    /// A view bound to the given root location.
    pub fn new(proxy: Proxy) -> (r: ScImmutableStringArrayMap)
        ensures
            r@ == proxy@,
    {
        ScImmutableStringArrayMap { proxy }
    }

    /// The array stored under `key`.
    pub fn get_string_array(&self, key: &str) -> (r: ScImmutableStringArray)
        ensures
            r@ == self@ + encode_utf8(key@),
    {
        let kb = string_to_bytes(key);
        ScImmutableStringArray::new(self.proxy.key(kb.as_slice()))
    }
}

/// A mutable view of a map from strings to string arrays.
pub struct ScMutableStringArrayMap {
    proxy: Proxy,
}

impl View for ScMutableStringArrayMap {
    type V = Seq<u8>;

    closed spec fn view(&self) -> Seq<u8> {
        self.proxy@
    }
}

impl ScMutableStringArrayMap {
    /// A view bound to the given root location.
    pub fn new(proxy: Proxy) -> (r: ScMutableStringArrayMap)
        ensures
            r@ == proxy@,
    {
        ScMutableStringArrayMap { proxy }
    }

    /// The array stored under `key`.
    pub fn get_string_array(&self, key: &str) -> (r: ScMutableStringArray)
        ensures
            r@ == self@ + encode_utf8(key@),
    {
        let kb = string_to_bytes(key);
        ScMutableStringArray::new(self.proxy.key(kb.as_slice()))
    }

    /// Removes the value at the map's own root location; keyed entries
    /// stay.
    pub fn clear(&self, dict: &mut ScDict)
        ensures
            final(dict)@ == old(dict)@.remove(self@),
    {
        self.proxy.clear_map(dict);
    }
}

/// An immutable view of a map from strings to string maps.
pub struct ScImmutableStringMapMap {
    proxy: Proxy,
}

impl View for ScImmutableStringMapMap {
    type V = Seq<u8>;

    closed spec fn view(&self) -> Seq<u8> {
        self.proxy@
    }
}

impl ScImmutableStringMapMap {
    /// A view bound to the given root location.
    pub fn new(proxy: Proxy) -> (r: ScImmutableStringMapMap)
        ensures
            r@ == proxy@,
    {
        ScImmutableStringMapMap { proxy }
    }

    /// The map stored under `key`.
    pub fn get_string_map(&self, key: &str) -> (r: ScImmutableStringMap)
        ensures
            r@ == self@ + encode_utf8(key@),
    {
        let kb = string_to_bytes(key);
        ScImmutableStringMap::new(self.proxy.key(kb.as_slice()))
    }
}

/// A mutable view of a map from strings to string maps.
pub struct ScMutableStringMapMap {
    proxy: Proxy,
}

impl View for ScMutableStringMapMap {
    type V = Seq<u8>;

    closed spec fn view(&self) -> Seq<u8> {
        self.proxy@
    }
}

impl ScMutableStringMapMap {
    /// A view bound to the given root location.
    pub fn new(proxy: Proxy) -> (r: ScMutableStringMapMap)
        ensures
            r@ == proxy@,
    {
        ScMutableStringMapMap { proxy }
    }

    /// The map stored under `key`.
    pub fn get_string_map(&self, key: &str) -> (r: ScMutableStringMap)
        ensures
            r@ == self@ + encode_utf8(key@),
    {
        let kb = string_to_bytes(key);
        ScMutableStringMap::new(self.proxy.key(kb.as_slice()))
    }

    /// Removes the value at the map's own root location; keyed entries
    /// stay.
    pub fn clear(&self, dict: &mut ScDict)
        ensures
            final(dict)@ == old(dict)@.remove(self@),
    {
        self.proxy.clear_map(dict);
    }
}

} // verus!
