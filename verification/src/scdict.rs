//! The byte-keyed key/value store that every location resolves against.
//!
//! The store is modeled as a `Map<Seq<u8>, Seq<u8>>`.  Mutations are kept as
//! a journal of write records; the abstract map is the fold of that journal,
//! so `set` and `delete` change the abstraction exactly by `insert` and
//! `remove`.

use vstd::prelude::*;

verus! {

/// One write record: an insertion when `present`, a removal otherwise.
pub struct ScDictEntry {
    key: Vec<u8>,
    value: Vec<u8>,
    present: bool,
}

/// The fold of a journal of write records into the map they produce.
spec fn entries_map(s: Seq<ScDictEntry>) -> Map<Seq<u8>, Seq<u8>>
    decreases s.len(),
{
    if s.len() == 0 {
        Map::empty()
    } else {
        let m = entries_map(s.drop_last());
        let e = s.last();
        if e.present {
            m.insert(e.key@, e.value@)
        } else {
            m.remove(e.key@)
        }
    }
}

/// The value stored under `k`, or the empty buffer when `k` is absent.
/// Absence of a key reads as the empty buffer, which every scalar codec
/// decodes to the type's default value.
pub open spec fn kv_read(m: Map<Seq<u8>, Seq<u8>>, k: Seq<u8>) -> Seq<u8> {
    if m.contains_key(k) {
        m[k]
    } else {
        Seq::empty()
    }
}

/// An in-memory byte-keyed key/value store.
pub struct ScDict {
    entries: Vec<ScDictEntry>,
}

impl View for ScDict {
    type V = Map<Seq<u8>, Seq<u8>>;

    closed spec fn view(&self) -> Map<Seq<u8>, Seq<u8>> {
        entries_map(self.entries@)
    }
}

/// Compares two byte slices for element-wise equality.
pub fn bytes_eq(a: &[u8], b: &[u8]) -> (r: bool)
    ensures
        r == (a@ == b@),
{
    if a.len() != b.len() {
        assert(a@ != b@) by {
            assert(a@.len() != b@.len());
        }
        return false;
    }
    let n = a.len();
    let mut i: usize = 0;
    while i < n
        invariant
            n == a@.len() == b@.len(),
            0 <= i <= n,
            forall|j: int| 0 <= j < i ==> a@[j] == b@[j],
        decreases n - i,
    {
        if a[i] != b[i] {
            return false;
        }
        i = i + 1;
    }
    assert(a@ =~= b@);
    true
}

impl ScDict {
    /// A fresh store holding no keys.
    pub fn new() -> (r: ScDict)
        ensures
            r@ == Map::<Seq<u8>, Seq<u8>>::empty(),
    {
        ScDict { entries: Vec::new() }
    }

    /// Whether the store holds a non-empty value under `key`.  A key
    /// holding the empty buffer reads the same as an absent key, so it
    /// does not count as present.
    pub fn has(&self, key: &[u8]) -> (r: bool)
        ensures
            r == (kv_read(self@, key@).len() > 0),
    {
        let v = self.get(key);
        v.len() > 0
    }

    /// The value stored under `key`; the empty buffer when `key` is absent.
    pub fn get(&self, key: &[u8]) -> (r: Vec<u8>)
        ensures
            r@ == kv_read(self@, key@),
    {
        let n = self.entries.len();
        let mut i: usize = n;
        proof {
            assert(self.entries@.take(n as int) =~= self.entries@);
        }
        loop
            invariant
                0 <= i <= n,
                n == self.entries@.len(),
                kv_read(self@, key@) == kv_read(
                    entries_map(self.entries@.take(i as int)),
                    key@,
                ),
            decreases i,
        {
            if i == 0 {
                assert(self.entries@.take(0) =~= Seq::<ScDictEntry>::empty());
                return Vec::new();
            }
            i = i - 1;
            let e = &self.entries[i];
            proof {
                assert(self.entries@.take(i + 1).drop_last() =~= self.entries@.take(i as int));
                assert(self.entries@.take(i + 1).last() == self.entries@[i as int]);
            }
            if bytes_eq(e.key.as_slice(), key) {
                if e.present {
                    let mut r: Vec<u8> = Vec::new();
                    r.extend_from_slice(e.value.as_slice());
                    return r;
                }
                return Vec::new();
            }
        }
    }

    /// Stores `value` under `key`, replacing any previous value.
    pub fn set(&mut self, key: &[u8], value: &[u8])
        ensures
            final(self)@ == old(self)@.insert(key@, value@),
    {
        let mut k: Vec<u8> = Vec::new();
        k.extend_from_slice(key);
        let mut v: Vec<u8> = Vec::new();
        v.extend_from_slice(value);
        proof {
            assert(k@ =~= key@);
            assert(v@ =~= value@);
        }
        let e = ScDictEntry { key: k, value: v, present: true };
        self.entries.push(e);
        proof {
            assert(self.entries@.drop_last() =~= old(self).entries@);
            assert(self.entries@.last() == e);
        }
    }

    /// Removes `key` from the store.
    pub fn delete(&mut self, key: &[u8])
        ensures
            final(self)@ == old(self)@.remove(key@),
    {
        let mut k: Vec<u8> = Vec::new();
        k.extend_from_slice(key);
        proof {
            assert(k@ =~= key@);
        }
        let e = ScDictEntry { key: k, value: Vec::new(), present: false };
        self.entries.push(e);
        proof {
            assert(self.entries@.drop_last() =~= old(self).entries@);
            assert(self.entries@.last() == e);
        }
    }
}

} // verus!
