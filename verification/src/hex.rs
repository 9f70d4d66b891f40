//! Lowercase hexadecimal rendering and parsing for byte buffers and
//! fixed-length identifiers.

use vstd::prelude::*;

use crate::chars::{
    hex_char, hex_val, is_hex_digit_char, push_char, spec_hex_char, spec_hex_val,
    spec_is_hex_digit,
};

verus! {

/// The lowercase hexadecimal rendering of a byte buffer: two digits per
/// byte, high digit first.
pub open spec fn spec_hex(bytes: Seq<u8>) -> Seq<char>
    decreases bytes.len(),
{
    if bytes.len() == 0 {
        Seq::empty()
    } else {
        spec_hex(bytes.drop_last()) + seq![
            spec_hex_char(bytes.last() as int / 16),
            spec_hex_char(bytes.last() as int % 16),
        ]
    }
}

/// Whether `s` parses as hexadecimal: an even number of lowercase
/// hexadecimal digits.
pub open spec fn spec_is_hex_str(s: Seq<char>) -> bool {
    s.len() % 2 == 0 && forall|i: int| 0 <= i < s.len() ==> spec_is_hex_digit(#[trigger] s[i])
}

/// The bytes denoted by a hexadecimal string.
pub open spec fn spec_hex_bytes(s: Seq<char>) -> Seq<u8>
    decreases s.len(),
{
    if s.len() < 2 {
        Seq::empty()
    } else {
        spec_hex_bytes(s.take(s.len() - 2)) + seq![
            (spec_hex_val(s[s.len() - 2]) * 16 + spec_hex_val(s[s.len() - 1])) as u8,
        ]
    }
}

/// The hexadecimal rendering of a buffer has twice its length, consists of
/// hexadecimal digits, and parses back to the same buffer.
pub proof fn lemma_hex_round_trip(bytes: Seq<u8>)
    ensures
        spec_hex(bytes).len() == 2 * bytes.len(),
        spec_is_hex_str(spec_hex(bytes)),
        spec_hex_bytes(spec_hex(bytes)) == bytes,
    decreases bytes.len(),
{
    if bytes.len() == 0 {
        assert(spec_hex_bytes(spec_hex(bytes)) =~= bytes);
    } else {
        let prefix = bytes.drop_last();
        lemma_hex_round_trip(prefix);
        let b = bytes.last() as int;
        let hi = b / 16;
        let lo = b % 16;
        assert(0 <= hi < 16 && 0 <= lo < 16);
        let s = spec_hex(bytes);
        assert(s == spec_hex(prefix) + seq![spec_hex_char(hi), spec_hex_char(lo)]);
        assert(s.len() == 2 * bytes.len());
        assert(forall|i: int| 0 <= i < s.len() ==> spec_is_hex_digit(#[trigger] s[i]));
        assert(s.take(s.len() - 2) =~= spec_hex(prefix));
        assert(s[s.len() - 2] == spec_hex_char(hi));
        assert(s[s.len() - 1] == spec_hex_char(lo));
        assert(spec_hex_val(spec_hex_char(hi)) == hi);
        assert(spec_hex_val(spec_hex_char(lo)) == lo);
        assert(hi * 16 + lo == b) by (nonlinear_arith)
            requires
                hi == b / 16 && lo == b % 16 && 0 <= b < 256,
        ;
        assert(spec_hex_bytes(s) == spec_hex_bytes(spec_hex(prefix)) + seq![(hi * 16 + lo) as u8]);
        assert(spec_hex_bytes(s) =~= bytes);
    }
}

/// A valid hexadecimal string is the rendering of the bytes it denotes.
pub proof fn lemma_hex_str_round_trip(s: Seq<char>)
    requires
        spec_is_hex_str(s),
    ensures
        spec_hex_bytes(s).len() * 2 == s.len(),
        spec_hex(spec_hex_bytes(s)) == s,
    decreases s.len(),
{
    if s.len() < 2 {
        assert(spec_hex(spec_hex_bytes(s)) =~= s);
    } else {
        let prefix = s.take(s.len() - 2);
        assert(spec_is_hex_str(prefix)) by {
            assert(forall|i: int|
                0 <= i < prefix.len() ==> spec_is_hex_digit(#[trigger] prefix[i]));
        }
        lemma_hex_str_round_trip(prefix);
        let hi = spec_hex_val(s[s.len() - 2]);
        let lo = spec_hex_val(s[s.len() - 1]);
        assert(0 <= hi < 16 && 0 <= lo < 16);
        let b = spec_hex_bytes(s);
        assert(b == spec_hex_bytes(prefix) + seq![(hi * 16 + lo) as u8]);
        assert(b.len() >= 1);
        assert(b.last() == (hi * 16 + lo) as u8);
        assert(b.drop_last() =~= spec_hex_bytes(prefix));
        assert((hi * 16 + lo) as u8 as int / 16 == hi && (hi * 16 + lo) as u8 as int % 16 == lo)
            by (nonlinear_arith)
            requires
                0 <= hi < 16 && 0 <= lo < 16,
        ;
        assert(spec_hex(b) == spec_hex(spec_hex_bytes(prefix)) + seq![
            spec_hex_char(hi),
            spec_hex_char(lo),
        ]);
        assert(spec_hex(b) =~= s);
    }
}

/// Renders a byte buffer as lowercase hexadecimal.
pub fn hex_encode(value: &[u8]) -> (r: String)
    ensures
        r@ == spec_hex(value@),
{
    let n = value.len();
    let mut r = String::new();
    let mut i: usize = 0;
    proof {
        assert(value@.take(0) =~= Seq::<u8>::empty());
        assert(r@ =~= spec_hex(value@.take(0)));
    }
    while i < n
        invariant
            0 <= i <= n,
            n == value@.len(),
            r@ == spec_hex(value@.take(i as int)),
        decreases n - i,
    {
        let b = value[i];
        push_char(&mut r, hex_char(b / 16));
        push_char(&mut r, hex_char(b % 16));
        proof {
            let t = value@.take(i + 1);
            assert(t.drop_last() =~= value@.take(i as int));
            assert(t.last() == value@[i as int]);
            assert(r@ =~= spec_hex(value@.take(i as int)) + seq![
                spec_hex_char(b as int / 16),
                spec_hex_char(b as int % 16),
            ]);
        }
        i = i + 1;
    }
    proof {
        assert(value@.take(n as int) =~= value@);
    }
    r
}

/// Parses a lowercase hexadecimal string into the bytes it denotes.
pub fn hex_decode(value: &str) -> (r: Vec<u8>)
    requires
        spec_is_hex_str(value@),
    ensures
        r@ == spec_hex_bytes(value@),
{
    let n = value.unicode_len();
    let mut r: Vec<u8> = Vec::new();
    let mut i: usize = 0;
    proof {
        assert(value@.take(0) =~= Seq::<char>::empty());
        assert(r@ =~= spec_hex_bytes(value@.take(0)));
    }
    while i < n
        invariant
            0 <= i <= n,
            i % 2 == 0,
            n == value@.len(),
            n % 2 == 0,
            spec_is_hex_str(value@),
            r@ == spec_hex_bytes(value@.take(i as int)),
        decreases n - i,
    {
        let c1 = value.get_char(i);
        let c2 = value.get_char(i + 1);
        let b = hex_val(c1) * 16 + hex_val(c2);
        r.push(b);
        proof {
            let t = value@.take(i + 2);
            assert(t.take(t.len() - 2) =~= value@.take(i as int));
            assert(t[t.len() - 2] == value@[i as int]);
            assert(t[t.len() - 1] == value@[i as int + 1]);
            assert(r@ =~= spec_hex_bytes(value@.take(i as int)) + seq![
                (spec_hex_val(c1) * 16 + spec_hex_val(c2)) as u8,
            ]);
        }
        i = i + 2;
    }
    proof {
        assert(value@.take(n as int) =~= value@);
    }
    r
}

/// Whether `value` is a valid lowercase hexadecimal string.
pub fn is_hex_string(value: &str) -> (r: bool)
    ensures
        r == spec_is_hex_str(value@),
{
    let n = value.unicode_len();
    if n % 2 != 0 {
        return false;
    }
    let mut i: usize = 0;
    while i < n
        invariant
            0 <= i <= n,
            n == value@.len(),
            forall|j: int| 0 <= j < i ==> spec_is_hex_digit(#[trigger] value@[j]),
        decreases n - i,
    {
        if !is_hex_digit_char(value.get_char(i)) {
            return false;
        }
        i = i + 1;
    }
    true
}

} // verus!
