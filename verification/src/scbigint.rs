//! The arbitrary-precision unsigned integer codec and its value views.
//!
//! The canonical byte encoding is little-endian base-256 with no trailing
//! zero bytes (the value 0 encodes as the empty buffer); the string
//! rendering is plain decimal.

use vstd::arithmetic::div_mod::lemma_fundamental_div_mod_converse;
use vstd::prelude::*;
use vstd::slice::slice_to_vec;

use crate::bytesutil::zero_vec;
use crate::chars::{digit_char, digit_val, push_char};
use crate::codec::{
    spec_frame, spec_frame_len, spec_frame_payload, spec_frame_wf, WasmDecoder, WasmEncoder,
};
use crate::decimal::{
    digits_valid, lemma_dec_val_nonneg, lemma_udec_round_trip, spec_all_digits, spec_dec_val,
    spec_is_uint_str, spec_udec, spec_uint_str_val,
};
use crate::proxy::Proxy;
use crate::scdict::{bytes_eq, kv_read, ScDict};

verus! {

/// The value of a little-endian base-256 digit string.
pub open spec fn spec_biguint_val(b: Seq<u8>) -> nat
    decreases b.len(),
{
    if b.len() == 0 {
        0
    } else {
        (b[0] + 256 * spec_biguint_val(b.skip(1))) as nat
    }
}

/// Whether `b` is canonical: no trailing zero byte.
pub open spec fn spec_biguint_canonical(b: Seq<u8>) -> bool {
    b.len() == 0 || b[b.len() - 1] != 0
}

/// `b` with its trailing zero bytes removed.
pub open spec fn spec_trim(b: Seq<u8>) -> Seq<u8>
    decreases b.len(),
{
    if b.len() == 0 || b[b.len() - 1] != 0 {
        b
    } else {
        spec_trim(b.drop_last())
    }
}

/// Dropping a trailing zero byte does not change the value.
proof fn lemma_biguint_drop_last_zero(b: Seq<u8>)
    requires
        b.len() > 0,
        b[b.len() - 1] == 0,
    ensures
        spec_biguint_val(b.drop_last()) == spec_biguint_val(b),
    decreases b.len(),
{
    if b.len() == 1 {
        assert(b.drop_last() =~= Seq::<u8>::empty());
        assert(spec_biguint_val(Seq::<u8>::empty()) == 0);
        assert(b.skip(1) =~= Seq::<u8>::empty());
    } else {
        let t = b.skip(1);
        assert(t[t.len() - 1] == 0);
        lemma_biguint_drop_last_zero(t);
        assert(b.drop_last().skip(1) =~= t.drop_last());
        assert(b.drop_last()[0] == b[0]);
        assert(b.drop_last().len() > 0);
    }
}

/// Trimming preserves the value and yields a canonical encoding.
pub proof fn lemma_trim_val(b: Seq<u8>)
    ensures
        spec_biguint_val(spec_trim(b)) == spec_biguint_val(b),
        spec_biguint_canonical(spec_trim(b)),
        spec_biguint_canonical(b) ==> spec_trim(b) == b,
    decreases b.len(),
{
    if !(b.len() == 0 || b[b.len() - 1] != 0) {
        lemma_biguint_drop_last_zero(b);
        lemma_trim_val(b.drop_last());
    }
}

/// A canonical non-empty encoding has a positive value.
pub proof fn lemma_biguint_canonical_pos(b: Seq<u8>)
    requires
        spec_biguint_canonical(b),
        b.len() > 0,
    ensures
        spec_biguint_val(b) >= 1,
        b.len() >= 2 ==> spec_biguint_val(b) >= 256,
    decreases b.len(),
{
    if b.len() == 1 {
        assert(b.skip(1) =~= Seq::<u8>::empty());
        assert(spec_biguint_val(Seq::<u8>::empty()) == 0);
        assert(spec_biguint_val(b) == b[0]);
    } else {
        let t = b.skip(1);
        assert(t[t.len() - 1] == b[b.len() - 1]);
        lemma_biguint_canonical_pos(t);
        assert(spec_biguint_val(b) == b[0] + 256 * spec_biguint_val(t));
        assert(256 * spec_biguint_val(t) >= 256) by (nonlinear_arith)
            requires
                spec_biguint_val(t) >= 1,
        ;
    }
}

/// Equal values have equal canonical encodings.
pub proof fn lemma_biguint_canonical_injective(a: Seq<u8>, b: Seq<u8>)
    requires
        spec_biguint_canonical(a),
        spec_biguint_canonical(b),
        spec_biguint_val(a) == spec_biguint_val(b),
    ensures
        a == b,
    decreases a.len(),
{
    assert(spec_biguint_val(Seq::<u8>::empty()) == 0);
    if a.len() == 0 {
        if b.len() > 0 {
            lemma_biguint_canonical_pos(b);
        }
        assert(a =~= b);
    } else if b.len() == 0 {
        lemma_biguint_canonical_pos(a);
    } else {
        let at = a.skip(1);
        let bt = b.skip(1);
        let v = spec_biguint_val(a);
        assert(v == a[0] + 256 * spec_biguint_val(at));
        assert(v == b[0] + 256 * spec_biguint_val(bt));
        assert(a[0] == v % 256 && spec_biguint_val(at) == v / 256) by (nonlinear_arith)
            requires
                v == a[0] + 256 * spec_biguint_val(at),
                0 <= a[0] < 256,
        ;
        assert(b[0] == v % 256 && spec_biguint_val(bt) == v / 256) by (nonlinear_arith)
            requires
                v == b[0] + 256 * spec_biguint_val(bt),
                0 <= b[0] < 256,
        ;
        if a.len() == 1 {
            assert(at =~= Seq::<u8>::empty());
            if bt.len() > 0 {
                assert(bt[bt.len() - 1] == b[b.len() - 1]);
                lemma_biguint_canonical_pos(bt);
            }
            assert(bt.len() == 0);
            assert(a.len() == b.len() && a[0] == b[0]);
        } else if b.len() == 1 {
            assert(bt =~= Seq::<u8>::empty());
            assert(at[at.len() - 1] == a[a.len() - 1]);
            lemma_biguint_canonical_pos(at);
            assert(false);
        } else {
            assert(at[at.len() - 1] == a[a.len() - 1]);
            assert(bt[bt.len() - 1] == b[b.len() - 1]);
            lemma_biguint_canonical_injective(at, bt);
            assert(a.len() == b.len());
            assert forall|i: int| 0 <= i < a.len() implies a[i] == b[i] by {
                if i > 0 {
                    assert(a[i] == at[i - 1]);
                    assert(b[i] == bt[i - 1]);
                }
            }
        }
        assert(a =~= b);
    }
}

/// An arbitrary-precision unsigned integer.
pub struct ScBigInt {
    bytes: Vec<u8>,
}

impl View for ScBigInt {
    type V = Seq<u8>;

    closed spec fn view(&self) -> Seq<u8> {
        self.bytes@
    }
}

impl ScBigInt {
    /// The bytes are always canonical.
    #[verifier::type_invariant]
    closed spec fn wf(self) -> bool {
        spec_biguint_canonical(self.bytes@)
    }

    /// The canonical byte encoding, always canonical.
    pub fn to_bytes(&self) -> (buf: Vec<u8>)
        ensures
            buf@ == self@,
            spec_biguint_canonical(self@),
    {
        proof {
            use_type_invariant(self);
        }
        slice_to_vec(self.bytes.as_slice())
    }

    /// The value rendered in decimal.
    pub fn to_string(&self) -> (s: String)
        ensures
            s@ == spec_udec(spec_biguint_val(self@)),
    {
        proof {
            use_type_invariant(self);
        }
        biguint_to_dec(self.bytes.as_slice())
    }

    /// Whether the value is zero.
    pub fn is_zero(&self) -> (r: bool)
        ensures
            r == (spec_biguint_val(self@) == 0),
    {
        proof {
            use_type_invariant(self);
            if self@.len() > 0 {
                lemma_biguint_canonical_pos(self@);
            }
        }
        self.bytes.len() == 0
    }
}

impl PartialEq for ScBigInt {
    /// Two values are equal exactly when their canonical bytes are.
    fn eq(&self, other: &ScBigInt) -> (r: bool) {
        bytes_eq(self.bytes.as_slice(), other.bytes.as_slice())
    }
}

impl vstd::std_specs::cmp::PartialEqSpecImpl for ScBigInt {
    open spec fn obeys_eq_spec() -> bool {
        true
    }

    open spec fn eq_spec(&self, other: &ScBigInt) -> bool {
        self@ == other@
    }
}

impl Eq for ScBigInt {

}

/// Removes trailing zero bytes.
fn trim_vec(v: Vec<u8>) -> (r: Vec<u8>)
    ensures
        r@ == spec_trim(v@),
{
    let mut w = v;
    loop
        invariant
            spec_trim(w@) == spec_trim(v@),
        decreases w@.len(),
    {
        let n = w.len();
        if n == 0 {
            return w;
        }
        if w[n - 1] != 0 {
            return w;
        }
        let ghost prev = w@;
        w.pop();
        proof {
            assert(w@ =~= prev.drop_last());
        }
    }
}

/// Divides a little-endian digit string by 10.
fn divmod10(b: &[u8]) -> (ret: (Vec<u8>, u8))
    ensures
        spec_biguint_val(ret.0@) * 10 + ret.1 == spec_biguint_val(b@),
        ret.1 < 10,
        spec_biguint_canonical(ret.0@),
{
    let n = b.len();
    let mut q = zero_vec(n);
    let mut rem: u8 = 0;
    let mut i: usize = n;
    proof {
        assert(q@.skip(n as int) =~= Seq::<u8>::empty());
        assert(b@.skip(n as int) =~= Seq::<u8>::empty());
    }
    while i > 0
        invariant
            0 <= i <= n,
            n == b@.len(),
            q@.len() == n,
            rem < 10,
            spec_biguint_val(q@.skip(i as int)) * 10 + rem == spec_biguint_val(b@.skip(i as int)),
        decreases i,
    {
        i = i - 1;
        let ghost qprev = q@;
        let cur: u32 = (rem as u32) * 256 + (b[i] as u32);
        let qi: u8 = (cur / 10) as u8;
        let newrem: u8 = (cur % 10) as u8;
        q.set(i, qi);
        proof {
            assert(q@.skip(i + 1) =~= qprev.skip(i + 1));
            assert(q@.skip(i as int)[0] == qi);
            assert(q@.skip(i as int).skip(1) =~= q@.skip(i + 1));
            assert(b@.skip(i as int)[0] == b@[i as int]);
            assert(b@.skip(i as int).skip(1) =~= b@.skip(i + 1));
            let vq1 = spec_biguint_val(q@.skip(i + 1));
            let vb1 = spec_biguint_val(b@.skip(i + 1));
            assert(spec_biguint_val(q@.skip(i as int)) == qi + 256 * vq1);
            assert(spec_biguint_val(b@.skip(i as int)) == b@[i as int] + 256 * vb1);
            assert(qi * 10 + newrem == cur);
            assert((qi + 256 * vq1) * 10 + newrem == b@[i as int] + 256 * vb1)
                by (nonlinear_arith)
                requires
                    qi * 10 + newrem == cur,
                    cur == rem * 256 + b@[i as int],
                    vq1 * 10 + rem == vb1,
            ;
        }
        rem = newrem;
    }
    proof {
        assert(q@.skip(0) =~= q@);
        assert(b@.skip(0) =~= b@);
    }
    let qt = trim_vec(q);
    proof {
        lemma_trim_val(q@);
    }
    (qt, rem)
}

/// Renders a canonical little-endian digit string in decimal.
fn biguint_to_dec(b: &[u8]) -> (s: String)
    requires
        spec_biguint_canonical(b@),
    ensures
        s@ == spec_udec(spec_biguint_val(b@)),
    decreases spec_biguint_val(b@),
{
    let ghost v = spec_biguint_val(b@);
    if b.len() == 0 {
        let mut s = String::new();
        push_char(&mut s, digit_char(0));
        proof {
            assert(s@ =~= spec_udec(0));
        }
        return s;
    }
    proof {
        lemma_biguint_canonical_pos(b@);
        if b@.len() == 1 {
            assert(b@.skip(1) =~= Seq::<u8>::empty());
            assert(spec_biguint_val(Seq::<u8>::empty()) == 0);
            assert(v == b@[0]);
        }
    }
    if b.len() == 1 && b[0] < 10 {
        let mut s = String::new();
        push_char(&mut s, digit_char(b[0]));
        proof {
            assert(s@ =~= spec_udec(v));
        }
        return s;
    }
    proof {
        if b@.len() == 1 {
            assert(v >= 10);
        } else {
            lemma_biguint_canonical_pos(b@);
        }
    }
    let (q, r) = divmod10(b);
    proof {
        lemma_fundamental_div_mod_converse(
            v as int,
            10,
            spec_biguint_val(q@) as int,
            r as int,
        );
        assert(spec_biguint_val(q@) == v / 10);
        assert(r == v % 10);
        assert(spec_biguint_val(q@) < v) by (nonlinear_arith)
            requires
                spec_biguint_val(q@) * 10 + r == v,
                v >= 10,
                r < 10,
        ;
    }
    let mut s = biguint_to_dec(q.as_slice());
    push_char(&mut s, digit_char(r));
    s
}

/// Multiplies the digit string from position `i` onward by 10 and adds
/// `d`.
fn mul10_add(b: &[u8], i: usize, d: u8) -> (out: Vec<u8>)
    requires
        i <= b@.len(),
        d < 10,
        spec_biguint_canonical(b@.skip(i as int)),
    ensures
        spec_biguint_val(out@) == 10 * spec_biguint_val(b@.skip(i as int)) + d,
        spec_biguint_canonical(out@),
    decreases b@.len() - i,
{
    let n = b.len();
    if i == n {
        proof {
            assert(b@.skip(i as int) =~= Seq::<u8>::empty());
        }
        let mut out: Vec<u8> = Vec::new();
        if d != 0 {
            out.push(d);
            proof {
                assert(out@.skip(1) =~= Seq::<u8>::empty());
            }
        }
        out
    } else {
        let t: u32 = (b[i] as u32) * 10 + (d as u32);
        let lo: u8 = (t % 256) as u8;
        let c: u8 = (t / 256) as u8;
        proof {
            assert(c < 10);
            if i + 1 < n {
                assert(b@.skip(i + 1)[b@.skip(i + 1).len() - 1] == b@.skip(i as int)[b@.skip(
                    i as int,
                ).len() - 1]);
            } else {
                assert(b@.skip(i + 1) =~= Seq::<u8>::empty());
            }
        }
        let mut rest = mul10_add(b, i + 1, c);
        proof {
            let s = b@.skip(i as int);
            let s1 = b@.skip(i + 1);
            assert(s[0] == b@[i as int]);
            assert(s.skip(1) =~= s1);
            assert(spec_biguint_val(s) == b@[i as int] + 256 * spec_biguint_val(s1));
            if rest@.len() == 0 {
                // the higher part contributed nothing, so this byte was the
                // canonical top byte and the low digit cannot vanish
                assert(spec_biguint_val(s1) == 0 && c == 0);
                if s1.len() > 0 {
                    lemma_biguint_canonical_pos(s1);
                }
                assert(s1.len() == 0);
                assert(s.len() == 1);
                assert(s[s.len() - 1] == b@[i as int]);
                assert(b@[i as int] != 0);
                assert(t >= 10);
                assert(lo == t);
            }
        }
        let ghost restview = rest@;
        rest.insert(0, lo);
        proof {
            assert(rest@[0] == lo);
            assert(rest@.skip(1) =~= restview);
            assert(spec_biguint_val(rest@) == lo + 256 * spec_biguint_val(restview));
            let s = b@.skip(i as int);
            let s1 = b@.skip(i + 1);
            assert(lo + 256 * spec_biguint_val(restview) == 10 * spec_biguint_val(s) + d)
                by (nonlinear_arith)
                requires
                    lo + 256 * c == t,
                    t == b@[i as int] * 10 + d,
                    spec_biguint_val(restview) == 10 * spec_biguint_val(s1) + c,
                    spec_biguint_val(s) == b@[i as int] + 256 * spec_biguint_val(s1),
            ;
            if restview.len() == 0 {
                assert(rest@.len() == 1 && rest@[0] == lo && lo != 0);
            } else {
                assert(rest@[rest@.len() - 1] == restview[restview.len() - 1]);
            }
        }
        rest
    }
}

/// Decodes a buffer of any length; trailing zero bytes are dropped.
pub fn big_int_from_bytes(buf: &[u8]) -> (r: ScBigInt)
    ensures
        r@ == spec_trim(buf@),
        spec_biguint_val(r@) == spec_biguint_val(buf@),
{
    let v = slice_to_vec(buf);
    let t = trim_vec(v);
    proof {
        lemma_trim_val(buf@);
    }
    ScBigInt { bytes: t }
}

/// Encodes a value canonically.
pub fn big_int_to_bytes(value: &ScBigInt) -> (buf: Vec<u8>)
    ensures
        buf@ == value@,
        spec_biguint_canonical(value@),
{
    value.to_bytes()
}

/// Parses a decimal string of any length.
pub fn big_int_from_string(value: &str) -> (r: ScBigInt)
    requires
        spec_is_uint_str(value@),
    ensures
        spec_biguint_val(r@) == spec_uint_str_val(value@),
        spec_biguint_canonical(r@),
{
    let n = value.unicode_len();
    let mut from: usize = 0;
    if value.get_char(0) == '+' {
        from = 1;
    }
    let ghost start = from as int;
    let ghost digits = value@.skip(start);
    proof {
        if start == 0 {
            assert(value@.skip(0) =~= value@);
        }
        assert(spec_all_digits(digits));
        assert(spec_uint_str_val(value@) == spec_dec_val(digits));
        assert(digits.take(0) =~= Seq::<char>::empty());
    }
    let mut acc: Vec<u8> = Vec::new();
    let mut i: usize = from;
    while i < n
        invariant
            start <= i as int <= n,
            n == value@.len(),
            start == from as int,
            digits == value@.skip(start),
            spec_all_digits(digits),
            spec_biguint_canonical(acc@),
            spec_biguint_val(acc@) == spec_dec_val(digits.take(i - start)),
        decreases n - i,
    {
        let c = value.get_char(i);
        proof {
            assert(digits[i - start] == value@[i as int]);
        }
        let d = digit_val(c);
        let newacc = mul10_add(acc.as_slice(), 0, d);
        proof {
            assert(acc@.skip(0) =~= acc@);
            let t = digits.take(i - start + 1);
            assert(t.drop_last() =~= digits.take(i - start));
            assert(t.last() == digits[i - start]);
            lemma_dec_val_nonneg(digits.take(i - start));
        }
        acc = newacc;
        i = i + 1;
    }
    proof {
        assert(digits.take(n - start) =~= digits);
    }
    ScBigInt { bytes: acc }
}

/// Parses a string, or reports that it is not a decimal number.
pub fn big_int_try_from_string(value: &str) -> (r: Option<ScBigInt>)
    ensures
        r is Some <==> spec_is_uint_str(value@),
        r matches Some(v) ==> spec_biguint_val(v@) == spec_uint_str_val(value@),
{
    let n = value.unicode_len();
    if n == 0 {
        return None;
    }
    let from: usize = if value.get_char(0) == '+' {
        1
    } else {
        0
    };
    proof {
        if from == 0 {
            assert(value@.skip(0) =~= value@);
        }
    }
    if !digits_valid(value, from) {
        return None;
    }
    Some(big_int_from_string(value))
}

/// Renders a value in decimal.
pub fn big_int_to_string(value: &ScBigInt) -> (s: String)
    ensures
        s@ == spec_udec(spec_biguint_val(value@)),
{
    value.to_string()
}

/// Decoding inverts encoding, for every value.
pub proof fn lemma_big_int_bytes_round_trip(b: Seq<u8>)
    requires
        spec_biguint_canonical(b),
    ensures
        spec_trim(b) == b,
{
    lemma_trim_val(b);
}

/// The empty buffer decodes to the value 0.
pub proof fn lemma_big_int_empty_default()
    ensures
        spec_biguint_val(Seq::<u8>::empty()) == 0,
        spec_trim(Seq::<u8>::empty()) == Seq::<u8>::empty(),
{
}

/// Parsing inverts rendering, for every value.
pub proof fn lemma_big_int_string_round_trip(b: Seq<u8>)
    requires
        spec_biguint_canonical(b),
    ensures
        spec_is_uint_str(spec_udec(spec_biguint_val(b))),
        spec_uint_str_val(spec_udec(spec_biguint_val(b))) == spec_biguint_val(b),
{
    lemma_udec_round_trip(spec_biguint_val(b));
}

/// A wire buffer that starts with the frame of a canonical encoding
/// decodes to the same value and leaves exactly the bytes that follow.
pub proof fn lemma_big_int_wire_round_trip(b: Seq<u8>, rest: Seq<u8>)
    requires
        spec_biguint_canonical(b),
        b.len() <= u32::MAX,
    ensures
        spec_frame_wf(spec_frame(b) + rest),
        spec_trim(spec_frame_payload(spec_frame(b) + rest)) == b,
        (spec_frame(b) + rest).skip(4 + spec_frame_len(spec_frame(b) + rest)) == rest,
{
    crate::codec::lemma_frame_round_trip(b, rest);
    lemma_trim_val(b);
}

/// Writes the canonical bytes as one length-prefixed frame of the wire
/// buffer.
pub fn big_int_encode(enc: &mut WasmEncoder, value: &ScBigInt)
    requires
        value@.len() <= u32::MAX,
    ensures
        final(enc)@ == old(enc)@ + spec_frame(value@),
{
    let buf = value.to_bytes();
    enc.bytes(buf.as_slice());
}

/// Reads one length-prefixed frame of the wire buffer.
pub fn big_int_decode(dec: &mut WasmDecoder) -> (r: ScBigInt)
    requires
        spec_frame_wf(old(dec)@),
    ensures
        r@ == spec_trim(spec_frame_payload(old(dec)@)),
        final(dec)@ == old(dec)@.skip(4 + spec_frame_len(old(dec)@)),
{
    let buf = dec.bytes();
    big_int_from_bytes(buf.as_slice())
}

/// An immutable view of the big integer stored at one location.
pub struct ScImmutableBigInt {
    proxy: Proxy,
}

impl View for ScImmutableBigInt {
    type V = Seq<u8>;

    closed spec fn view(&self) -> Seq<u8> {
        self.proxy@
    }
}

impl ScImmutableBigInt {
    /// A view bound to the given location.
    pub fn new(proxy: Proxy) -> (r: ScImmutableBigInt)
        ensures
            r@ == proxy@,
    {
        ScImmutableBigInt { proxy }
    }

    /// Whether the store holds a non-empty value at this location.
    pub fn has(&self, dict: &ScDict) -> (r: bool)
        ensures
            r == (kv_read(dict@, self@).len() > 0),
    {
        self.proxy.has(dict)
    }

    /// The stored value rendered in decimal.
    pub fn to_string(&self, dict: &ScDict) -> (s: String)
        ensures
            s@ == spec_udec(spec_biguint_val(kv_read(dict@, self@))),
    {
        let v = self.value(dict);
        proof {
            lemma_trim_val(kv_read(dict@, self@));
        }
        v.to_string()
    }

    /// The stored value; 0 when absent.
    pub fn value(&self, dict: &ScDict) -> (r: ScBigInt)
        ensures
            r@ == spec_trim(kv_read(dict@, self@)),
            spec_biguint_val(r@) == spec_biguint_val(kv_read(dict@, self@)),
    {
        let buf = self.proxy.get(dict);
        big_int_from_bytes(buf.as_slice())
    }
}

/// A mutable view of the big integer stored at one location.
pub struct ScMutableBigInt {
    proxy: Proxy,
}

impl View for ScMutableBigInt {
    type V = Seq<u8>;

    closed spec fn view(&self) -> Seq<u8> {
        self.proxy@
    }
}

impl ScMutableBigInt {
    /// A view bound to the given location.
    pub fn new(proxy: Proxy) -> (r: ScMutableBigInt)
        ensures
            r@ == proxy@,
    {
        ScMutableBigInt { proxy }
    }

    /// Removes the stored value.
    pub fn delete(&self, dict: &mut ScDict)
        ensures
            final(dict)@ == old(dict)@.remove(self@),
    {
        self.proxy.delete(dict);
    }

    /// Whether the store holds a non-empty value at this location.
    pub fn has(&self, dict: &ScDict) -> (r: bool)
        ensures
            r == (kv_read(dict@, self@).len() > 0),
    {
        self.proxy.has(dict)
    }

    /// Stores the canonical bytes of `value` at this location.
    pub fn set_value(&self, dict: &mut ScDict, value: &ScBigInt)
        ensures
            final(dict)@ == old(dict)@.insert(self@, value@),
            spec_trim(kv_read(final(dict)@, self@)) == value@,
            spec_biguint_val(kv_read(final(dict)@, self@)) == spec_biguint_val(value@),
    {
        let buf = value.to_bytes();
        self.proxy.set(dict, buf.as_slice());
        proof {
            lemma_trim_val(value@);
        }
    }

    /// The stored value rendered in decimal.
    pub fn to_string(&self, dict: &ScDict) -> (s: String)
        ensures
            s@ == spec_udec(spec_biguint_val(kv_read(dict@, self@))),
    {
        let v = self.value(dict);
        proof {
            lemma_trim_val(kv_read(dict@, self@));
        }
        v.to_string()
    }

    /// The stored value; 0 when absent.
    pub fn value(&self, dict: &ScDict) -> (r: ScBigInt)
        ensures
            r@ == spec_trim(kv_read(dict@, self@)),
            spec_biguint_val(r@) == spec_biguint_val(kv_read(dict@, self@)),
    {
        let buf = self.proxy.get(dict);
        big_int_from_bytes(buf.as_slice())
    }
}

} // verus!
