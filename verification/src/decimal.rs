//! Decimal rendering and parsing for the integer codecs.
//!
//! Rendering always produces the canonical form: no leading zeros, a
//! leading `-` exactly for negative values.  Parsing accepts every string
//! of decimal digits with an optional leading sign, as the integer codecs'
//! string inputs do.

use vstd::prelude::*;

use crate::chars::{
    digit_char, digit_val, is_digit_char, push_char, spec_digit_char, spec_digit_val,
    spec_is_digit,
};

verus! {

/// The canonical decimal rendering of a non-negative value.
pub open spec fn spec_udec(n: nat) -> Seq<char>
    decreases n,
{
    if n < 10 {
        seq![spec_digit_char(n as int)]
    } else {
        spec_udec(n / 10).push(spec_digit_char((n % 10) as int))
    }
}

/// The canonical decimal rendering of a signed value.
pub open spec fn spec_idec(v: int) -> Seq<char> {
    if v < 0 {
        seq!['-'] + spec_udec((-v) as nat)
    } else {
        spec_udec(v as nat)
    }
}

/// Whether every character of `s` is a decimal digit.
pub open spec fn spec_all_digits(s: Seq<char>) -> bool {
    forall|i: int| 0 <= i < s.len() ==> spec_is_digit(#[trigger] s[i])
}

/// The value of a sequence of decimal digits.
pub open spec fn spec_dec_val(s: Seq<char>) -> int
    decreases s.len(),
{
    if s.len() == 0 {
        0
    } else {
        spec_dec_val(s.drop_last()) * 10 + spec_digit_val(s.last())
    }
}

/// Whether `s` parses as an unsigned decimal number: one or more digits,
/// optionally preceded by `+`.
pub open spec fn spec_is_uint_str(s: Seq<char>) -> bool {
    if s.len() > 0 && s[0] == '+' {
        s.len() > 1 && spec_all_digits(s.skip(1))
    } else {
        s.len() > 0 && spec_all_digits(s)
    }
}

/// The value of an unsigned decimal number string.
pub open spec fn spec_uint_str_val(s: Seq<char>) -> int {
    if s.len() > 0 && s[0] == '+' {
        spec_dec_val(s.skip(1))
    } else {
        spec_dec_val(s)
    }
}

/// Whether `s` parses as a signed decimal number: one or more digits,
/// optionally preceded by `+` or `-`.
pub open spec fn spec_is_int_str(s: Seq<char>) -> bool {
    if s.len() > 0 && (s[0] == '+' || s[0] == '-') {
        s.len() > 1 && spec_all_digits(s.skip(1))
    } else {
        s.len() > 0 && spec_all_digits(s)
    }
}

/// The value of a signed decimal number string.
pub open spec fn spec_int_str_val(s: Seq<char>) -> int {
    if s.len() > 0 && s[0] == '-' {
        -spec_dec_val(s.skip(1))
    } else if s.len() > 0 && s[0] == '+' {
        spec_dec_val(s.skip(1))
    } else {
        spec_dec_val(s)
    }
}

/// The canonical rendering of `n` consists of digits, is non-empty, starts
/// with `0` only for `n == 0`, and evaluates back to `n`.
pub proof fn lemma_udec_props(n: nat)
    ensures
        spec_udec(n).len() >= 1,
        spec_all_digits(spec_udec(n)),
        spec_dec_val(spec_udec(n)) == n,
        n > 0 ==> spec_udec(n)[0] != '0',
        n == 0 ==> spec_udec(n) == seq!['0'],
    decreases n,
{
    if n < 10 {
        let s = spec_udec(n);
        assert(s == seq![spec_digit_char(n as int)]);
        assert(s.len() == 1);
        assert(s.last() == spec_digit_char(n as int));
        assert(s.drop_last() =~= Seq::<char>::empty());
        assert(spec_dec_val(s) == spec_dec_val(s.drop_last()) * 10 + spec_digit_val(s.last()));
        assert(spec_digit_val(spec_digit_char(n as int)) == n);
    } else {
        lemma_udec_props(n / 10);
        let s = spec_udec(n);
        assert(s == spec_udec(n / 10).push(spec_digit_char((n % 10) as int)));
        assert(s.drop_last() =~= spec_udec(n / 10));
        assert(s.last() == spec_digit_char((n % 10) as int));
        assert(spec_dec_val(s) == (n / 10) * 10 + n % 10);
        assert((n / 10) * 10 + n % 10 == n) by (nonlinear_arith);
        assert(s[0] == spec_udec(n / 10)[0]);
        assert(forall|i: int| 0 <= i < s.len() ==> spec_is_digit(#[trigger] s[i]));
    }
}

/// A sequence of digits has a non-negative value.
pub proof fn lemma_dec_val_nonneg(s: Seq<char>)
    requires
        spec_all_digits(s),
    ensures
        spec_dec_val(s) >= 0,
    decreases s.len(),
{
    if s.len() > 0 {
        assert(spec_all_digits(s.drop_last())) by {
            assert(forall|i: int|
                0 <= i < s.len() - 1 ==> spec_is_digit(#[trigger] s.drop_last()[i]));
        }
        lemma_dec_val_nonneg(s.drop_last());
    }
}

/// The value of a prefix of a digit string never exceeds the whole value.
pub proof fn lemma_dec_val_take_le(s: Seq<char>, i: int)
    requires
        spec_all_digits(s),
        0 <= i <= s.len(),
    ensures
        spec_dec_val(s.take(i)) <= spec_dec_val(s),
    decreases s.len() - i,
{
    if i == s.len() {
        assert(s.take(i) =~= s);
    } else {
        lemma_dec_val_take_le(s, i + 1);
        let t = s.take(i + 1);
        assert(t.drop_last() =~= s.take(i));
        assert(t.last() == s[i]);
        assert(spec_all_digits(s.take(i))) by {
            assert(forall|j: int|
                0 <= j < i ==> spec_is_digit(#[trigger] s.take(i)[j]));
        }
        lemma_dec_val_nonneg(s.take(i));
        assert(spec_dec_val(t) == spec_dec_val(s.take(i)) * 10 + spec_digit_val(s[i]));
        assert(spec_dec_val(s.take(i)) * 10 >= spec_dec_val(s.take(i))) by (nonlinear_arith)
            requires
                spec_dec_val(s.take(i)) >= 0,
        ;
    }
}

/// Renders `v` in canonical decimal form.
pub fn u64_to_dec(v: u64) -> (r: String)
    ensures
        r@ == spec_udec(v as nat),
    decreases v,
{
    if v < 10 {
        let mut s = String::new();
        push_char(&mut s, digit_char(v as u8));
        proof {
            assert(s@ =~= seq![spec_digit_char(v as int)]);
        }
        s
    } else {
        let mut s = u64_to_dec(v / 10);
        push_char(&mut s, digit_char((v % 10) as u8));
        s
    }
}

/// Renders `v` in canonical decimal form, with a leading `-` when negative.
pub fn i64_to_dec(v: i64) -> (r: String)
    ensures
        r@ == spec_idec(v as int),
{
    if v >= 0 {
        u64_to_dec(v as u64)
    } else {
        let m: u64 = ((-(v + 1)) as u64) + 1;
        proof {
            assert(m as int == -(v as int));
        }
        let mut s = String::new();
        push_char(&mut s, '-');
        let digits = u64_to_dec(m);
        s.append(digits.as_str());
        proof {
            assert(s@ =~= seq!['-'] + spec_udec((-(v as int)) as nat));
        }
        s
    }
}

/// Parses an unsigned decimal number.
pub fn dec_to_u64(s: &str) -> (r: u64)
    requires
        spec_is_uint_str(s@),
        spec_uint_str_val(s@) <= u64::MAX,
    ensures
        r as int == spec_uint_str_val(s@),
{
    let n = s.unicode_len();
    let mut i: usize = 0;
    if s.get_char(0) == '+' {
        i = 1;
    }
    let ghost start = i as int;
    let ghost digits = s@.skip(start);
    proof {
        if start == 0 {
            assert(s@.skip(0) =~= s@);
        }
        assert(spec_all_digits(digits));
        assert(spec_uint_str_val(s@) == spec_dec_val(digits));
        assert(digits.take(0) =~= Seq::<char>::empty());
    }
    let mut acc: u64 = 0;
    while i < n
        invariant
            start <= i as int <= n,
            n == s@.len(),
            start == 0 || start == 1,
            digits == s@.skip(start),
            spec_all_digits(digits),
            spec_dec_val(digits) <= u64::MAX,
            acc as int == spec_dec_val(digits.take(i - start)),
        decreases n - i,
    {
        let c = s.get_char(i);
        proof {
            assert(digits[i - start] == s@[i as int]);
        }
        let d = digit_val(c);
        proof {
            let t = digits.take(i - start + 1);
            assert(t.drop_last() =~= digits.take(i - start));
            assert(t.last() == digits[i - start]);
            lemma_dec_val_take_le(digits, i - start + 1);
            lemma_dec_val_nonneg(digits.take(i - start));
            assert(acc * 10 + d <= u64::MAX);
        }
        acc = acc * 10 + (d as u64);
        i = i + 1;
    }
    proof {
        assert(digits.take(n - start) =~= digits);
    }
    acc
}

/// Parses a signed decimal number.
pub fn dec_to_i64(s: &str) -> (r: i64)
    requires
        spec_is_int_str(s@),
        i64::MIN <= spec_int_str_val(s@) <= i64::MAX,
    ensures
        r as int == spec_int_str_val(s@),
{
    let n = s.unicode_len();
    if s.get_char(0) == '-' {
        let ghost digits = s@.skip(1);
        proof {
            assert(spec_int_str_val(s@) == -spec_dec_val(digits));
            lemma_dec_val_nonneg(digits);
        }
        let m = parse_digits_from(s, 1);
        if m >= 9223372036854775808u64 {
            proof {
                assert(m == 9223372036854775808u64);
                assert(i64::MIN as int == -(m as int));
            }
            i64::MIN
        } else {
            -(m as i64)
        }
    } else {
        let has_plus = s.get_char(0) == '+';
        let from: usize = if has_plus {
            1
        } else {
            0
        };
        proof {
            if has_plus {
                assert(spec_int_str_val(s@) == spec_dec_val(s@.skip(1)));
            } else {
                assert(s@.skip(0) =~= s@);
                assert(spec_int_str_val(s@) == spec_dec_val(s@.skip(0)));
            }
            lemma_dec_val_nonneg(s@.skip(from as int));
        }
        let m = parse_digits_from(s, from);
        m as i64
    }
}

/// Parses the digits of `s` from position `from` onward.
fn parse_digits_from(s: &str, from: usize) -> (r: u64)
    requires
        from as int <= s@.len(),
        s@.skip(from as int).len() > 0,
        spec_all_digits(s@.skip(from as int)),
        spec_dec_val(s@.skip(from as int)) <= u64::MAX,
    ensures
        r as int == spec_dec_val(s@.skip(from as int)),
{
    let n = s.unicode_len();
    let ghost start = from as int;
    let ghost digits = s@.skip(start);
    proof {
        assert(digits.take(0) =~= Seq::<char>::empty());
    }
    let mut acc: u64 = 0;
    let mut i: usize = from;
    while i < n
        invariant
            start <= i as int <= n,
            n == s@.len(),
            start == from as int,
            digits == s@.skip(start),
            spec_all_digits(digits),
            spec_dec_val(digits) <= u64::MAX,
            acc as int == spec_dec_val(digits.take(i - start)),
        decreases n - i,
    {
        let c = s.get_char(i);
        proof {
            assert(digits[i - start] == s@[i as int]);
        }
        let d = digit_val(c);
        proof {
            let t = digits.take(i - start + 1);
            assert(t.drop_last() =~= digits.take(i - start));
            assert(t.last() == digits[i - start]);
            lemma_dec_val_take_le(digits, i - start + 1);
            lemma_dec_val_nonneg(digits.take(i - start));
            assert(acc * 10 + d <= u64::MAX);
        }
        acc = acc * 10 + (d as u64);
        i = i + 1;
    }
    proof {
        assert(digits.take(n - start) =~= digits);
    }
    acc
}

/// Whether the characters of `s` from `from` onward are one or more
/// decimal digits.
pub fn digits_valid(s: &str, from: usize) -> (r: bool)
    requires
        from as int <= s@.len(),
    ensures
        r == (s@.skip(from as int).len() > 0 && spec_all_digits(s@.skip(from as int))),
{
    let n = s.unicode_len();
    if from >= n {
        return false;
    }
    let ghost digits = s@.skip(from as int);
    let mut i: usize = from;
    while i < n
        invariant
            from as int <= i as int <= n,
            n == s@.len(),
            digits == s@.skip(from as int),
            forall|j: int| 0 <= j < i - from ==> spec_is_digit(#[trigger] digits[j]),
        decreases n - i,
    {
        let c = s.get_char(i);
        proof {
            assert(digits[i - from] == s@[i as int]);
        }
        if !is_digit_char(c) {
            return false;
        }
        i = i + 1;
    }
    true
}

/// Parses the digits of `s` from position `from` onward, or reports that
/// their value does not fit in 64 bits.
fn parse_digits_try(s: &str, from: usize) -> (r: Option<u64>)
    requires
        from as int <= s@.len(),
        s@.skip(from as int).len() > 0,
        spec_all_digits(s@.skip(from as int)),
    ensures
        r is Some <==> spec_dec_val(s@.skip(from as int)) <= u64::MAX,
        r matches Some(v) ==> v as int == spec_dec_val(s@.skip(from as int)),
{
    let n = s.unicode_len();
    let ghost start = from as int;
    let ghost digits = s@.skip(start);
    proof {
        assert(digits.take(0) =~= Seq::<char>::empty());
    }
    let mut acc: u64 = 0;
    let mut i: usize = from;
    while i < n
        invariant
            start <= i as int <= n,
            n == s@.len(),
            start == from as int,
            digits == s@.skip(start),
            spec_all_digits(digits),
            acc as int == spec_dec_val(digits.take(i - start)),
        decreases n - i,
    {
        let c = s.get_char(i);
        proof {
            assert(digits[i - start] == s@[i as int]);
        }
        let d = digit_val(c);
        proof {
            let t = digits.take(i - start + 1);
            assert(t.drop_last() =~= digits.take(i - start));
            assert(t.last() == digits[i - start]);
            lemma_dec_val_nonneg(digits.take(i - start));
            assert(acc * 10 + d > u64::MAX <==> acc > (u64::MAX - d as u64) / 10)
                by (nonlinear_arith)
                requires
                    acc >= 0 && 0 <= d < 10,
            ;
        }
        if acc > (u64::MAX - d as u64) / 10 {
            proof {
                lemma_dec_val_take_le(digits, i - start + 1);
                assert(spec_dec_val(digits) > u64::MAX);
            }
            return None;
        }
        acc = acc * 10 + (d as u64);
        i = i + 1;
    }
    proof {
        assert(digits.take(n - start) =~= digits);
    }
    Some(acc)
}

/// Parses an unsigned decimal number, or reports that `s` is not one or
/// that its value does not fit in 64 bits.
pub fn dec_try_to_u64(s: &str) -> (r: Option<u64>)
    ensures
        r is Some <==> (spec_is_uint_str(s@) && spec_uint_str_val(s@) <= u64::MAX),
        r matches Some(v) ==> v as int == spec_uint_str_val(s@),
{
    let n = s.unicode_len();
    if n == 0 {
        return None;
    }
    let from: usize = if s.get_char(0) == '+' {
        1
    } else {
        0
    };
    proof {
        if from == 0 {
            assert(s@.skip(0) =~= s@);
        }
    }
    if !digits_valid(s, from) {
        return None;
    }
    parse_digits_try(s, from)
}

/// Parses a signed decimal number, or reports that `s` is not one or that
/// its value does not fit in a signed 64-bit integer.
pub fn dec_try_to_i64(s: &str) -> (r: Option<i64>)
    ensures
        r is Some <==> (spec_is_int_str(s@) && i64::MIN <= spec_int_str_val(s@) <= i64::MAX),
        r matches Some(v) ==> v as int == spec_int_str_val(s@),
{
    let n = s.unicode_len();
    if n == 0 {
        return None;
    }
    let negative = s.get_char(0) == '-';
    let from: usize = if negative || s.get_char(0) == '+' {
        1
    } else {
        0
    };
    proof {
        if from == 0 {
            assert(s@.skip(0) =~= s@);
        }
    }
    if !digits_valid(s, from) {
        return None;
    }
    proof {
        lemma_dec_val_nonneg(s@.skip(from as int));
    }
    match parse_digits_try(s, from) {
        None => None,
        Some(m) => {
            if negative {
                if m > 9223372036854775808u64 {
                    None
                } else if m == 9223372036854775808u64 {
                    proof {
                        assert(i64::MIN as int == -(m as int));
                    }
                    Some(i64::MIN)
                } else {
                    Some(-(m as i64))
                }
            } else {
                if m > i64::MAX as u64 {
                    None
                } else {
                    Some(m as i64)
                }
            }
        },
    }
}

/// Canonical decimal rendering parses back to the same non-negative value.
pub proof fn lemma_udec_round_trip(n: nat)
    ensures
        spec_is_uint_str(spec_udec(n)),
        spec_uint_str_val(spec_udec(n)) == n,
{
    lemma_udec_props(n);
    let s = spec_udec(n);
    assert(spec_is_digit(s[0]));
    assert(s[0] != '+');
}

/// Canonical decimal rendering parses back to the same signed value.
pub proof fn lemma_idec_round_trip(v: int)
    ensures
        spec_is_int_str(spec_idec(v)),
        spec_int_str_val(spec_idec(v)) == v,
{
    if v < 0 {
        lemma_udec_props((-v) as nat);
        let s = spec_idec(v);
        assert(s[0] == '-');
        assert(s.skip(1) =~= spec_udec((-v) as nat));
    } else {
        lemma_udec_props(v as nat);
        let s = spec_idec(v);
        assert(spec_is_digit(s[0]));
        assert(s[0] != '+' && s[0] != '-');
    }
}

} // verus!
