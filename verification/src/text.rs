//! Small text utilities shared by the protocol modules: appending single
//! characters, comparing string slices, and the canonical decimal form of
//! `u32` values used on the wire.

use vstd::prelude::*;
use vstd::utf8::{decode_utf8, encode_utf8, encode_utf8_decode_utf8};

verus! {

/// Relies on std's `String::push`: appends exactly one character.
#[verifier::external_body]
pub(crate) fn push_char(s: &mut String, c: char)
    ensures
        final(s)@ == old(s)@.push(c),
{
    s.push(c);
}

/// Content equality of two string slices, decided byte for byte.
pub fn str_eq(a: &str, b: &str) -> (r: bool)
    ensures
        r == (a@ == b@),
{
    proof {
        broadcast use encode_utf8_decode_utf8;

    }
    // Byte equality decides view equality: UTF-8 encoding is injective.
    let ab = a.as_bytes();
    let bb = b.as_bytes();
    if ab.len() != bb.len() {
        proof {
            assert(a@ != b@) by {
                if a@ == b@ {
                    assert(encode_utf8(a@) == encode_utf8(b@));
                }
            }
        }
        return false;
    }
    let n = ab.len();
    let mut i: usize = 0;
    while i < n
        invariant
            n == ab@.len() == bb@.len(),
            0 <= i <= n,
            ab@ == encode_utf8(a@),
            bb@ == encode_utf8(b@),
            forall|j: int| 0 <= j < i ==> ab@[j] == bb@[j],
        decreases n - i,
    {
        if ab[i] != bb[i] {
            proof {
                assert(a@ != b@) by {
                    if a@ == b@ {
                        assert(encode_utf8(a@) == encode_utf8(b@));
                    }
                }
            }
            return false;
        }
        i += 1;
    }
    proof {
        assert(ab@ =~= bb@);
        assert(decode_utf8(encode_utf8(a@)) == a@);
        assert(decode_utf8(encode_utf8(b@)) == b@);
    }
    true
}

/// The character for one decimal digit.
pub open spec fn dec_digit_char(d: int) -> char
    recommends
        0 <= d < 10,
{
    (d + 0x30) as char
}

/// Canonical decimal form of a nonnegative integer: most significant digit
/// first, no sign, no leading zeroes (a single `'0'` for zero).
pub open spec fn spec_u32_string(n: int) -> Seq<char>
    recommends
        0 <= n,
    decreases n,
{
    if n < 10 {
        seq![dec_digit_char(n)]
    } else {
        spec_u32_string(n / 10).push(dec_digit_char(n % 10))
    }
}

pub open spec fn is_dec_digit(c: char) -> bool {
    0x30 <= c as int && c as int <= 0x39
}

pub open spec fn all_dec_digits(s: Seq<char>) -> bool {
    forall|i: int| 0 <= i < s.len() ==> is_dec_digit(s[i])
}

/// Numeric value of a digit string, most significant digit first.
pub open spec fn digits_value(s: Seq<char>) -> int
    recommends
        all_dec_digits(s),
    decreases s.len(),
{
    if s.len() == 0 {
        0
    } else {
        digits_value(s.drop_last()) * 10 + (s.last() as int - 0x30)
    }
}

/// What `str::parse::<u32>` accepts: an optional leading `'+'`, then one or
/// more decimal digits whose value fits in a `u32`.
pub open spec fn spec_parse_u32(s: Seq<char>) -> Option<u32> {
    let t = if s.len() > 0 && s[0] == '+' {
        s.subrange(1, s.len() as int)
    } else {
        s
    };
    if t.len() > 0 && all_dec_digits(t) && digits_value(t) <= u32::MAX {
        Some(digits_value(t) as u32)
    } else {
        None
    }
}

proof fn lemma_digits_value_nonneg(s: Seq<char>)
    requires
        all_dec_digits(s),
    ensures
        digits_value(s) >= 0,
    decreases s.len(),
{
    if s.len() > 0 {
        assert(all_dec_digits(s.drop_last()));
        lemma_digits_value_nonneg(s.drop_last());
    }
}

/// Appending digits never decreases the value of a digit string.
proof fn lemma_digits_value_prefix_le(s: Seq<char>, i: int)
    requires
        all_dec_digits(s),
        0 <= i <= s.len(),
    ensures
        digits_value(s.subrange(0, i)) <= digits_value(s),
    decreases s.len() - i,
{
    if i == s.len() {
        assert(s.subrange(0, i) =~= s);
    } else {
        lemma_digits_value_prefix_le(s, i + 1);
        let p = s.subrange(0, i);
        let q = s.subrange(0, i + 1);
        assert(q.drop_last() =~= p);
        assert(all_dec_digits(p));
        lemma_digits_value_nonneg(p);
        assert(digits_value(q) == digits_value(p) * 10 + (s[i] as int - 0x30));
    }
}

fn digit_char(d: u32) -> (c: char)
    requires
        d < 10,
    ensures
        c == dec_digit_char(d as int),
{
    (d as u8 + 0x30) as char
}

/// The canonical decimal form of `n`, as written on the wire.
pub fn u32_to_string(n: u32) -> (r: String)
    ensures
        r@ == spec_u32_string(n as int),
    decreases n,
{
    if n < 10 {
        let mut s = String::new();
        push_char(&mut s, digit_char(n));
        proof {
            assert(s@ =~= spec_u32_string(n as int));
        }
        s
    } else {
        let mut s = u32_to_string(n / 10);
        push_char(&mut s, digit_char(n % 10));
        s
    }
}

/// Parses the decimal form of a `u32`, as `str::parse::<u32>` would.
pub fn parse_u32(s: &str) -> (r: Option<u32>)
    ensures
        r == spec_parse_u32(s@),
{
    let n = s.unicode_len();
    let t: &str = if n > 0 && s.get_char(0) == '+' {
        s.substring_char(1, n)
    } else {
        s
    };
    proof {
        assert(t@ == (if s@.len() > 0 && s@[0] == '+' {
            s@.subrange(1, s@.len() as int)
        } else {
            s@
        }));
    }
    let tn = t.unicode_len();
    if tn == 0 {
        return None;
    }
    let mut acc: u32 = 0;
    let mut i: usize = 0;
    while i < tn
        invariant
            0 <= i <= tn,
            tn == t@.len(),
            tn > 0,
            t@ == (if s@.len() > 0 && s@[0] == '+' {
                s@.subrange(1, s@.len() as int)
            } else {
                s@
            }),
            all_dec_digits(t@.subrange(0, i as int)),
            acc as int == digits_value(t@.subrange(0, i as int)),
        decreases tn - i,
    {
        let c = t.get_char(i);
        let u = c as u32;
        if u < 0x30 || u > 0x39 {
            proof {
                assert(!is_dec_digit(t@[i as int]));
            }
            return None;
        }
        let d = u - 0x30;
        proof {
            let p = t@.subrange(0, i as int);
            let q = t@.subrange(0, i + 1);
            assert(q.drop_last() =~= p);
            assert(q.last() == t@[i as int]);
        }
        if acc > (u32::MAX - d) / 10 {
            proof {
                let q = t@.subrange(0, i + 1);
                assert(digits_value(q) == acc * 10 + d);
                assert(digits_value(q) > u32::MAX) by {
                    assert(acc >= (u32::MAX - d) / 10 + 1);
                    assert(((u32::MAX - d) / 10 + 1) * 10 + d > u32::MAX) by (nonlinear_arith)
                        requires
                            0 <= d < 10,
                    ;
                    assert(acc * 10 >= ((u32::MAX - d) / 10 + 1) * 10) by (nonlinear_arith)
                        requires
                            acc >= (u32::MAX - d) / 10 + 1,
                    ;
                };
                if all_dec_digits(t@) {
                    lemma_digits_value_prefix_le(t@, i + 1);
                }
            }
            return None;
        }
        acc = acc * 10 + d;
        i += 1;
    }
    proof {
        assert(t@.subrange(0, tn as int) =~= t@);
    }
    Some(acc)
}

/// The canonical decimal form of a `u32` parses back to the same value.
pub proof fn lemma_parse_of_u32_string(n: u32)
    ensures
        spec_parse_u32(spec_u32_string(n as int)) == Some(n),
{
    lemma_u32_string_digits(n as int);
    let s = spec_u32_string(n as int);
    assert(s[0] != '+') by {
        assert(is_dec_digit(s[0]));
    }
}

proof fn lemma_u32_string_digits(n: int)
    requires
        0 <= n,
    ensures
        spec_u32_string(n).len() > 0,
        all_dec_digits(spec_u32_string(n)),
        digits_value(spec_u32_string(n)) == n,
    decreases n,
{
    if n < 10 {
        reveal_with_fuel(digits_value, 3);
        let s = spec_u32_string(n);
        assert(s.drop_last() =~= Seq::<char>::empty());
        assert(s.last() == dec_digit_char(n));
        assert(dec_digit_char(n) as int == n + 0x30);
    } else {
        lemma_u32_string_digits(n / 10);
        let p = spec_u32_string(n / 10);
        let s = spec_u32_string(n);
        assert(s == p.push(dec_digit_char(n % 10)));
        assert(s.drop_last() =~= p);
        assert(dec_digit_char(n % 10) as int == n % 10 + 0x30);
        assert(digits_value(s) == (n / 10) * 10 + n % 10);
    }
}

/// How booleans are written on the wire.
pub open spec fn spec_bool_string(b: bool) -> Seq<char> {
    if b {
        "1"@
    } else {
        "0"@
    }
}

/// What a boolean field accepts: exactly `"1"` or `"0"`.
pub open spec fn spec_parse_bool(s: Seq<char>) -> Option<bool> {
    if s == "1"@ {
        Some(true)
    } else if s == "0"@ {
        Some(false)
    } else {
        None
    }
}

pub fn bool_to_string(b: bool) -> (r: String)
    ensures
        r@ == spec_bool_string(b),
{
    if b {
        String::from_str("1")
    } else {
        String::from_str("0")
    }
}

pub fn parse_bool(s: &str) -> (r: Option<bool>)
    ensures
        r == spec_parse_bool(s@),
{
    if str_eq(s, "1") {
        Some(true)
    } else if str_eq(s, "0") {
        Some(false)
    } else {
        None
    }
}

/// The wire form of a boolean parses back to the same boolean.
pub proof fn lemma_parse_of_bool_string(b: bool)
    ensures
        spec_parse_bool(spec_bool_string(b)) == Some(b),
{
    reveal_strlit("1");
    reveal_strlit("0");
    assert("1"@ != "0"@) by {
        assert("1"@[0] == '1');
        assert("0"@[0] == '0');
    }
}

} // verus!
