//! The legacy obfuscation cipher: a reversible, keyed, non-cryptographic
//! transform over short ASCII strings, kept for protocol backward
//! compatibility. Each character is XOR-ed with a byte drawn from a running
//! 32-bit key and written as two uppercase hexadecimal digits; the key
//! advances by a fixed wrapping recurrence that both directions replay
//! bit for bit.

use vstd::prelude::*;
use vstd::utf8::is_ascii_chars;

use crate::text::push_char;

verus! {

pub const CRYPT_CONST_1: u32 = 53761;

pub const CRYPT_CONST_2: u32 = 32618;

pub const CRYPT_KEY: u32 = 5;

/// The byte the current key contributes: the upper byte of its lower 16
/// bits.
pub open spec fn crypt_mask(key: u32) -> u32 {
    (key & 0xffff) >> 8
}

/// The key recurrence, over the byte that went on the wire. All arithmetic
/// wraps at 32 bits.
pub open spec fn crypt_next_key(b: u32, key: u32) -> u32 {
    b.wrapping_add(key).wrapping_mul(CRYPT_CONST_1).wrapping_add(CRYPT_CONST_2)
}

/// The wire bytes the cipher produces for `s` starting from `key`.
pub open spec fn spec_encrypt_bytes(s: Seq<char>, key: u32) -> Seq<u8>
    decreases s.len(),
{
    if s.len() == 0 {
        Seq::empty()
    } else {
        let v = (s[0] as u32) ^ crypt_mask(key);
        seq![v as u8] + spec_encrypt_bytes(s.skip(1), crypt_next_key(v, key))
    }
}

/// The characters recovered from wire bytes starting from `key`.
pub open spec fn spec_decrypt_bytes(bs: Seq<u8>, key: u32) -> Seq<char>
    decreases bs.len(),
{
    if bs.len() == 0 {
        Seq::empty()
    } else {
        let v = (bs[0] as u32) ^ crypt_mask(key);
        seq![(v as u8) as char] + spec_decrypt_bytes(bs.skip(1), crypt_next_key(bs[0] as u32, key))
    }
}

/// Uppercase hexadecimal digit for a value below 16.
pub open spec fn hex_digit_char(d: int) -> char
    recommends
        0 <= d < 16,
{
    if d < 10 {
        (d + 0x30) as char
    } else {
        (d + 55) as char
    }
}

/// Two uppercase hexadecimal digits per byte, most significant first.
pub open spec fn spec_hex_of_bytes(bs: Seq<u8>) -> Seq<char>
    decreases bs.len(),
{
    if bs.len() == 0 {
        Seq::empty()
    } else {
        seq![hex_digit_char(bs[0] as int / 16), hex_digit_char(bs[0] as int % 16)]
            + spec_hex_of_bytes(bs.skip(1))
    }
}

/// The value of one hexadecimal digit; both letter cases are accepted.
pub open spec fn hex_char_val(c: char) -> Option<int> {
    let u = c as int;
    if 0x30 <= u && u <= 0x39 {
        Some(u - 0x30)
    } else if 0x41 <= u && u <= 0x46 {
        Some(u - 55)
    } else if 0x61 <= u && u <= 0x66 {
        Some(u - 87)
    } else {
        None
    }
}

/// What the cipher accepts as hexadecimal input: an even number of
/// hexadecimal digits.
pub open spec fn is_hex_string(s: Seq<char>) -> bool {
    s.len() % 2 == 0 && (forall|i: int| 0 <= i < s.len() ==> hex_char_val(s[i]) is Some)
}

/// The bytes written by a hexadecimal string, one per digit pair.
pub open spec fn spec_hex_to_bytes(s: Seq<char>) -> Seq<u8>
    recommends
        is_hex_string(s),
    decreases s.len(),
{
    if s.len() < 2 {
        Seq::empty()
    } else {
        let hi = match hex_char_val(s[0]) {
            Some(v) => v,
            None => 0,
        };
        let lo = match hex_char_val(s[1]) {
            Some(v) => v,
            None => 0,
        };
        seq![(hi * 16 + lo) as u8] + spec_hex_to_bytes(s.skip(2))
    }
}

fn hex_char(d: u32) -> (c: char)
    requires
        d < 16,
    ensures
        c == hex_digit_char(d as int),
{
    if d < 10 {
        (d as u8 + 0x30) as char
    } else {
        (d as u8 + 55) as char
    }
}

fn hex_val(c: char) -> (r: Option<u32>)
    ensures
        match r {
            Some(v) => hex_char_val(c) == Some(v as int),
            None => hex_char_val(c) is None,
        },
{
    let u = c as u32;
    if 0x30 <= u && u <= 0x39 {
        Some(u - 0x30)
    } else if 0x41 <= u && u <= 0x46 {
        Some(u - 55)
    } else if 0x61 <= u && u <= 0x66 {
        Some(u - 87)
    } else {
        None
    }
}

proof fn lemma_mask_below_256(key: u32)
    ensures
        crypt_mask(key) < 256,
{
    assert((key & 0xffff) >> 8 < 256) by (bit_vector);
}

proof fn lemma_xor_byte(a: u32, m: u32)
    requires
        a < 256,
        m < 256,
    ensures
        a ^ m < 256,
        (a ^ m) ^ m == a,
{
    assert(a ^ m < 256 && (a ^ m) ^ m == a) by (bit_vector)
        requires
            a < 256 && m < 256,
    ;
}

/// Obfuscates an ASCII string: each character XOR-ed with the key's mask
/// byte and written as two uppercase hexadecimal digits.
pub fn fanta_encrypt(data: &str) -> (r: String)
    requires
        is_ascii_chars(data@),
    ensures
        r@ == spec_hex_of_bytes(spec_encrypt_bytes(data@, CRYPT_KEY)),
        is_hex_string(r@),
{
    let n = data.unicode_len();
    let mut out = String::new();
    let mut key: u32 = CRYPT_KEY;
    let mut i: usize = 0;
    proof {
        assert(data@.skip(0) =~= data@);
    }
    while i < n
        invariant
            0 <= i <= n,
            n == data@.len(),
            is_ascii_chars(data@),
            spec_hex_of_bytes(spec_encrypt_bytes(data@, CRYPT_KEY)) == out@ + spec_hex_of_bytes(
                spec_encrypt_bytes(data@.skip(i as int), key),
            ),
        decreases n - i,
    {
        let c = data.get_char(i);
        let u = c as u32;
        let mask = (key & 0xffff) >> 8;
        proof {
            lemma_mask_below_256(key);
            assert(is_ascii_chars(data@));
            assert((data@[i as int] as nat) < 128);
            lemma_xor_byte(u, mask);
        }
        let val = u ^ mask;
        let hi = val / 16;
        let lo = val % 16;
        proof {
            let rest = data@.skip(i as int);
            assert(rest[0] == data@[i as int]);
            assert(rest.skip(1) =~= data@.skip(i + 1));
            let eb = spec_encrypt_bytes(rest, key);
            assert(eb == seq![val as u8] + spec_encrypt_bytes(data@.skip(i + 1), crypt_next_key(val, key)));
            assert(eb.skip(1) =~= spec_encrypt_bytes(data@.skip(i + 1), crypt_next_key(val, key)));
            assert(eb[0] == val as u8);
            assert(val as u8 as int == val as int);
            assert(spec_hex_of_bytes(eb) == seq![hex_digit_char(hi as int), hex_digit_char(lo as int)]
                + spec_hex_of_bytes(spec_encrypt_bytes(data@.skip(i + 1), crypt_next_key(val, key))));
        }
        push_char(&mut out, hex_char(hi));
        push_char(&mut out, hex_char(lo));
        key = val.wrapping_add(key).wrapping_mul(CRYPT_CONST_1).wrapping_add(CRYPT_CONST_2);
        i += 1;
        proof {
            assert(out@ + spec_hex_of_bytes(spec_encrypt_bytes(data@.skip(i as int), key))
                =~= spec_hex_of_bytes(spec_encrypt_bytes(data@, CRYPT_KEY)));
        }
    }
    proof {
        assert(data@.skip(n as int) =~= Seq::<char>::empty());
        assert(out@ =~= spec_hex_of_bytes(spec_encrypt_bytes(data@, CRYPT_KEY)));
        lemma_hex_round_trip(spec_encrypt_bytes(data@, CRYPT_KEY));
    }
    out
}

/// De-obfuscates a hexadecimal string produced by the cipher, replaying the
/// identical key recurrence.
pub fn fanta_decrypt(data: &str) -> (r: String)
    requires
        is_hex_string(data@),
    ensures
        r@ == spec_decrypt_bytes(spec_hex_to_bytes(data@), CRYPT_KEY),
{
    let n = data.unicode_len();
    let mut out = String::new();
    let mut key: u32 = CRYPT_KEY;
    let mut i: usize = 0;
    proof {
        assert(data@.skip(0) =~= data@);
    }
    while i < n
        invariant
            0 <= i <= n,
            i % 2 == 0,
            n == data@.len(),
            is_hex_string(data@),
            spec_decrypt_bytes(spec_hex_to_bytes(data@), CRYPT_KEY) == out@ + spec_decrypt_bytes(
                spec_hex_to_bytes(data@.skip(i as int)),
                key,
            ),
        decreases n - i,
    {
        let c0 = data.get_char(i);
        proof {
            assert(hex_char_val(data@[i as int]) is Some);
            assert(n % 2 == 0);
            assert(i + 1 < n);
            assert(hex_char_val(data@[i + 1]) is Some);
        }
        let c1 = data.get_char(i + 1);
        let hi = match hex_val(c0) {
            Some(v) => v,
            None => 0,
        };
        let lo = match hex_val(c1) {
            Some(v) => v,
            None => 0,
        };
        let b = hi * 16 + lo;
        let mask = (key & 0xffff) >> 8;
        proof {
            lemma_mask_below_256(key);
            lemma_xor_byte(b, mask);
        }
        let val = b ^ mask;
        proof {
            let rest = data@.skip(i as int);
            assert(rest.len() >= 2);
            assert(rest[0] == data@[i as int]);
            assert(rest[1] == data@[i + 1]);
            assert(rest.skip(2) =~= data@.skip(i + 2));
            let hb = spec_hex_to_bytes(rest);
            assert(hb == seq![b as u8] + spec_hex_to_bytes(data@.skip(i + 2)));
            assert(hb[0] == b as u8);
            assert(hb.skip(1) =~= spec_hex_to_bytes(data@.skip(i + 2)));
            assert(b as u8 as u32 == b);
            assert(spec_decrypt_bytes(hb, key) == seq![(val as u8) as char] + spec_decrypt_bytes(
                spec_hex_to_bytes(data@.skip(i + 2)),
                crypt_next_key(b, key),
            ));
        }
        push_char(&mut out, (val as u8) as char);
        key = b.wrapping_add(key).wrapping_mul(CRYPT_CONST_1).wrapping_add(CRYPT_CONST_2);
        i += 2;
        proof {
            assert(out@ + spec_decrypt_bytes(spec_hex_to_bytes(data@.skip(i as int)), key)
                =~= spec_decrypt_bytes(spec_hex_to_bytes(data@), CRYPT_KEY));
        }
    }
    proof {
        assert(data@.skip(n as int) =~= Seq::<char>::empty());
        assert(out@ =~= spec_decrypt_bytes(spec_hex_to_bytes(data@), CRYPT_KEY));
    }
    out
}

/// The hexadecimal form of any byte string is valid hexadecimal input and
/// reads back as the same bytes.
pub proof fn lemma_hex_round_trip(bs: Seq<u8>)
    ensures
        is_hex_string(spec_hex_of_bytes(bs)),
        spec_hex_to_bytes(spec_hex_of_bytes(bs)) == bs,
    decreases bs.len(),
{
    if bs.len() == 0 {
        assert(spec_hex_to_bytes(spec_hex_of_bytes(bs)) =~= bs);
    } else {
        lemma_hex_round_trip(bs.skip(1));
        let b = bs[0] as int;
        let hi = b / 16;
        let lo = b % 16;
        let s = spec_hex_of_bytes(bs);
        let pair = seq![hex_digit_char(hi), hex_digit_char(lo)];
        assert(s == pair + spec_hex_of_bytes(bs.skip(1)));
        assert(hex_char_val(hex_digit_char(hi)) == Some(hi));
        assert(hex_char_val(hex_digit_char(lo)) == Some(lo));
        assert forall|i: int| 0 <= i < s.len() implies hex_char_val(s[i]) is Some by {
            if i >= 2 {
                assert(s[i] == spec_hex_of_bytes(bs.skip(1))[i - 2]);
            }
        }
        assert(s.len() % 2 == 0);
        assert(s.skip(2) =~= spec_hex_of_bytes(bs.skip(1)));
        assert(hi * 16 + lo == b);
        assert(spec_hex_to_bytes(s) == seq![bs[0]] + spec_hex_to_bytes(spec_hex_of_bytes(bs.skip(1))));
        assert(spec_hex_to_bytes(s) =~= bs);
    }
}

/// Round trip of the cipher: de-obfuscating the obfuscated form of any
/// ASCII string recovers the string, whatever key the pair starts from.
pub proof fn lemma_cipher_round_trip(s: Seq<char>, key: u32)
    requires
        is_ascii_chars(s),
    ensures
        spec_decrypt_bytes(spec_hex_to_bytes(spec_hex_of_bytes(spec_encrypt_bytes(s, key))), key)
            == s,
    decreases s.len(),
{
    lemma_hex_round_trip(spec_encrypt_bytes(s, key));
    lemma_decrypt_of_encrypt(s, key);
}

proof fn lemma_decrypt_of_encrypt(s: Seq<char>, key: u32)
    requires
        is_ascii_chars(s),
    ensures
        spec_decrypt_bytes(spec_encrypt_bytes(s, key), key) == s,
    decreases s.len(),
{
    if s.len() == 0 {
        assert(spec_decrypt_bytes(spec_encrypt_bytes(s, key), key) =~= s);
    } else {
        let u = s[0] as u32;
        let m = crypt_mask(key);
        lemma_mask_below_256(key);
        assert((s[0] as nat) < 128);
        lemma_xor_byte(u, m);
        let v = u ^ m;
        let eb = spec_encrypt_bytes(s, key);
        assert(eb == seq![v as u8] + spec_encrypt_bytes(s.skip(1), crypt_next_key(v, key)));
        assert(eb[0] == v as u8);
        assert(eb.skip(1) =~= spec_encrypt_bytes(s.skip(1), crypt_next_key(v, key)));
        assert(v as u8 as u32 == v);
        assert((v ^ m) == u);
        assert((u as u8) as char == s[0]) by {
            vstd::utf8::char_u32_cast(s[0], u);
            assert(u as u8 as u32 == u);
        }
        assert(is_ascii_chars(s.skip(1)));
        lemma_decrypt_of_encrypt(s.skip(1), crypt_next_key(v, key));
        assert(spec_decrypt_bytes(eb, key) == seq![(v ^ m) as u8 as char] + spec_decrypt_bytes(
            eb.skip(1),
            crypt_next_key(v, key),
        ));
        assert(spec_decrypt_bytes(eb, key) =~= s);
    }
}

} // verus!
