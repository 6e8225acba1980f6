//! Percent-encoding of URL query segments.
//!
//! Every byte of the UTF-8 form of an input is kept when it is unreserved
//! (ASCII alphanumeric or one of `-`, `_`, `.`, `~`) and written as `%` plus
//! two uppercase hexadecimal digits otherwise.  Decoding reverses this, so a
//! round trip recovers the original bytes exactly.

use crate::ascii::{ascii_string_of, chars_of_bytes};
use vstd::prelude::*;
use vstd::utf8::encode_utf8;

verus! {

/// A byte kept verbatim by percent-encoding.
pub open spec fn is_unreserved_byte(b: u8) -> bool {
    (0x41 <= b && b <= 0x5A)  // A-Z
    || (0x61 <= b && b <= 0x7A)  // a-z
    || (0x30 <= b && b <= 0x39)  // 0-9
    || b == 0x2D || b == 0x5F || b == 0x2E || b == 0x7E  // - _ . ~
}

/// The uppercase hexadecimal digit for a value below 16.
pub open spec fn hex_upper(n: u8) -> u8 {
    if n < 10 {
        (n + 0x30) as u8
    } else {
        (n + 0x37) as u8
    }
}

/// An ASCII hexadecimal digit.
pub open spec fn is_hex_byte(b: u8) -> bool {
    (0x30 <= b && b <= 0x39) || (0x41 <= b && b <= 0x46) || (0x61 <= b && b <= 0x66)
}

/// The value of an ASCII hexadecimal digit.
pub open spec fn hex_value(b: u8) -> u8 {
    if 0x30 <= b && b <= 0x39 {
        (b - 0x30) as u8
    } else if 0x41 <= b && b <= 0x46 {
        (b - 0x37) as u8
    } else if 0x61 <= b && b <= 0x66 {
        (b - 0x57) as u8
    } else {
        0
    }
}

/// The encoded form of one byte.
pub open spec fn encode_byte(b: u8) -> Seq<u8> {
    if is_unreserved_byte(b) {
        seq![b]
    } else {
        seq![0x25u8, hex_upper(b >> 4), hex_upper(b & 0x0F)]
    }
}

/// The percent-encoded form of a byte sequence.
pub open spec fn percent_encode(bs: Seq<u8>) -> Seq<u8>
    decreases bs.len(),
{
    if bs.len() == 0 {
        Seq::empty()
    } else {
        encode_byte(bs[0]) + percent_encode(bs.drop_first())
    }
}

/// The decoded form of a percent-encoded byte sequence: `%` followed by two
/// hexadecimal digits becomes the byte they spell; any other byte stays.
pub open spec fn percent_decode(bs: Seq<u8>) -> Seq<u8>
    decreases bs.len(),
{
    if bs.len() == 0 {
        Seq::empty()
    } else if bs[0] == 0x25 && bs.len() >= 3 && is_hex_byte(bs[1]) && is_hex_byte(bs[2]) {
        seq![(hex_value(bs[1]) * 16 + hex_value(bs[2])) as u8] + percent_decode(bs.skip(3))
    } else {
        seq![bs[0]] + percent_decode(bs.skip(1))
    }
}

/// A byte that percent-encoded output may hold.
pub open spec fn is_url_safe_byte(b: u8) -> bool {
    is_unreserved_byte(b) || b == 0x25
}

/// Encoding distributes over concatenation.
pub proof fn lemma_encode_concat(a: Seq<u8>, b: Seq<u8>)
    ensures
        percent_encode(a + b) =~= percent_encode(a) + percent_encode(b),
    decreases a.len(),
{
    if a.len() == 0 {
        assert(a + b =~= b);
        assert(percent_encode(a) =~= Seq::empty());
    } else {
        lemma_encode_concat(a.drop_first(), b);
        assert((a + b).drop_first() =~= a.drop_first() + b);
        assert(percent_encode(a + b) =~= encode_byte(a[0]) + percent_encode(a.drop_first() + b));
    }
}

/// Every byte of encoded output is unreserved or the escape byte `%`.
pub proof fn lemma_encode_url_safe(bs: Seq<u8>)
    ensures
        forall|i: int|
            0 <= i < percent_encode(bs).len() ==> is_url_safe_byte(#[trigger] percent_encode(bs)[i]),
    decreases bs.len(),
{
    if bs.len() > 0 {
        lemma_encode_url_safe(bs.drop_first());
        let b = bs[0];
        if !is_unreserved_byte(b) {
            assert(b >> 4 < 16 && b & 0x0F < 16) by (bit_vector);
        }
        let e = encode_byte(b);
        let rest = percent_encode(bs.drop_first());
        assert(forall|i: int| 0 <= i < e.len() ==> is_url_safe_byte(#[trigger] e[i]));
        assert(percent_encode(bs) =~= e + rest);
        assert forall|i: int| 0 <= i < percent_encode(bs).len() implies is_url_safe_byte(
            #[trigger] percent_encode(bs)[i],
        ) by {
            if i < e.len() {
                assert(percent_encode(bs)[i] == e[i]);
            } else {
                assert(percent_encode(bs)[i] == rest[i - e.len()]);
            }
        }
    }
}

/// Decoding a percent-encoded sequence gives back the original bytes.
pub proof fn lemma_decode_encode(bs: Seq<u8>)
    ensures
        percent_decode(percent_encode(bs)) =~= bs,
    decreases bs.len(),
{
    if bs.len() > 0 {
        lemma_decode_encode(bs.drop_first());
        let b = bs[0];
        let rest = percent_encode(bs.drop_first());
        if is_unreserved_byte(b) {
            let e = seq![b] + rest;
            assert(percent_encode(bs) =~= e);
            assert(b != 0x25);
            assert(e.skip(1) =~= rest);
            assert(percent_decode(e) =~= seq![b] + percent_decode(rest));
            assert(seq![b] + bs.drop_first() =~= bs);
        } else {
            let h = hex_upper(b >> 4);
            let l = hex_upper(b & 0x0F);
            assert(b >> 4 < 16 && b & 0x0F < 16) by (bit_vector);
            let e = seq![0x25u8, h, l] + rest;
            assert(percent_encode(bs) =~= e);
            assert(e.len() >= 3 && e[0] == 0x25 && e[1] == h && e[2] == l);
            assert(is_hex_byte(h) && is_hex_byte(l));
            assert(hex_value(h) == b >> 4 && hex_value(l) == b & 0x0F);
            assert((b >> 4) * 16 + (b & 0x0F) == b) by (bit_vector);
            assert(e.skip(3) =~= rest);
            assert(percent_decode(e) =~= seq![b] + percent_decode(rest));
            assert(seq![b] + bs.drop_first() =~= bs);
        }
    }
}

fn hex_upper_exec(n: u8) -> (r: u8)
    requires
        n < 16,
    ensures
        r == hex_upper(n),
{
    if n < 10 {
        n + 0x30
    } else {
        n + 0x37
    }
}

fn is_unreserved_exec(b: u8) -> (r: bool)
    ensures
        r == is_unreserved_byte(b),
{
    (0x41 <= b && b <= 0x5A) || (0x61 <= b && b <= 0x7A) || (0x30 <= b && b <= 0x39) || b == 0x2D
        || b == 0x5F || b == 0x2E || b == 0x7E
}

fn is_hex_exec(b: u8) -> (r: bool)
    ensures
        r == is_hex_byte(b),
{
    (0x30 <= b && b <= 0x39) || (0x41 <= b && b <= 0x46) || (0x61 <= b && b <= 0x66)
}

fn hex_value_exec(b: u8) -> (r: u8)
    ensures
        r == hex_value(b),
{
    if 0x30 <= b && b <= 0x39 {
        b - 0x30
    } else if 0x41 <= b && b <= 0x46 {
        b - 0x37
    } else if 0x61 <= b && b <= 0x66 {
        b - 0x57
    } else {
        0
    }
}

/// Percent-encodes a byte sequence.
pub fn percent_encode_bytes(bs: &Vec<u8>) -> (r: Vec<u8>)
    ensures
        r@ == percent_encode(bs@),
{
    let mut out: Vec<u8> = Vec::new();
    let mut i: usize = 0;
    while i < bs.len()
        invariant
            0 <= i <= bs@.len(),
            out@ =~= percent_encode(bs@.take(i as int)),
        decreases bs@.len() - i,
    {
        let b = bs[i];
        if is_unreserved_exec(b) {
            out.push(b);
        } else {
            out.push(0x25);
            proof {
                assert(b >> 4 < 16 && b & 0x0F < 16) by (bit_vector);
            }
            out.push(hex_upper_exec(b >> 4));
            out.push(hex_upper_exec(b & 0x0F));
        }
        proof {
            assert(bs@.take(i + 1) =~= bs@.take(i as int) + seq![bs@[i as int]]);
            lemma_encode_concat(bs@.take(i as int), seq![bs@[i as int]]);
            assert(seq![b].drop_first() =~= Seq::<u8>::empty());
            assert(percent_encode(seq![b]) =~= encode_byte(b) + percent_encode(
                Seq::<u8>::empty(),
            ));
            assert(percent_encode(seq![b]) =~= encode_byte(b));
        }
        i = i + 1;
    }
    proof {
        assert(bs@.take(bs@.len() as int) =~= bs@);
    }
    out
}

/// Percent-decodes a byte sequence.
pub fn percent_decode_bytes(bs: &Vec<u8>) -> (r: Vec<u8>)
    ensures
        r@ == percent_decode(bs@),
{
    let mut out: Vec<u8> = Vec::new();
    let mut i: usize = 0;
    proof {
        assert(bs@.skip(0) =~= bs@);
    }
    while i < bs.len()
        invariant
            0 <= i <= bs@.len(),
            percent_decode(bs@) =~= out@ + percent_decode(bs@.skip(i as int)),
        decreases bs@.len() - i,
    {
        let b = bs[i];
        if b == 0x25 && bs.len() - i > 2 && is_hex_exec(bs[i + 1]) && is_hex_exec(bs[i + 2]) {
            let v = hex_value_exec(bs[i + 1]) * 16 + hex_value_exec(bs[i + 2]);
            proof {
                let t = bs@.skip(i as int);
                assert(t[0] == b && t[1] == bs@[i + 1] && t[2] == bs@[i + 2]);
                assert(t.skip(3) =~= bs@.skip(i + 3));
                assert(percent_decode(t) =~= seq![
                    (hex_value(bs@[i + 1]) * 16 + hex_value(bs@[i + 2])) as u8,
                ] + percent_decode(bs@.skip(i + 3)));
            }
            out.push(v);
            i = i + 3;
        } else {
            proof {
                let t = bs@.skip(i as int);
                assert(t[0] == b);
                if !(b == 0x25 && t.len() >= 3 && is_hex_byte(t[1]) && is_hex_byte(t[2])) {
                    assert(percent_decode(t) =~= seq![b] + percent_decode(t.skip(1)));
                }
                assert(t.skip(1) =~= bs@.skip(i + 1));
            }
            out.push(b);
            i = i + 1;
        }
    }
    proof {
        assert(bs@.skip(bs@.len() as int) =~= Seq::<u8>::empty());
        assert(out@ + Seq::<u8>::empty() =~= out@);
    }
    out
}

/// The percent-encoded form of a string, as characters: its UTF-8 bytes are
/// encoded and the resulting ASCII bytes read back as characters.
pub open spec fn encoded_chars(s: Seq<char>) -> Seq<char> {
    chars_of_bytes(percent_encode(encode_utf8(s)))
}

/// URL-safe bytes are ASCII.
pub proof fn lemma_url_safe_is_ascii(b: u8)
    requires
        is_url_safe_byte(b),
    ensures
        b < 0x80,
{
}

/// Percent-encodes a string for use as a URL query segment.
pub fn encode_component(s: &str) -> (r: String)
    ensures
        r@ == encoded_chars(s@),
{
    let bytes = s.as_bytes_vec();
    let enc = percent_encode_bytes(&bytes);
    proof {
        lemma_encode_url_safe(bytes@);
        assert(forall|i: int| 0 <= i < enc@.len() ==> enc@[i] < 0x80);
    }
    ascii_string_of(enc)
}

} // verus!
