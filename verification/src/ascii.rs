//! Bridging ASCII byte sequences and strings.
//!
//! The encoder and the query builders produce ASCII bytes; this module turns
//! them into `String`s and renders unsigned numbers in decimal.

use vstd::prelude::*;

verus! {

/// The characters spelled by a sequence of ASCII bytes.
pub open spec fn chars_of_bytes(bs: Seq<u8>) -> Seq<char> {
    bs.map_values(|b: u8| b as char)
}

/// The bytes of a sequence of ASCII characters.
pub open spec fn bytes_of_chars(cs: Seq<char>) -> Seq<u8> {
    cs.map_values(|c: char| c as u8)
}

/// An ASCII round trip changes nothing.
pub proof fn lemma_ascii_round_trip(bs: Seq<u8>)
    requires
        forall|i: int| 0 <= i < bs.len() ==> bs[i] < 0x80,
    ensures
        bytes_of_chars(chars_of_bytes(bs)) =~= bs,
{
}

/// Relies on `String::from_utf8`: ASCII bytes are valid UTF-8 and decode to
/// the characters with the same code points.
#[verifier::external_body]
pub(crate) fn ascii_string_of(bytes: Vec<u8>) -> (r: String)
    requires
        forall|i: int| 0 <= i < bytes@.len() ==> bytes@[i] < 0x80,
    ensures
        r@ == chars_of_bytes(bytes@),
{
    match String::from_utf8(bytes) {
        Ok(s) => s,
        Err(_) => String::new(),
    }
}

/// The decimal digits of `n`, most significant first, as ASCII bytes.
pub open spec fn dec_bytes(n: nat) -> Seq<u8>
    decreases n,
{
    if n < 10 {
        seq![(0x30 + n) as u8]
    } else {
        dec_bytes(n / 10) + seq![(0x30 + n % 10) as u8]
    }
}

/// Decimal digits are ASCII digits.
pub proof fn lemma_dec_bytes_ascii(n: nat)
    ensures
        forall|i: int| 0 <= i < dec_bytes(n).len() ==> 0x30 <= #[trigger] dec_bytes(n)[i] <= 0x39,
    decreases n,
{
    if n >= 10 {
        lemma_dec_bytes_ascii(n / 10);
        let a = dec_bytes(n / 10);
        let d = seq![(0x30 + n % 10) as u8];
        assert forall|i: int| 0 <= i < dec_bytes(n).len() implies 0x30 <= #[trigger] dec_bytes(n)[i]
            <= 0x39 by {
            if i < a.len() {
                assert(dec_bytes(n)[i] == a[i]);
            } else {
                assert(dec_bytes(n)[i] == d[i - a.len()]);
            }
        }
    }
}

fn push_digits(n: usize, out: &mut Vec<u8>)
    ensures
        final(out)@ == old(out)@ + dec_bytes(n as nat),
    decreases n,
{
    if n < 10 {
        out.push(0x30 + n as u8);
    } else {
        push_digits(n / 10, out);
        out.push(0x30 + (n % 10) as u8);
        proof {
            assert(old(out)@ + dec_bytes((n / 10) as nat) + seq![(0x30 + n as nat % 10) as u8]
                =~= old(out)@ + dec_bytes(n as nat));
        }
    }
}

/// Renders `n` in decimal.
pub fn usize_to_string(n: usize) -> (r: String)
    ensures
        r@ == chars_of_bytes(dec_bytes(n as nat)),
{
    let mut digits: Vec<u8> = Vec::new();
    push_digits(n, &mut digits);
    proof {
        lemma_dec_bytes_ascii(n as nat);
        assert(Seq::<u8>::empty() + dec_bytes(n as nat) =~= dec_bytes(n as nat));
    }
    ascii_string_of(digits)
}

} // verus!
