use vstd::prelude::*;

use vstd::utf8::{
    decode_utf8, encode_utf8, encode_utf8_decode_utf8, encode_utf8_valid_utf8, is_ascii_chars,
    is_ascii_chars_encode_utf8, valid_utf8,
};

verus! {

/// The characters standing for a run of ASCII bytes, one per byte.
pub open spec fn ascii_chars_of(bytes: Seq<u8>) -> Seq<char> {
    bytes.map_values(|b: u8| (b as u32) as char)
}

/// True when every byte of the run is ASCII.
pub open spec fn all_ascii(bytes: Seq<u8>) -> bool {
    forall|i: int| 0 <= i < bytes.len() ==> bytes[i] < 128
}

/// An all-ASCII byte run is valid UTF-8 and decodes to one character per
/// byte, each with the byte's own code point.
pub proof fn lemma_ascii_decode(bytes: Seq<u8>)
    requires
        all_ascii(bytes),
    ensures
        valid_utf8(bytes),
        decode_utf8(bytes) == ascii_chars_of(bytes),
{
    let chars = ascii_chars_of(bytes);
    assert forall|i: int| 0 <= i < chars.len() implies '\0' <= #[trigger] chars[i]
        <= '\u{7f}' by {
        assert(bytes[i] < 128);
        assert(chars[i] == (bytes[i] as u32) as char);
    }
    assert(is_ascii_chars(chars));
    is_ascii_chars_encode_utf8(chars);
    assert(encode_utf8(chars) =~= bytes);
    encode_utf8_valid_utf8(chars);
    encode_utf8_decode_utf8(chars);
}

/// Turns bytes into the string of their decoded characters.
///
/// Relies on `core::str::from_utf8`, which succeeds exactly on the byte
/// runs that are valid UTF-8 and yields the characters they encode, and on
/// `str::to_owned`.
#[verifier::external_body]
pub fn utf8_to_string(bytes: &[u8]) -> (r: Option<String>)
    ensures
        r is Some <==> valid_utf8(bytes@),
        r matches Some(s) ==> s@ == decode_utf8(bytes@),
{
    match core::str::from_utf8(bytes) {
        Ok(s) => Some(s.to_owned()),
        Err(_) => None,
    }
}

/// The string holding one character per byte of an all-ASCII byte run.
pub fn ascii_to_string(bytes: &[u8]) -> (s: String)
    requires
        all_ascii(bytes@),
    ensures
        s@ == ascii_chars_of(bytes@),
{
    proof {
        lemma_ascii_decode(bytes@);
    }
    match utf8_to_string(bytes) {
        Some(s) => s,
        None => vstd::pervasive::unreached(),
    }
}

/// True exactly when the two strings hold the same characters.
pub fn str_eq(a: &str, b: &str) -> (r: bool)
    ensures
        r == (a@ == b@),
{
    proof {
        encode_utf8_decode_utf8(a@);
        encode_utf8_decode_utf8(b@);
    }
    let ab = a.as_bytes();
    let bb = b.as_bytes();
    if ab.len() != bb.len() {
        return false;
    }
    let n = ab.len();
    for i in 0..n
        invariant
            n == ab@.len() == bb@.len(),
            ab@ == encode_utf8(a@),
            bb@ == encode_utf8(b@),
            forall|j: int| 0 <= j < i ==> ab@[j] == bb@[j],
    {
        if ab[i] != bb[i] {
            return false;
        }
    }
    assert(ab@ =~= bb@);
    true
}

/// The decimal digit characters of `n`, most significant first, with no
/// leading zero except for `n == 0` itself.
pub open spec fn dec_chars(n: int) -> Seq<char>
    decreases n,
{
    if n < 10 {
        seq![((48 + n) as u32) as char]
    } else {
        dec_chars(n / 10).push(((48 + n % 10) as u32) as char)
    }
}

/// Every character of a decimal rendering is a digit.
pub proof fn lemma_dec_chars_digits(n: int)
    requires
        0 <= n,
    ensures
        forall|i: int| 0 <= i < dec_chars(n).len() ==> '0' <= #[trigger] dec_chars(n)[i] <= '9',
    decreases n,
{
    if n >= 10 {
        lemma_dec_chars_digits(n / 10);
        let d = dec_chars(n);
        let p = dec_chars(n / 10);
        assert forall|i: int| 0 <= i < d.len() implies '0' <= #[trigger] d[i] <= '9' by {
            if i < p.len() {
                assert(d[i] == p[i]);
            } else {
                assert(d[i] == ((48 + n % 10) as u32) as char);
            }
        }
    }
}

/// Appends the decimal digits of `n`, as ASCII bytes, to `out`.
fn push_dec_digits(n: u64, out: &mut Vec<u8>)
    ensures
        final(out)@ == old(out)@ + dec_chars(n as int).map_values(|c: char| c as u8),
    decreases n,
{
    if n >= 10 {
        push_dec_digits(n / 10, out);
    }
    out.push(48 + (n % 10) as u8);
    proof {
        let d = dec_chars(n as int);
        let bytes = d.map_values(|c: char| c as u8);
        if n < 10 {
            assert(bytes =~= seq![(48 + (n as int % 10)) as u8]);
        } else {
            assert(bytes =~= dec_chars(n as int / 10).map_values(|c: char| c as u8).push(
                (48 + (n as int % 10)) as u8,
            ));
        }
        assert(final(out)@ =~= old(out)@ + bytes);
    }
}

/// Renders `n` in decimal.
pub fn u64_to_string(n: u64) -> (s: String)
    ensures
        s@ == dec_chars(n as int),
{
    let mut out: Vec<u8> = Vec::new();
    push_dec_digits(n, &mut out);
    proof {
        lemma_dec_chars_digits(n as int);
        let d = dec_chars(n as int);
        assert forall|i: int| 0 <= i < out@.len() implies out@[i] < 128 by {
            assert(out@[i] == d[i] as u8);
            assert('0' <= d[i] <= '9');
        }
        assert(ascii_chars_of(out@) =~= d);
    }
    ascii_to_string(out.as_slice())
}

} // verus!
