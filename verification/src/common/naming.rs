use vstd::prelude::*;

use crate::common::text::{all_ascii, ascii_chars_of, ascii_to_string};
use vstd::string::StrSliceExecFns;

verus! {

/// True for the ASCII characters that pass through unchanged: lower-case
/// letters and digits.
pub open spec fn is_lower_or_digit(c: char) -> bool {
    ('a' <= c && c <= 'z') || ('0' <= c && c <= '9')
}

/// True for the ASCII upper-case letters.
pub open spec fn is_ascii_upper(c: char) -> bool {
    'A' <= c && c <= 'Z'
}

/// The lower-case counterpart of an ASCII upper-case letter.
pub open spec fn lower_char(c: char) -> char
    recommends
        is_ascii_upper(c),
{
    ((c as u32 + 32) as u32) as char
}

/// What one source character contributes to a resource name: `i` is its
/// position and `prev_upper` tells whether the character before it was
/// rendered as upper-case or as a separator.
pub open spec fn res_name_emit(c: char, i: int, prev_upper: bool) -> Seq<char> {
    if is_lower_or_digit(c) {
        seq![c]
    } else if is_ascii_upper(c) {
        if i > 0 && !prev_upper {
            seq!['_', lower_char(c)]
        } else {
            seq![lower_char(c)]
        }
    } else {
        if i > 0 {
            seq!['_']
        } else {
            seq![]
        }
    }
}

/// Whether, after the first `i` characters of `s`, the last character was
/// rendered as upper-case or as a separator.
pub open spec fn res_name_prev_upper(s: Seq<char>, i: int) -> bool {
    i > 0 && !is_lower_or_digit(s[i - 1])
}

/// The resource name derived from the first `i` characters of `s`.
pub open spec fn res_name_prefix(s: Seq<char>, i: int) -> Seq<char>
    decreases i,
{
    if i <= 0 {
        Seq::empty()
    } else {
        res_name_prefix(s, i - 1) + res_name_emit(s[i - 1], i - 1, res_name_prev_upper(s, i - 1))
    }
}

/// The resource name derived from a topic or file name: snake_case, ASCII
/// letters and digits only, every other character a single underscore.
pub open spec fn res_name_of(s: Seq<char>) -> Seq<char> {
    res_name_prefix(s, s.len() as int)
}

/// Every character of a resource name is ASCII.
pub proof fn lemma_res_name_ascii(s: Seq<char>, i: int)
    ensures
        vstd::utf8::is_ascii_chars(res_name_prefix(s, i)),
    decreases i,
{
    if i <= 0 {
        assert(res_name_prefix(s, i) =~= Seq::<char>::empty());
    } else {
        lemma_res_name_ascii(s, i - 1);
        let p = res_name_prefix(s, i - 1);
        let e = res_name_emit(s[i - 1], i - 1, res_name_prev_upper(s, i - 1));
        let w = res_name_prefix(s, i);
        assert forall|j: int| 0 <= j < w.len() implies '\0' <= #[trigger] w[j] <= '\u{7f}' by {
            if j < p.len() {
                assert(w[j] == p[j]);
            } else {
                assert(w[j] == e[j - p.len()]);
                let c = s[i - 1];
                if is_ascii_upper(c) {
                    assert((lower_char(c) as u32) < 128);
                }
            }
        }
    }
}

/// Casts a name to a form that is safe as a file or resource name.
/// The name is turned into snake_case: lower-case letters and digits stay,
/// an upper-case letter becomes its lower-case form with an underscore
/// before it where a word was running, and every other character becomes a
/// single underscore (dropped at the very start of the name).
pub fn to_res_name(name: &String) -> (r: String)
    ensures
        r@ == res_name_of(name@),
{
    let s = name.as_str();
    let n = s.unicode_len();
    let mut out: Vec<u8> = Vec::new();
    let mut prev_char_is_uppercase = false;
    let ghost sv = name@;
    for i in 0..n
        invariant
            n == sv.len(),
            s@ == sv,
            prev_char_is_uppercase == res_name_prev_upper(sv, i as int),
            out@ == res_name_prefix(sv, i as int).map_values(|c: char| c as u8),
            all_ascii(out@),
    {
        let ch = s.get_char(i);
        let u = ch as u32;
        let ghost p = res_name_prefix(sv, i as int);
        let ghost e = res_name_emit(sv[i as int], i as int, res_name_prev_upper(sv, i as int));
        if (97 <= u && u <= 122) || (48 <= u && u <= 57) {
            out.push(u as u8);
            prev_char_is_uppercase = false;
        } else if 65 <= u && u <= 90 {
            if i > 0 && !prev_char_is_uppercase {
                out.push(95);
            }
            out.push((u + 32) as u8);
            prev_char_is_uppercase = true;
        } else {
            if i > 0 {
                out.push(95);
            }
            prev_char_is_uppercase = true;
        }
        proof {
            assert(res_name_prefix(sv, i + 1) == p + e);
            assert(out@ =~= (p + e).map_values(|c: char| c as u8));
        }
    }
    proof {
        lemma_res_name_ascii(sv, sv.len() as int);
        let rn = res_name_prefix(sv, sv.len() as int);
        assert(out@ == rn.map_values(|c: char| c as u8));
        assert forall|j: int| 0 <= j < rn.len() implies ascii_chars_of(out@)[j] == rn[j] by {
            assert(out@[j] == rn[j] as u8);
            assert('\0' <= rn[j] <= '\u{7f}');
        }
        assert(ascii_chars_of(out@) =~= rn);
    }
    ascii_to_string(out.as_slice())
}

} // verus!
