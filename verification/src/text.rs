use vstd::prelude::*;
use vstd::utf8::{
    decode_utf8, encode_utf8, encode_utf8_decode_utf8, encode_utf8_valid_utf8, is_ascii_chars,
    is_ascii_chars_encode_utf8, valid_utf8,
};
use crate::bytes::{holds_at, holds_pattern};
use crate::outside_calls::str_from_utf8;

verus! {

/// The first position at or after `from` where `s` holds `pat`.
pub open spec fn find_from(s: Seq<u8>, pat: Seq<u8>, from: int) -> Option<int>
    decreases s.len() + 1 - from,
{
    if from < 0 || from + pat.len() > s.len() {
        None
    } else if holds_at(s, from, pat) {
        Some(from)
    } else {
        find_from(s, pat, from + 1)
    }
}

/// A match found at or after `from` starts there or later and ends inside `s`.
pub proof fn lemma_find_from_bounds(s: Seq<u8>, pat: Seq<u8>, from: int)
    ensures
        find_from(s, pat, from) matches Some(p) ==> from <= p && p + pat.len() <= s.len(),
    decreases s.len() + 1 - from,
{
    if !(from < 0 || from + pat.len() > s.len()) && !holds_at(s, from, pat) {
        lemma_find_from_bounds(s, pat, from + 1);
    }
}

/// The first position where `data` holds `pat`.
pub fn find_pattern(data: &[u8], pat: &[u8]) -> (r: Option<usize>)
    ensures
        match r {
            Some(p) => find_from(data@, pat@, 0) == Some(p as int) && holds_at(
                data@,
                p as int,
                pat@,
            ),
            None => find_from(data@, pat@, 0) is None,
        },
{
    let mut i: usize = 0;
    while i <= data.len() && data.len() - i >= pat.len()
        invariant
            find_from(data@, pat@, i as int) == find_from(data@, pat@, 0),
        decreases data@.len() + 1 - i,
    {
        if holds_pattern(data, i, pat) {
            return Some(i);
        }
        assert(pat@.len() > 0) by {
            if pat@.len() == 0 {
                assert(data@.subrange(i as int, i as int) =~= pat@);
            }
        }
        i += 1;
    }
    None
}

/// A byte that ends a banner word: space, NUL or newline.
pub open spec fn is_word_end(b: u8) -> bool {
    b == 0x20 || b == 0 || b == 0x0a
}

/// The first position at or after `from` that holds a word end.
pub open spec fn word_end_from(s: Seq<u8>, from: int) -> Option<int>
    decreases s.len() - from,
{
    if from < 0 || from >= s.len() {
        None
    } else if is_word_end(s[from]) {
        Some(from)
    } else {
        word_end_from(s, from + 1)
    }
}

/// The first word end at or after `from`.
pub fn find_word_end(data: &[u8], from: usize) -> (r: Option<usize>)
    ensures
        match r {
            Some(p) => word_end_from(data@, from as int) == Some(p as int),
            None => word_end_from(data@, from as int) is None,
        },
{
    let mut i = from;
    while i < data.len()
        invariant
            from <= i,
            word_end_from(data@, i as int) == word_end_from(data@, from as int),
        decreases data@.len() - i,
    {
        let b = data[i];
        if b == 0x20 || b == 0 || b == 0x0a {
            return Some(i);
        }
        i += 1;
    }
    None
}

/// Every byte of `b` is ASCII.
pub open spec fn all_ascii(b: Seq<u8>) -> bool {
    forall|i: int| 0 <= i < b.len() ==> #[trigger] b[i] < 0x80
}

/// The characters that the ASCII bytes `b` stand for.
pub open spec fn ascii_chars(b: Seq<u8>) -> Seq<char> {
    b.map_values(|x: u8| x as char)
}

/// ASCII bytes are valid UTF-8 and decode to the characters they stand for.
pub proof fn lemma_ascii_is_utf8(b: Seq<u8>)
    requires
        all_ascii(b),
    ensures
        valid_utf8(b),
        decode_utf8(b) == ascii_chars(b),
{
    let chars = ascii_chars(b);
    assert(is_ascii_chars(chars)) by {
        assert forall|i: int| 0 <= i < chars.len() implies '\0' <= #[trigger] chars[i] <= '\u{7f}' by {
            assert(b[i] < 0x80);
        }
    }
    is_ascii_chars_encode_utf8(chars);
    assert(encode_utf8(chars) =~= b) by {
        assert forall|i: int| 0 <= i < b.len() implies encode_utf8(chars)[i] == b[i] by {
            assert(chars[i] as u8 == encode_utf8(chars)[i]);
            assert(b[i] < 0x80);
        }
    }
    encode_utf8_valid_utf8(chars);
    encode_utf8_decode_utf8(chars);
}

/// The string of the ASCII bytes `bytes`.
pub fn string_from_ascii(bytes: &[u8]) -> (r: String)
    requires
        all_ascii(bytes@),
    ensures
        r@ == ascii_chars(bytes@),
{
    proof {
        lemma_ascii_is_utf8(bytes@);
    }
    let s = str_from_utf8(bytes).unwrap();
    s.to_owned()
}

} // verus!
