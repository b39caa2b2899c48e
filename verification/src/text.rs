//! Ids as text and as the bytes that stand in a key.

use vstd::prelude::*;
use vstd::utf8::{encode_utf8, encode_utf8_decode_utf8, valid_utf8};

verus! {

/// Reads bytes as text with `std::str::from_utf8`, which is not verified here. The contract
/// says what its documentation says: the call succeeds exactly on well-formed UTF-8, and the
/// text it returns is made of the bytes it was given.
#[verifier::external_body]
pub(crate) fn utf8_text<'a>(bytes: &'a [u8]) -> (text: Option<&'a str>)
    ensures
        text.is_some() == valid_utf8(bytes@),
        text matches Some(s) ==> encode_utf8(s@) == bytes@,
{
    std::str::from_utf8(bytes).ok()
}

/// A text, if there is one, as the contracts speak of it.
pub open spec fn text_view(text: Option<&str>) -> Option<Seq<char>> {
    match text {
        Some(s) => Some(s@),
        None => None,
    }
}

/// Whether `part` occurs in `text`.
pub open spec fn has_substring(text: Seq<char>, part: Seq<char>) -> bool {
    exists|i: int|
        0 <= i && i + part.len() <= text.len() && #[trigger] text.subrange(i, i + part.len())
            == part
}

/// Calls `str::contains` of the standard library with a text as the pattern: it says
/// whether the pattern occurs in the text.
#[verifier::external_body]
pub(crate) fn contains_text(text: &str, part: &str) -> (r: bool)
    ensures
        r == has_substring(text@, part@),
{
    text.contains(part)
}

/// The bytes of `s` as an id of their own, or the empty id where they are not text.
pub open spec fn text_or_empty(s: Seq<u8>) -> Seq<u8> {
    if valid_utf8(s) {
        s
    } else {
        Seq::empty()
    }
}

/// The text in `bytes`, or the empty text where they are not well-formed.
pub fn utf8_text_or_empty<'a>(bytes: &'a [u8]) -> (text: &'a str)
    ensures
        encode_utf8(text@) == text_or_empty(bytes@),
{
    match utf8_text(bytes) {
        Some(s) => s,
        None => {
            let empty = "";
            proof {
                reveal_strlit("");
                assert(empty@ =~= Seq::<char>::empty());
                assert(encode_utf8(Seq::<char>::empty()) =~= Seq::<u8>::empty());
            }
            empty
        },
    }
}

/// Whether two texts are the same, compared byte by byte.
pub fn same_text(a: &str, b: &str) -> (same: bool)
    ensures
        same == (a@ == b@),
{
    let x = a.as_bytes();
    let y = b.as_bytes();
    proof {
        encode_utf8_decode_utf8(a@);
        encode_utf8_decode_utf8(b@);
    }
    if x.len() != y.len() {
        return false;
    }
    let mut i: usize = 0;
    while i < x.len()
        invariant
            x@ == encode_utf8(a@),
            y@ == encode_utf8(b@),
            x@.len() == y@.len(),
            i <= x@.len(),
            forall|j: int| 0 <= j < i ==> x@[j] == y@[j],
        decreases x@.len() - i,
    {
        if x[i] != y[i] {
            return false;
        }
        i += 1;
    }
    assert(x@ =~= y@);
    true
}

} // verus!
