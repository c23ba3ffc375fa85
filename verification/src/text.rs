//! Small operations on text and bytes that the other modules share.

use vstd::prelude::*;
use vstd::utf8::*;

verus! {

/// `prefix` is the beginning of `text`.
pub open spec fn is_prefix(prefix: Seq<char>, text: Seq<char>) -> bool {
    prefix.len() <= text.len() && text.subrange(0, prefix.len() as int) == prefix
}

/// The upper-case form of an ASCII letter; every other character unchanged.
pub open spec fn upper_char(c: char) -> char {
    if 'a' <= c && c <= 'z' {
        ((c as u8) - 32) as char
    } else {
        c
    }
}

/// The text with every ASCII lower-case letter replaced by its upper-case form.
pub open spec fn upper_text(text: Seq<char>) -> Seq<char> {
    Seq::new(text.len(), |i: int| upper_char(text[i]))
}

/// The lower-case form of an ASCII letter; every other character unchanged.
pub open spec fn lower_char(c: char) -> char {
    if 'A' <= c && c <= 'Z' {
        ((c as u8) + 32) as char
    } else {
        c
    }
}

/// The text with every ASCII upper-case letter replaced by its lower-case form.
pub open spec fn lower_text(text: Seq<char>) -> Seq<char> {
    Seq::new(text.len(), |i: int| lower_char(text[i]))
}

/// `str::starts_with` with a string pattern: true exactly when the pattern
/// is a prefix of the text.
#[verifier::external_body]
pub(crate) fn starts_with(text: &str, prefix: &str) -> (found: bool)
    ensures
        found == is_prefix(prefix@, text@),
{
    text.starts_with(prefix)
}

/// `str::to_ascii_uppercase`: maps the ASCII letters `a` to `z` to `A` to `Z`
/// and leaves every other character as it is.
#[verifier::external_body]
pub(crate) fn to_ascii_uppercase(text: &str) -> (upper: String)
    ensures
        upper@ == upper_text(text@),
{
    text.to_ascii_uppercase()
}

/// `String::from_utf8`: the string that the bytes encode, when they are
/// valid UTF-8, and nothing otherwise.
#[verifier::external_body]
pub(crate) fn string_from_utf8(bytes: Vec<u8>) -> (text: Option<String>)
    ensures
        text is Some <==> valid_utf8(bytes@),
        text matches Some(s) ==> s@ == decode_utf8(bytes@),
{
    String::from_utf8(bytes).ok()
}

/// Whether two byte slices hold the same bytes.
pub fn bytes_equal(left: &[u8], right: &[u8]) -> (same: bool)
    ensures
        same == (left@ == right@),
{
    if left.len() != right.len() {
        return false;
    }
    let mut i: usize = 0;
    while i < left.len()
        invariant
            i <= left.len(),
            left.len() == right.len(),
            forall|j: int| 0 <= j < i ==> left@[j] == right@[j],
        decreases left.len() - i,
    {
        if left[i] != right[i] {
            return false;
        }
        i = i + 1;
    }
    assert(left@ =~= right@);
    true
}

/// Whether two texts hold the same characters.
pub fn text_equal(left: &str, right: &str) -> (same: bool)
    ensures
        same == (left@ == right@),
{
    let same = bytes_equal(left.as_bytes(), right.as_bytes());
    proof {
        encode_utf8_decode_utf8(left@);
        encode_utf8_decode_utf8(right@);
    }
    same
}

/// A copy of the bytes of a slice.
pub fn copy_bytes(bytes: &[u8]) -> (copy: Vec<u8>)
    ensures
        copy@ == bytes@,
{
    let mut copy: Vec<u8> = Vec::new();
    let mut i: usize = 0;
    while i < bytes.len()
        invariant
            i <= bytes.len(),
            copy@ == bytes@.subrange(0, i as int),
        decreases bytes.len() - i,
    {
        copy.push(bytes[i]);
        assert(copy@ =~= bytes@.subrange(0, i + 1));
        i = i + 1;
    }
    assert(bytes@.subrange(0, bytes@.len() as int) =~= bytes@);
    copy
}

/// A copy of the bytes of a slice from index `from` up to, not including, `to`.
pub fn copy_range(bytes: &[u8], from: usize, to: usize) -> (copy: Vec<u8>)
    requires
        from <= to <= bytes@.len(),
    ensures
        copy@ == bytes@.subrange(from as int, to as int),
{
    let mut copy: Vec<u8> = Vec::new();
    let mut i: usize = from;
    while i < to
        invariant
            from <= i <= to <= bytes@.len(),
            copy@ == bytes@.subrange(from as int, i as int),
        decreases to - i,
    {
        copy.push(bytes[i]);
        assert(copy@ =~= bytes@.subrange(from as int, i + 1));
        i = i + 1;
    }
    copy
}

/// The bytes of a slice as an array, when the slice has the array's length.
pub fn array_of<const N: usize>(bytes: &[u8]) -> (array: [u8; N])
    requires
        bytes@.len() == N,
    ensures
        array@ == bytes@,
{
    let mut array = [0u8; N];
    let mut i: usize = 0;
    while i < N
        invariant
            i <= N,
            bytes@.len() == N,
            forall|j: int| 0 <= j < i ==> array@[j] == bytes@[j],
        decreases N - i,
    {
        array[i] = bytes[i];
        i = i + 1;
    }
    assert(array@ =~= bytes@);
    array
}

/// Upper-casing a text upper-cases each of its prefixes.
pub proof fn lemma_upper_prefix(prefix: Seq<char>, text: Seq<char>)
    requires
        is_prefix(prefix, text),
    ensures
        is_prefix(upper_text(prefix), upper_text(text)),
{
    assert(upper_text(text).subrange(0, prefix.len() as int) =~= upper_text(
        text.subrange(0, prefix.len() as int),
    ));
}

} // verus!
