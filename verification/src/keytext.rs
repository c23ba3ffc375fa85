//! Bech32 text forms of keys.
//!
//! The encoding itself is the `bech32` crate's. This module holds the rules
//! that the key formats add: which prefix is expected, that a checksum is
//! present and matches, and how failures are told apart. Unlike the crate's
//! own checked decoding it puts no limit on the length of the text, since a
//! hybrid recipient is far longer than a Bitcoin address.

use vstd::prelude::*;
use crate::error::Error;
use crate::text::{copy_range, is_prefix, lower_text, text_equal, upper_text};

verus! {

/// The number of characters that a Bech32 checksum takes.
pub const CHECKSUM_CHARS: usize = 6;

/// A lower-case ASCII letter.
pub open spec fn is_lower(c: char) -> bool {
    'a' <= c && c <= 'z'
}

/// An upper-case ASCII letter.
pub open spec fn is_upper(c: char) -> bool {
    'A' <= c && c <= 'Z'
}

/// A human-readable part that Bech32 admits: 1 to 83 printable ASCII
/// characters, not mixing upper and lower case.
pub open spec fn valid_hrp(hrp: Seq<char>) -> bool {
    &&& 1 <= hrp.len() <= 83
    &&& forall|i: int| 0 <= i < hrp.len() ==> '!' <= #[trigger] hrp[i] && hrp[i] <= '~'
    &&& ((forall|i: int| 0 <= i < hrp.len() ==> !is_lower(#[trigger] hrp[i]))
        || (forall|i: int| 0 <= i < hrp.len() ==> !is_upper(#[trigger] hrp[i])))
}

/// A byte that is a character of the Bech32 data alphabet, in either case:
/// a digit other than `1`, or a letter other than `b`, `i` and `o`.
pub open spec fn is_data_char(b: u8) -> bool {
    let c = if 65 <= b <= 90 {
        (b + 32) as u8
    } else {
        b
    };
    (48 <= c <= 57 && c != 49) || (97 <= c <= 122 && c != 98 && c != 105 && c != 111)
}

/// Every byte is a character of the Bech32 data alphabet.
pub open spec fn all_data_chars(data: Seq<u8>) -> bool {
    forall|i: int| 0 <= i < data.len() ==> is_data_char(#[trigger] data[i])
}

/// The human-readable part and the data part (as ASCII bytes, checksum
/// included) into which `bech32` splits a text, when the text is well formed.
pub uninterp spec fn hrpstring_parts(text: Seq<char>) -> Option<(Seq<char>, Seq<u8>)>;

/// Whether the Bech32 checksum over a human-readable part and a data part
/// (checksum included) leaves the residue that the format asks for.
pub uninterp spec fn checksum_matches(hrp: Seq<char>, data: Seq<u8>) -> bool;

/// The bytes that a run of data characters stands for, five bits a character.
pub uninterp spec fn base32_bytes(data: Seq<u8>) -> Seq<u8>;

/// The lower-case Bech32 text for a human-readable part and a payload.
pub uninterp spec fn bech32_text(hrp: Seq<char>, payload: Seq<u8>) -> Seq<char>;

/// What decoding a key text gives: the payload, or the first rule it breaks.
pub open spec fn spec_decode(expected_hrp: Seq<char>, text: Seq<char>) -> Result<Seq<u8>, Error> {
    match hrpstring_parts(text) {
        None => Err(Error::MalformedBech32),
        Some((hrp, data)) => {
            if hrp != expected_hrp {
                Err(Error::WrongPrefix)
            } else if data.len() < CHECKSUM_CHARS {
                Err(Error::MissingChecksum)
            } else if !checksum_matches(hrp, data) {
                Err(Error::BadChecksum)
            } else {
                Ok(base32_bytes(data.subrange(0, data.len() - CHECKSUM_CHARS)))
            }
        },
    }
}

/// Decoding `text` under `expected_hrp` succeeds and gives `payload`.
pub open spec fn decodes_to(expected_hrp: Seq<char>, text: Seq<char>, payload: Seq<u8>) -> bool {
    spec_decode(expected_hrp, text) == Ok::<Seq<u8>, Error>(payload)
}

/// `bech32::primitives::decode::UncheckedHrpstring::new`, with `hrp` and
/// `data_part_ascii` read off the result. The crate accepts a text that has
/// a separator `1`, a valid human-readable part before it and only data
/// characters after it, in one case throughout; it does not look at the
/// checksum.
#[verifier::external_body]
fn split_hrpstring(text: &str) -> (parts: Option<(String, Vec<u8>)>)
    ensures
        match parts {
            Some((hrp, data)) => {
                &&& hrpstring_parts(text@) == Some((hrp@, data@))
                &&& valid_hrp(hrp@)
                &&& all_data_chars(data@)
            },
            None => hrpstring_parts(text@) is None,
        },
{
    match ::bech32::primitives::decode::UncheckedHrpstring::new(text) {
        Ok(parsed) => Some((parsed.hrp().as_str().to_owned(), parsed.data_part_ascii().to_vec())),
        Err(_) => None,
    }
}

/// `bech32::primitives::checksum::Engine` for the `Bech32` checksum: fed the
/// human-readable part and then each data character, it ends on the target
/// residue exactly when the checksum at the end of the data part is right.
#[verifier::external_body]
fn checksum_ok(hrp: &str, data: &[u8]) -> (ok: bool)
    requires
        valid_hrp(hrp@),
        all_data_chars(data@),
    ensures
        ok == checksum_matches(hrp@, data@),
{
    let mut engine = ::bech32::primitives::checksum::Engine::<::bech32::Bech32>::new();
    engine.input_hrp(::bech32::Hrp::parse_unchecked(hrp));
    for byte in data.iter() {
        engine.input_fe(::bech32::Fe32::from_char_unchecked(*byte));
    }
    engine.residue() == &<::bech32::Bech32 as ::bech32::Checksum>::TARGET_RESIDUE
}

/// `bech32::Fe32IterExt::fes_to_bytes` over the data characters: regroups
/// their five-bit values into bytes and drops trailing bits that fill no byte.
#[verifier::external_body]
fn data_to_bytes(data: &[u8]) -> (bytes: Vec<u8>)
    requires
        all_data_chars(data@),
    ensures
        bytes@ == base32_bytes(data@),
{
    ::bech32::Fe32IterExt::fes_to_bytes(
        data.iter().map(|byte| ::bech32::Fe32::from_char_unchecked(*byte)),
    ).collect()
}

/// `bech32::Fe32IterExt::with_checksum` and `chars` over the payload's
/// five-bit groups: the lower-case text of human-readable part, separator,
/// data and `Bech32` checksum. The text holds no upper-case letter and
/// begins with the human-readable part in lower case. As the crate documents for its encoding and decoding, the
/// text decodes to the payload again; so does its upper-case form, under the
/// upper-case human-readable part.
#[verifier::external_body]
pub(crate) fn encode_chars(hrp: &str, payload: &[u8]) -> (text: String)
    requires
        valid_hrp(hrp@),
    ensures
        text@ == bech32_text(hrp@, payload@),
        text@ == lower_text(text@),
        is_prefix(lower_text(hrp@), text@),
        decodes_to(lower_text(hrp@), text@, payload@),
        decodes_to(upper_text(hrp@), upper_text(text@), payload@),
{
    let parsed = ::bech32::Hrp::parse_unchecked(hrp);
    let fes = ::bech32::ByteIterExt::bytes_to_fes(payload.iter().copied());
    ::bech32::Fe32IterExt::with_checksum::<::bech32::Bech32>(fes, &parsed).chars().collect()
}

/// Decodes a key text: the human-readable part must be `expected_hrp`
/// exactly, and a checksum must be present and match.
pub fn decode(expected_hrp: &str, text: &str) -> (payload: Result<Vec<u8>, Error>)
    ensures
        match payload {
            Ok(bytes) => decodes_to(expected_hrp@, text@, bytes@),
            Err(e) => spec_decode(expected_hrp@, text@) == Err::<Seq<u8>, Error>(e),
        },
{
    match split_hrpstring(text) {
        None => Err(Error::MalformedBech32),
        Some((hrp, data)) => {
            if !text_equal(hrp.as_str(), expected_hrp) {
                return Err(Error::WrongPrefix);
            }
            if data.len() < CHECKSUM_CHARS {
                return Err(Error::MissingChecksum);
            }
            if !checksum_ok(hrp.as_str(), data.as_slice()) {
                return Err(Error::BadChecksum);
            }
            let body = copy_range(data.as_slice(), 0, data.len() - CHECKSUM_CHARS);
            Ok(data_to_bytes(body.as_slice()))
        },
    }
}

} // verus!
