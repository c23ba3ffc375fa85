//! Reading a vault file back from its bytes.
//!
//! The reader accepts exactly the encodings that the writer produces: every
//! head in its shortest form, the items in their fixed order, the
//! identifiers ascending, and nothing after the last item.

use vstd::prelude::*;
use vstd::utf8::*;
use crate::codec::{
    models_of, optional_bytes_model, spec_bytes_item, spec_entries, spec_entry, spec_envelope_item, spec_file, spec_head,
    spec_kind_number, spec_optional_bytes, spec_optional_envelope, spec_record_item, spec_secrets,
    spec_text_item, VaultFile, VaultFileModel, MAJOR_ARRAY, MAJOR_BYTES, MAJOR_MAP, MAJOR_TEXT, MAJOR_UINT,
    NULL_BYTE,
};
use crate::keyset::{id_less, id_lt, ids_sorted, lemma_lex_transitive};
use crate::record::{
    envelope_model, KeyMetadata, KeyMetadataModel, KeyPair, KeyPairModel, KeyType, Timestamp,
};
use crate::sealbox::{EncryptedSecret, EncryptedSecretModel};
use crate::text::{copy_range, string_from_utf8};

verus! {

/// The head at the start of some bytes: major type, argument and the bytes
/// after the head. Nothing when there is no head in shortest form.
#[verifier::opaque]
pub open spec fn spec_parse_head(s: Seq<u8>) -> Option<(u8, u64, Seq<u8>)> {
    if s.len() == 0 {
        None
    } else {
        let major = s[0] / 32;
        let info = s[0] % 32;
        if info < 24 {
            Some((major, info as u64, s.skip(1)))
        } else if info == 24 {
            if s.len() < 2 || s[1] < 24 {
                None
            } else {
                Some((major, s[1] as u64, s.skip(2)))
            }
        } else if info == 25 {
            if s.len() < 3 || s[1] == 0 {
                None
            } else {
                Some((major, (s[1] * 0x100 + s[2]) as u64, s.skip(3)))
            }
        } else if info == 26 {
            if s.len() < 5 || (s[1] == 0 && s[2] == 0) {
                None
            } else {
                Some(
                    (
                        major,
                        (s[1] * 0x100_0000 + s[2] * 0x1_0000 + s[3] * 0x100 + s[4]) as u64,
                        s.skip(5),
                    ),
                )
            }
        } else if info == 27 {
            if s.len() < 9 || (s[1] == 0 && s[2] == 0 && s[3] == 0 && s[4] == 0) {
                None
            } else {
                Some(
                    (
                        major,
                        (s[1] * 0x100_0000_0000_0000 + s[2] * 0x1_0000_0000_0000 + s[3]
                            * 0x100_0000_0000 + s[4] * 0x1_0000_0000 + s[5] * 0x100_0000 + s[6]
                            * 0x1_0000 + s[7] * 0x100 + s[8]) as u64,
                        s.skip(9),
                    ),
                )
            }
        } else {
            None
        }
    }
}

/// The bytes of a two-byte argument put the argument together again.
proof fn lemma_width_2(n: u64)
    by (bit_vector)
    requires
        0x100 <= n < 0x1_0000,
    ensures
        (n / 0x100) * 0x100 + (n % 0x100) == n,
        0 < n / 0x100 < 0x100,
{
}

/// The bytes of a four-byte argument put the argument together again.
proof fn lemma_width_4(n: u64)
    by (bit_vector)
    requires
        0x1_0000 <= n < 0x1_0000_0000,
    ensures
        (n / 0x100_0000) * 0x100_0000 + (n / 0x1_0000 % 0x100) * 0x1_0000 + (n / 0x100 % 0x100)
            * 0x100 + (n % 0x100) == n,
        n / 0x100_0000 < 0x100,
        n / 0x100_0000 != 0 || n / 0x1_0000 % 0x100 != 0,
{
}

/// The bytes of an eight-byte argument put the argument together again.
proof fn lemma_width_8(n: u64)
    by (bit_vector)
    requires
        0x1_0000_0000 <= n,
    ensures
        (n / 0x100_0000_0000_0000) * 0x100_0000_0000_0000 + (n / 0x1_0000_0000_0000 % 0x100)
            * 0x1_0000_0000_0000 + (n / 0x100_0000_0000 % 0x100) * 0x100_0000_0000 + (n
            / 0x1_0000_0000 % 0x100) * 0x1_0000_0000 + (n / 0x100_0000 % 0x100) * 0x100_0000 + (n
            / 0x1_0000 % 0x100) * 0x1_0000 + (n / 0x100 % 0x100) * 0x100 + (n % 0x100) == n,
        n / 0x100_0000_0000_0000 < 0x100,
        n / 0x100_0000_0000_0000 != 0 || n / 0x1_0000_0000_0000 % 0x100 != 0 || n
            / 0x100_0000_0000 % 0x100 != 0 || n / 0x1_0000_0000 % 0x100 != 0,
{
}

/// The first byte of a head holds the major type and the form.
proof fn lemma_first_byte(major: u8, info: u8)
    by (bit_vector)
    requires
        major < 8,
        info < 32,
    ensures
        (major * 32 + info) < 256,
        ((major * 32 + info) as u8) / 32 == major,
        ((major * 32 + info) as u8) % 32 == info,
{
}

/// Reading the head that was written gives back its major type and its
/// argument, and leaves what followed.
pub proof fn lemma_parse_head(major: u8, n: u64, rest: Seq<u8>)
    requires
        major < 8,
    ensures
        spec_parse_head(spec_head(major, n) + rest) == Some((major, n, rest)),
{
    reveal(spec_head);
    reveal(spec_parse_head);
    let head = spec_head(major, n);
    let s = head + rest;
    assert(s[0] == head[0]);
    if n < 24 {
        lemma_first_byte(major, n as u8);
        assert(s.skip(1) =~= rest);
    } else if n < 0x100 {
        lemma_first_byte(major, 24);
        assert(s[1] == head[1]);
        assert(s.skip(2) =~= rest);
    } else if n < 0x1_0000 {
        lemma_first_byte(major, 25);
        lemma_width_2(n);
        assert(s[1] == head[1] && s[2] == head[2]);
        assert(s.skip(3) =~= rest);
    } else if n < 0x1_0000_0000 {
        lemma_first_byte(major, 26);
        lemma_width_4(n);
        assert(s[1] == head[1] && s[2] == head[2] && s[3] == head[3] && s[4] == head[4]);
        assert(s.skip(5) =~= rest);
    } else {
        lemma_first_byte(major, 27);
        lemma_width_8(n);
        assert(s[1] == head[1] && s[2] == head[2] && s[3] == head[3] && s[4] == head[4]);
        assert(s[5] == head[5] && s[6] == head[6] && s[7] == head[7] && s[8] == head[8]);
        assert(s.skip(9) =~= rest);
    }
}

/// Reads the head at a position.
pub fn read_head(buf: &[u8], pos: usize) -> (head: Option<(u8, u64, usize)>)
    requires
        pos <= buf@.len(),
    ensures
        match head {
            Some((major, n, next)) => {
                &&& pos < next <= buf@.len()
                &&& major < 8
                &&& spec_parse_head(buf@.skip(pos as int)) == Some(
                    (major, n, buf@.skip(next as int)),
                )
            },
            None => spec_parse_head(buf@.skip(pos as int)) is None,
        },
{
    proof {
        reveal(spec_parse_head);
    }
    let len = buf.len();
    if pos >= len {
        return None;
    }
    let ghost s = buf@.skip(pos as int);
    let first = buf[pos];
    assert(s[0] == first);
    let major = first / 32;
    let info = first % 32;
    let left = len - pos;
    if info < 24 {
        assert(s.skip(1) =~= buf@.skip(pos + 1));
        Some((major, info as u64, pos + 1))
    } else if info == 24 {
        if left < 2 {
            return None;
        }
        assert(s[1] == buf@[pos + 1]);
        let n = buf[pos + 1] as u64;
        if n < 24 {
            return None;
        }
        assert(s.skip(2) =~= buf@.skip(pos + 2));
        Some((major, n, pos + 2))
    } else if info == 25 {
        if left < 3 {
            return None;
        }
        assert(s[1] == buf@[pos + 1] && s[2] == buf@[pos + 2]);
        if buf[pos + 1] == 0 {
            return None;
        }
        let n = (buf[pos + 1] as u64) * 0x100 + (buf[pos + 2] as u64);
        assert(s.skip(3) =~= buf@.skip(pos + 3));
        Some((major, n, pos + 3))
    } else if info == 26 {
        if left < 5 {
            return None;
        }
        assert(s[1] == buf@[pos + 1] && s[2] == buf@[pos + 2] && s[3] == buf@[pos + 3] && s[4]
            == buf@[pos + 4]);
        if buf[pos + 1] == 0 && buf[pos + 2] == 0 {
            return None;
        }
        let n = (buf[pos + 1] as u64) * 0x100_0000 + (buf[pos + 2] as u64) * 0x1_0000 + (buf[pos
            + 3] as u64) * 0x100 + (buf[pos + 4] as u64);
        assert(s.skip(5) =~= buf@.skip(pos + 5));
        Some((major, n, pos + 5))
    } else if info == 27 {
        if left < 9 {
            return None;
        }
        assert(s[1] == buf@[pos + 1] && s[2] == buf@[pos + 2] && s[3] == buf@[pos + 3] && s[4]
            == buf@[pos + 4]);
        assert(s[5] == buf@[pos + 5] && s[6] == buf@[pos + 6] && s[7] == buf@[pos + 7] && s[8]
            == buf@[pos + 8]);
        if buf[pos + 1] == 0 && buf[pos + 2] == 0 && buf[pos + 3] == 0 && buf[pos + 4] == 0 {
            return None;
        }
        let n = (buf[pos + 1] as u64) * 0x100_0000_0000_0000 + (buf[pos + 2] as u64)
            * 0x1_0000_0000_0000 + (buf[pos + 3] as u64) * 0x100_0000_0000 + (buf[pos + 4] as u64)
            * 0x1_0000_0000 + (buf[pos + 5] as u64) * 0x100_0000 + (buf[pos + 6] as u64) * 0x1_0000
            + (buf[pos + 7] as u64) * 0x100 + (buf[pos + 8] as u64);
        assert(s.skip(9) =~= buf@.skip(pos + 9));
        Some((major, n, pos + 9))
    } else {
        None
    }
}

/// The byte string at the start of some bytes, and the bytes after it.
pub open spec fn spec_parse_bytes(s: Seq<u8>) -> Option<(Seq<u8>, Seq<u8>)> {
    match spec_parse_head(s) {
        Some((major, n, rest)) => if major == MAJOR_BYTES && n <= rest.len() {
            Some((rest.take(n as int), rest.skip(n as int)))
        } else {
            None
        },
        None => None,
    }
}

/// The text string at the start of some bytes, and the bytes after it.
pub open spec fn spec_parse_text(s: Seq<u8>) -> Option<(Seq<char>, Seq<u8>)> {
    match spec_parse_head(s) {
        Some((major, n, rest)) => if major == MAJOR_TEXT && n <= rest.len() && valid_utf8(
            rest.take(n as int),
        ) {
            Some((decode_utf8(rest.take(n as int)), rest.skip(n as int)))
        } else {
            None
        },
        None => None,
    }
}

/// The unsigned number at the start of some bytes, and the bytes after it.
pub open spec fn spec_parse_uint(s: Seq<u8>) -> Option<(u64, Seq<u8>)> {
    match spec_parse_head(s) {
        Some((major, n, rest)) => if major == MAJOR_UINT {
            Some((n, rest))
        } else {
            None
        },
        None => None,
    }
}

/// The envelope at the start of some bytes, and the bytes after it.
pub open spec fn spec_parse_envelope(s: Seq<u8>) -> Option<(EncryptedSecretModel, Seq<u8>)> {
    match spec_parse_head(s) {
        Some((major, n, r0)) => if major == MAJOR_ARRAY && n == 2 {
            match spec_parse_bytes(r0) {
                Some((nonce, r1)) => match spec_parse_bytes(r1) {
                    Some((ciphertext, r2)) => Some((EncryptedSecretModel { nonce, ciphertext }, r2)),
                    None => None,
                },
                None => None,
            }
        } else {
            None
        },
        None => None,
    }
}

/// The envelope or null at the start of some bytes, and the bytes after it.
pub open spec fn spec_parse_optional_envelope(s: Seq<u8>) -> Option<
    (Option<EncryptedSecretModel>, Seq<u8>),
> {
    if s.len() > 0 && s[0] == NULL_BYTE {
        Some((None, s.skip(1)))
    } else {
        match spec_parse_envelope(s) {
            Some((envelope, rest)) => Some((Some(envelope), rest)),
            None => None,
        }
    }
}

/// The byte string or null at the start of some bytes, and the bytes after.
pub open spec fn spec_parse_optional_bytes(s: Seq<u8>) -> Option<(Option<Seq<u8>>, Seq<u8>)> {
    if s.len() > 0 && s[0] == NULL_BYTE {
        Some((None, s.skip(1)))
    } else {
        match spec_parse_bytes(s) {
            Some((bytes, rest)) => Some((Some(bytes), rest)),
            None => None,
        }
    }
}

/// The kind that a number stands for.
pub open spec fn spec_kind_from(n: u64) -> Option<KeyType> {
    if n == 0 {
        Some(KeyType::Public)
    } else if n == 1 {
        Some(KeyType::Private)
    } else {
        None
    }
}

/// The record at the start of some bytes, stored under `id`, and the bytes
/// after it.
pub open spec fn spec_parse_record(id: Seq<char>, s: Seq<u8>) -> Option<
    (KeyMetadataModel, Seq<u8>),
> {
    match spec_parse_head(s) {
        Some((major, n, r0)) => if major == MAJOR_ARRAY && n == 6 {
            match spec_parse_text(r0) {
                Some((name, r1)) => match spec_parse_uint(r1) {
                    Some((kind, r2)) => match spec_parse_uint(r2) {
                        Some((secs, r3)) => match spec_parse_uint(r3) {
                            Some((nanos, r4)) => match spec_parse_text(r4) {
                                Some((public, r5)) => match spec_parse_optional_envelope(r5) {
                                    Some((private, r6)) => if spec_kind_from(kind) is Some && nanos
                                        <= u32::MAX {
                                        Some(
                                            (
                                                KeyMetadataModel {
                                                    id,
                                                    name,
                                                    key_type: spec_kind_from(kind)->0,
                                                    date_created: Timestamp {
                                                        secs,
                                                        nanos: nanos as u32,
                                                    },
                                                    contents: KeyPairModel { public, private },
                                                },
                                                r6,
                                            ),
                                        )
                                    } else {
                                        None
                                    },
                                    None => None,
                                },
                                None => None,
                            },
                            None => None,
                        },
                        None => None,
                    },
                    None => None,
                },
                None => None,
            }
        } else {
            None
        },
        None => None,
    }
}

/// The map entry at the start of some bytes, and the bytes after it.
pub open spec fn spec_parse_entry(s: Seq<u8>) -> Option<(KeyMetadataModel, Seq<u8>)> {
    match spec_parse_text(s) {
        Some((id, rest)) => spec_parse_record(id, rest),
        None => None,
    }
}

/// `count` map entries at the start of some bytes, appended to the entries
/// read so far, and the bytes after them.
pub open spec fn spec_parse_entries(s: Seq<u8>, count: nat, done: Seq<KeyMetadataModel>) -> Option<
    (Seq<KeyMetadataModel>, Seq<u8>),
>
    decreases count,
{
    if count == 0 {
        Some((done, s))
    } else {
        match spec_parse_entry(s) {
            Some((key, rest)) => spec_parse_entries(rest, (count - 1) as nat, done.push(key)),
            None => None,
        }
    }
}

/// The map of keys at the start of some bytes, and the bytes after it.
/// The identifiers must ascend.
pub open spec fn spec_parse_secrets(s: Seq<u8>) -> Option<(Seq<KeyMetadataModel>, Seq<u8>)> {
    match spec_parse_head(s) {
        Some((major, n, rest)) => if major == MAJOR_MAP {
            match spec_parse_entries(rest, n as nat, Seq::empty()) {
                Some((keys, after)) => if ids_sorted(keys) {
                    Some((keys, after))
                } else {
                    None
                },
                None => None,
            }
        } else {
            None
        },
        None => None,
    }
}

/// The vault file that some bytes encode, when they encode one.
pub open spec fn spec_parse_file(s: Seq<u8>) -> Option<VaultFileModel> {
    match spec_parse_head(s) {
        Some((major, n, r0)) => if major == MAJOR_ARRAY && n == 4 {
            match spec_parse_bytes(r0) {
                Some((salt, r1)) => match spec_parse_envelope(r1) {
                    Some((hello, r2)) => match spec_parse_secrets(r2) {
                        Some((secrets, r3)) => match spec_parse_optional_bytes(r3) {
                            Some((hmac, r4)) => if r4.len() == 0 {
                                Some(VaultFileModel { salt, hello, secrets, hmac })
                            } else {
                                None
                            },
                            None => None,
                        },
                        None => None,
                    },
                    None => None,
                },
                None => None,
            }
        } else {
            None
        },
        None => None,
    }
}

/// The lengths of an envelope fit the heads that carry them.
pub open spec fn envelope_fits(envelope: EncryptedSecretModel) -> bool {
    envelope.nonce.len() <= u64::MAX && envelope.ciphertext.len() <= u64::MAX
}

/// The lengths of a record fit the heads that carry them.
pub open spec fn key_fits(key: KeyMetadataModel) -> bool {
    &&& encode_utf8(key.id).len() <= u64::MAX
    &&& encode_utf8(key.name).len() <= u64::MAX
    &&& encode_utf8(key.contents.public).len() <= u64::MAX
    &&& key.contents.private matches Some(e) ==> envelope_fits(e)
}

/// A vault file that can be written: every length fits its head and the
/// identifiers of the keys ascend.
pub open spec fn file_fits(file: VaultFileModel) -> bool {
    &&& file.salt.len() <= u64::MAX
    &&& envelope_fits(file.hello)
    &&& file.secrets.len() <= u64::MAX
    &&& forall|i: int| 0 <= i < file.secrets.len() ==> key_fits(#[trigger] file.secrets[i])
    &&& ids_sorted(file.secrets)
    &&& file.hmac matches Some(tag) ==> tag.len() <= u64::MAX
}

/// Reading a written byte string gives it back.
pub proof fn lemma_parse_bytes(bytes: Seq<u8>, rest: Seq<u8>)
    requires
        bytes.len() <= u64::MAX,
    ensures
        spec_parse_bytes(spec_bytes_item(bytes) + rest) == Some((bytes, rest)),
{
    let n = bytes.len() as u64;
    assert(spec_bytes_item(bytes) + rest =~= spec_head(MAJOR_BYTES, n) + (bytes + rest));
    lemma_parse_head(MAJOR_BYTES, n, bytes + rest);
    assert((bytes + rest).take(n as int) =~= bytes);
    assert((bytes + rest).skip(n as int) =~= rest);
}

/// Reading a written text string gives it back.
pub proof fn lemma_parse_text(text: Seq<char>, rest: Seq<u8>)
    requires
        encode_utf8(text).len() <= u64::MAX,
    ensures
        spec_parse_text(spec_text_item(text) + rest) == Some((text, rest)),
{
    let bytes = encode_utf8(text);
    let n = bytes.len() as u64;
    assert(spec_text_item(text) + rest =~= spec_head(MAJOR_TEXT, n) + (bytes + rest));
    lemma_parse_head(MAJOR_TEXT, n, bytes + rest);
    assert((bytes + rest).take(n as int) =~= bytes);
    assert((bytes + rest).skip(n as int) =~= rest);
    encode_utf8_valid_utf8(text);
    encode_utf8_decode_utf8(text);
}

/// Reading a written number gives it back.
pub proof fn lemma_parse_uint(n: u64, rest: Seq<u8>)
    ensures
        spec_parse_uint(spec_head(MAJOR_UINT, n) + rest) == Some((n, rest)),
{
    lemma_parse_head(MAJOR_UINT, n, rest);
}

/// Reading a written envelope gives it back.
pub proof fn lemma_parse_envelope(envelope: EncryptedSecretModel, rest: Seq<u8>)
    requires
        envelope_fits(envelope),
    ensures
        spec_parse_envelope(spec_envelope_item(envelope) + rest) == Some((envelope, rest)),
{
    let a = spec_bytes_item(envelope.nonce);
    let b = spec_bytes_item(envelope.ciphertext);
    assert(spec_envelope_item(envelope) + rest =~= spec_head(MAJOR_ARRAY, 2) + (a + (b + rest)));
    lemma_parse_head(MAJOR_ARRAY, 2, a + (b + rest));
    lemma_parse_bytes(envelope.nonce, b + rest);
    lemma_parse_bytes(envelope.ciphertext, rest);
}

/// An envelope never starts with the null byte.
pub proof fn lemma_envelope_not_null(envelope: EncryptedSecretModel, rest: Seq<u8>)
    ensures
        (spec_envelope_item(envelope) + rest).len() > 0,
        (spec_envelope_item(envelope) + rest)[0] != NULL_BYTE,
{
    reveal(spec_head);
    let head = spec_head(MAJOR_ARRAY, 2);
    assert(head[0] == 0x82);
    assert((spec_envelope_item(envelope) + rest)[0] == head[0]);
}

/// A byte string never starts with the null byte.
pub proof fn lemma_bytes_not_null(bytes: Seq<u8>, rest: Seq<u8>)
    ensures
        (spec_bytes_item(bytes) + rest).len() > 0,
        (spec_bytes_item(bytes) + rest)[0] != NULL_BYTE,
{
    reveal(spec_head);
    let n = bytes.len() as u64;
    let head = spec_head(MAJOR_BYTES, n);
    assert(64 <= head[0] <= 91);
    assert((spec_bytes_item(bytes) + rest)[0] == head[0]);
}

/// Reading a written optional envelope gives it back.
pub proof fn lemma_parse_optional_envelope(envelope: Option<EncryptedSecretModel>, rest: Seq<u8>)
    requires
        envelope matches Some(e) ==> envelope_fits(e),
    ensures
        spec_parse_optional_envelope(spec_optional_envelope(envelope) + rest) == Some(
            (envelope, rest),
        ),
{
    match envelope {
        Some(e) => {
            lemma_envelope_not_null(e, rest);
            lemma_parse_envelope(e, rest);
        },
        None => {
            assert((seq![NULL_BYTE] + rest).skip(1) =~= rest);
        },
    }
}

/// Reading a written optional byte string gives it back.
pub proof fn lemma_parse_optional_bytes(bytes: Option<Seq<u8>>, rest: Seq<u8>)
    requires
        bytes matches Some(b) ==> b.len() <= u64::MAX,
    ensures
        spec_parse_optional_bytes(spec_optional_bytes(bytes) + rest) == Some((bytes, rest)),
{
    match bytes {
        Some(b) => {
            lemma_bytes_not_null(b, rest);
            lemma_parse_bytes(b, rest);
        },
        None => {
            assert((seq![NULL_BYTE] + rest).skip(1) =~= rest);
        },
    }
}

/// Reading a written record gives it back.
pub proof fn lemma_parse_record(key: KeyMetadataModel, rest: Seq<u8>)
    requires
        key_fits(key),
    ensures
        spec_parse_record(key.id, spec_record_item(key) + rest) == Some((key, rest)),
{
    let name = spec_text_item(key.name);
    let kind = spec_head(MAJOR_UINT, spec_kind_number(key.key_type));
    let secs = spec_head(MAJOR_UINT, key.date_created.secs);
    let nanos = spec_head(MAJOR_UINT, key.date_created.nanos as u64);
    let public = spec_text_item(key.contents.public);
    let private = spec_optional_envelope(key.contents.private);
    let r6 = rest;
    let r5 = private + r6;
    let r4 = public + r5;
    let r3 = nanos + r4;
    let r2 = secs + r3;
    let r1 = kind + r2;
    let r0 = name + r1;
    assert(spec_record_item(key) + rest =~= spec_head(MAJOR_ARRAY, 6) + r0);
    lemma_parse_head(MAJOR_ARRAY, 6, r0);
    lemma_parse_text(key.name, r1);
    lemma_parse_uint(spec_kind_number(key.key_type), r2);
    lemma_parse_uint(key.date_created.secs, r3);
    lemma_parse_uint(key.date_created.nanos as u64, r4);
    lemma_parse_text(key.contents.public, r5);
    lemma_parse_optional_envelope(key.contents.private, r6);
    assert(spec_kind_from(spec_kind_number(key.key_type)) == Some(key.key_type));
}

/// Reading a written map entry gives it back.
pub proof fn lemma_parse_entry(key: KeyMetadataModel, rest: Seq<u8>)
    requires
        key_fits(key),
    ensures
        spec_parse_entry(spec_entry(key) + rest) == Some((key, rest)),
{
    assert(spec_entry(key) + rest =~= spec_text_item(key.id) + (spec_record_item(key) + rest));
    lemma_parse_text(key.id, spec_record_item(key) + rest);
    lemma_parse_record(key, rest);
}

/// Reading written map entries gives them back, after those read before.
pub proof fn lemma_parse_entries(
    keys: Seq<KeyMetadataModel>,
    rest: Seq<u8>,
    done: Seq<KeyMetadataModel>,
)
    requires
        forall|i: int| 0 <= i < keys.len() ==> key_fits(#[trigger] keys[i]),
    ensures
        spec_parse_entries(spec_entries(keys) + rest, keys.len(), done) == Some(
            (done + keys, rest),
        ),
    decreases keys.len(),
{
    if keys.len() == 0 {
        assert(spec_entries(keys) + rest =~= rest);
        assert(done + keys =~= done);
    } else {
        let tail = keys.skip(1);
        assert(spec_entries(keys) + rest =~= spec_entry(keys[0]) + (spec_entries(tail) + rest));
        lemma_parse_entry(keys[0], spec_entries(tail) + rest);
        assert forall|i: int| 0 <= i < tail.len() implies key_fits(#[trigger] tail[i]) by {
            assert(tail[i] == keys[i + 1]);
        }
        lemma_parse_entries(tail, rest, done.push(keys[0]));
        assert(done.push(keys[0]) + tail =~= done + keys);
    }
}

/// Reading a written map of keys gives it back.
pub proof fn lemma_parse_secrets(keys: Seq<KeyMetadataModel>, rest: Seq<u8>)
    requires
        keys.len() <= u64::MAX,
        forall|i: int| 0 <= i < keys.len() ==> key_fits(#[trigger] keys[i]),
        ids_sorted(keys),
    ensures
        spec_parse_secrets(spec_secrets(keys) + rest) == Some((keys, rest)),
{
    let n = keys.len() as u64;
    assert(spec_secrets(keys) + rest =~= spec_head(MAJOR_MAP, n) + (spec_entries(keys) + rest));
    lemma_parse_head(MAJOR_MAP, n, spec_entries(keys) + rest);
    lemma_parse_entries(keys, rest, Seq::empty());
    assert(Seq::<KeyMetadataModel>::empty() + keys =~= keys);
}

/// Reading a written vault file gives it back.
pub proof fn lemma_parse_file(file: VaultFileModel)
    requires
        file_fits(file),
    ensures
        spec_parse_file(spec_file(file)) == Some(file),
{
    let salt = spec_bytes_item(file.salt);
    let hello = spec_envelope_item(file.hello);
    let secrets = spec_secrets(file.secrets);
    let hmac = spec_optional_bytes(file.hmac);
    let r4 = Seq::<u8>::empty();
    let r3 = hmac + r4;
    let r2 = secrets + r3;
    let r1 = hello + r2;
    let r0 = salt + r1;
    assert(spec_file(file) =~= spec_head(MAJOR_ARRAY, 4) + r0);
    lemma_parse_head(MAJOR_ARRAY, 4, r0);
    lemma_parse_bytes(file.salt, r1);
    lemma_parse_envelope(file.hello, r2);
    lemma_parse_secrets(file.secrets, r3);
    lemma_parse_optional_bytes(file.hmac, r4);
}

/// Two bytes joined into a number split into the same two bytes.
proof fn lemma_join_2(a: u8, b: u8)
    by (bit_vector)
    ensures
        (a * 0x100 + b) / 0x100 == a,
        (a * 0x100 + b) % 0x100 == b,
        a * 0x100 + b < 0x1_0000,
        a != 0 ==> a * 0x100 + b >= 0x100,
{
}

/// Four bytes joined into a number split into the same four bytes.
proof fn lemma_join_4(a: u8, b: u8, c: u8, d: u8)
    by (bit_vector)
    ensures
        (a * 0x100_0000 + b * 0x1_0000 + c * 0x100 + d) / 0x100_0000 == a,
        (a * 0x100_0000 + b * 0x1_0000 + c * 0x100 + d) / 0x1_0000 % 0x100 == b,
        (a * 0x100_0000 + b * 0x1_0000 + c * 0x100 + d) / 0x100 % 0x100 == c,
        (a * 0x100_0000 + b * 0x1_0000 + c * 0x100 + d) % 0x100 == d,
        a * 0x100_0000 + b * 0x1_0000 + c * 0x100 + d < 0x1_0000_0000,
        (a != 0 || b != 0) ==> a * 0x100_0000 + b * 0x1_0000 + c * 0x100 + d >= 0x1_0000,
{
}

/// The upper four of eight bytes joined into a number come out of the
/// number again.
proof fn lemma_join_8_upper(a: u8, b: u8, c: u8, d: u8, low: u32)
    by (bit_vector)
    ensures
        (a * 0x100_0000_0000_0000 + b * 0x1_0000_0000_0000 + c * 0x100_0000_0000 + d
            * 0x1_0000_0000 + low) / 0x100_0000_0000_0000 == a,
        (a * 0x100_0000_0000_0000 + b * 0x1_0000_0000_0000 + c * 0x100_0000_0000 + d
            * 0x1_0000_0000 + low) / 0x1_0000_0000_0000 % 0x100 == b,
        (a * 0x100_0000_0000_0000 + b * 0x1_0000_0000_0000 + c * 0x100_0000_0000 + d
            * 0x1_0000_0000 + low) / 0x100_0000_0000 % 0x100 == c,
        (a * 0x100_0000_0000_0000 + b * 0x1_0000_0000_0000 + c * 0x100_0000_0000 + d
            * 0x1_0000_0000 + low) / 0x1_0000_0000 % 0x100 == d,
        (a * 0x100_0000_0000_0000 + b * 0x1_0000_0000_0000 + c * 0x100_0000_0000 + d
            * 0x1_0000_0000 + low) % 0x1_0000_0000 == low,
        a * 0x100_0000_0000_0000 + b * 0x1_0000_0000_0000 + c * 0x100_0000_0000 + d
            * 0x1_0000_0000 + low <= 0xffff_ffff_ffff_ffff,
        (a != 0 || b != 0 || c != 0 || d != 0) ==> a * 0x100_0000_0000_0000 + b
            * 0x1_0000_0000_0000 + c * 0x100_0000_0000 + d * 0x1_0000_0000 + low
            >= 0x1_0000_0000,
{
}

/// The lower four bytes of a number are those of its remainder by 2^32.
proof fn lemma_low_half(n: u64)
    by (bit_vector)
    ensures
        n / 0x100_0000 % 0x100 == (n % 0x1_0000_0000) / 0x100_0000,
        n / 0x1_0000 % 0x100 == (n % 0x1_0000_0000) / 0x1_0000 % 0x100,
        n / 0x100 % 0x100 == (n % 0x1_0000_0000) / 0x100 % 0x100,
        n % 0x100 == (n % 0x1_0000_0000) % 0x100,
{
}

/// The first byte of a head is its major type and its form put together.
proof fn lemma_split_first(first: u8)
    by (bit_vector)
    ensures
        first / 32 < 8,
        (first / 32) * 32 + first % 32 == first,
{
}

/// A head that was read stands at the start of the bytes exactly as it is
/// written.
pub proof fn lemma_head_sound(s: Seq<u8>)
    requires
        spec_parse_head(s) is Some,
    ensures
        ({
            let (major, n, rest) = spec_parse_head(s)->0;
            major < 8 && s == spec_head(major, n) + rest
        }),
{
    reveal(spec_head);
    reveal(spec_parse_head);
    let (major, n, rest) = spec_parse_head(s)->0;
    let info = s[0] % 32;
    lemma_split_first(s[0]);
    let head = spec_head(major, n);
    if info < 24 {
        assert(s =~= head + rest);
    } else if info == 24 {
        assert(s =~= head + rest);
    } else if info == 25 {
        lemma_join_2(s[1], s[2]);
        assert(s =~= head + rest);
    } else if info == 26 {
        lemma_join_4(s[1], s[2], s[3], s[4]);
        assert(s =~= head + rest);
    } else {
        let low = (s[5] * 0x100_0000 + s[6] * 0x1_0000 + s[7] * 0x100 + s[8]) as u32;
        lemma_join_4(s[5], s[6], s[7], s[8]);
        lemma_join_8_upper(s[1], s[2], s[3], s[4], low);
        lemma_low_half(n);
        assert(n % 0x1_0000_0000 == low);
        assert(s =~= head + rest);
    }
}

/// A byte string that was read stands at the start of the bytes exactly as
/// it is written.
pub proof fn lemma_bytes_sound(s: Seq<u8>)
    requires
        spec_parse_bytes(s) is Some,
    ensures
        ({
            let (bytes, rest) = spec_parse_bytes(s)->0;
            bytes.len() <= u64::MAX && s == spec_bytes_item(bytes) + rest
        }),
{
    lemma_head_sound(s);
    let (major, n, r0) = spec_parse_head(s)->0;
    let (bytes, rest) = spec_parse_bytes(s)->0;
    assert(r0 =~= bytes + rest);
    assert(s =~= spec_bytes_item(bytes) + rest);
}

/// A text string that was read stands at the start of the bytes exactly as
/// it is written.
pub proof fn lemma_text_sound(s: Seq<u8>)
    requires
        spec_parse_text(s) is Some,
    ensures
        ({
            let (text, rest) = spec_parse_text(s)->0;
            encode_utf8(text).len() <= u64::MAX && s == spec_text_item(text) + rest
        }),
{
    lemma_head_sound(s);
    let (major, n, r0) = spec_parse_head(s)->0;
    let (text, rest) = spec_parse_text(s)->0;
    let bytes = r0.take(n as int);
    decode_utf8_encode_utf8(bytes);
    assert(r0 =~= bytes + rest);
    assert(s =~= spec_text_item(text) + rest);
}

/// A number that was read stands at the start of the bytes exactly as it is
/// written.
pub proof fn lemma_uint_sound(s: Seq<u8>)
    requires
        spec_parse_uint(s) is Some,
    ensures
        ({
            let (n, rest) = spec_parse_uint(s)->0;
            s == spec_head(MAJOR_UINT, n) + rest
        }),
{
    lemma_head_sound(s);
}

/// An envelope that was read stands at the start of the bytes exactly as it
/// is written.
pub proof fn lemma_envelope_sound(s: Seq<u8>)
    requires
        spec_parse_envelope(s) is Some,
    ensures
        ({
            let (envelope, rest) = spec_parse_envelope(s)->0;
            envelope_fits(envelope) && s == spec_envelope_item(envelope) + rest
        }),
{
    lemma_head_sound(s);
    let (major, n, r0) = spec_parse_head(s)->0;
    lemma_bytes_sound(r0);
    let (nonce, r1) = spec_parse_bytes(r0)->0;
    lemma_bytes_sound(r1);
    let (envelope, rest) = spec_parse_envelope(s)->0;
    assert(s =~= spec_envelope_item(envelope) + rest);
}

/// An optional envelope that was read stands at the start of the bytes
/// exactly as it is written.
pub proof fn lemma_optional_envelope_sound(s: Seq<u8>)
    requires
        spec_parse_optional_envelope(s) is Some,
    ensures
        ({
            let (envelope, rest) = spec_parse_optional_envelope(s)->0;
            &&& envelope matches Some(e) ==> envelope_fits(e)
            &&& s == spec_optional_envelope(envelope) + rest
        }),
{
    if s.len() > 0 && s[0] == NULL_BYTE {
        assert(s =~= seq![NULL_BYTE] + s.skip(1));
    } else {
        lemma_envelope_sound(s);
    }
}

/// An optional byte string that was read stands at the start of the bytes
/// exactly as it is written.
pub proof fn lemma_optional_bytes_sound(s: Seq<u8>)
    requires
        spec_parse_optional_bytes(s) is Some,
    ensures
        ({
            let (bytes, rest) = spec_parse_optional_bytes(s)->0;
            &&& bytes matches Some(b) ==> b.len() <= u64::MAX
            &&& s == spec_optional_bytes(bytes) + rest
        }),
{
    if s.len() > 0 && s[0] == NULL_BYTE {
        assert(s =~= seq![NULL_BYTE] + s.skip(1));
    } else {
        lemma_bytes_sound(s);
    }
}

/// A record that was read stands at the start of the bytes exactly as it is
/// written.
pub proof fn lemma_record_sound(id: Seq<char>, s: Seq<u8>)
    requires
        spec_parse_record(id, s) is Some,
        encode_utf8(id).len() <= u64::MAX,
    ensures
        ({
            let (key, rest) = spec_parse_record(id, s)->0;
            key.id == id && key_fits(key) && s == spec_record_item(key) + rest
        }),
{
    lemma_head_sound(s);
    let (major, n, r0) = spec_parse_head(s)->0;
    lemma_text_sound(r0);
    let (name, r1) = spec_parse_text(r0)->0;
    lemma_uint_sound(r1);
    let (kind, r2) = spec_parse_uint(r1)->0;
    lemma_uint_sound(r2);
    let (secs, r3) = spec_parse_uint(r2)->0;
    lemma_uint_sound(r3);
    let (nanos, r4) = spec_parse_uint(r3)->0;
    lemma_text_sound(r4);
    let (public, r5) = spec_parse_text(r4)->0;
    lemma_optional_envelope_sound(r5);
    let (key, rest) = spec_parse_record(id, s)->0;
    assert(spec_kind_number(key.key_type) == kind);
    assert(key.date_created.nanos as u64 == nanos);
    assert(s =~= spec_record_item(key) + rest);
}

/// A map entry that was read stands at the start of the bytes exactly as it
/// is written.
pub proof fn lemma_entry_sound(s: Seq<u8>)
    requires
        spec_parse_entry(s) is Some,
    ensures
        ({
            let (key, rest) = spec_parse_entry(s)->0;
            key_fits(key) && s == spec_entry(key) + rest
        }),
{
    lemma_text_sound(s);
    let (id, r0) = spec_parse_text(s)->0;
    lemma_record_sound(id, r0);
    let (key, rest) = spec_parse_entry(s)->0;
    assert(s =~= spec_entry(key) + rest);
}

/// Map entries that were read stand at the start of the bytes exactly as
/// they are written, after those read before.
pub proof fn lemma_entries_sound(s: Seq<u8>, count: nat, done: Seq<KeyMetadataModel>)
    requires
        spec_parse_entries(s, count, done) is Some,
    ensures
        ({
            let (all, rest) = spec_parse_entries(s, count, done)->0;
            let read = all.skip(done.len() as int);
            &&& all.len() == done.len() + count
            &&& all.take(done.len() as int) == done
            &&& forall|i: int| 0 <= i < read.len() ==> key_fits(#[trigger] read[i])
            &&& s == spec_entries(read) + rest
        }),
    decreases count,
{
    let (all, rest) = spec_parse_entries(s, count, done)->0;
    let read = all.skip(done.len() as int);
    if count == 0 {
        assert(all.take(done.len() as int) =~= done);
        assert(read =~= Seq::<KeyMetadataModel>::empty());
        assert(s =~= spec_entries(read) + rest);
    } else {
        lemma_entry_sound(s);
        let (key, r0) = spec_parse_entry(s)->0;
        let more = done.push(key);
        lemma_entries_sound(r0, (count - 1) as nat, more);
        let later = all.skip(more.len() as int);
        assert(all.take(more.len() as int) == more);
        assert(all.take(done.len() as int) =~= more.take(done.len() as int));
        assert(more.take(done.len() as int) =~= done);
        assert(all[done.len() as int] == more[done.len() as int]);
        assert(read[0] == key);
        assert(read.skip(1) =~= later);
        assert forall|i: int| 0 <= i < read.len() implies key_fits(#[trigger] read[i]) by {
            if i > 0 {
                assert(read[i] == later[i - 1]);
            }
        }
        assert(s =~= spec_entries(read) + rest);
    }
}

/// A map of keys that was read stands at the start of the bytes exactly as
/// it is written.
pub proof fn lemma_secrets_sound(s: Seq<u8>)
    requires
        spec_parse_secrets(s) is Some,
    ensures
        ({
            let (keys, rest) = spec_parse_secrets(s)->0;
            &&& keys.len() <= u64::MAX
            &&& forall|i: int| 0 <= i < keys.len() ==> key_fits(#[trigger] keys[i])
            &&& ids_sorted(keys)
            &&& s == spec_secrets(keys) + rest
        }),
{
    lemma_head_sound(s);
    let (major, n, r0) = spec_parse_head(s)->0;
    lemma_entries_sound(r0, n as nat, Seq::empty());
    let (keys, rest) = spec_parse_secrets(s)->0;
    assert(keys.skip(0) =~= keys);
    assert(s =~= spec_secrets(keys) + rest);
}

/// A vault file that was read is written exactly as the bytes it was read
/// from.
pub proof fn lemma_file_sound(s: Seq<u8>)
    requires
        spec_parse_file(s) is Some,
    ensures
        file_fits(spec_parse_file(s)->0),
        s == spec_file(spec_parse_file(s)->0),
{
    lemma_head_sound(s);
    let (major, n, r0) = spec_parse_head(s)->0;
    lemma_bytes_sound(r0);
    let (salt, r1) = spec_parse_bytes(r0)->0;
    lemma_envelope_sound(r1);
    let (hello, r2) = spec_parse_envelope(r1)->0;
    lemma_secrets_sound(r2);
    let (secrets, r3) = spec_parse_secrets(r2)->0;
    lemma_optional_bytes_sound(r3);
    let (hmac, r4) = spec_parse_optional_bytes(r3)->0;
    let file = spec_parse_file(s)->0;
    assert(r4 =~= Seq::<u8>::empty());
    assert(s =~= spec_file(file));
}

/// The bytes encode a vault file exactly when they are the writing of a
/// file that can be written; the file is then the one that is read.
pub proof fn law_one_encoding(s: Seq<u8>, file: VaultFileModel)
    ensures
        spec_parse_file(s) == Some(file) <==> file_fits(file) && s == spec_file(file),
{
    if spec_parse_file(s) == Some(file) {
        lemma_file_sound(s);
    }
    if file_fits(file) && s == spec_file(file) {
        lemma_parse_file(file);
    }
}

/// Reads the byte string at a position.
pub fn read_bytes(buf: &[u8], pos: usize) -> (item: Option<(Vec<u8>, usize)>)
    requires
        pos <= buf@.len(),
    ensures
        match item {
            Some((bytes, next)) => {
                &&& pos < next <= buf@.len()
                &&& spec_parse_bytes(buf@.skip(pos as int)) == Some(
                    (bytes@, buf@.skip(next as int)),
                )
            },
            None => spec_parse_bytes(buf@.skip(pos as int)) is None,
        },
{
    match read_head(buf, pos) {
        None => None,
        Some((major, n, start)) => {
            if major != MAJOR_BYTES {
                return None;
            }
            let left = buf.len() - start;
            if n > left as u64 {
                return None;
            }
            let end = start + (n as usize);
            let bytes = copy_range(buf, start, end);
            proof {
                let rest = buf@.skip(start as int);
                assert(rest.take(n as int) =~= buf@.subrange(start as int, end as int));
                assert(rest.skip(n as int) =~= buf@.skip(end as int));
            }
            Some((bytes, end))
        },
    }
}

/// Reads the text string at a position.
pub fn read_text(buf: &[u8], pos: usize) -> (item: Option<(String, usize)>)
    requires
        pos <= buf@.len(),
    ensures
        match item {
            Some((text, next)) => {
                &&& pos < next <= buf@.len()
                &&& spec_parse_text(buf@.skip(pos as int)) == Some((text@, buf@.skip(next as int)))
            },
            None => spec_parse_text(buf@.skip(pos as int)) is None,
        },
{
    match read_head(buf, pos) {
        None => None,
        Some((major, n, start)) => {
            if major != MAJOR_TEXT {
                return None;
            }
            let left = buf.len() - start;
            if n > left as u64 {
                return None;
            }
            let end = start + (n as usize);
            let bytes = copy_range(buf, start, end);
            proof {
                let rest = buf@.skip(start as int);
                assert(rest.take(n as int) =~= buf@.subrange(start as int, end as int));
                assert(rest.skip(n as int) =~= buf@.skip(end as int));
            }
            match string_from_utf8(bytes) {
                Some(text) => Some((text, end)),
                None => None,
            }
        },
    }
}

/// Reads the unsigned number at a position.
pub fn read_uint(buf: &[u8], pos: usize) -> (item: Option<(u64, usize)>)
    requires
        pos <= buf@.len(),
    ensures
        match item {
            Some((n, next)) => {
                &&& pos < next <= buf@.len()
                &&& spec_parse_uint(buf@.skip(pos as int)) == Some((n, buf@.skip(next as int)))
            },
            None => spec_parse_uint(buf@.skip(pos as int)) is None,
        },
{
    match read_head(buf, pos) {
        None => None,
        Some((major, n, next)) => {
            if major != MAJOR_UINT {
                return None;
            }
            Some((n, next))
        },
    }
}

/// Reads the envelope at a position.
pub fn read_envelope(buf: &[u8], pos: usize) -> (item: Option<(EncryptedSecret, usize)>)
    requires
        pos <= buf@.len(),
    ensures
        match item {
            Some((envelope, next)) => {
                &&& pos < next <= buf@.len()
                &&& spec_parse_envelope(buf@.skip(pos as int)) == Some(
                    (envelope@, buf@.skip(next as int)),
                )
            },
            None => spec_parse_envelope(buf@.skip(pos as int)) is None,
        },
{
    let (major, n, cursor0) = match read_head(buf, pos) {
        None => {
            return None;
        },
        Some(head) => head,
    };
    if major != MAJOR_ARRAY || n != 2 {
        return None;
    }
    let (nonce, cursor1) = match read_bytes(buf, cursor0) {
        None => {
            return None;
        },
        Some(item) => item,
    };
    let (ciphertext, cursor2) = match read_bytes(buf, cursor1) {
        None => {
            return None;
        },
        Some(item) => item,
    };
    Some((EncryptedSecret { nonce, ciphertext }, cursor2))
}

/// Whether the byte at a position is the null byte.
fn at_null(buf: &[u8], pos: usize) -> (null: bool)
    requires
        pos <= buf@.len(),
    ensures
        null == (buf@.skip(pos as int).len() > 0 && buf@.skip(pos as int)[0] == NULL_BYTE),
        null ==> pos < buf@.len() && pos < usize::MAX && buf@.skip(pos as int).skip(1)
            == buf@.skip(pos + 1),
{
    if pos < buf.len() && buf[pos] == NULL_BYTE {
        assert(buf@.skip(pos as int)[0] == buf@[pos as int]);
        assert(buf@.skip(pos as int).skip(1) =~= buf@.skip(pos + 1));
        true
    } else {
        if pos < buf.len() {
            assert(buf@.skip(pos as int)[0] == buf@[pos as int]);
        }
        false
    }
}

/// Reads the envelope or null at a position.
pub fn read_optional_envelope(buf: &[u8], pos: usize) -> (item: Option<
    (Option<EncryptedSecret>, usize),
>)
    requires
        pos <= buf@.len(),
    ensures
        match item {
            Some((envelope, next)) => {
                &&& pos < next <= buf@.len()
                &&& spec_parse_optional_envelope(buf@.skip(pos as int)) == Some(
                    (envelope_model(envelope), buf@.skip(next as int)),
                )
            },
            None => spec_parse_optional_envelope(buf@.skip(pos as int)) is None,
        },
{
    if at_null(buf, pos) {
        return Some((None, pos + 1));
    }
    match read_envelope(buf, pos) {
        Some((envelope, next)) => Some((Some(envelope), next)),
        None => None,
    }
}

/// Reads the byte string or null at a position.
pub fn read_optional_bytes(buf: &[u8], pos: usize) -> (item: Option<(Option<Vec<u8>>, usize)>)
    requires
        pos <= buf@.len(),
    ensures
        match item {
            Some((bytes, next)) => {
                &&& pos < next <= buf@.len()
                &&& spec_parse_optional_bytes(buf@.skip(pos as int)) == Some(
                    (optional_bytes_model(bytes), buf@.skip(next as int)),
                )
            },
            None => spec_parse_optional_bytes(buf@.skip(pos as int)) is None,
        },
{
    if at_null(buf, pos) {
        return Some((None, pos + 1));
    }
    match read_bytes(buf, pos) {
        Some((bytes, next)) => Some((Some(bytes), next)),
        None => None,
    }
}

/// Reads the record at a position, stored under `id`.
pub fn read_record(id: String, buf: &[u8], pos: usize) -> (item: Option<(KeyMetadata, usize)>)
    requires
        pos <= buf@.len(),
    ensures
        match item {
            Some((key, next)) => {
                &&& pos < next <= buf@.len()
                &&& spec_parse_record(id@, buf@.skip(pos as int)) == Some(
                    (key@, buf@.skip(next as int)),
                )
            },
            None => spec_parse_record(id@, buf@.skip(pos as int)) is None,
        },
{
    let (major, n, cursor0) = match read_head(buf, pos) {
        None => {
            return None;
        },
        Some(head) => head,
    };
    if major != MAJOR_ARRAY || n != 6 {
        return None;
    }
    let (name, cursor1) = match read_text(buf, cursor0) {
        None => {
            return None;
        },
        Some(item) => item,
    };
    let (kind, cursor2) = match read_uint(buf, cursor1) {
        None => {
            return None;
        },
        Some(item) => item,
    };
    let (secs, cursor3) = match read_uint(buf, cursor2) {
        None => {
            return None;
        },
        Some(item) => item,
    };
    let (nanos, cursor4) = match read_uint(buf, cursor3) {
        None => {
            return None;
        },
        Some(item) => item,
    };
    let (public, cursor5) = match read_text(buf, cursor4) {
        None => {
            return None;
        },
        Some(item) => item,
    };
    let (private, cursor6) = match read_optional_envelope(buf, cursor5) {
        None => {
            return None;
        },
        Some(item) => item,
    };
    let key_type = if kind == 0 {
        KeyType::Public
    } else if kind == 1 {
        KeyType::Private
    } else {
        return None;
    };
    if nanos > u32::MAX as u64 {
        return None;
    }
    Some(
        (
            KeyMetadata {
                id,
                name,
                key_type,
                date_created: Timestamp { secs, nanos: nanos as u32 },
                contents: KeyPair { public, private },
            },
            cursor6,
        ),
    )
}

/// Reads the map entry at a position.
pub fn read_entry(buf: &[u8], pos: usize) -> (item: Option<(KeyMetadata, usize)>)
    requires
        pos <= buf@.len(),
    ensures
        match item {
            Some((key, next)) => {
                &&& pos < next <= buf@.len()
                &&& spec_parse_entry(buf@.skip(pos as int)) == Some((key@, buf@.skip(next as int)))
            },
            None => spec_parse_entry(buf@.skip(pos as int)) is None,
        },
{
    match read_text(buf, pos) {
        None => None,
        Some((id, next)) => read_record(id, buf, next),
    }
}

/// Whether the identifiers of a list of records ascend strictly.
pub fn ids_ascend(keys: &Vec<KeyMetadata>) -> (sorted: bool)
    ensures
        sorted == ids_sorted(models_of(keys@)),
{
    if keys.len() < 2 {
        return true;
    }
    let ghost models = models_of(keys@);
    let mut i: usize = 1;
    while i < keys.len()
        invariant
            1 <= i <= keys.len(),
            models == models_of(keys@),
            forall|a: int, b: int|
                0 <= a < b < i ==> id_lt((#[trigger] models[a]).id, (#[trigger] models[b]).id),
        decreases keys.len() - i,
    {
        if !id_less(keys[i - 1].id.as_str(), keys[i].id.as_str()) {
            assert(!id_lt(models[i - 1].id, models[i as int].id));
            return false;
        }
        proof {
            assert forall|a: int, b: int| 0 <= a < b < i + 1 implies id_lt(
                (#[trigger] models[a]).id,
                (#[trigger] models[b]).id,
            ) by {
                if b == i && a < i - 1 {
                    assert(id_lt(models[a].id, models[i - 1].id));
                    lemma_lex_transitive(
                        encode_utf8(models[a].id),
                        encode_utf8(models[i - 1].id),
                        encode_utf8(models[i as int].id),
                    );
                }
            }
        }
        i = i + 1;
    }
    true
}

/// Reads the map of keys at a position.
pub fn read_secrets(buf: &[u8], pos: usize) -> (item: Option<(Vec<KeyMetadata>, usize)>)
    requires
        pos <= buf@.len(),
    ensures
        match item {
            Some((keys, next)) => {
                &&& pos < next <= buf@.len()
                &&& spec_parse_secrets(buf@.skip(pos as int)) == Some(
                    (models_of(keys@), buf@.skip(next as int)),
                )
            },
            None => spec_parse_secrets(buf@.skip(pos as int)) is None,
        },
{
    let (major, n, start) = match read_head(buf, pos) {
        None => {
            return None;
        },
        Some(head) => head,
    };
    if major != MAJOR_MAP {
        return None;
    }
    let mut keys: Vec<KeyMetadata> = Vec::new();
    let mut at: usize = start;
    let mut i: u64 = 0;
    assert(models_of(keys@) =~= Seq::<KeyMetadataModel>::empty());
    while i < n
        invariant
            i <= n,
            pos <= buf@.len(),
            start <= at <= buf@.len(),
            major == MAJOR_MAP,
            spec_parse_head(buf@.skip(pos as int)) == Some((major, n, buf@.skip(start as int))),
            spec_parse_entries(buf@.skip(start as int), n as nat, Seq::empty())
                == spec_parse_entries(buf@.skip(at as int), (n - i) as nat, models_of(keys@)),
        decreases n - i,
    {
        match read_entry(buf, at) {
            None => {
                assert(spec_parse_entries(
                    buf@.skip(at as int),
                    (n - i) as nat,
                    models_of(keys@),
                ) is None);
                return None;
            },
            Some((key, next)) => {
                let ghost before = models_of(keys@);
                let ghost model = key@;
                keys.push(key);
                assert(models_of(keys@) =~= before.push(model));
                at = next;
            },
        }
        i = i + 1;
    }
    if !ids_ascend(&keys) {
        return None;
    }
    Some((keys, at))
}

/// Reads a vault file from its bytes. Succeeds exactly on the bytes that a
/// vault file is written as, and then gives that file.
pub fn decode_file(buf: &[u8]) -> (file: Option<VaultFile>)
    ensures
        match file {
            Some(f) => {
                &&& spec_parse_file(buf@) == Some(f@)
                &&& file_fits(f@)
                &&& buf@ == spec_file(f@)
            },
            None => {
                &&& spec_parse_file(buf@) is None
                &&& forall|f: VaultFileModel| file_fits(f) ==> #[trigger] spec_file(f) != buf@
            },
        },
{
    proof {
        if spec_parse_file(buf@) is Some {
            lemma_file_sound(buf@);
        } else {
            assert forall|f: VaultFileModel| file_fits(f) implies #[trigger] spec_file(f)
                != buf@ by {
                lemma_parse_file(f);
            }
        }
    }
    assert(buf@.skip(0) =~= buf@);
    let (major, n, cursor0) = match read_head(buf, 0) {
        None => {
            return None;
        },
        Some(head) => head,
    };
    if major != MAJOR_ARRAY || n != 4 {
        return None;
    }
    let (salt, cursor1) = match read_bytes(buf, cursor0) {
        None => {
            return None;
        },
        Some(item) => item,
    };
    let (hello, cursor2) = match read_envelope(buf, cursor1) {
        None => {
            return None;
        },
        Some(item) => item,
    };
    let (secrets, cursor3) = match read_secrets(buf, cursor2) {
        None => {
            return None;
        },
        Some(item) => item,
    };
    let (hmac, cursor4) = match read_optional_bytes(buf, cursor3) {
        None => {
            return None;
        },
        Some(item) => item,
    };
    if cursor4 != buf.len() {
        return None;
    }
    Some(VaultFile { salt, hello, secrets, hmac })
}

} // verus!
