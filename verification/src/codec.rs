//! The vault file format: deterministic CBOR.
//!
//! A vault file is an array of four items: the salt (byte string), the
//! probe envelope (array of nonce and ciphertext), the stored keys (map from
//! identifier to record, identifiers in ascending byte order) and the
//! integrity tag (byte string, or null before the first save). A record is
//! an array of name, kind, seconds, nanoseconds, public key and private
//! envelope (or null). Every length and number takes the shortest head that
//! holds it, so each file has exactly one encoding.

use vstd::prelude::*;
use vstd::utf8::*;
use crate::record::{KeyMetadata, KeyMetadataModel, KeyType};
use crate::sealbox::{EncryptedSecret, EncryptedSecretModel};

verus! {

/// Major type of an unsigned number.
pub const MAJOR_UINT: u8 = 0;

/// Major type of a byte string.
pub const MAJOR_BYTES: u8 = 2;

/// Major type of a text string.
pub const MAJOR_TEXT: u8 = 3;

/// Major type of an array.
pub const MAJOR_ARRAY: u8 = 4;

/// Major type of a map.
pub const MAJOR_MAP: u8 = 5;

/// The byte that stands for null.
pub const NULL_BYTE: u8 = 0xf6;

/// The head of an item: the major type in the top three bits of the first
/// byte and the argument in the shortest of the five forms that holds it.
pub open spec fn spec_head(major: u8, n: u64) -> Seq<u8> {
    let m = major as int * 32;
    if n < 24 {
        seq![(m + n) as u8]
    } else if n < 0x100 {
        seq![(m + 24) as u8, n as u8]
    } else if n < 0x1_0000 {
        seq![(m + 25) as u8, (n / 0x100) as u8, (n % 0x100) as u8]
    } else if n < 0x1_0000_0000 {
        seq![
            (m + 26) as u8,
            (n / 0x100_0000) as u8,
            (n / 0x1_0000 % 0x100) as u8,
            (n / 0x100 % 0x100) as u8,
            (n % 0x100) as u8,
        ]
    } else {
        seq![
            (m + 27) as u8,
            (n / 0x100_0000_0000_0000) as u8,
            (n / 0x1_0000_0000_0000 % 0x100) as u8,
            (n / 0x100_0000_0000 % 0x100) as u8,
            (n / 0x1_0000_0000 % 0x100) as u8,
            (n / 0x100_0000 % 0x100) as u8,
            (n / 0x1_0000 % 0x100) as u8,
            (n / 0x100 % 0x100) as u8,
            (n % 0x100) as u8,
        ]
    }
}

/// A byte string: its head and the bytes.
pub open spec fn spec_bytes_item(bytes: Seq<u8>) -> Seq<u8> {
    spec_head(MAJOR_BYTES, bytes.len() as u64) + bytes
}

/// A text string: its head and the UTF-8 bytes of the text.
pub open spec fn spec_text_item(text: Seq<char>) -> Seq<u8> {
    spec_head(MAJOR_TEXT, encode_utf8(text).len() as u64) + encode_utf8(text)
}

/// An envelope: an array of nonce and ciphertext.
pub open spec fn spec_envelope_item(envelope: EncryptedSecretModel) -> Seq<u8> {
    spec_head(MAJOR_ARRAY, 2) + spec_bytes_item(envelope.nonce) + spec_bytes_item(
        envelope.ciphertext,
    )
}

/// An optional envelope: the envelope, or null.
pub open spec fn spec_optional_envelope(envelope: Option<EncryptedSecretModel>) -> Seq<u8> {
    match envelope {
        Some(e) => spec_envelope_item(e),
        None => seq![NULL_BYTE],
    }
}

/// An optional byte string: the byte string, or null.
pub open spec fn spec_optional_bytes(bytes: Option<Seq<u8>>) -> Seq<u8> {
    match bytes {
        Some(b) => spec_bytes_item(b),
        None => seq![NULL_BYTE],
    }
}

/// The number that stands for a kind.
pub open spec fn spec_kind_number(kind: KeyType) -> u64 {
    match kind {
        KeyType::Public => 0,
        KeyType::Private => 1,
    }
}

/// A record: an array of name, kind, seconds, nanoseconds, public key and
/// private envelope.
pub open spec fn spec_record_item(key: KeyMetadataModel) -> Seq<u8> {
    spec_head(MAJOR_ARRAY, 6) + spec_text_item(key.name) + spec_head(
        MAJOR_UINT,
        spec_kind_number(key.key_type),
    ) + spec_head(MAJOR_UINT, key.date_created.secs) + spec_head(
        MAJOR_UINT,
        key.date_created.nanos as u64,
    ) + spec_text_item(key.contents.public) + spec_optional_envelope(key.contents.private)
}

/// One entry of the map of keys: the identifier, then the record.
pub open spec fn spec_entry(key: KeyMetadataModel) -> Seq<u8> {
    spec_text_item(key.id) + spec_record_item(key)
}

/// The entries of the map of keys, in order.
pub open spec fn spec_entries(keys: Seq<KeyMetadataModel>) -> Seq<u8>
    decreases keys.len(),
{
    if keys.len() == 0 {
        Seq::empty()
    } else {
        spec_entry(keys[0]) + spec_entries(keys.skip(1))
    }
}

/// The canonical encoding of the stored keys: a map from identifier to
/// record. The integrity tag is computed over these bytes.
pub open spec fn spec_secrets(keys: Seq<KeyMetadataModel>) -> Seq<u8> {
    spec_head(MAJOR_MAP, keys.len() as u64) + spec_entries(keys)
}

/// A vault file as plain values.
pub struct VaultFileModel {
    pub salt: Seq<u8>,
    pub hello: EncryptedSecretModel,
    pub secrets: Seq<KeyMetadataModel>,
    pub hmac: Option<Seq<u8>>,
}

/// The encoding of a vault file.
pub open spec fn spec_file(file: VaultFileModel) -> Seq<u8> {
    spec_head(MAJOR_ARRAY, 4) + spec_bytes_item(file.salt) + spec_envelope_item(file.hello)
        + spec_secrets(file.secrets) + spec_optional_bytes(file.hmac)
}

/// The entries of a list with one more key are the entries of the list
/// followed by the entry of that key.
pub proof fn lemma_entries_push(keys: Seq<KeyMetadataModel>, key: KeyMetadataModel)
    ensures
        spec_entries(keys.push(key)) == spec_entries(keys) + spec_entry(key),
    decreases keys.len(),
{
    if keys.len() == 0 {
        assert(keys.push(key).skip(1) =~= Seq::<KeyMetadataModel>::empty());
        assert(spec_entries(Seq::<KeyMetadataModel>::empty()) =~= Seq::<u8>::empty());
        assert(keys.push(key)[0] == key);
        assert(spec_entries(keys.push(key)) =~= spec_entry(key) + Seq::<u8>::empty());
        assert(spec_entries(keys) + spec_entry(key) =~= spec_entry(key));
        assert(spec_entry(key) + Seq::<u8>::empty() =~= spec_entry(key));
    } else {
        lemma_entries_push(keys.skip(1), key);
        assert(keys.push(key).skip(1) =~= keys.skip(1).push(key));
        assert(keys.push(key)[0] == keys[0]);
        assert(spec_entry(keys[0]) + (spec_entries(keys.skip(1)) + spec_entry(key)) =~= (
        spec_entry(keys[0]) + spec_entries(keys.skip(1))) + spec_entry(key));
    }
}

/// Appends the head of an item.
pub fn write_head(out: &mut Vec<u8>, major: u8, n: u64)
    requires
        major < 8,
    ensures
        final(out)@ == old(out)@ + spec_head(major, n),
{
    proof {
        reveal(spec_head);
    }
    let m: u8 = major * 32;
    if n < 24 {
        out.push(m + (n as u8));
        assert(out@ =~= old(out)@ + spec_head(major, n));
    } else if n < 0x100 {
        out.push(m + 24);
        out.push(n as u8);
        assert(out@ =~= old(out)@ + spec_head(major, n));
    } else if n < 0x1_0000 {
        out.push(m + 25);
        out.push((n / 0x100) as u8);
        out.push((n % 0x100) as u8);
        assert(out@ =~= old(out)@ + spec_head(major, n));
    } else if n < 0x1_0000_0000 {
        out.push(m + 26);
        out.push((n / 0x100_0000) as u8);
        out.push((n / 0x1_0000 % 0x100) as u8);
        out.push((n / 0x100 % 0x100) as u8);
        out.push((n % 0x100) as u8);
        assert(out@ =~= old(out)@ + spec_head(major, n));
    } else {
        out.push(m + 27);
        out.push((n / 0x100_0000_0000_0000) as u8);
        out.push((n / 0x1_0000_0000_0000 % 0x100) as u8);
        out.push((n / 0x100_0000_0000 % 0x100) as u8);
        out.push((n / 0x1_0000_0000 % 0x100) as u8);
        out.push((n / 0x100_0000 % 0x100) as u8);
        out.push((n / 0x1_0000 % 0x100) as u8);
        out.push((n / 0x100 % 0x100) as u8);
        out.push((n % 0x100) as u8);
        assert(out@ =~= old(out)@ + spec_head(major, n));
    }
}

/// Appends raw bytes.
pub fn write_raw(out: &mut Vec<u8>, bytes: &[u8])
    ensures
        final(out)@ == old(out)@ + bytes@,
{
    let mut i: usize = 0;
    while i < bytes.len()
        invariant
            i <= bytes.len(),
            out@ == old(out)@ + bytes@.subrange(0, i as int),
        decreases bytes.len() - i,
    {
        out.push(bytes[i]);
        assert(out@ =~= old(out)@ + bytes@.subrange(0, i + 1));
        i = i + 1;
    }
    assert(bytes@.subrange(0, bytes@.len() as int) =~= bytes@);
}

/// Appends a byte string.
pub fn write_bytes(out: &mut Vec<u8>, bytes: &[u8])
    ensures
        final(out)@ == old(out)@ + spec_bytes_item(bytes@),
{
    write_head(out, MAJOR_BYTES, bytes.len() as u64);
    write_raw(out, bytes);
    assert(out@ =~= old(out)@ + spec_bytes_item(bytes@));
}

/// Appends a text string.
pub fn write_text(out: &mut Vec<u8>, text: &str)
    ensures
        final(out)@ == old(out)@ + spec_text_item(text@),
{
    let bytes = text.as_bytes();
    write_head(out, MAJOR_TEXT, bytes.len() as u64);
    write_raw(out, bytes);
    assert(out@ =~= old(out)@ + spec_text_item(text@));
}

/// Appends an envelope.
pub fn write_envelope(out: &mut Vec<u8>, envelope: &EncryptedSecret)
    ensures
        final(out)@ == old(out)@ + spec_envelope_item(envelope@),
{
    write_head(out, MAJOR_ARRAY, 2);
    write_bytes(out, envelope.nonce.as_slice());
    write_bytes(out, envelope.ciphertext.as_slice());
    assert(out@ =~= old(out)@ + spec_envelope_item(envelope@));
}

/// Appends an envelope, or null.
pub fn write_optional_envelope(out: &mut Vec<u8>, envelope: &Option<EncryptedSecret>)
    ensures
        final(out)@ == old(out)@ + spec_optional_envelope(crate::record::envelope_model(*envelope)),
{
    match envelope {
        Some(e) => write_envelope(out, e),
        None => {
            out.push(NULL_BYTE);
            assert(out@ =~= old(out)@ + seq![NULL_BYTE]);
        },
    }
}

/// Appends one entry of the map of keys.
pub fn write_entry(out: &mut Vec<u8>, key: &KeyMetadata)
    ensures
        final(out)@ == old(out)@ + spec_entry(key@),
{
    write_text(out, key.id.as_str());
    write_head(out, MAJOR_ARRAY, 6);
    write_text(out, key.name.as_str());
    let kind: u64 = match key.key_type {
        KeyType::Public => 0,
        KeyType::Private => 1,
    };
    write_head(out, MAJOR_UINT, kind);
    write_head(out, MAJOR_UINT, key.date_created.secs);
    write_head(out, MAJOR_UINT, key.date_created.nanos as u64);
    write_text(out, key.contents.public.as_str());
    write_optional_envelope(out, &key.contents.private);
    assert(out@ =~= old(out)@ + spec_entry(key@));
}

/// The plain values of a list of records.
pub open spec fn models_of(keys: Seq<KeyMetadata>) -> Seq<KeyMetadataModel> {
    Seq::new(keys.len(), |i: int| keys[i]@)
}

/// Appends the canonical encoding of the stored keys.
pub fn write_secrets(out: &mut Vec<u8>, keys: &Vec<KeyMetadata>)
    ensures
        final(out)@ == old(out)@ + spec_secrets(models_of(keys@)),
{
    write_head(out, MAJOR_MAP, keys.len() as u64);
    let ghost start = out@;
    let mut i: usize = 0;
    assert(models_of(keys@).take(0) =~= Seq::<KeyMetadataModel>::empty());
    assert(start + spec_entries(Seq::<KeyMetadataModel>::empty()) =~= start);
    while i < keys.len()
        invariant
            i <= keys.len(),
            out@ == start + spec_entries(models_of(keys@).take(i as int)),
        decreases keys.len() - i,
    {
        let ghost before = out@;
        write_entry(out, &keys[i]);
        proof {
            let done = models_of(keys@).take(i as int);
            lemma_entries_push(done, keys@[i as int]@);
            assert(done.push(keys@[i as int]@) =~= models_of(keys@).take(i + 1));
            assert(out@ =~= start + spec_entries(models_of(keys@).take(i + 1)));
        }
        i = i + 1;
    }
    assert(models_of(keys@).take(keys@.len() as int) =~= models_of(keys@));
    assert(out@ =~= old(out)@ + spec_secrets(models_of(keys@)));
}

/// The canonical encoding of the stored keys.
pub fn encode_secrets(keys: &Vec<KeyMetadata>) -> (bytes: Vec<u8>)
    ensures
        bytes@ == spec_secrets(models_of(keys@)),
{
    let mut out: Vec<u8> = Vec::new();
    write_secrets(&mut out, keys);
    assert(out@ =~= spec_secrets(models_of(keys@)));
    out
}

/// The plain value of an optional byte string.
pub open spec fn optional_bytes_model(bytes: Option<Vec<u8>>) -> Option<Seq<u8>> {
    match bytes {
        Some(b) => Some(b@),
        None => None,
    }
}

/// A vault file: the salt of the key derivation, the probe envelope that
/// tells whether a passphrase is right, the stored keys in ascending order
/// of their identifiers, and the integrity tag over the keys.
pub struct VaultFile {
    pub salt: Vec<u8>,
    pub hello: EncryptedSecret,
    pub secrets: Vec<KeyMetadata>,
    pub hmac: Option<Vec<u8>>,
}

impl View for VaultFile {
    type V = VaultFileModel;

    open spec fn view(&self) -> VaultFileModel {
        VaultFileModel {
            salt: self.salt@,
            hello: self.hello@,
            secrets: models_of(self.secrets@),
            hmac: optional_bytes_model(self.hmac),
        }
    }
}

/// Appends a byte string, or null.
pub fn write_optional_bytes(out: &mut Vec<u8>, bytes: &Option<Vec<u8>>)
    ensures
        final(out)@ == old(out)@ + spec_optional_bytes(optional_bytes_model(*bytes)),
{
    match bytes {
        Some(b) => write_bytes(out, b.as_slice()),
        None => {
            out.push(NULL_BYTE);
            assert(out@ =~= old(out)@ + seq![NULL_BYTE]);
        },
    }
}

/// The encoding of a vault file.
pub fn encode_file(file: &VaultFile) -> (bytes: Vec<u8>)
    ensures
        bytes@ == spec_file(file@),
{
    let mut out: Vec<u8> = Vec::new();
    write_head(&mut out, MAJOR_ARRAY, 4);
    write_bytes(&mut out, file.salt.as_slice());
    write_envelope(&mut out, &file.hello);
    write_secrets(&mut out, &file.secrets);
    write_optional_bytes(&mut out, &file.hmac);
    assert(out@ =~= spec_file(file@));
    out
}

} // verus!
