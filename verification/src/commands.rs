//! The decisions of the command surface: what each user-visible operation
//! asks of the vault and of the keys, and what it answers. Reading and
//! writing files, and the encryption of file bodies, are left to the caller.

use vstd::prelude::*;
use vstd::string::{StrSliceExecFns, StringExecFns};
use vstd::utf8::*;
use crate::classic::{classic_recipient, ScryptIdentity, ScryptRecipient, X25519Recipient};
use crate::error::Error;
use crate::hybrid::{
    identity_hrp, recipient_hrp, spec_expand, spec_parse_identity, spec_parse_recipient,
    spec_recipient_text, HybridIdentity, HybridRecipient, KEM_PUBLIC_BYTES, RECIPIENT_BYTES,
};
use crate::keyset::lookup;
use crate::record::{KeyMetadata, KeyMetadataModel, KeyPair, KeyType};
use crate::secret::SecretText;
use crate::stanza::texts_of;
use crate::text::{is_prefix, starts_with, string_from_utf8, text_equal};
use crate::vault::{
    holds_identity, is_public_of, spec_candidate_key, spec_public_text, spec_sealed_text,
    spec_unlock, Vault,
};
use crate::wildcard::{
    all_hybrid, identity_agrees, identity_from_text, select_recipients, spec_identity_from_text,
    spec_select, IdentityModel, RecipientModel, WildcardIdentity, WildcardRecipient,
};

verus! {

/// The largest key file that is imported, in bytes.
pub const MAX_KEY_FILE_BYTES: u64 = 10240;

/// The largest armored file that is decrypted, in bytes.
pub const MAX_ARMORED_BYTES: u64 = 104857600;

/// The kind of key to generate.
#[derive(Clone, Copy, Debug, PartialEq, Eq, Structural)]
pub enum KeyFormat {
    X25519,
    PostQuantum,
}

/// The form in which a private key is exported.
#[derive(Clone, Copy, Debug, PartialEq, Eq, Structural)]
pub enum KeyExportMode {
    PostQuantum,
    X25519,
}

/// For whom to encrypt: the stored keys with the given identifiers, or a
/// passphrase.
pub enum EncryptionMethod {
    X25519(Vec<String>),
    Scrypt(String),
}

/// With what to decrypt: a stored key, or a passphrase.
#[derive(Clone, Copy, Debug, PartialEq, Eq, Structural)]
pub enum DecryptionMethod {
    X25519,
    Scrypt,
}

/// The state of the vault as reported to the user interface.
#[derive(Clone, Copy, Debug, PartialEq, Eq, Structural)]
pub enum VaultStatusUpdate {
    Unlocked,
    Locked,
    VerificationFail,
    AuthenticationCancel,
}

/// The first line of an armored age file.
pub open spec fn armor_marker() -> Seq<char> {
    "-----BEGIN AGE ENCRYPTED FILE-----"@
}

/// The prefix of every private key text.
pub open spec fn private_marker() -> Seq<char> {
    "AGE-SECRET-KEY"@
}

/// Whether a text is an armored age file.
pub fn armor_check_text(text: String) -> (armored: bool)
    ensures
        armored == is_prefix(armor_marker(), text@),
{
    starts_with(text.as_str(), "-----BEGIN AGE ENCRYPTED FILE-----")
}

/// Whether the first bytes of a file are those of an armored age file.
/// Fails when the bytes are not text.
pub fn armor_check_bytes(head: &[u8]) -> (armored: Result<bool, Error>)
    ensures
        match armored {
            Ok(a) => valid_utf8(head@) && a == is_prefix(armor_marker(), decode_utf8(head@)),
            Err(e) => e == Error::NotText && !valid_utf8(head@),
        },
{
    match string_from_utf8(crate::text::copy_bytes(head)) {
        Some(text) => Ok(armor_check_text(text)),
        None => Err(Error::NotText),
    }
}

/// Refuses armored input above the size cap: an armored file is held in
/// memory as a whole before it is decrypted.
pub fn check_armored_size(size: u64, armored: bool) -> (checked: Result<(), Error>)
    ensures
        checked is Err <==> armored && size > MAX_ARMORED_BYTES,
        checked matches Err(e) ==> e == Error::ArmoredTooLarge,
{
    if armored && size > MAX_ARMORED_BYTES {
        Err(Error::ArmoredTooLarge)
    } else {
        Ok(())
    }
}

/// Whether a key text is that of a private key.
pub fn check_keyfile_type(key_content: &str) -> (private: bool)
    ensures
        private == is_prefix(private_marker(), key_content@),
{
    starts_with(key_content, "AGE-SECRET-KEY")
}

/// Whether the `bech32` crate decodes a text, under either checksum.
pub uninterp spec fn bech32_decodes(text: Seq<char>) -> bool;

/// `bech32::decode`: whether the text is a Bech32 or Bech32m string within
/// the length that the crate accepts.
#[verifier::external_body]
fn bech32_accepts(text: &str) -> (accepted: bool)
    ensures
        accepted == bech32_decodes(text@),
{
    ::bech32::decode(text).is_ok()
}

/// A text is a valid age key: a Bech32 string as the `bech32` crate reads
/// it, or a hybrid recipient, which is longer than the crate accepts.
pub open spec fn spec_valid_key(text: Seq<char>) -> bool {
    bech32_decodes(text) || spec_parse_recipient(text) is Ok
}

/// Whether a text is a valid age key.
pub fn validate_key_text(text: String) -> (valid: Result<(), Error>)
    ensures
        valid is Ok <==> spec_valid_key(text@),
        valid matches Err(e) ==> e == Error::InvalidClassicalKey,
{
    if bech32_accepts(text.as_str()) {
        return Ok(());
    }
    match HybridRecipient::from_string(&text) {
        Ok(_) => Ok(()),
        Err(_) => Err(Error::InvalidClassicalKey),
    }
}

/// Whether the first bytes of a key file are a valid age key.
pub fn validate_key_bytes(head: &[u8]) -> (valid: Result<(), Error>)
    ensures
        valid is Ok <==> valid_utf8(head@) && spec_valid_key(decode_utf8(head@)),
        valid matches Err(e) ==> if valid_utf8(head@) {
            e == Error::InvalidClassicalKey
        } else {
            e == Error::NotText
        },
{
    match string_from_utf8(crate::text::copy_bytes(head)) {
        Some(text) => validate_key_text(text),
        None => Err(Error::NotText),
    }
}

/// What may be imported from a key file: a name is needed, and the file
/// must not be larger than 10 KB.
pub fn check_import(name: &str, file_size: u64) -> (checked: Result<(), Error>)
    ensures
        match checked {
            Ok(()) => name@.len() > 0 && file_size <= MAX_KEY_FILE_BYTES,
            Err(e) => if name@.len() == 0 {
                e == Error::NoNameSet
            } else {
                e == Error::KeyFileTooLarge && file_size > MAX_KEY_FILE_BYTES
            },
        },
{
    if name.is_empty() {
        return Err(Error::NoNameSet);
    }
    if file_size > MAX_KEY_FILE_BYTES {
        return Err(Error::KeyFileTooLarge);
    }
    Ok(())
}

/// The text of the classical twin of a hybrid recipient.
pub open spec fn spec_downgrade(public_key: Seq<char>) -> Result<Seq<char>, Error> {
    match spec_parse_recipient(public_key) {
        Ok(key) => Ok(
            crate::classic::spec_classic_recipient_text(
                key.subrange(KEM_PUBLIC_BYTES as int, RECIPIENT_BYTES as int),
            ),
        ),
        Err(e) => Err(e),
    }
}

/// The classical twin of a hybrid recipient, as text.
pub fn downgrade_hybrid_public_key(public_key: String) -> (twin: Result<String, Error>)
    ensures
        match twin {
            Ok(t) => spec_downgrade(public_key@) == Ok::<Seq<char>, Error>(t@),
            Err(e) => spec_downgrade(public_key@) == Err::<Seq<char>, Error>(e),
        },
{
    match HybridRecipient::from_string(&public_key) {
        Ok(recipient) => Ok(recipient.to_x25519().to_string()),
        Err(e) => Err(e),
    }
}

/// The text to export for a private key text in a mode. A hybrid key is
/// exported as it is in post-quantum mode and as its classical twin in
/// classical mode; a classical key is exported as it is in classical mode
/// and not at all in post-quantum mode.
pub open spec fn spec_export_text(raw: Seq<char>, mode: KeyExportMode) -> Result<Seq<char>, Error> {
    let is_pq = is_prefix(identity_hrp(), raw);
    match mode {
        KeyExportMode::PostQuantum => if is_pq {
            Ok(raw)
        } else {
            Err(Error::CannotExportAsPostQuantum)
        },
        KeyExportMode::X25519 => if is_pq {
            match spec_parse_identity(raw) {
                Ok(seed) => Ok(crate::classic::spec_classic_identity_text(spec_expand(seed).dk_t)),
                Err(e) => Err(e),
            }
        } else {
            Ok(raw)
        },
    }
}

/// Whether a secret text result is the one the model gives.
pub open spec fn secret_agrees(got: Result<SecretText, Error>, want: Result<Seq<char>, Error>)
    -> bool {
    match got {
        Ok(text) => want == Ok::<Seq<char>, Error>(text@),
        Err(e) => want == Err::<Seq<char>, Error>(e),
    }
}

/// The text to export for a private key text in a mode.
pub fn export_text(raw: SecretText, mode: KeyExportMode) -> (text: Result<SecretText, Error>)
    ensures
        secret_agrees(text, spec_export_text(raw@, mode)),
{
    let is_pq = starts_with(raw.expose(), "AGE-SECRET-KEY-PQ-");
    match mode {
        KeyExportMode::PostQuantum => {
            if is_pq {
                Ok(raw)
            } else {
                Err(Error::CannotExportAsPostQuantum)
            }
        },
        KeyExportMode::X25519 => {
            if is_pq {
                match HybridIdentity::from_string(raw) {
                    Ok(identity) => Ok(identity.to_x25519().to_string()),
                    Err(e) => Err(e),
                }
            } else {
                Ok(raw)
            }
        },
    }
}

/// The private key text of a stored record under the vault key.
pub open spec fn spec_private_text(
    key: Option<Seq<u8>>,
    secrets: Seq<KeyMetadataModel>,
    id: Seq<char>,
) -> Result<Seq<char>, Error> {
    match lookup(secrets, id) {
        None => Err(Error::KeyNotFound),
        Some(record) => spec_sealed_text(key, record.contents.private),
    }
}

/// The private key text of a stored record. Fails when no record is stored
/// under the identifier, when the record has no private key, while the
/// vault is locked and when the private key does not open.
pub fn private_text(vault: &Vault, id: &str) -> (text: Result<SecretText, Error>)
    requires
        vault.wf(),
    ensures
        secret_agrees(text, spec_private_text(vault@.key, vault@.file.secrets, id@)),
{
    match vault.get_key(id) {
        None => Err(Error::KeyNotFound),
        Some(record) => match &record.contents.private {
            None => Err(Error::NoPrivateKey),
            Some(envelope) => vault.decrypt_secret(envelope),
        },
    }
}

/// The text to write when a stored key is exported in a mode.
pub open spec fn spec_export_key(
    key: Option<Seq<u8>>,
    secrets: Seq<KeyMetadataModel>,
    id: Seq<char>,
    mode: KeyExportMode,
) -> Result<Seq<char>, Error> {
    match spec_private_text(key, secrets, id) {
        Ok(raw) => spec_export_text(raw, mode),
        Err(e) => Err(e),
    }
}

/// The text to write when a stored key is exported in a mode.
pub fn export_key(vault: &Vault, key: &str, mode: KeyExportMode) -> (text: Result<
    SecretText,
    Error,
>)
    requires
        vault.wf(),
    ensures
        secret_agrees(text, spec_export_key(vault@.key, vault@.file.secrets, key@, mode)),
{
    match private_text(vault, key) {
        Ok(raw) => export_text(raw, mode),
        Err(e) => Err(e),
    }
}

/// While the vault is locked, no sealed text is opened, no private key is
/// read and no key is exported.
pub proof fn law_locked_vault_reveals_nothing(
    secrets: Seq<KeyMetadataModel>,
    envelope: crate::sealbox::EncryptedSecretModel,
    id: Seq<char>,
    mode: KeyExportMode,
)
    ensures
        crate::vault::spec_decrypt(None, envelope) == Err::<Seq<char>, Error>(Error::VaultLocked),
        spec_private_text(None, secrets, id) is Err,
        spec_export_key(None, secrets, id, mode) is Err,
        spec_resolve_identity(None, secrets, id, DecryptionMethod::X25519) is Err,
{
}

/// The identity to decrypt with: the stored key with the given identifier,
/// read as the kind its text names, or the passphrase itself.
pub open spec fn spec_resolve_identity(
    key: Option<Seq<u8>>,
    secrets: Seq<KeyMetadataModel>,
    private_key: Seq<char>,
    method: DecryptionMethod,
) -> Result<IdentityModel, Error> {
    match method {
        DecryptionMethod::Scrypt => Ok(IdentityModel::Scrypt(private_key)),
        DecryptionMethod::X25519 => match spec_private_text(key, secrets, private_key) {
            Ok(text) => spec_identity_from_text(text),
            Err(e) => Err(e),
        },
    }
}

/// The identity to decrypt with.
pub fn resolve_identity(vault: &Vault, private_key: String, method: DecryptionMethod) -> (identity:
    Result<WildcardIdentity, Error>)
    requires
        vault.wf(),
    ensures
        identity_agrees(
            identity,
            spec_resolve_identity(vault@.key, vault@.file.secrets, private_key@, method),
        ),
{
    match method {
        DecryptionMethod::Scrypt => Ok(
            WildcardIdentity::Scrypt(ScryptIdentity::new(SecretText::new(private_key))),
        ),
        DecryptionMethod::X25519 => match private_text(vault, private_key.as_str()) {
            Ok(text) => identity_from_text(text),
            Err(e) => Err(e),
        },
    }
}

/// The public key texts of the stored keys with the given identifiers.
pub fn public_texts(vault: &Vault, ids: &Vec<String>) -> (texts: Result<Vec<String>, Error>)
    requires
        vault.wf(),
    ensures
        match texts {
            Ok(list) => {
                &&& list@.len() == ids@.len()
                &&& forall|i: int|
                    0 <= i < ids@.len() ==> {
                        &&& lookup(vault@.file.secrets, #[trigger] ids@[i]@) is Some
                        &&& lookup(vault@.file.secrets, ids@[i]@)->0.contents.public == list@[i]@
                    }
            },
            Err(e) => e == Error::KeyNotFound && exists|i: int|
                0 <= i < ids@.len() && lookup(vault@.file.secrets, #[trigger] ids@[i]@) is None,
        },
{
    let mut list: Vec<String> = Vec::new();
    let mut i: usize = 0;
    while i < ids.len()
        invariant
            i <= ids@.len(),
            list@.len() == i,
            vault.wf(),
            forall|j: int|
                0 <= j < i ==> {
                    &&& lookup(vault@.file.secrets, #[trigger] ids@[j]@) is Some
                    &&& lookup(vault@.file.secrets, ids@[j]@)->0.contents.public == list@[j]@
                },
        decreases ids.len() - i,
    {
        match vault.get_key(ids[i].as_str()) {
            None => {
                return Err(Error::KeyNotFound);
            },
            Some(record) => {
                list.push(record.contents.public.clone());
            },
        }
        i = i + 1;
    }
    Ok(list)
}

/// The public key texts stored under some identifiers.
pub open spec fn spec_publics(secrets: Seq<KeyMetadataModel>, ids: Seq<Seq<char>>) -> Seq<
    Seq<char>,
> {
    Seq::new(ids.len(), |i: int| lookup(secrets, ids[i])->0.contents.public)
}

/// What choosing the recipients for stored keys gives: the recipient of
/// each key, or the error of the first key that cannot be used.
pub open spec fn selection_agrees(
    secrets: Seq<KeyMetadataModel>,
    ids: Seq<Seq<char>>,
    recipients: Result<Vec<WildcardRecipient>, Error>,
) -> bool {
    let publics = spec_publics(secrets, ids);
    let keep = all_hybrid(publics);
    match recipients {
        Ok(list) => {
            &&& list@.len() == ids.len()
            &&& forall|i: int| 0 <= i < ids.len() ==> lookup(secrets, #[trigger] ids[i]) is Some
            &&& forall|i: int|
                0 <= i < ids.len() ==> spec_select(#[trigger] publics[i], keep) == Ok::<
                    RecipientModel,
                    Error,
                >(list@[i]@)
            &&& keep ==> forall|i: int| 0 <= i < list@.len() ==> #[trigger] list@[i] is Hybrid
            &&& !keep ==> forall|i: int| 0 <= i < list@.len() ==> #[trigger] list@[i] is X25519
        },
        Err(e) => if exists|i: int| 0 <= i < ids.len() && lookup(secrets, #[trigger] ids[i]) is None {
            e == Error::KeyNotFound
        } else {
            exists|i: int|
                {
                    &&& 0 <= i < ids.len()
                    &&& spec_select(#[trigger] publics[i], keep) == Err::<RecipientModel, Error>(e)
                    &&& forall|j: int| 0 <= j < i ==> spec_select(#[trigger] publics[j], keep) is Ok
                }
        },
    }
}

/// The recipients of an encryption. For stored keys the recipients follow
/// from their public key texts: the hybrid recipients when every key is
/// hybrid, and otherwise classical recipients throughout, each hybrid key
/// replaced by its classical twin. For a passphrase there is one recipient.
pub fn resolve_recipients(vault: &Vault, method: EncryptionMethod) -> (recipients: Result<
    Vec<WildcardRecipient>,
    Error,
>)
    requires
        vault.wf(),
    ensures
        match method {
            EncryptionMethod::Scrypt(password) => match recipients {
                Ok(list) => list@.len() == 1 && list@[0]@ == RecipientModel::Scrypt(password@),
                Err(_) => false,
            },
            EncryptionMethod::X25519(ids) => selection_agrees(
                vault@.file.secrets,
                texts_of(ids@),
                recipients,
            ),
        },
{
    match method {
        EncryptionMethod::Scrypt(password) => {
            let mut list: Vec<WildcardRecipient> = Vec::new();
            list.push(WildcardRecipient::Scrypt(ScryptRecipient::new(SecretText::new(password))));
            Ok(list)
        },
        EncryptionMethod::X25519(ids) => {
            let ghost secrets = vault@.file.secrets;
            let texts = match public_texts(vault, &ids) {
                Ok(texts) => texts,
                Err(e) => {
                    proof {
                        let i = choose|i: int|
                            0 <= i < ids@.len() && lookup(secrets, #[trigger] ids@[i]@) is None;
                        assert(lookup(secrets, texts_of(ids@)[i]) is None);
                    }
                    return Err(e);
                },
            };
            proof {
                let publics = spec_publics(secrets, texts_of(ids@));
                assert(texts_of(texts@) =~= publics) by {
                    assert forall|i: int| 0 <= i < publics.len() implies texts_of(texts@)[i]
                        == publics[i] by {
                        assert(lookup(secrets, ids@[i]@) is Some);
                    }
                }
                assert forall|i: int| 0 <= i < ids@.len() implies lookup(
                    secrets,
                    #[trigger] texts_of(ids@)[i],
                ) is Some by {
                    assert(lookup(secrets, ids@[i]@) is Some);
                }
            }
            let selected = select_recipients(&texts);
            proof {
                let publics = spec_publics(secrets, texts_of(ids@));
                let keep = all_hybrid(publics);
                if selected is Ok {
                    let list = selected->Ok_0;
                    assert forall|i: int| 0 <= i < ids@.len() implies spec_select(
                        #[trigger] publics[i],
                        keep,
                    ) == Ok::<RecipientModel, Error>(list@[i]@) by {
                        assert(publics[i] == texts@[i]@);
                    }
                } else {
                    let e = selected->Err_0;
                    {
                        let i = choose|i: int|
                            {
                                &&& 0 <= i < texts@.len()
                                &&& spec_select(#[trigger] texts@[i]@, keep) == Err::<
                                    RecipientModel,
                                    Error,
                                >(e)
                                &&& forall|j: int|
                                    0 <= j < i ==> spec_select(#[trigger] texts@[j]@, keep) is Ok
                            };
                        assert(publics[i] == texts@[i]@);
                        assert forall|j: int| 0 <= j < i implies spec_select(
                            #[trigger] publics[j],
                            keep,
                        ) is Ok by {
                            assert(publics[j] == texts@[j]@);
                        }
                    }
                }
            }
            selected
        },
    }
}

/// The public key text that is stored when a key text is imported: for a
/// private key the text of its recipient, for a public key its canonical
/// text.
pub open spec fn spec_import_public(key_content: Seq<char>) -> Result<Seq<char>, Error> {
    if is_prefix(private_marker(), key_content) {
        match spec_identity_from_text(key_content) {
            Ok(identity) => spec_public_text(identity),
            Err(e) => Err(e),
        }
    } else if is_prefix(recipient_hrp(), key_content) {
        match spec_parse_recipient(key_content) {
            Ok(key) => Ok(spec_recipient_text(key)),
            Err(e) => Err(e),
        }
    } else {
        match classic_recipient(key_content) {
            Some(canonical) => Ok(canonical),
            None => Err(Error::InvalidClassicalKey),
        }
    }
}

/// The private key that is stored when a key text is imported: none for a
/// public key; for a private key a sealed text of the identity.
pub open spec fn spec_import_private(
    key: Option<Seq<u8>>,
    key_content: Seq<char>,
    record: KeyMetadataModel,
) -> bool {
    if is_prefix(private_marker(), key_content) {
        &&& record.key_type == KeyType::Private
        &&& spec_identity_from_text(key_content) matches Ok(identity)
        &&& is_public_of(identity, record.contents.public)
        &&& holds_identity(key, record.contents.private, identity)
    } else {
        &&& record.key_type == KeyType::Public
        &&& record.contents.private is None
        &&& is_prefix(recipient_hrp(), key_content) ==> spec_parse_recipient(
            record.contents.public,
        ) == spec_parse_recipient(key_content)
    }
}

/// `record` is what importing a key text under a name stores.
pub open spec fn spec_imported(
    key: Option<Seq<u8>>,
    name: Seq<char>,
    key_content: Seq<char>,
    record: KeyMetadataModel,
) -> bool {
    &&& record.name == name
    &&& spec_import_public(key_content) == Ok::<Seq<char>, Error>(record.contents.public)
    &&& spec_import_private(key, key_content, record)
}

/// The record for an imported key text. A private key is read as a hybrid
/// or a classical identity by its prefix; the record holds the recipient of
/// the identity and the identity's text, sealed. A public key is read as a
/// hybrid or a classical recipient by its prefix. Sealing needs the vault
/// unlocked.
pub fn import_record(vault: &Vault, name: String, key_content: String) -> (record: Result<
    KeyMetadata,
    Error,
>)
    ensures
        match record {
            Ok(r) => spec_imported(vault@.key, name@, key_content@, r@),
            Err(e) => match spec_import_public(key_content@) {
                Err(reason) => e == reason,
                Ok(_) => is_prefix(private_marker(), key_content@) && if vault@.key is None {
                    e == Error::VaultLocked
                } else {
                    e == Error::Unavailable
                },
            },
        },
{
    if starts_with(key_content.as_str(), "AGE-SECRET-KEY") {
        let identity = match identity_from_text(SecretText::new(key_content)) {
            Ok(identity) => identity,
            Err(e) => {
                return Err(e);
            },
        };
        let recipient = match identity.to_public() {
            Ok(recipient) => recipient,
            Err(e) => {
                return Err(e);
            },
        };
        let public = match recipient.to_string() {
            Ok(public) => public,
            Err(e) => {
                return Err(e);
            },
        };
        let text = match identity.to_string() {
            Ok(text) => text,
            Err(e) => {
                return Err(e);
            },
        };
        let key = match vault.get_vault_key() {
            Ok(key) => key,
            Err(e) => {
                return Err(e);
            },
        };
        match Vault::encrypt_secret(key, &text) {
            Ok(envelope) => Ok(
                KeyMetadata::from_keypair(name, KeyPair { public, private: Some(envelope) }),
            ),
            Err(e) => Err(e),
        }
    } else if starts_with(key_content.as_str(), "age1pq") {
        match HybridRecipient::from_string(&key_content) {
            Ok(recipient) => Ok(
                KeyMetadata::from_keypair(
                    name,
                    KeyPair { public: recipient.to_string(), private: None },
                ),
            ),
            Err(e) => Err(e),
        }
    } else {
        match X25519Recipient::from_string(key_content.as_str()) {
            Ok(recipient) => Ok(KeyMetadata::from_keypair(name, KeyPair::from_recipient(recipient))),
            Err(e) => Err(e),
        }
    }
}

/// `after` is `before` with one record stored under the record's identifier.
pub open spec fn stored_in(
    before: Seq<KeyMetadataModel>,
    after: Seq<KeyMetadataModel>,
    record: KeyMetadataModel,
) -> bool {
    &&& lookup(after, record.id) == Some(record)
    &&& forall|id: Seq<char>| id != record.id ==> lookup(after, id) == lookup(before, id)
}

/// Imports a key text under a name: the record of the key is stored in the
/// vault. Needs the vault unlocked. A public key that parses is always
/// stored; a private key is stored unless sealing is unavailable. On
/// failure the vault is unchanged.
pub fn import_key_text(vault: &mut Vault, name: String, key_content: String) -> (imported: Result<
    String,
    Error,
>)
    requires
        old(vault).wf(),
    ensures
        final(vault).wf(),
        final(vault)@.key == old(vault)@.key,
        final(vault)@.path == old(vault)@.path,
        match imported {
            Ok(message) => {
                &&& message@ == "key import complete"@
                &&& old(vault)@.key is Some
                &&& exists|record: KeyMetadataModel|
                    {
                        &&& spec_imported(old(vault)@.key, name@, key_content@, record)
                        &&& #[trigger] stored_in(
                            old(vault)@.file.secrets,
                            final(vault)@.file.secrets,
                            record,
                        )
                    }
            },
            Err(e) => {
                &&& final(vault)@.file == old(vault)@.file
                &&& match spec_import_public(key_content@) {
                    Err(reason) => e == reason,
                    Ok(_) => if old(vault)@.key is None {
                        e == Error::VaultLocked
                    } else {
                        is_prefix(private_marker(), key_content@) && e == Error::Unavailable
                    },
                }
            },
        },
{
    let record = match import_record(vault, name, key_content) {
        Ok(record) => record,
        Err(e) => {
            return Err(e);
        },
    };
    let ghost model = record@;
    match vault.put_key(record) {
        Ok(()) => {
            assert(stored_in(old(vault)@.file.secrets, vault@.file.secrets, model));
            Ok(String::from_str("key import complete"))
        },
        Err(e) => Err(e),
    }
}

/// `record` holds a generated identity of the format asked for: its private
/// key opens under the vault key to the text of an identity, and its public
/// key is the text of that identity's recipient.
pub open spec fn spec_generated(
    key: Option<Seq<u8>>,
    format: Option<KeyFormat>,
    record: KeyMetadataModel,
) -> bool {
    match spec_sealed_text(key, record.contents.private) {
        Err(_) => false,
        Ok(text) => if format == Some(KeyFormat::X25519) {
            spec_public_text(IdentityModel::X25519(text)) == Ok::<Seq<char>, Error>(
                record.contents.public,
            )
        } else {
            match spec_parse_identity(text) {
                Ok(seed) => {
                    &&& text == crate::hybrid::spec_identity_text(seed)
                    &&& record.contents.public == spec_recipient_text(
                        crate::hybrid::spec_recipient_key(seed),
                    )
                    &&& spec_parse_recipient(record.contents.public) == Ok::<Seq<u8>, Error>(
                        crate::hybrid::spec_recipient_key(seed),
                    )
                },
                Err(_) => false,
            }
        },
    }
}

/// Generates a key pair under a name and stores it: a classical identity
/// when that format is asked for, a hybrid identity otherwise. A name is
/// needed, and the vault must be unlocked. On failure the vault is
/// unchanged.
pub fn generate_keypair(vault: &mut Vault, name: String, format: Option<KeyFormat>) -> (generated:
    Result<(), Error>)
    requires
        old(vault).wf(),
    ensures
        final(vault).wf(),
        final(vault)@.key == old(vault)@.key,
        final(vault)@.path == old(vault)@.path,
        match generated {
            Ok(()) => {
                &&& name@.len() > 0
                &&& old(vault)@.key is Some
                &&& exists|record: KeyMetadataModel|
                    {
                        &&& record.name == name@
                        &&& record.key_type == KeyType::Private
                        &&& spec_generated(old(vault)@.key, format, record)
                        &&& #[trigger] stored_in(
                            old(vault)@.file.secrets,
                            final(vault)@.file.secrets,
                            record,
                        )
                    }
            },
            Err(e) => {
                &&& final(vault)@.file == old(vault)@.file
                &&& if name@.len() == 0 {
                    e == Error::NoNameSet
                } else if old(vault)@.key is None {
                    e == Error::VaultLocked
                } else {
                    e == Error::Unavailable
                }
            },
        },
{
    if name.as_str().is_empty() {
        return Err(Error::NoNameSet);
    }
    let classical = match format {
        Some(KeyFormat::X25519) => true,
        _ => false,
    };
    let made = if classical {
        vault.generate_key(name)
    } else {
        vault.generate_hybrid_key(name)
    };
    let record = match made {
        Ok(record) => record,
        Err(e) => {
            return Err(e);
        },
    };
    let ghost model = record@;
    match vault.put_key(record) {
        Ok(()) => {
            assert(stored_in(old(vault)@.file.secrets, vault@.file.secrets, model));
            Ok(())
        },
        Err(e) => Err(e),
    }
}

/// What the user interface sends while the vault asks for a passphrase.
pub enum AuthEvent {
    Password(String),
    Cancel,
}

/// What to do after an event: ask again, or finish with a status.
#[derive(Clone, Copy, Debug, PartialEq, Eq, Structural)]
pub enum AuthAction {
    Retry,
    Finish(VaultStatusUpdate),
}

/// The answer to an event while the vault asks for a passphrase.
pub open spec fn spec_auth_action(file: crate::codec::VaultFileModel, event: AuthEvent)
    -> AuthAction {
    match event {
        AuthEvent::Cancel => AuthAction::Finish(VaultStatusUpdate::AuthenticationCancel),
        AuthEvent::Password(password) => match spec_unlock(file, password@) {
            Ok(()) => AuthAction::Finish(VaultStatusUpdate::Unlocked),
            Err(Error::IntegrityCheckFailed) => AuthAction::Finish(
                VaultStatusUpdate::VerificationFail,
            ),
            Err(_) => AuthAction::Retry,
        },
    }
}

/// `after` is `before` with the public key of every record derived anew.
pub open spec fn repaired(
    key: Option<Seq<u8>>,
    before: Seq<KeyMetadataModel>,
    after: Seq<KeyMetadataModel>,
) -> bool {
    &&& after.len() == before.len()
    &&& forall|i: int|
        0 <= i < before.len() ==> crate::vault::spec_regenerated(
            key,
            #[trigger] before[i],
            after[i],
        )
}

/// One step of authentication. A cancellation ends it and leaves the vault
/// as it is. A passphrase is tried on the vault: when it is wrong the
/// caller asks again; when it is right the vault is unlocked; when it is
/// right but the stored keys fail the integrity check, the vault is
/// unlocked, the public keys are derived anew where that succeeds, and the
/// failed verification is reported.
pub fn authenticate_step(vault: &mut Vault, event: AuthEvent) -> (action: AuthAction)
    requires
        old(vault).wf(),
    ensures
        final(vault).wf(),
        final(vault)@.path == old(vault)@.path,
        action == spec_auth_action(old(vault)@.file, event),
        match event {
            AuthEvent::Cancel => final(vault)@ == old(vault)@,
            AuthEvent::Password(password) => {
                &&& final(vault)@.key == spec_candidate_key(old(vault)@.file, password@)
                &&& final(vault)@.file.salt == old(vault)@.file.salt
                &&& final(vault)@.file.hello == old(vault)@.file.hello
                &&& final(vault)@.file.hmac == old(vault)@.file.hmac
                &&& final(vault)@.file.secrets == old(vault)@.file.secrets || (action
                    == AuthAction::Finish(VaultStatusUpdate::VerificationFail) && repaired(
                    final(vault)@.key,
                    old(vault)@.file.secrets,
                    final(vault)@.file.secrets,
                ))
            },
        },
{
    match event {
        AuthEvent::Cancel => AuthAction::Finish(VaultStatusUpdate::AuthenticationCancel),
        AuthEvent::Password(password) => {
            match vault.set_vault_key(SecretText::new(password)) {
                Ok(()) => AuthAction::Finish(VaultStatusUpdate::Unlocked),
                Err(Error::IntegrityCheckFailed) => {
                    let _repaired = vault.regenerate_public_identities();
                    AuthAction::Finish(VaultStatusUpdate::VerificationFail)
                },
                Err(_) => AuthAction::Retry,
            }
        },
    }
}

/// Locks the vault.
pub fn lock_vault(vault: &mut Vault) -> (status: VaultStatusUpdate)
    requires
        old(vault).wf(),
    ensures
        final(vault).wf(),
        final(vault)@.key is None,
        final(vault)@.file == old(vault)@.file,
        final(vault)@.path == old(vault)@.path,
        status == VaultStatusUpdate::Locked,
{
    vault.delete_vault_key();
    VaultStatusUpdate::Locked
}

/// Whether there is a vault and it is unlocked.
pub fn vault_unlocked(vault: Option<&Vault>) -> (unlocked: bool)
    ensures
        unlocked == (vault matches Some(v) && v@.key is Some),
{
    match vault {
        Some(v) => v.is_unlocked(),
        None => false,
    }
}

/// The stored records without their private keys; none without a vault.
pub fn fetch_keys(vault: Option<&Vault>) -> (keys: Vec<KeyMetadata>)
    ensures
        forall|i: int| 0 <= i < keys@.len() ==> (#[trigger] keys@[i])@.contents.private is None,
        match vault {
            Some(v) => {
                &&& keys@.len() == v@.file.secrets.len()
                &&& forall|i: int|
                    0 <= i < keys@.len() ==> (#[trigger] keys@[i])@
                        == crate::record::spec_redacted(v@.file.secrets[i])
            },
            None => keys@.len() == 0,
        },
{
    match vault {
        Some(v) => v.list_keys(),
        None => Vec::new(),
    }
}

/// The record stored under an identifier, if there is a vault and a record.
pub fn fetch_key(vault: Option<&Vault>, name: &str) -> (key: Option<KeyMetadata>)
    requires
        vault matches Some(v) ==> v.wf(),
    ensures
        match key {
            Some(k) => vault matches Some(v) && lookup(v@.file.secrets, name@) == Some(k@),
            None => vault matches Some(v) ==> lookup(v@.file.secrets, name@) is None,
        },
{
    match vault {
        Some(v) => match v.get_key(name) {
            Some(record) => Some(record.duplicate()),
            None => None,
        },
        None => None,
    }
}

/// The number of words in a passphrase.
pub const PASSPHRASE_WORDS: usize = 12;

/// The words joined by hyphens.
pub open spec fn spec_join(words: Seq<Seq<char>>) -> Seq<char>
    decreases words.len(),
{
    if words.len() == 0 {
        Seq::empty()
    } else if words.len() == 1 {
        words[0]
    } else {
        spec_join(words.drop_last()) + seq!['-'] + words.last()
    }
}

/// No word occurs twice.
pub open spec fn all_distinct(words: Seq<Seq<char>>) -> bool {
    forall|i: int, j: int| 0 <= i < j < words.len() ==> #[trigger] words[i] != #[trigger] words[j]
}

/// A plain word: one or more lower-case ASCII letters, so that it holds
/// neither a space nor a hyphen.
pub open spec fn is_word(word: Seq<char>) -> bool {
    word.len() > 0 && forall|i: int| 0 <= i < word.len() ==> 'a' <= #[trigger] word[i] <= 'z'
}

/// Every word of the list is a plain word.
pub open spec fn all_words(words: Seq<Seq<char>>) -> bool {
    forall|i: int| 0 <= i < words.len() ==> is_word(#[trigger] words[i])
}

/// Whether a text is a plain word.
pub fn word_is_plain(word: &str) -> (plain: bool)
    ensures
        plain == is_word(word@),
{
    if !word.is_ascii() {
        return false;
    }
    let n = word.unicode_len();
    if n == 0 {
        return false;
    }
    let mut i: usize = 0;
    while i < n
        invariant
            i <= n,
            n == word@.len(),
            word.is_ascii(),
            forall|j: int| 0 <= j < i ==> 'a' <= #[trigger] word@[j] <= 'z',
        decreases n - i,
    {
        let b = word.get_ascii(i);
        if b < 97 || b > 122 {
            assert(!('a' <= word@[i as int] <= 'z'));
            return false;
        }
        i = i + 1;
    }
    true
}

/// Whether every word of a list is a plain word.
pub fn words_plain(words: &Vec<String>) -> (plain: bool)
    ensures
        plain == all_words(texts_of(words@)),
{
    let mut i: usize = 0;
    while i < words.len()
        invariant
            i <= words@.len(),
            forall|j: int| 0 <= j < i ==> is_word(#[trigger] texts_of(words@)[j]),
        decreases words.len() - i,
    {
        if !word_is_plain(words[i].as_str()) {
            assert(!is_word(texts_of(words@)[i as int]));
            return false;
        }
        i = i + 1;
    }
    true
}

/// Whether no word of a list occurs twice.
pub fn words_distinct(words: &Vec<String>) -> (distinct: bool)
    ensures
        distinct == all_distinct(texts_of(words@)),
{
    let mut j: usize = 0;
    while j < words.len()
        invariant
            j <= words@.len(),
            forall|a: int, b: int|
                0 <= a < b < j ==> #[trigger] texts_of(words@)[a] != #[trigger] texts_of(words@)[b],
        decreases words.len() - j,
    {
        let mut i: usize = 0;
        while i < j
            invariant
                i <= j < words@.len(),
                forall|a: int| 0 <= a < i ==> #[trigger] texts_of(words@)[a] != texts_of(words@)[j as int],
            decreases j - i,
        {
            if text_equal(words[i].as_str(), words[j].as_str()) {
                assert(texts_of(words@)[i as int] == texts_of(words@)[j as int]);
                return false;
            }
            i = i + 1;
        }
        j = j + 1;
    }
    true
}

/// The passphrase made of the given words: the words joined by hyphens,
/// when there are twelve of them, each is a plain word and no word occurs
/// twice.
pub fn passphrase_from_words(words: &Vec<String>) -> (passphrase: Option<String>)
    ensures
        match passphrase {
            Some(p) => {
                &&& words@.len() == PASSPHRASE_WORDS
                &&& all_words(texts_of(words@))
                &&& all_distinct(texts_of(words@))
                &&& p@ == spec_join(texts_of(words@))
            },
            None => words@.len() != PASSPHRASE_WORDS || !all_words(texts_of(words@))
                || !all_distinct(texts_of(words@)),
        },
{
    if words.len() != PASSPHRASE_WORDS || !words_plain(words) || !words_distinct(words) {
        return None;
    }
    let mut joined = words[0].clone();
    let mut i: usize = 1;
    assert(texts_of(words@).take(1) =~= seq![words@[0]@]);
    while i < words.len()
        invariant
            1 <= i <= words@.len(),
            joined@ == spec_join(texts_of(words@).take(i as int)),
        decreases words.len() - i,
    {
        proof {
            reveal_strlit("-");
            let now = texts_of(words@).take(i + 1);
            assert(now.drop_last() =~= texts_of(words@).take(i as int));
            assert(now.last() == words@[i as int]@);
            assert("-"@ =~= seq!['-']);
        }
        joined.append("-");
        joined.append(words[i].as_str());
        i = i + 1;
    }
    assert(texts_of(words@).take(words@.len() as int) =~= texts_of(words@));
    Some(joined)
}

/// `bip39::Mnemonic::generate` with 12 words, read off with `words`: the
/// words of a fresh mnemonic, or nothing when the crate reports an error.
/// The words depend on fresh randomness.
#[verifier::external_body]
fn mnemonic_words() -> (words: Option<Vec<String>>) {
    match bip39::Mnemonic::generate(12) {
        Ok(mnemonic) => Some(mnemonic.words().map(|word| word.to_string()).collect()),
        Err(_) => None,
    }
}

/// A fresh passphrase: twelve different plain words joined by hyphens.
/// Words are drawn anew, up to a fixed number of times, until no word
/// occurs twice.
pub fn generate_passphrase() -> (passphrase: Result<String, Error>)
    ensures
        match passphrase {
            Ok(p) => exists|words: Seq<Seq<char>>|
                {
                    &&& words.len() == PASSPHRASE_WORDS
                    &&& all_words(words)
                    &&& all_distinct(words)
                    &&& p@ == #[trigger] spec_join(words)
                },
            Err(e) => e == Error::Unavailable,
        },
{
    let mut attempt: u8 = 0;
    while attempt < 32
        invariant
            attempt <= 32,
        decreases 32 - attempt,
    {
        match mnemonic_words() {
            None => {
                return Err(Error::Unavailable);
            },
            Some(words) => match passphrase_from_words(&words) {
                Some(p) => {
                    assert(p@ == spec_join(texts_of(words@)));
                    return Ok(p);
                },
                None => {},
            },
        }
        attempt = attempt + 1;
    }
    Err(Error::Unavailable)
}

} // verus!
