//! The vault: a password-sealed, integrity-checked store of keys.
//!
//! A vault is locked or unlocked. Unlocking derives the vault key from the
//! passphrase and checks it against the probe envelope; the integrity tag
//! then tells whether the stored keys are the ones that were saved. Every
//! operation that reads or writes key material needs the vault unlocked.

use vstd::prelude::*;
use vstd::string::StringExecFns;
use vstd::string::StringSliceAdditionalSpecFns;
use vstd::utf8::*;
use crate::classic::X25519Identity;
use crate::codec::{
    encode_file, encode_secrets, models_of, spec_file, spec_secrets,
    VaultFile, VaultFileModel,
};
use crate::error::Error;
use crate::hybrid::HybridIdentity;
use crate::keyset::{find, lemma_lookup_at, lookup, put, remove};
use crate::reader::{
    decode_file, envelope_fits, file_fits, key_fits, lemma_parse_file, spec_parse_file,
};
use crate::record::{
    spec_kind_of, spec_redacted, KeyMetadata, KeyMetadataModel, KeyPair, KeyType,
};
use crate::sealbox::{
    argon2id_key, derive_key, hmac_sha256_tag, integrity_tag, open, random_bytes, seal,
    seal_with_nonce, spec_open, xchacha_sealed, EncryptedSecret, EncryptedSecretModel, TAG_BYTES,
};
use crate::secret::{SecretKey, SecretText};
use crate::text::{bytes_equal, copy_bytes, string_from_utf8};
use crate::wildcard::{
    is_text_of, spec_public, spec_recipient_string, IdentityModel, WildcardIdentity,
};

verus! {

/// The store: a vault file, the place it is kept, and the vault key while
/// the vault is unlocked.
pub struct Vault {
    file: VaultFile,
    path: String,
    key: Option<SecretKey>,
}

/// A vault as plain values.
pub struct VaultModel {
    pub file: VaultFileModel,
    pub path: Seq<char>,
    pub key: Option<Seq<u8>>,
}

/// The plain value of an optional key.
pub open spec fn key_model(key: Option<SecretKey>) -> Option<Seq<u8>> {
    match key {
        Some(k) => Some(k@),
        None => None,
    }
}

/// The probe plaintext that a right passphrase must open.
pub open spec fn probe() -> Seq<u8> {
    "hello".spec_bytes()
}

/// The key that a passphrase gives for a vault file, when it is the right
/// passphrase: the derived key must open the probe envelope.
pub open spec fn spec_candidate_key(file: VaultFileModel, passphrase: Seq<char>) -> Option<Seq<u8>> {
    match argon2id_key(passphrase, file.salt) {
        Some(k) => if spec_open(k, file.hello) is Some {
            Some(k)
        } else {
            None
        },
        None => None,
    }
}

/// The integrity tag of the stored keys under a key.
pub open spec fn spec_tag(file: VaultFileModel, key: Seq<u8>) -> Seq<u8> {
    hmac_sha256_tag(key, spec_secrets(file.secrets))
}

/// The stored keys are authentic under a key: the tag is present and it is
/// the tag of the keys.
pub open spec fn spec_authentic(file: VaultFileModel, key: Seq<u8>) -> bool {
    file.hmac == Some(spec_tag(file, key))
}

/// What unlocking with a passphrase reports: a wrong passphrase when the
/// probe does not open, an integrity failure when it opens but the keys are
/// not authentic, success otherwise.
pub open spec fn spec_unlock(file: VaultFileModel, passphrase: Seq<char>) -> Result<(), Error> {
    match spec_candidate_key(file, passphrase) {
        None => Err(Error::PasswordIncorrect),
        Some(k) => if spec_authentic(file, k) {
            Ok(())
        } else {
            Err(Error::IntegrityCheckFailed)
        },
    }
}

/// The file as a save under a key leaves it: the tag is set anew.
pub open spec fn spec_saved(file: VaultFileModel, key: Seq<u8>) -> VaultFileModel {
    VaultFileModel { hmac: Some(spec_tag(file, key)), ..file }
}

/// A well-formed vault: the file can be written, and the key, if the vault
/// is unlocked, opens the probe envelope.
pub open spec fn vault_wf(vault: VaultModel) -> bool {
    &&& file_fits(vault.file)
    &&& vault.key matches Some(k) ==> k.len() == 32 && spec_open(k, vault.file.hello) is Some
}

/// What opening a sealed text under the vault key gives.
pub open spec fn spec_decrypt(key: Option<Seq<u8>>, secret: EncryptedSecretModel) -> Result<
    Seq<char>,
    Error,
> {
    match key {
        None => Err(Error::VaultLocked),
        Some(k) => match spec_open(k, secret) {
            None => Err(Error::SecretUnreadable),
            Some(plaintext) => if valid_utf8(plaintext) {
                Ok(decode_utf8(plaintext))
            } else {
                Err(Error::SecretUnreadable)
            },
        },
    }
}

/// The lengths of an envelope fit their heads.
fn measure_envelope(envelope: &EncryptedSecret)
    ensures
        envelope_fits(envelope@),
{
    let _n = envelope.nonce.len();
    let _c = envelope.ciphertext.len();
}

/// The lengths of a record fit their heads.
fn measure_key(key: &KeyMetadata)
    ensures
        key_fits(key@),
{
    let _i = key.id.as_str().as_bytes().len();
    let _n = key.name.as_str().as_bytes().len();
    let _p = key.contents.public.as_str().as_bytes().len();
    match &key.contents.private {
        Some(envelope) => measure_envelope(envelope),
        None => {},
    }
}

impl View for Vault {
    type V = VaultModel;

    closed spec fn view(&self) -> VaultModel {
        VaultModel { file: self.file@, path: self.path@, key: key_model(self.key) }
    }
}

impl Vault {
    /// The vault is well formed.
    pub open spec fn wf(&self) -> bool {
        vault_wf(self@)
    }

    /// Creates a vault under a passphrase from a given salt and a given
    /// nonce: the key is derived from passphrase and salt, the probe is
    /// sealed under the key and the nonce, there are no stored keys and no
    /// integrity tag yet. The vault is unlocked. Fails with a wrong
    /// passphrase error when the key derivation refuses its inputs, and as
    /// unavailable when the cipher refuses to seal.
    pub fn create_vault_with(path: &str, password: &SecretText, salt: [u8; 16], nonce: [u8; 24])
        -> (created: Result<Vault, Error>)
        ensures
            match created {
                Ok(v) => {
                    &&& v.wf()
                    &&& v@.path == path@
                    &&& v@.file.salt == salt@
                    &&& v@.file.hello.nonce == nonce@
                    &&& v@.file.secrets.len() == 0
                    &&& v@.file.hmac is None
                    &&& v@.key is Some
                    &&& v@.key == argon2id_key(password@, salt@)
                    &&& xchacha_sealed(v@.key->0, nonce@, probe()) == Some(
                        v@.file.hello.ciphertext,
                    )
                    &&& spec_open(v@.key->0, v@.file.hello) == Some(probe())
                },
                Err(e) => if argon2id_key(password@, salt@) is None {
                    e == Error::PasswordIncorrect
                } else {
                    e == Error::Unavailable && xchacha_sealed(
                        argon2id_key(password@, salt@)->0,
                        nonce@,
                        probe(),
                    ) is None
                },
            },
    {
        let key = match derive_key(password, salt.as_slice()) {
            Ok(key) => key,
            Err(e) => {
                return Err(e);
            },
        };
        let hello = match seal_with_nonce(&key, nonce, "hello".as_bytes()) {
            Ok(hello) => hello,
            Err(e) => {
                return Err(e);
            },
        };
        measure_envelope(&hello);
        let _k = key.expose();
        let file = VaultFile {
            salt: copy_bytes(salt.as_slice()),
            hello,
            secrets: Vec::new(),
            hmac: None,
        };
        assert(models_of(file.secrets@) =~= Seq::<KeyMetadataModel>::empty());
        Ok(Vault { file, path: String::from_str(path), key: Some(key) })
    }

    /// Creates a vault under a passphrase: a fresh salt, the key derived
    /// from passphrase and salt, the probe sealed under the key with a
    /// fresh nonce, no stored keys and no integrity tag yet. The vault is
    /// unlocked, and the passphrase is the one that unlocks it.
    pub fn create_vault(path: &str, password: &SecretText) -> (created: Result<Vault, Error>)
        ensures
            match created {
                Ok(vault) => {
                    &&& vault.wf()
                    &&& vault@.path == path@
                    &&& vault@.file.salt.len() == crate::sealbox::SALT_BYTES
                    &&& vault@.file.hello.nonce.len() == crate::sealbox::NONCE_BYTES
                    &&& vault@.file.secrets.len() == 0
                    &&& vault@.file.hmac is None
                    &&& vault@.key is Some
                    &&& vault@.key == spec_candidate_key(vault@.file, password@)
                    &&& spec_open(vault@.key->0, vault@.file.hello) == Some(probe())
                },
                Err(e) => e == Error::Unavailable || e == Error::PasswordIncorrect,
            },
    {
        let salt = match random_bytes::<16>() {
            Ok(salt) => salt,
            Err(e) => {
                return Err(e);
            },
        };
        let nonce = match random_bytes::<24>() {
            Ok(nonce) => nonce,
            Err(e) => {
                return Err(e);
            },
        };
        Vault::create_vault_with(path, password, salt, nonce)
    }

    /// Reads a vault from the bytes of its file. The vault is locked: no key
    /// is derived yet.
    pub fn load_vault(path: &str, data: &[u8]) -> (loaded: Result<Vault, Error>)
        ensures
            match loaded {
                Ok(vault) => {
                    &&& vault.wf()
                    &&& vault@.path == path@
                    &&& vault@.key is None
                    &&& spec_parse_file(data@) == Some(vault@.file)
                    &&& data@ == spec_file(vault@.file)
                },
                Err(e) => e == Error::MalformedVault && spec_parse_file(data@) is None,
            },
    {
        match decode_file(data) {
            None => Err(Error::MalformedVault),
            Some(file) => Ok(Vault { file, path: String::from_str(path), key: None }),
        }
    }

    /// Whether the vault is unlocked.
    pub fn is_unlocked(&self) -> (unlocked: bool)
        ensures
            unlocked == (self@.key is Some),
    {
        self.key.is_some()
    }

    /// The place where the vault is kept.
    pub fn path(&self) -> (path: &str)
        ensures
            path@ == self@.path,
    {
        self.path.as_str()
    }

    /// Unlocks the vault with a passphrase. A wrong passphrase locks the
    /// vault and is reported as such, never as an integrity failure. When
    /// the passphrase is right but the stored keys are not authentic, the
    /// vault is unlocked all the same and the integrity failure is
    /// reported, so that the caller can repair the keys.
    pub fn set_vault_key(&mut self, password: SecretText) -> (unlocked: Result<(), Error>)
        requires
            old(self).wf(),
        ensures
            final(self).wf(),
            final(self)@.file == old(self)@.file,
            final(self)@.path == old(self)@.path,
            unlocked == spec_unlock(old(self)@.file, password@),
            final(self)@.key == spec_candidate_key(old(self)@.file, password@),
    {
        let key = match derive_key(&password, self.file.salt.as_slice()) {
            Ok(key) => key,
            Err(e) => {
                self.key = None;
                return Err(Error::PasswordIncorrect);
            },
        };
        if open(&key, &self.file.hello).is_none() {
            self.key = None;
            return Err(Error::PasswordIncorrect);
        }
        let encoded = encode_secrets(&self.file.secrets);
        let tag = integrity_tag(&key, encoded.as_slice());
        let authentic = match &self.file.hmac {
            Some(stored) => bytes_equal(stored.as_slice(), tag.as_slice()),
            None => false,
        };
        let _k = key.expose();
        self.key = Some(key);
        if authentic {
            Ok(())
        } else {
            Err(Error::IntegrityCheckFailed)
        }
    }

    /// The vault key; fails while the vault is locked.
    pub fn get_vault_key(&self) -> (key: Result<&SecretKey, Error>)
        ensures
            match key {
                Ok(k) => self@.key == Some(k@),
                Err(e) => e == Error::VaultLocked && self@.key is None,
            },
    {
        match &self.key {
            Some(key) => Ok(key),
            None => Err(Error::VaultLocked),
        }
    }

    /// Locks the vault: the key is dropped.
    pub fn delete_vault_key(&mut self)
        requires
            old(self).wf(),
        ensures
            final(self).wf(),
            final(self)@.file == old(self)@.file,
            final(self)@.path == old(self)@.path,
            final(self)@.key is None,
    {
        self.key = None;
    }

    /// Seals a secret text under a key. The envelope opens to the text.
    pub fn encrypt_secret(key: &SecretKey, secret: &SecretText) -> (sealed: Result<
        EncryptedSecret,
        Error,
    >)
        ensures
            match sealed {
                Ok(envelope) => {
                    &&& spec_open(key@, envelope@) == Some(encode_utf8(secret@))
                    &&& spec_decrypt(Some(key@), envelope@) == Ok::<Seq<char>, Error>(secret@)
                    &&& envelope_fits(envelope@)
                },
                Err(e) => e == Error::Unavailable,
            },
    {
        match seal(key, secret.expose().as_bytes()) {
            Ok(envelope) => {
                measure_envelope(&envelope);
                proof {
                    encode_utf8_valid_utf8(secret@);
                    encode_utf8_decode_utf8(secret@);
                }
                Ok(envelope)
            },
            Err(e) => Err(e),
        }
    }

    /// Opens a sealed text under the vault key. Fails while the vault is
    /// locked, and when the envelope does not open to a text.
    pub fn decrypt_secret(&self, encrypted_secret: &EncryptedSecret) -> (secret: Result<
        SecretText,
        Error,
    >)
        ensures
            match secret {
                Ok(text) => spec_decrypt(self@.key, encrypted_secret@) == Ok::<Seq<char>, Error>(
                    text@,
                ),
                Err(e) => spec_decrypt(self@.key, encrypted_secret@) == Err::<Seq<char>, Error>(e),
            },
    {
        let key = match &self.key {
            Some(key) => key,
            None => {
                return Err(Error::VaultLocked);
            },
        };
        match open(key, encrypted_secret) {
            None => Err(Error::SecretUnreadable),
            Some(plaintext) => match string_from_utf8(plaintext) {
                Some(text) => Ok(SecretText::new(text)),
                None => Err(Error::SecretUnreadable),
            },
        }
    }

    /// The record stored under an identifier.
    pub fn get_key(&self, id: &str) -> (key: Option<&KeyMetadata>)
        requires
            self.wf(),
        ensures
            match key {
                Some(k) => lookup(self@.file.secrets, id@) == Some(k@),
                None => lookup(self@.file.secrets, id@) is None,
            },
    {
        match find(&self.file.secrets, id) {
            Some(i) => {
                proof {
                    lemma_lookup_at(models_of(self.file.secrets@), i as int);
                }
                Some(&self.file.secrets[i])
            },
            None => None,
        }
    }

    /// Stores a record under its identifier, in place of the record that
    /// was stored there, if any. Needs the vault unlocked.
    pub fn put_key(&mut self, key: KeyMetadata) -> (stored: Result<(), Error>)
        requires
            old(self).wf(),
        ensures
            final(self).wf(),
            final(self)@.path == old(self)@.path,
            final(self)@.key == old(self)@.key,
            final(self)@.file.salt == old(self)@.file.salt,
            final(self)@.file.hello == old(self)@.file.hello,
            final(self)@.file.hmac == old(self)@.file.hmac,
            match stored {
                Ok(()) => {
                    &&& old(self)@.key is Some
                    &&& lookup(final(self)@.file.secrets, key@.id) == Some(key@)
                    &&& forall|id: Seq<char>|
                        id != key@.id ==> lookup(final(self)@.file.secrets, id) == lookup(
                            old(self)@.file.secrets,
                            id,
                        )
                },
                Err(e) => {
                    &&& e == Error::VaultLocked
                    &&& old(self)@.key is None
                    &&& final(self)@.file == old(self)@.file
                },
            },
    {
        if self.key.is_none() {
            return Err(Error::VaultLocked);
        }
        measure_key(&key);
        let ghost model = key@;
        let ghost before = models_of(self.file.secrets@);
        put(&mut self.file.secrets, key);
        proof {
            let after = models_of(self.file.secrets@);
            assert forall|i: int| 0 <= i < after.len() implies key_fits(#[trigger] after[i]) by {
                lemma_lookup_at(after, i);
                if after[i].id != model.id {
                    assert(lookup(before, after[i].id) == Some(after[i]));
                    let j = choose|j: int|
                        0 <= j < before.len() && (#[trigger] before[j]).id == after[i].id;
                    lemma_lookup_at(before, j);
                }
            }
        }
        let _n = self.file.secrets.len();
        Ok(())
    }

    /// Removes the record stored under an identifier, if there is one.
    /// Needs the vault unlocked.
    pub fn delete_key(&mut self, id: &str) -> (deleted: Result<(), Error>)
        requires
            old(self).wf(),
        ensures
            final(self).wf(),
            final(self)@.path == old(self)@.path,
            final(self)@.key == old(self)@.key,
            final(self)@.file.salt == old(self)@.file.salt,
            final(self)@.file.hello == old(self)@.file.hello,
            final(self)@.file.hmac == old(self)@.file.hmac,
            match deleted {
                Ok(()) => {
                    &&& old(self)@.key is Some
                    &&& lookup(final(self)@.file.secrets, id@) is None
                    &&& forall|other: Seq<char>|
                        other != id@ ==> lookup(final(self)@.file.secrets, other) == lookup(
                            old(self)@.file.secrets,
                            other,
                        )
                },
                Err(e) => {
                    &&& e == Error::VaultLocked
                    &&& old(self)@.key is None
                    &&& final(self)@.file == old(self)@.file
                },
            },
    {
        if self.key.is_none() {
            return Err(Error::VaultLocked);
        }
        let ghost before = models_of(self.file.secrets@);
        remove(&mut self.file.secrets, id);
        proof {
            let after = models_of(self.file.secrets@);
            assert forall|i: int| 0 <= i < after.len() implies key_fits(#[trigger] after[i]) by {
                lemma_lookup_at(after, i);
                assert(after[i].id != id@);
                assert(lookup(before, after[i].id) == Some(after[i]));
                let j = choose|j: int|
                    0 <= j < before.len() && (#[trigger] before[j]).id == after[i].id;
                lemma_lookup_at(before, j);
            }
        }
        let _n = self.file.secrets.len();
        Ok(())
    }

    /// The stored records, each without its private key.
    pub fn list_keys(&self) -> (keys: Vec<KeyMetadata>)
        ensures
            keys@.len() == self@.file.secrets.len(),
            forall|i: int|
                0 <= i < keys@.len() ==> (#[trigger] keys@[i])@ == spec_redacted(
                    self@.file.secrets[i],
                ),
            forall|i: int| 0 <= i < keys@.len() ==> (#[trigger] keys@[i])@.contents.private is None,
    {
        let mut keys: Vec<KeyMetadata> = Vec::new();
        let mut i: usize = 0;
        while i < self.file.secrets.len()
            invariant
                i <= self.file.secrets@.len(),
                keys@.len() == i,
                forall|j: int|
                    0 <= j < i ==> (#[trigger] keys@[j])@ == spec_redacted(
                        models_of(self.file.secrets@)[j],
                    ),
            decreases self.file.secrets.len() - i,
        {
            keys.push(self.file.secrets[i].duplicate().redacted());
            i = i + 1;
        }
        keys
    }

    /// Saves the vault: sets the integrity tag to the tag of the stored
    /// keys under the vault key and gives the bytes of the vault file.
    /// Those bytes read back as this very file, and every passphrase that
    /// gives the vault key unlocks it without an integrity failure. Needs
    /// the vault unlocked.
    pub fn save_vault(&mut self) -> (saved: Result<Vec<u8>, Error>)
        requires
            old(self).wf(),
        ensures
            final(self).wf(),
            final(self)@.path == old(self)@.path,
            final(self)@.key == old(self)@.key,
            match saved {
                Ok(bytes) => {
                    &&& old(self)@.key is Some
                    &&& final(self)@.file == spec_saved(old(self)@.file, old(self)@.key->0)
                    &&& spec_authentic(final(self)@.file, final(self)@.key->0)
                    &&& final(self)@.file.hmac is Some
                    &&& final(self)@.file.hmac->0.len() == TAG_BYTES
                    &&& bytes@ == spec_file(final(self)@.file)
                    &&& spec_parse_file(bytes@) == Some(final(self)@.file)
                    &&& forall|passphrase: Seq<char>|
                        spec_candidate_key(final(self)@.file, passphrase) == final(self)@.key
                            ==> #[trigger] spec_unlock(final(self)@.file, passphrase) == Ok::<
                            (),
                            Error,
                        >(())
                },
                Err(e) => {
                    &&& e == Error::VaultLocked
                    &&& old(self)@.key is None
                    &&& final(self)@.file == old(self)@.file
                },
            },
    {
        let tag = match &self.key {
            None => {
                return Err(Error::VaultLocked);
            },
            Some(key) => {
                let encoded = encode_secrets(&self.file.secrets);
                integrity_tag(key, encoded.as_slice())
            },
        };
        self.file.hmac = Some(tag);
        let bytes = encode_file(&self.file);
        proof {
            lemma_parse_file(self.file@);
        }
        Ok(bytes)
    }

    /// The key pair of an identity: the text of its recipient, and its own
    /// text sealed under the vault key. Needs the vault unlocked.
    pub fn keypair_from(&self, identity: &WildcardIdentity) -> (pair: Result<KeyPair, Error>)
        ensures
            match pair {
                Ok(p) => {
                    &&& self@.key is Some
                    &&& is_public_of(identity@, p@.public)
                    &&& holds_identity(self@.key, p@.private, identity@)
                },
                Err(e) => if self@.key is None {
                    e == Error::VaultLocked
                } else {
                    e == Error::Unavailable || spec_public_text(identity@) == Err::<
                        Seq<char>,
                        Error,
                    >(e)
                },
            },
    {
        let key = match &self.key {
            Some(key) => key,
            None => {
                return Err(Error::VaultLocked);
            },
        };
        let recipient = match identity.to_public() {
            Ok(recipient) => recipient,
            Err(e) => {
                return Err(e);
            },
        };
        let public = match recipient.to_string() {
            Ok(public) => public,
            Err(e) => {
                return Err(e);
            },
        };
        let text = match identity.to_string() {
            Ok(text) => text,
            Err(e) => {
                return Err(e);
            },
        };
        match Vault::encrypt_secret(key, &text) {
            Ok(envelope) => Ok(KeyPair { public, private: Some(envelope) }),
            Err(e) => Err(e),
        }
    }

    /// A record for a key given as text: the public key as it is and the
    /// private key, if there is one, sealed under the vault key. Sealing
    /// needs the vault unlocked.
    pub fn new_key(&self, name: String, public: String, private: Option<SecretText>) -> (key:
        Result<KeyMetadata, Error>)
        ensures
            match key {
                Ok(k) => {
                    &&& k@.name == name@
                    &&& k@.contents.public == public@
                    &&& k@.key_type == spec_kind_of(k@.contents)
                    &&& match private {
                        None => k@.contents.private is None,
                        Some(text) => self@.key is Some && spec_sealed_text(
                            self@.key,
                            k@.contents.private,
                        ) == Ok::<Seq<char>, Error>(text@),
                    }
                },
                Err(e) => private is Some && if self@.key is None {
                    e == Error::VaultLocked
                } else {
                    e == Error::Unavailable
                },
            },
    {
        let sealed = match private {
            None => None,
            Some(text) => {
                let key = match &self.key {
                    Some(key) => key,
                    None => {
                        return Err(Error::VaultLocked);
                    },
                };
                match Vault::encrypt_secret(key, &text) {
                    Ok(envelope) => Some(envelope),
                    Err(e) => {
                        return Err(e);
                    },
                }
            },
        };
        Ok(KeyMetadata::from_keypair(name, KeyPair { public, private: sealed }))
    }

    /// A record for a fresh classical identity. Needs the vault unlocked.
    pub fn generate_key(&self, name: String) -> (key: Result<KeyMetadata, Error>)
        ensures
            match key {
                Ok(k) => {
                    &&& self@.key is Some
                    &&& k@.name == name@
                    &&& k@.key_type == KeyType::Private
                    &&& spec_sealed_text(self@.key, k@.contents.private) matches Ok(text)
                    &&& spec_public_text(IdentityModel::X25519(text)) == Ok::<Seq<char>, Error>(
                        k@.contents.public,
                    )
                },
                Err(e) => if self@.key is None {
                    e == Error::VaultLocked
                } else {
                    e == Error::Unavailable
                },
            },
    {
        if self.key.is_none() {
            return Err(Error::VaultLocked);
        }
        let identity = WildcardIdentity::X25519(X25519Identity::generate());
        match self.keypair_from(&identity) {
            Ok(pair) => Ok(KeyMetadata::from_keypair(name, pair)),
            Err(e) => Err(e),
        }
    }

    /// A record for a fresh hybrid identity. Needs the vault unlocked.
    pub fn generate_hybrid_key(&self, name: String) -> (key: Result<KeyMetadata, Error>)
        ensures
            match key {
                Ok(k) => {
                    &&& self@.key is Some
                    &&& k@.name == name@
                    &&& k@.key_type == KeyType::Private
                    &&& spec_sealed_text(self@.key, k@.contents.private) matches Ok(text)
                    &&& crate::hybrid::spec_parse_identity(text) matches Ok(seed)
                    &&& text == crate::hybrid::spec_identity_text(seed)
                    &&& k@.contents.public == crate::hybrid::spec_recipient_text(
                        crate::hybrid::spec_recipient_key(seed),
                    )
                    &&& crate::hybrid::spec_parse_recipient(k@.contents.public) == Ok::<
                        Seq<u8>,
                        Error,
                    >(crate::hybrid::spec_recipient_key(seed))
                },
                Err(e) => if self@.key is None {
                    e == Error::VaultLocked
                } else {
                    e == Error::Unavailable
                },
            },
    {
        if self.key.is_none() {
            return Err(Error::VaultLocked);
        }
        let identity = match HybridIdentity::generate() {
            Ok(identity) => WildcardIdentity::Hybrid(identity),
            Err(e) => {
                return Err(e);
            },
        };
        match self.keypair_from(&identity) {
            Ok(pair) => Ok(KeyMetadata::from_keypair(name, pair)),
            Err(e) => Err(e),
        }
    }

    /// Derives the public key of every stored identity anew and seals its
    /// private key afresh. Records without a private key stay as they are.
    /// This repairs records whose public key was tampered with. On failure
    /// nothing is changed. Needs the vault unlocked.
    pub fn regenerate_public_identities(&mut self) -> (regenerated: Result<(), Error>)
        requires
            old(self).wf(),
        ensures
            final(self).wf(),
            final(self)@.path == old(self)@.path,
            final(self)@.key == old(self)@.key,
            final(self)@.file.salt == old(self)@.file.salt,
            final(self)@.file.hello == old(self)@.file.hello,
            final(self)@.file.hmac == old(self)@.file.hmac,
            match regenerated {
                Ok(()) => {
                    &&& old(self)@.key is Some
                    &&& final(self)@.file.secrets.len() == old(self)@.file.secrets.len()
                    &&& forall|i: int|
                        0 <= i < old(self)@.file.secrets.len() ==> spec_regenerated(
                            old(self)@.key,
                            #[trigger] old(self)@.file.secrets[i],
                            final(self)@.file.secrets[i],
                        )
                },
                Err(e) => {
                    &&& final(self)@.file == old(self)@.file
                    &&& if old(self)@.key is None {
                        e == Error::VaultLocked
                    } else {
                        exists|i: int|
                            0 <= i < old(self)@.file.secrets.len() && fails_at(
                                old(self)@.key,
                                #[trigger] old(self)@.file.secrets[i],
                                e,
                            )
                    }
                },
            },
    {
        if self.key.is_none() {
            return Err(Error::VaultLocked);
        }
        let ghost before = models_of(self.file.secrets@);
        let mut renewed: Vec<KeyMetadata> = Vec::new();
        let mut i: usize = 0;
        while i < self.file.secrets.len()
            invariant
                i <= self.file.secrets@.len(),
                renewed@.len() == i,
                self@ == old(self)@,
                vault_wf(self@),
                self@.key is Some,
                before == models_of(self.file.secrets@),
                before == self@.file.secrets,
                forall|j: int|
                    0 <= j < i ==> spec_regenerated(
                        self@.key,
                        #[trigger] before[j],
                        models_of(renewed@)[j],
                    ),
                forall|j: int| 0 <= j < i ==> key_fits(#[trigger] models_of(renewed@)[j]),
            decreases self.file.secrets.len() - i,
        {
            let stored = &self.file.secrets[i];
            assert(stored@ == before[i as int]);
            let ghost done = models_of(renewed@);
            match &stored.contents.private {
                None => {
                    let copy = stored.duplicate();
                    measure_key(&copy);
                    renewed.push(copy);
                },
                Some(envelope) => {
                    let text = match self.decrypt_secret(envelope) {
                        Ok(text) => text,
                        Err(e) => {
                            assert(fails_at(self@.key, self@.file.secrets[i as int], e));
                            return Err(e);
                        },
                    };
                    let identity = match crate::wildcard::identity_from_text(text) {
                        Ok(identity) => identity,
                        Err(e) => {
                            assert(fails_at(self@.key, self@.file.secrets[i as int], e));
                            return Err(e);
                        },
                    };
                    let pair = match self.keypair_from(&identity) {
                        Ok(pair) => pair,
                        Err(e) => {
                            assert(fails_at(self@.key, self@.file.secrets[i as int], e));
                            return Err(e);
                        },
                    };
                    let fresh = KeyMetadata {
                        id: stored.id.clone(),
                        name: stored.name.clone(),
                        key_type: stored.key_type,
                        date_created: stored.date_created,
                        contents: pair,
                    };
                    measure_key(&fresh);
                    renewed.push(fresh);
                },
            }
            proof {
                let now = models_of(renewed@);
                assert forall|j: int| 0 <= j < i implies now[j] == done[j] by {}
            }
            i = i + 1;
        }
        proof {
            let after = models_of(renewed@);
            assert forall|a: int, b: int| 0 <= a < b < after.len() implies crate::keyset::id_lt(
                (#[trigger] after[a]).id,
                (#[trigger] after[b]).id,
            ) by {
                assert(spec_regenerated(self@.key, before[a], after[a]));
                assert(spec_regenerated(self@.key, before[b], after[b]));
            }
        }
        self.file.secrets = renewed;
        Ok(())
    }
}

/// The text of the recipient that belongs to an identity.
pub open spec fn spec_public_text(identity: IdentityModel) -> Result<Seq<char>, Error> {
    match spec_public(identity) {
        Ok(recipient) => spec_recipient_string(recipient),
        Err(e) => Err(e),
    }
}

/// `public` is the text of the recipient that belongs to the identity; for
/// a hybrid identity it carries the prefix `age1pq` and parses back to the
/// key that the seed expands to.
pub open spec fn is_public_of(identity: IdentityModel, public: Seq<char>) -> bool {
    &&& spec_public_text(identity) == Ok::<Seq<char>, Error>(public)
    &&& match identity {
        IdentityModel::Hybrid(seed) => crate::hybrid::spec_parse_recipient(public) == Ok::<
            Seq<u8>,
            Error,
        >(crate::hybrid::spec_recipient_key(seed)),
        _ => true,
    }
}

/// The text that the private key of a record opens to under a key.
pub open spec fn spec_sealed_text(key: Option<Seq<u8>>, private: Option<EncryptedSecretModel>)
    -> Result<Seq<char>, Error> {
    match private {
        Some(envelope) => spec_decrypt(key, envelope),
        None => Err(Error::NoPrivateKey),
    }
}

/// The private key of a record is there, fits the file format and opens
/// under the key to a text of the identity.
pub open spec fn holds_identity(
    key: Option<Seq<u8>>,
    private: Option<EncryptedSecretModel>,
    identity: IdentityModel,
) -> bool {
    match private {
        Some(envelope) => envelope_fits(envelope) && match spec_decrypt(key, envelope) {
            Ok(text) => is_text_of(identity, text),
            Err(_) => false,
        },
        None => false,
    }
}

/// The identity that the private key of a record denotes under a key.
pub open spec fn spec_stored_identity(key: Option<Seq<u8>>, envelope: EncryptedSecretModel)
    -> Result<IdentityModel, Error> {
    match spec_decrypt(key, envelope) {
        Ok(text) => crate::wildcard::spec_identity_from_text(text),
        Err(e) => Err(e),
    }
}

/// The reason why the public key of a record cannot be derived anew, if
/// there is one.
pub open spec fn spec_regenerate_error(key: Option<Seq<u8>>, stored: KeyMetadataModel) -> Option<
    Error,
> {
    match stored.contents.private {
        None => None,
        Some(envelope) => match spec_stored_identity(key, envelope) {
            Err(e) => Some(e),
            Ok(identity) => match spec_public_text(identity) {
                Err(e) => Some(e),
                Ok(_) => None,
            },
        },
    }
}

/// Deriving the public key of a record anew can fail with `e`: the record
/// holds a private key, and either `e` is the reason why its public key
/// cannot be derived, or sealing was unavailable. A record without a
/// private key never fails.
pub open spec fn fails_at(key: Option<Seq<u8>>, stored: KeyMetadataModel, e: Error) -> bool {
    stored.contents.private is Some && (e == Error::Unavailable || spec_regenerate_error(
        key,
        stored,
    ) == Some(e))
}

/// `renewed` is `stored` with its public key derived anew: identifier,
/// name, kind and date are kept; a record without a private key is
/// unchanged; otherwise the public key is the one of the stored identity
/// and the private key is sealed again to a text of that identity.
pub open spec fn spec_regenerated(
    key: Option<Seq<u8>>,
    stored: KeyMetadataModel,
    renewed: KeyMetadataModel,
) -> bool {
    &&& renewed.id == stored.id
    &&& renewed.name == stored.name
    &&& renewed.key_type == stored.key_type
    &&& renewed.date_created == stored.date_created
    &&& match stored.contents.private {
        None => renewed == stored,
        Some(envelope) => {
            &&& spec_stored_identity(key, envelope) matches Ok(identity)
            &&& is_public_of(identity, renewed.contents.public)
            &&& holds_identity(key, renewed.contents.private, identity)
        },
    }
}

/// A vault that is saved and read back holds the same keys, and the
/// passphrase that gave its key unlocks it again without an integrity
/// failure.
pub proof fn law_save_reload_unlock(before: VaultModel, passphrase: Seq<char>)
    requires
        vault_wf(before),
        before.key is Some,
        spec_candidate_key(before.file, passphrase) == before.key,
        file_fits(spec_saved(before.file, before.key->0)),
    ensures
        ({
            let saved = spec_saved(before.file, before.key->0);
            &&& spec_parse_file(spec_file(saved)) == Some(saved)
            &&& saved.secrets == before.file.secrets
            &&& spec_candidate_key(saved, passphrase) == before.key
            &&& spec_unlock(saved, passphrase) == Ok::<(), Error>(())
        }),
{
    lemma_parse_file(spec_saved(before.file, before.key->0));
}

/// When the stored keys of a saved vault are replaced by other keys whose
/// tag differs, unlocking with the right passphrase reports an integrity
/// failure, and never a wrong passphrase.
pub proof fn law_tampering_detected(
    saved: VaultFileModel,
    tampered: Seq<KeyMetadataModel>,
    passphrase: Seq<char>,
)
    requires
        spec_unlock(saved, passphrase) == Ok::<(), Error>(()),
        hmac_sha256_tag(spec_candidate_key(saved, passphrase)->0, spec_secrets(tampered))
            != hmac_sha256_tag(
            spec_candidate_key(saved, passphrase)->0,
            spec_secrets(saved.secrets),
        ),
    ensures
        spec_unlock(VaultFileModel { secrets: tampered, ..saved }, passphrase) == Err::<(), Error>(
            Error::IntegrityCheckFailed,
        ),
{
}

/// A passphrase whose key does not open the probe is reported as a wrong
/// passphrase, whatever the stored keys and the tag are.
pub proof fn law_wrong_passphrase(file: VaultFileModel, passphrase: Seq<char>)
    requires
        spec_candidate_key(file, passphrase) is None,
    ensures
        spec_unlock(file, passphrase) == Err::<(), Error>(Error::PasswordIncorrect),
        spec_unlock(file, passphrase) != Err::<(), Error>(Error::IntegrityCheckFailed),
{
}

} // verus!
