//! The symmetric primitives of the vault: the passphrase key derivation,
//! the sealed envelope and the integrity tag.

use vstd::prelude::*;
use crate::error::Error;
use crate::secret::{SecretKey, SecretText};
use crate::text::copy_bytes;

verus! {

/// Bytes of a vault key.
pub const KEY_BYTES: usize = 32;

/// Bytes of the salt of a vault.
pub const SALT_BYTES: usize = 16;

/// Bytes of the nonce of a sealed envelope.
pub const NONCE_BYTES: usize = 24;

/// Bytes of an integrity tag.
pub const TAG_BYTES: usize = 32;

/// The 32-byte key that Argon2id with the library's default parameters
/// derives from a passphrase and a salt, when it accepts them.
pub uninterp spec fn argon2id_key(passphrase: Seq<char>, salt: Seq<u8>) -> Option<Seq<u8>>;

/// The ciphertext of XChaCha20-Poly1305, without associated data, for a key,
/// a 24-byte nonce and a plaintext, when the cipher accepts them.
pub uninterp spec fn xchacha_sealed(key: Seq<u8>, nonce: Seq<u8>, plaintext: Seq<u8>) -> Option<
    Seq<u8>,
>;

/// The plaintext that XChaCha20-Poly1305, without associated data, opens
/// from a ciphertext under a key and a 24-byte nonce, when the ciphertext is
/// authentic.
pub uninterp spec fn xchacha_opened(key: Seq<u8>, nonce: Seq<u8>, ciphertext: Seq<u8>) -> Option<
    Seq<u8>,
>;

/// The HMAC-SHA-256 tag of a message under a key.
pub uninterp spec fn hmac_sha256_tag(key: Seq<u8>, message: Seq<u8>) -> Seq<u8>;

/// `argon2::Argon2::hash_password_into` on `Argon2::default()` with a
/// 32-byte output: the key, or nothing when the crate rejects the inputs
/// (a salt under 8 bytes, for one).
#[verifier::external_body]
fn argon2_derive(passphrase: &str, salt: &[u8]) -> (key: Option<[u8; 32]>)
    ensures
        match key {
            Some(k) => argon2id_key(passphrase@, salt@) == Some(k@),
            None => argon2id_key(passphrase@, salt@) is None,
        },
{
    let mut key = [0u8; 32];
    match argon2::Argon2::default().hash_password_into(passphrase.as_bytes(), salt, &mut key) {
        Ok(()) => Some(key),
        Err(_) => None,
    }
}

/// `chacha20poly1305::aead::Aead::encrypt` of `XChaCha20Poly1305`: the
/// ciphertext with its tag, or nothing when the crate reports an error. As
/// the crate documents for `encrypt` and `decrypt`, the ciphertext opens to
/// the plaintext under the same key and nonce.
#[verifier::external_body]
fn xchacha_encrypt(key: &[u8; 32], nonce: &[u8; 24], plaintext: &[u8]) -> (ciphertext: Option<
    Vec<u8>,
>)
    ensures
        match ciphertext {
            Some(c) => xchacha_sealed(key@, nonce@, plaintext@) == Some(c@) && xchacha_opened(
                key@,
                nonce@,
                c@,
            ) == Some(plaintext@),
            None => xchacha_sealed(key@, nonce@, plaintext@) is None,
        },
{
    let cipher = <chacha20poly1305::XChaCha20Poly1305 as chacha20poly1305::KeyInit>::new(
        key.into(),
    );
    chacha20poly1305::aead::Aead::encrypt(&cipher, nonce.into(), plaintext).ok()
}

/// `chacha20poly1305::aead::Aead::decrypt` of `XChaCha20Poly1305`: the
/// plaintext, or nothing when authentication fails.
#[verifier::external_body]
fn xchacha_decrypt(key: &[u8; 32], nonce: &[u8; 24], ciphertext: &[u8]) -> (plaintext: Option<
    Vec<u8>,
>)
    ensures
        match plaintext {
            Some(p) => xchacha_opened(key@, nonce@, ciphertext@) == Some(p@),
            None => xchacha_opened(key@, nonce@, ciphertext@) is None,
        },
{
    let cipher = <chacha20poly1305::XChaCha20Poly1305 as chacha20poly1305::KeyInit>::new(
        key.into(),
    );
    chacha20poly1305::aead::Aead::decrypt(&cipher, nonce.into(), ciphertext).ok()
}

/// `hmac::Mac` of `Hmac<Sha256>`: `new_from_slice`, `update` and `finalize`
/// give the tag of the message under the key. The crate takes a key of any
/// length, so a tag always comes back.
#[verifier::external_body]
fn hmac_compute(key: &[u8], message: &[u8]) -> (tag: Option<[u8; 32]>)
    ensures
        match tag {
            Some(t) => t@ == hmac_sha256_tag(key@, message@),
            None => false,
        },
{
    let mut mac = <hmac::Hmac<sha2::Sha256> as hmac::Mac>::new_from_slice(key).ok()?;
    hmac::Mac::update(&mut mac, message);
    Some(hmac::Mac::finalize(mac).into_bytes().into())
}

/// `rand_core::RngCore::try_fill_bytes` of the operating system's
/// generator: fresh random bytes, or nothing when the system supplies none.
#[verifier::external_body]
fn os_random<const N: usize>() -> (bytes: Option<[u8; N]>) {
    let mut bytes = [0u8; N];
    match chacha20poly1305::aead::rand_core::RngCore::try_fill_bytes(
        &mut chacha20poly1305::aead::OsRng,
        &mut bytes,
    ) {
        Ok(()) => Some(bytes),
        Err(_) => None,
    }
}

/// Fresh random bytes from the operating system.
pub fn random_bytes<const N: usize>() -> (bytes: Result<[u8; N], Error>)
    ensures
        bytes matches Err(e) ==> e == Error::Unavailable,
{
    match os_random::<N>() {
        Some(bytes) => Ok(bytes),
        None => Err(Error::Unavailable),
    }
}

/// A sealed envelope: a nonce and the ciphertext made under it.
pub struct EncryptedSecret {
    pub nonce: Vec<u8>,
    pub ciphertext: Vec<u8>,
}

/// A sealed envelope as plain sequences.
pub struct EncryptedSecretModel {
    pub nonce: Seq<u8>,
    pub ciphertext: Seq<u8>,
}

impl View for EncryptedSecret {
    type V = EncryptedSecretModel;

    open spec fn view(&self) -> EncryptedSecretModel {
        EncryptedSecretModel { nonce: self.nonce@, ciphertext: self.ciphertext@ }
    }
}

impl EncryptedSecret {
    /// An envelope with the same nonce and ciphertext.
    pub fn duplicate(&self) -> (copy: EncryptedSecret)
        ensures
            copy@ == self@,
    {
        EncryptedSecret {
            nonce: copy_bytes(self.nonce.as_slice()),
            ciphertext: copy_bytes(self.ciphertext.as_slice()),
        }
    }
}

/// What opening an envelope under a key gives: nothing unless the nonce has
/// 24 bytes and the ciphertext is authentic.
pub open spec fn spec_open(key: Seq<u8>, envelope: EncryptedSecretModel) -> Option<Seq<u8>> {
    if envelope.nonce.len() == NONCE_BYTES {
        xchacha_opened(key, envelope.nonce, envelope.ciphertext)
    } else {
        None
    }
}

/// Derives the 256-bit vault key from a passphrase and a salt with Argon2id.
pub fn derive_key(password: &SecretText, salt: &[u8]) -> (key: Result<SecretKey, Error>)
    ensures
        match key {
            Ok(k) => argon2id_key(password@, salt@) == Some(k@),
            Err(e) => e == Error::PasswordIncorrect && argon2id_key(password@, salt@) is None,
        },
{
    match argon2_derive(password.expose(), salt) {
        Some(key) => Ok(SecretKey::new(key)),
        None => Err(Error::PasswordIncorrect),
    }
}

/// Seals a plaintext under a key and a given nonce.
pub fn seal_with_nonce(key: &SecretKey, nonce: [u8; 24], plaintext: &[u8]) -> (sealed: Result<
    EncryptedSecret,
    Error,
>)
    ensures
        match sealed {
            Ok(envelope) => {
                &&& envelope@.nonce == nonce@
                &&& xchacha_sealed(key@, nonce@, plaintext@) == Some(envelope@.ciphertext)
                &&& spec_open(key@, envelope@) == Some(plaintext@)
            },
            Err(e) => e == Error::Unavailable && xchacha_sealed(key@, nonce@, plaintext@) is None,
        },
{
    match xchacha_encrypt(key.expose(), &nonce, plaintext) {
        Some(ciphertext) => Ok(
            EncryptedSecret { nonce: copy_bytes(nonce.as_slice()), ciphertext },
        ),
        None => Err(Error::Unavailable),
    }
}

/// Seals a plaintext under a key with a fresh random nonce. The envelope
/// opens to the plaintext under the same key.
pub fn seal(key: &SecretKey, plaintext: &[u8]) -> (sealed: Result<EncryptedSecret, Error>)
    ensures
        match sealed {
            Ok(envelope) => envelope@.nonce.len() == NONCE_BYTES && spec_open(key@, envelope@)
                == Some(plaintext@),
            Err(e) => e == Error::Unavailable,
        },
{
    match random_bytes::<24>() {
        Ok(nonce) => seal_with_nonce(key, nonce, plaintext),
        Err(e) => Err(e),
    }
}

/// Opens an envelope under a key: the plaintext, or nothing when the nonce
/// is not 24 bytes long or the ciphertext is not authentic.
pub fn open(key: &SecretKey, envelope: &EncryptedSecret) -> (plaintext: Option<Vec<u8>>)
    ensures
        match plaintext {
            Some(p) => spec_open(key@, envelope@) == Some(p@),
            None => spec_open(key@, envelope@) is None,
        },
{
    if envelope.nonce.len() != NONCE_BYTES {
        return None;
    }
    let nonce = crate::text::array_of::<24>(envelope.nonce.as_slice());
    xchacha_decrypt(key.expose(), &nonce, envelope.ciphertext.as_slice())
}

/// The HMAC-SHA-256 tag of a message under a key.
pub fn integrity_tag(key: &SecretKey, message: &[u8]) -> (tag: Vec<u8>)
    ensures
        tag@ == hmac_sha256_tag(key@, message@),
        tag@.len() == TAG_BYTES,
{
    match hmac_compute(key.expose().as_slice(), message) {
        Some(tag) => copy_bytes(tag.as_slice()),
        None => {
            proof {
                assert(false);
            }
            Vec::new()
        },
    }
}

} // verus!
