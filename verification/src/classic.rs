//! Classical age keys: X25519 recipients and identities, and passphrase
//! (scrypt) recipients and identities. The cryptography is the `age`
//! crate's; this module keeps the keys as text and says what the crate is
//! asked.

use vstd::prelude::*;
use vstd::string::StringSliceAdditionalSpecFns;
use vstd::utf8::*;
use crate::error::Error;
use crate::hybrid::{
    classic_identity_hrp, classic_recipient_hrp, expand_key, lemma_prefixes, spec_expand,
    HybridIdentity, HybridRecipient, KEM_PUBLIC_BYTES, RECIPIENT_BYTES,
};
use crate::keytext::{bech32_text, encode_chars};
use crate::secret::SecretText;
use crate::stanza::{texts_of, FileKey, Stanza, WrappedKey};
use crate::text::{bytes_equal, copy_range, to_ascii_uppercase, upper_text};

verus! {

/// A classical recipient, held as its Bech32 text (`age1...`).
pub struct X25519Recipient {
    pub text: String,
}

/// A classical identity, held as its Bech32 text (`AGE-SECRET-KEY-1...`).
pub struct X25519Identity {
    pub text: SecretText,
}

/// A passphrase recipient.
pub struct ScryptRecipient {
    pub passphrase: SecretText,
}

/// A passphrase identity.
pub struct ScryptIdentity {
    pub passphrase: SecretText,
}

/// The canonical text of the classical recipient that a text denotes, when
/// it denotes one.
pub uninterp spec fn classic_recipient(text: Seq<char>) -> Option<Seq<char>>;

/// The canonical text of the classical identity that a text denotes and the
/// text of its recipient, when the text denotes an identity.
pub uninterp spec fn classic_identity(text: Seq<char>) -> Option<(Seq<char>, Seq<char>)>;

/// What the classical identity with the given text makes of a stanza.
pub uninterp spec fn classic_unwrapped(
    identity: Seq<char>,
    tag: Seq<char>,
    args: Seq<Seq<char>>,
    body: Seq<u8>,
) -> Option<Result<Seq<u8>, Error>>;

/// A key of small order: the point zero.
pub open spec fn small_zero() -> Seq<u8> {
    seq![
        0x00, 0x00, 0x00, 0x00, 0x00, 0x00, 0x00, 0x00,
        0x00, 0x00, 0x00, 0x00, 0x00, 0x00, 0x00, 0x00,
        0x00, 0x00, 0x00, 0x00, 0x00, 0x00, 0x00, 0x00,
        0x00, 0x00, 0x00, 0x00, 0x00, 0x00, 0x00, 0x00,
    ]
}

/// A key of small order: the point one.
pub open spec fn small_one() -> Seq<u8> {
    seq![
        0x01, 0x00, 0x00, 0x00, 0x00, 0x00, 0x00, 0x00,
        0x00, 0x00, 0x00, 0x00, 0x00, 0x00, 0x00, 0x00,
        0x00, 0x00, 0x00, 0x00, 0x00, 0x00, 0x00, 0x00,
        0x00, 0x00, 0x00, 0x00, 0x00, 0x00, 0x00, 0x00,
    ]
}

/// A key of small order: the first point of order eight.
pub open spec fn small_eight_a() -> Seq<u8> {
    seq![
        0xe0, 0xeb, 0x7a, 0x7c, 0x3b, 0x41, 0xb8, 0xae,
        0x16, 0x56, 0xe3, 0xfa, 0xf1, 0x9f, 0xc4, 0x6a,
        0xda, 0x09, 0x8d, 0xeb, 0x9c, 0x32, 0xb1, 0xfd,
        0x86, 0x62, 0x05, 0x16, 0x5f, 0x49, 0xb8, 0x00,
    ]
}

/// A key of small order: the second point of order eight.
pub open spec fn small_eight_b() -> Seq<u8> {
    seq![
        0x5f, 0x9c, 0x95, 0xbc, 0xa3, 0x50, 0x8c, 0x24,
        0xb1, 0xd0, 0xb1, 0x55, 0x9c, 0x83, 0xef, 0x5b,
        0x04, 0x44, 0x5c, 0xc4, 0x58, 0x1c, 0x8e, 0x86,
        0xd8, 0x22, 0x4e, 0xdd, 0xd0, 0x9f, 0x11, 0x57,
    ]
}

/// A key of small order: the field prime less one.
pub open spec fn small_minus_one() -> Seq<u8> {
    seq![
        0xec, 0xff, 0xff, 0xff, 0xff, 0xff, 0xff, 0xff,
        0xff, 0xff, 0xff, 0xff, 0xff, 0xff, 0xff, 0xff,
        0xff, 0xff, 0xff, 0xff, 0xff, 0xff, 0xff, 0xff,
        0xff, 0xff, 0xff, 0xff, 0xff, 0xff, 0xff, 0x7f,
    ]
}

/// A key of small order: the field prime itself, which stands for zero.
pub open spec fn small_prime() -> Seq<u8> {
    seq![
        0xed, 0xff, 0xff, 0xff, 0xff, 0xff, 0xff, 0xff,
        0xff, 0xff, 0xff, 0xff, 0xff, 0xff, 0xff, 0xff,
        0xff, 0xff, 0xff, 0xff, 0xff, 0xff, 0xff, 0xff,
        0xff, 0xff, 0xff, 0xff, 0xff, 0xff, 0xff, 0x7f,
    ]
}

/// A key of small order: the field prime plus one, which stands for one.
pub open spec fn small_prime_plus_one() -> Seq<u8> {
    seq![
        0xee, 0xff, 0xff, 0xff, 0xff, 0xff, 0xff, 0xff,
        0xff, 0xff, 0xff, 0xff, 0xff, 0xff, 0xff, 0xff,
        0xff, 0xff, 0xff, 0xff, 0xff, 0xff, 0xff, 0xff,
        0xff, 0xff, 0xff, 0xff, 0xff, 0xff, 0xff, 0x7f,
    ]
}

/// A key with its top bit cleared, as X25519 reads it.
pub open spec fn masked_key(key: Seq<u8>) -> Seq<u8> {
    key.update(31, (key[31] % 128) as u8)
}

/// A 32-byte X25519 public key of small order: every secret multiplies it
/// to the all-zero shared secret, which age refuses loudly.
pub open spec fn small_order(key: Seq<u8>) -> bool {
    let k = masked_key(key);
    key.len() == 32 && (k == small_zero() || k == small_one() || k == small_eight_a() || k
        == small_eight_b() || k == small_minus_one() || k == small_prime() || k
        == small_prime_plus_one())
}

/// A recipient text that age can wrap a file key for: a classical recipient
/// whose key is not of small order.
pub open spec fn wrappable(recipient: Seq<char>) -> bool {
    match crate::keytext::spec_decode(classic_recipient_hrp(), recipient) {
        Ok(key) => key.len() == 32 && !small_order(key),
        Err(_) => false,
    }
}

/// Whether a 32-byte X25519 public key is of small order.
pub fn is_small_order(key: &[u8; 32]) -> (small: bool)
    ensures
        small == small_order(key@),
{
    let mut k = *key;
    k[31] = k[31] % 128;
    assert(k@ =~= masked_key(key@));
    let zero: [u8; 32] = [
        0x00, 0x00, 0x00, 0x00, 0x00, 0x00, 0x00, 0x00,
        0x00, 0x00, 0x00, 0x00, 0x00, 0x00, 0x00, 0x00,
        0x00, 0x00, 0x00, 0x00, 0x00, 0x00, 0x00, 0x00,
        0x00, 0x00, 0x00, 0x00, 0x00, 0x00, 0x00, 0x00,
    ];
    assert(zero@ =~= small_zero());
    let one: [u8; 32] = [
        0x01, 0x00, 0x00, 0x00, 0x00, 0x00, 0x00, 0x00,
        0x00, 0x00, 0x00, 0x00, 0x00, 0x00, 0x00, 0x00,
        0x00, 0x00, 0x00, 0x00, 0x00, 0x00, 0x00, 0x00,
        0x00, 0x00, 0x00, 0x00, 0x00, 0x00, 0x00, 0x00,
    ];
    assert(one@ =~= small_one());
    let eight_a: [u8; 32] = [
        0xe0, 0xeb, 0x7a, 0x7c, 0x3b, 0x41, 0xb8, 0xae,
        0x16, 0x56, 0xe3, 0xfa, 0xf1, 0x9f, 0xc4, 0x6a,
        0xda, 0x09, 0x8d, 0xeb, 0x9c, 0x32, 0xb1, 0xfd,
        0x86, 0x62, 0x05, 0x16, 0x5f, 0x49, 0xb8, 0x00,
    ];
    assert(eight_a@ =~= small_eight_a());
    let eight_b: [u8; 32] = [
        0x5f, 0x9c, 0x95, 0xbc, 0xa3, 0x50, 0x8c, 0x24,
        0xb1, 0xd0, 0xb1, 0x55, 0x9c, 0x83, 0xef, 0x5b,
        0x04, 0x44, 0x5c, 0xc4, 0x58, 0x1c, 0x8e, 0x86,
        0xd8, 0x22, 0x4e, 0xdd, 0xd0, 0x9f, 0x11, 0x57,
    ];
    assert(eight_b@ =~= small_eight_b());
    let minus_one: [u8; 32] = [
        0xec, 0xff, 0xff, 0xff, 0xff, 0xff, 0xff, 0xff,
        0xff, 0xff, 0xff, 0xff, 0xff, 0xff, 0xff, 0xff,
        0xff, 0xff, 0xff, 0xff, 0xff, 0xff, 0xff, 0xff,
        0xff, 0xff, 0xff, 0xff, 0xff, 0xff, 0xff, 0x7f,
    ];
    assert(minus_one@ =~= small_minus_one());
    let prime: [u8; 32] = [
        0xed, 0xff, 0xff, 0xff, 0xff, 0xff, 0xff, 0xff,
        0xff, 0xff, 0xff, 0xff, 0xff, 0xff, 0xff, 0xff,
        0xff, 0xff, 0xff, 0xff, 0xff, 0xff, 0xff, 0xff,
        0xff, 0xff, 0xff, 0xff, 0xff, 0xff, 0xff, 0x7f,
    ];
    assert(prime@ =~= small_prime());
    let prime_plus_one: [u8; 32] = [
        0xee, 0xff, 0xff, 0xff, 0xff, 0xff, 0xff, 0xff,
        0xff, 0xff, 0xff, 0xff, 0xff, 0xff, 0xff, 0xff,
        0xff, 0xff, 0xff, 0xff, 0xff, 0xff, 0xff, 0xff,
        0xff, 0xff, 0xff, 0xff, 0xff, 0xff, 0xff, 0x7f,
    ];
    assert(prime_plus_one@ =~= small_prime_plus_one());
    bytes_equal(k.as_slice(), zero.as_slice()) || bytes_equal(k.as_slice(), one.as_slice())
        || bytes_equal(k.as_slice(), eight_a.as_slice()) || bytes_equal(
        k.as_slice(),
        eight_b.as_slice(),
    ) || bytes_equal(k.as_slice(), minus_one.as_slice()) || bytes_equal(
        k.as_slice(),
        prime.as_slice(),
    ) || bytes_equal(k.as_slice(), prime_plus_one.as_slice())
}

/// Whether age can wrap a file key for a recipient text.
pub fn is_wrappable(recipient: &str) -> (ok: bool)
    ensures
        ok == wrappable(recipient@),
{
    match crate::keytext::decode("age", recipient) {
        Ok(key) => {
            if key.len() != 32 {
                return false;
            }
            !is_small_order(&crate::text::array_of::<32>(key.as_slice()))
        },
        Err(_) => false,
    }
}

/// What age makes of the lower-case Bech32 text of 32 key bytes under the
/// prefix `age`: it reads the text as a recipient and writes it as the very
/// same text.
pub open spec fn reads_recipient_text(text: Seq<char>, canonical: Option<Seq<char>>) -> bool {
    forall|key: Seq<u8>|
        #![trigger spec_classic_recipient_text(key)]
        key.len() == 32 && text == spec_classic_recipient_text(key) ==> canonical == Some(text)
}

/// What age makes of the upper-case Bech32 text of a 32-byte secret under
/// the prefix `AGE-SECRET-KEY-`: it reads the text as an identity, writes
/// it as the very same text, and gives as its recipient the Bech32 text of
/// the X25519 public key of the secret.
pub open spec fn reads_identity_text(
    text: Seq<char>,
    parsed: Option<(Seq<char>, Seq<char>)>,
) -> bool {
    forall|secret: Seq<u8>|
        #![trigger spec_classic_identity_text(secret)]
        secret.len() == 32 && text == spec_classic_identity_text(secret) ==> parsed == Some(
            (text, spec_classic_recipient_text(crate::hybrid::x25519_public(secret))),
        )
}

/// The plain value of an optional text.
pub open spec fn text_model(text: Option<String>) -> Option<Seq<char>> {
    match text {
        Some(t) => Some(t@),
        None => None,
    }
}

/// The plain value of an optional pair of an identity text and a recipient
/// text.
pub open spec fn pair_model(pair: Option<(SecretText, String)>) -> Option<(Seq<char>, Seq<char>)> {
    match pair {
        Some((identity, recipient)) => Some((identity@, recipient@)),
        None => None,
    }
}

/// `age::x25519::Recipient::from_str` followed by `to_string`: the
/// canonical text of the recipient, or nothing when the text is no
/// classical recipient. The crate reads a Bech32 text under the prefix
/// `age` with 32 bytes of payload and keeps the bytes as they are, so the
/// lower-case Bech32 text of any 32 bytes is read and written back
/// unchanged, and so is every text that the crate has written.
#[verifier::external_body]
fn parse_recipient(text: &str) -> (canonical: Option<String>)
    ensures
        classic_recipient(text@) == text_model(canonical),
        reads_recipient_text(text@, text_model(canonical)),
        match canonical {
            Some(c) => classic_recipient(c@) == Some(c@),
            None => true,
        },
{
    match text.parse::<age::x25519::Recipient>() {
        Ok(recipient) => Some(recipient.to_string()),
        Err(_) => None,
    }
}

/// `age::x25519::Identity::from_str` followed by `to_string` and
/// `to_public`: the canonical text of the identity and the text of its
/// recipient, or nothing when the text is no classical identity. The crate
/// reads a Bech32 text under the prefix `age-secret-key-`, in either case,
/// with 32 bytes of payload, keeps the bytes as they are and writes them in
/// upper case; the recipient is the X25519 public key of those bytes,
/// written under the prefix `age`.
#[verifier::external_body]
fn parse_identity(text: &str) -> (parsed: Option<(SecretText, String)>)
    ensures
        classic_identity(text@) == pair_model(parsed),
        reads_identity_text(text@, pair_model(parsed)),
{
    match text.parse::<age::x25519::Identity>() {
        Ok(identity) => {
            let canonical = secrecy::ExposeSecret::expose_secret(&identity.to_string()).to_owned();
            Some((SecretText::new(canonical), identity.to_public().to_string()))
        },
        Err(_) => None,
    }
}

/// `age::x25519::Identity::generate` followed by `to_string` and
/// `to_public`: a fresh identity, as its text and the text of its
/// recipient. The text is canonical and denotes an identity with that
/// recipient.
#[verifier::external_body]
fn generate_identity() -> (pair: (SecretText, String))
    ensures
        classic_identity(pair.0@) == Some((pair.0@, pair.1@)),
{
    let identity = age::x25519::Identity::generate();
    let text = secrecy::ExposeSecret::expose_secret(&identity.to_string()).to_owned();
    (SecretText::new(text), identity.to_public().to_string())
}

/// The tag of a classical stanza.
pub open spec fn x25519_tag() -> Seq<char> {
    "X25519"@
}

/// The shape of what wrapping for a classical recipient gives: one stanza
/// tagged `X25519`, whose one argument is the ephemeral share and whose
/// body is the 32-byte wrapped key, under no label.
pub open spec fn x25519_wrapped(wrapped: WrappedKey) -> bool {
    &&& wrapped.stanzas@.len() == 1
    &&& wrapped.stanzas@[0]@.tag == x25519_tag()
    &&& wrapped.stanzas@[0]@.args.len() == 1
    &&& wrapped.stanzas@[0]@.body.len() == CLASSIC_WRAPPED_BYTES
    &&& wrapped.labels@.len() == 0
}

/// `age::Recipient::wrap_file_key` of `age::x25519::Recipient`: the stanza
/// for a file key, or nothing when the text is no classical recipient. The
/// ephemeral share depends on fresh randomness; the crate always returns
/// one stanza of the shape stated here. The crate panics when the shared
/// secret is all zero, as it is for a recipient key of small order; such
/// keys are left out.
#[verifier::external_body]
fn x25519_wrap(recipient: &str, file_key: &[u8; 16]) -> (wrapped: Option<WrappedKey>)
    requires
        wrappable(recipient@),
    ensures
        match wrapped {
            Some(w) => classic_recipient(recipient@) is Some && x25519_wrapped(w),
            None => classic_recipient(recipient@) is None,
        },
{
    let parsed = recipient.parse::<age::x25519::Recipient>().ok()?;
    let key = age_core::format::FileKey::new(Box::new(*file_key));
    let (stanzas, labels) = age::Recipient::wrap_file_key(&parsed, &key).ok()?;
    Some(WrappedKey {
        stanzas: stanzas.into_iter().map(
            |s| Stanza { tag: s.tag, args: s.args, body: s.body },
        ).collect(),
        labels: labels.into_iter().collect(),
    })
}

/// `age::Identity::unwrap_stanza` of `age::x25519::Identity`: nothing when
/// the stanza is for another kind of recipient or for another key, else the
/// file key or the reason for rejecting the stanza.
#[verifier::external_body]
fn x25519_unwrap(identity: &str, stanza: &Stanza) -> (unwrapped: Option<Result<FileKey, Error>>)
    requires
        classic_identity(identity@) is Some,
    ensures
        crate::stanza::unwrap_agrees(
            unwrapped,
            classic_unwrapped(identity@, stanza@.tag, stanza@.args, stanza@.body),
        ),
{
    let parsed = identity.parse::<age::x25519::Identity>().ok()?;
    let entry = age_core::format::Stanza {
        tag: stanza.tag.clone(),
        args: stanza.args.clone(),
        body: stanza.body.clone(),
    };
    match age::Identity::unwrap_stanza(&parsed, &entry)? {
        Ok(key) => Some(Ok(FileKey { bytes: *secrecy::ExposeSecret::expose_secret(&key) })),
        Err(age::DecryptError::InvalidHeader) => Some(Err(Error::InvalidHeader)),
        Err(_) => Some(Err(Error::DecryptionFailed)),
    }
}

/// The tag of a passphrase stanza.
pub open spec fn scrypt_tag() -> Seq<char> {
    "scrypt"@
}

/// Bytes of a file key wrapped by a classical or a passphrase recipient:
/// the key and its authentication tag.
pub const CLASSIC_WRAPPED_BYTES: usize = 32;

/// The shape of what wrapping under a passphrase gives: one stanza tagged
/// `scrypt`, whose two arguments are the salt and the work factor and whose
/// body is the 32-byte wrapped key, under one label that keeps a passphrase
/// from being mixed with other recipients.
pub open spec fn scrypt_wrapped(wrapped: WrappedKey) -> bool {
    &&& wrapped.stanzas@.len() == 1
    &&& wrapped.stanzas@[0]@.tag == scrypt_tag()
    &&& wrapped.stanzas@[0]@.args.len() == 2
    &&& wrapped.stanzas@[0]@.body.len() == CLASSIC_WRAPPED_BYTES
    &&& wrapped.labels@.len() == 1
}

/// What holds of unwrapping a stanza with a passphrase on every machine:
/// a stanza with another tag is not applicable and a stanza tagged `scrypt`
/// always is; it is an invalid header unless it has two arguments and a
/// 32-byte body; beyond that it yields the file key, an invalid header or a
/// failed decryption, which counts in a work factor that the machine
/// refuses.
pub open spec fn scrypt_unwrap_holds(
    stanza: crate::stanza::StanzaModel,
    unwrapped: Option<Result<FileKey, Error>>,
) -> bool {
    let shaped = stanza.args.len() == 2 && stanza.body.len() == CLASSIC_WRAPPED_BYTES;
    if stanza.tag != scrypt_tag() {
        unwrapped is None
    } else {
        match unwrapped {
            None => false,
            Some(Ok(_)) => shaped,
            Some(Err(e)) => e == Error::InvalidHeader || (e == Error::DecryptionFailed && shaped),
        }
    }
}

/// `age::Recipient::wrap_file_key` of `age::scrypt::Recipient`: the stanza
/// and the label for a file key. The salt, the label and the work factor
/// depend on fresh randomness and on the speed of the machine; the crate
/// always returns one stanza of the shape stated here, and no error.
#[verifier::external_body]
fn scrypt_wrap(passphrase: &str, file_key: &[u8; 16]) -> (wrapped: Option<WrappedKey>)
    ensures
        match wrapped {
            Some(w) => scrypt_wrapped(w),
            None => false,
        },
{
    let recipient = age::scrypt::Recipient::new(secrecy::SecretString::from(passphrase));
    let key = age_core::format::FileKey::new(Box::new(*file_key));
    let (stanzas, labels) = age::Recipient::wrap_file_key(&recipient, &key).ok()?;
    Some(WrappedKey {
        stanzas: stanzas.into_iter().map(
            |s| Stanza { tag: s.tag, args: s.args, body: s.body },
        ).collect(),
        labels: labels.into_iter().collect(),
    })
}

/// `age::Identity::unwrap_stanza` of `age::scrypt::Identity`: nothing when
/// the tag is not `scrypt`; else an invalid header unless there are two
/// well-formed arguments and a 32-byte body, and then the file key or a
/// failed decryption. How much work the crate accepts to do depends on the
/// speed of the machine; a refused work factor is handed on as a failed
/// decryption.
#[verifier::external_body]
fn scrypt_unwrap(passphrase: &str, stanza: &Stanza) -> (unwrapped: Option<Result<FileKey, Error>>)
    ensures
        scrypt_unwrap_holds(stanza@, unwrapped),
{
    let identity = age::scrypt::Identity::new(secrecy::SecretString::from(passphrase));
    let entry = age_core::format::Stanza {
        tag: stanza.tag.clone(),
        args: stanza.args.clone(),
        body: stanza.body.clone(),
    };
    match age::Identity::unwrap_stanza(&identity, &entry)? {
        Ok(key) => Some(Ok(FileKey { bytes: *secrecy::ExposeSecret::expose_secret(&key) })),
        Err(age::DecryptError::InvalidHeader) => Some(Err(Error::InvalidHeader)),
        Err(_) => Some(Err(Error::DecryptionFailed)),
    }
}

/// What parsing a classical recipient gives.
pub open spec fn spec_parse_classic_recipient(text: Seq<char>) -> Result<Seq<char>, Error> {
    match classic_recipient(text) {
        Some(canonical) => Ok(canonical),
        None => Err(Error::InvalidClassicalKey),
    }
}

impl X25519Recipient {
    /// Parses a classical recipient; its text is kept in canonical form.
    pub fn from_string(text: &str) -> (parsed: Result<X25519Recipient, Error>)
        ensures
            match parsed {
                Ok(r) => spec_parse_classic_recipient(text@) == Ok::<Seq<char>, Error>(r.text@)
                    && classic_recipient(r.text@) == Some(r.text@),
                Err(e) => spec_parse_classic_recipient(text@) == Err::<Seq<char>, Error>(e),
            },
    {
        match parse_recipient(text) {
            Some(canonical) => Ok(X25519Recipient { text: canonical }),
            None => Err(Error::InvalidClassicalKey),
        }
    }

    /// The Bech32 text of the recipient.
    pub fn to_string(&self) -> (text: String)
        ensures
            text@ == self.text@,
    {
        self.text.clone()
    }

    /// Wraps a file key for this recipient: one stanza tagged `X25519` with
    /// one argument and a 32-byte body, under no label. Fails exactly for
    /// a text that is no classical recipient and for a key of small order,
    /// to which nothing can be encrypted.
    pub fn wrap_file_key(&self, file_key: &FileKey) -> (wrapped: Result<WrappedKey, Error>)
        ensures
            match wrapped {
                Ok(w) => wrappable(self.text@) && classic_recipient(self.text@) is Some
                    && x25519_wrapped(w),
                Err(e) => e == Error::WrapFailed && (!wrappable(self.text@) || classic_recipient(
                    self.text@,
                ) is None),
            },
    {
        if !is_wrappable(self.text.as_str()) {
            return Err(Error::WrapFailed);
        }
        match x25519_wrap(self.text.as_str(), &file_key.bytes) {
            Some(w) => Ok(w),
            None => Err(Error::WrapFailed),
        }
    }
}

impl X25519Identity {
    /// Parses a classical identity; its text is kept in canonical form.
    pub fn from_string(text: &SecretText) -> (parsed: Result<X25519Identity, Error>)
        ensures
            match parsed {
                Ok(identity) => classic_identity(text@) matches Some(pair) && pair.0
                    == identity.text@,
                Err(e) => e == Error::InvalidClassicalKey && classic_identity(text@) is None,
            },
    {
        match parse_identity(text.expose()) {
            Some((canonical, _public)) => Ok(X25519Identity { text: canonical }),
            None => Err(Error::InvalidClassicalKey),
        }
    }

    /// A fresh classical identity.
    pub fn generate() -> (identity: X25519Identity)
        ensures
            classic_identity(identity.text@) matches Some(pair) && pair.0 == identity.text@,
    {
        let (text, _public) = generate_identity();
        X25519Identity { text }
    }

    /// The Bech32 text of the identity.
    pub fn to_string(&self) -> (text: SecretText)
        ensures
            text@ == self.text@,
    {
        self.text.duplicate()
    }

    /// The recipient that belongs to this identity; fails when the text of
    /// the identity denotes none.
    pub fn to_public(&self) -> (recipient: Result<X25519Recipient, Error>)
        ensures
            match recipient {
                Ok(r) => classic_identity(self.text@) matches Some(pair) && pair.1 == r.text@,
                Err(e) => e == Error::InvalidClassicalKey && classic_identity(self.text@) is None,
            },
    {
        match parse_identity(self.text.expose()) {
            Some((_canonical, public)) => Ok(X25519Recipient { text: public }),
            None => Err(Error::InvalidClassicalKey),
        }
    }

    /// Unwraps a stanza with this identity; an identity whose text denotes
    /// none rejects every stanza.
    pub fn unwrap_stanza(&self, stanza: &Stanza) -> (unwrapped: Option<Result<FileKey, Error>>)
        ensures
            match classic_identity(self.text@) {
                Some(_) => crate::stanza::unwrap_agrees(
                    unwrapped,
                    classic_unwrapped(self.text@, stanza@.tag, stanza@.args, stanza@.body),
                ),
                None => unwrapped matches Some(Err(e)) && e == Error::InvalidClassicalKey,
            },
    {
        match parse_identity(self.text.expose()) {
            Some(_) => x25519_unwrap(self.text.expose(), stanza),
            None => Some(Err(Error::InvalidClassicalKey)),
        }
    }
}

impl ScryptRecipient {
    /// The recipient for a passphrase.
    pub fn new(passphrase: SecretText) -> (recipient: ScryptRecipient)
        ensures
            recipient.passphrase@ == passphrase@,
    {
        ScryptRecipient { passphrase }
    }

    /// Wraps a file key under the passphrase. This always succeeds, and
    /// gives one stanza tagged `scrypt` with two arguments and a 32-byte
    /// body, under one label.
    pub fn wrap_file_key(&self, file_key: &FileKey) -> (wrapped: Result<WrappedKey, Error>)
        ensures
            wrapped matches Err(e) ==> e == Error::WrapFailed,
            match wrapped {
                Ok(w) => scrypt_wrapped(w),
                Err(_) => false,
            },
    {
        match scrypt_wrap(self.passphrase.expose(), &file_key.bytes) {
            Some(w) => Ok(w),
            None => {
                proof {
                    assert(false);
                }
                Err(Error::WrapFailed)
            },
        }
    }
}

impl ScryptIdentity {
    /// The identity for a passphrase.
    pub fn new(passphrase: SecretText) -> (identity: ScryptIdentity)
        ensures
            identity.passphrase@ == passphrase@,
    {
        ScryptIdentity { passphrase }
    }

    /// Unwraps a stanza with the passphrase. A stanza with another tag is
    /// not applicable, a stanza tagged `scrypt` always is. It is an invalid
    /// header unless it has two arguments and a 32-byte body; beyond that
    /// the result is the file key, an invalid header or a failed
    /// decryption.
    pub fn unwrap_stanza(&self, stanza: &Stanza) -> (unwrapped: Option<Result<FileKey, Error>>)
        ensures
            scrypt_unwrap_holds(stanza@, unwrapped),
    {
        scrypt_unwrap(self.passphrase.expose(), stanza)
    }
}

/// The text of the classical recipient with the given X25519 public key.
pub open spec fn spec_classic_recipient_text(key: Seq<u8>) -> Seq<char> {
    bech32_text(classic_recipient_hrp(), key)
}

/// The text of the classical identity with the given X25519 secret.
pub open spec fn spec_classic_identity_text(secret: Seq<u8>) -> Seq<char> {
    upper_text(bech32_text(classic_identity_hrp(), secret))
}

impl HybridRecipient {
    /// The classical twin of this recipient: the recipient for the X25519
    /// part of the encapsulation key alone. Its text is one that age reads
    /// and writes unchanged.
    pub fn to_x25519(&self) -> (twin: X25519Recipient)
        ensures
            twin.text@ == spec_classic_recipient_text(self.spec_classic_key()),
            classic_recipient(twin.text@) == Some(twin.text@),
    {
        proof {
            lemma_prefixes();
        }
        let key = copy_range(self.encapsulation_key.as_slice(), KEM_PUBLIC_BYTES, RECIPIENT_BYTES);
        let text = encode_chars("age", key.as_slice());
        let parsed = parse_recipient(text.as_str());
        proof {
            assert(key@.len() == 32);
            assert(text@ == spec_classic_recipient_text(key@));
            assert(text_model(parsed) == Some(text@));
        }
        match parsed {
            Some(canonical) => X25519Recipient { text: canonical },
            None => X25519Recipient { text },
        }
    }
}

impl HybridIdentity {
    /// The classical twin of this identity: the identity for the X25519
    /// secret that the seed expands to. Its text is one that age reads and
    /// writes unchanged, and its recipient is the classical twin of this
    /// identity's recipient.
    pub fn to_x25519(&self) -> (twin: X25519Identity)
        ensures
            twin.text@ == spec_classic_identity_text(spec_expand(self.seed()).dk_t),
            classic_identity(twin.text@) == Some(
                (twin.text@, spec_classic_recipient_text(spec_expand(self.seed()).ek_t)),
            ),
            identity_of(twin.text@, spec_classic_recipient_text(spec_expand(self.seed()).ek_t)),
    {
        proof {
            lemma_prefixes();
        }
        let keys = expand_key(self.expose_seed());
        let lower = encode_chars("AGE-SECRET-KEY-", keys.dk_t.expose().as_slice());
        let upper = to_ascii_uppercase(lower.as_str());
        let parsed = parse_identity(upper.as_str());
        proof {
            let secret = keys.dk_t@;
            assert(secret == spec_expand(self.seed()).dk_t);
            assert(secret.len() == 32);
            assert(upper@ == spec_classic_identity_text(secret));
            assert(pair_model(parsed) == Some(
                (upper@, spec_classic_recipient_text(crate::hybrid::x25519_public(secret))),
            ));
        }
        match parsed {
            Some((canonical, _public)) => X25519Identity { text: canonical },
            None => X25519Identity { text: SecretText::new(upper) },
        }
    }
}

/// A classical key pair as text.
pub struct Keypair {
    pub private_key: SecretText,
    pub public_key: String,
}

/// A fresh classical key pair.
pub fn generate_key() -> (pair: Keypair)
    ensures
        classic_identity(pair.private_key@) == Some((pair.private_key@, pair.public_key@)),
{
    let (private_key, public_key) = generate_identity();
    Keypair { private_key, public_key }
}

/// The classical recipients that a list of key texts denotes. Fails when a
/// text denotes none.
pub fn keys_to_x25519_recipients(public_keys: &Vec<String>) -> (recipients: Result<
    Vec<X25519Recipient>,
    Error,
>)
    ensures
        match recipients {
            Ok(list) => {
                &&& list@.len() == public_keys@.len()
                &&& forall|i: int|
                    0 <= i < list@.len() ==> classic_recipient(#[trigger] public_keys@[i]@) == Some(
                        list@[i].text@,
                    )
                &&& forall|i: int|
                    0 <= i < list@.len() ==> classic_recipient((#[trigger] list@[i]).text@)
                        == Some(list@[i].text@)
            },
            Err(e) => e == Error::InvalidClassicalKey && exists|i: int|
                0 <= i < public_keys@.len() && classic_recipient(#[trigger] public_keys@[i]@)
                    is None,
        },
{
    let mut list: Vec<X25519Recipient> = Vec::new();
    let mut i: usize = 0;
    while i < public_keys.len()
        invariant
            i <= public_keys@.len(),
            list@.len() == i,
            forall|j: int|
                0 <= j < i ==> classic_recipient(#[trigger] public_keys@[j]@) == Some(
                    list@[j].text@,
                ),
            forall|j: int|
                0 <= j < i ==> classic_recipient((#[trigger] list@[j]).text@) == Some(
                    list@[j].text@,
                ),
        decreases public_keys.len() - i,
    {
        match X25519Recipient::from_string(public_keys[i].as_str()) {
            Ok(recipient) => {
                list.push(recipient);
            },
            Err(e) => {
                return Err(e);
            },
        }
        i = i + 1;
    }
    Ok(list)
}

/// The plaintext that the classical identity with the given text decrypts
/// an age file to, when it decrypts it.
pub uninterp spec fn classic_decrypted(identity: Seq<char>, data: Seq<u8>) -> Option<Seq<u8>>;

/// The text denotes a classical identity whose recipient has the text
/// `recipient`.
pub open spec fn identity_of(identity: Seq<char>, recipient: Seq<char>) -> bool {
    match classic_identity(identity) {
        Some(pair) => pair.1 == recipient,
        None => false,
    }
}

/// The text denotes a classical identity whose recipient is the one that
/// the key text denotes.
pub open spec fn denotes_identity_of(identity: Seq<char>, key: Seq<char>) -> bool {
    match classic_recipient(key) {
        Some(canonical) => identity_of(identity, canonical),
        None => false,
    }
}

/// The key text denotes a classical recipient to which age can encrypt:
/// its key is not of small order.
pub open spec fn can_encrypt_to(key: Seq<char>) -> bool {
    match classic_recipient(key) {
        Some(canonical) => wrappable(canonical),
        None => false,
    }
}

/// Every identity of one of the recipients decrypts `data` to `plaintext`.
pub open spec fn readable_by_all(
    recipients: Seq<X25519Recipient>,
    data: Seq<u8>,
    plaintext: Seq<u8>,
) -> bool {
    forall|i: int, identity: Seq<char>|
        #![trigger recipients[i], classic_decrypted(identity, data)]
        0 <= i < recipients.len() && identity_of(identity, recipients[i].text@)
            ==> classic_decrypted(identity, data) == Some(plaintext)
}

/// There is at least one recipient, and every text denotes a classical
/// recipient.
pub open spec fn all_recipients(recipients: Seq<X25519Recipient>) -> bool {
    &&& recipients.len() > 0
    &&& forall|i: int|
        0 <= i < recipients.len() ==> classic_recipient((#[trigger] recipients[i]).text@) is Some
}

/// `age::Encryptor::with_recipients`, `wrap_output`, `write_all` and
/// `finish` on classical recipients: the age file for the bytes, or nothing
/// when the crate reports an error, which it does exactly when there is no
/// recipient or a text is no recipient: classical recipients carry no
/// label, and writing into memory does not fail. The file depends on fresh
/// randomness. As the crate documents, every identity of a recipient
/// decrypts the file to the bytes.
/// The crate panics on a recipient key of small order; such keys are left
/// out.
#[verifier::external_body]
fn age_encrypt(recipients: &Vec<X25519Recipient>, bytes: &[u8]) -> (encrypted: Option<Vec<u8>>)
    requires
        forall|i: int| 0 <= i < recipients@.len() ==> wrappable(#[trigger] recipients@[i].text@),
    ensures
        encrypted is Some <==> all_recipients(recipients@),
        encrypted matches Some(data) ==> readable_by_all(recipients@, data@, bytes@),
{
    let parsed: Vec<age::x25519::Recipient> = recipients.iter().map(
        |r| r.text.parse::<age::x25519::Recipient>(),
    ).collect::<Result<Vec<_>, _>>().ok()?;
    let encryptor = age::Encryptor::with_recipients(
        parsed.iter().map(|r| r as &dyn age::Recipient),
    ).ok()?;
    let mut out = Vec::new();
    let mut writer = encryptor.wrap_output(&mut out).ok()?;
    std::io::Write::write_all(&mut writer, bytes).ok()?;
    writer.finish().ok()?;
    Some(out)
}

/// `age::Decryptor::new`, `decrypt` with one classical identity, and
/// `read_to_end`: the plaintext of an age file, or nothing when the text is
/// no identity, the file is malformed or the identity does not decrypt it.
#[verifier::external_body]
fn age_decrypt(identity: &str, data: &[u8]) -> (plaintext: Option<Vec<u8>>)
    ensures
        match plaintext {
            Some(p) => classic_decrypted(identity@, data@) == Some(p@),
            None => classic_decrypted(identity@, data@) is None,
        },
{
    let parsed = identity.parse::<age::x25519::Identity>().ok()?;
    let decryptor = age::Decryptor::new(data).ok()?;
    let mut reader = decryptor.decrypt(std::iter::once(&parsed as &dyn age::Identity)).ok()?;
    let mut out = Vec::new();
    std::io::Read::read_to_end(&mut reader, &mut out).ok()?;
    Some(out)
}

/// Why nothing is encrypted to a list of key texts, if so: a text denotes
/// no classical recipient; or the list is empty or holds a key of small
/// order.
pub open spec fn spec_encrypt_refusal(keys: Seq<Seq<char>>) -> Option<Error> {
    if exists|i: int| 0 <= i < keys.len() && classic_recipient(#[trigger] keys[i]) is None {
        Some(Error::InvalidClassicalKey)
    } else if keys.len() == 0 || exists|i: int|
        0 <= i < keys.len() && !can_encrypt_to(#[trigger] keys[i]) {
        Some(Error::WrapFailed)
    } else {
        None
    }
}

/// Encrypts bytes to the classical recipients that the key texts denote.
/// Every identity of one of the recipients decrypts the result to the
/// bytes. Fails exactly when a text denotes no recipient, when the list is
/// empty and when it holds a key of small order.
pub fn encrypt_bytes(public_keys: &Vec<String>, bytes: &[u8]) -> (encrypted: Result<Vec<u8>, Error>)
    ensures
        match encrypted {
            Ok(data) => {
                &&& spec_encrypt_refusal(texts_of(public_keys@)) is None
                &&& forall|i: int|
                    0 <= i < public_keys@.len() ==> can_encrypt_to(#[trigger] public_keys@[i]@)
                &&& forall|i: int, identity: Seq<char>|
                    #![trigger public_keys@[i], classic_decrypted(identity, data@)]
                    0 <= i < public_keys@.len() && denotes_identity_of(identity, public_keys@[i]@)
                        ==> classic_decrypted(identity, data@) == Some(bytes@)
            },
            Err(e) => spec_encrypt_refusal(texts_of(public_keys@)) == Some(e),
        },
{
    let ghost keys = texts_of(public_keys@);
    let recipients = match keys_to_x25519_recipients(public_keys) {
        Ok(recipients) => recipients,
        Err(e) => {
            proof {
                let i = choose|i: int|
                    0 <= i < public_keys@.len() && classic_recipient(#[trigger] public_keys@[i]@)
                        is None;
                assert(classic_recipient(keys[i]) is None);
            }
            return Err(e);
        },
    };
    proof {
        assert forall|j: int| 0 <= j < keys.len() implies classic_recipient(#[trigger] keys[j])
            == Some(recipients@[j].text@) by {
            assert(classic_recipient(public_keys@[j]@) == Some(recipients@[j].text@));
        }
    }
    let mut i: usize = 0;
    while i < recipients.len()
        invariant
            i <= recipients@.len(),
            recipients@.len() == public_keys@.len(),
            keys == texts_of(public_keys@),
            forall|j: int|
                0 <= j < recipients@.len() ==> classic_recipient(#[trigger] public_keys@[j]@)
                    == Some(recipients@[j].text@),
            forall|j: int|
                0 <= j < keys.len() ==> classic_recipient(#[trigger] keys[j]) == Some(
                    recipients@[j].text@,
                ),
            forall|j: int|
                0 <= j < recipients@.len() ==> classic_recipient(
                    (#[trigger] recipients@[j]).text@,
                ) == Some(recipients@[j].text@),
            forall|j: int| 0 <= j < i ==> wrappable(#[trigger] recipients@[j].text@),
        decreases recipients.len() - i,
    {
        if !is_wrappable(recipients[i].text.as_str()) {
            assert(!can_encrypt_to(keys[i as int]));
            return Err(Error::WrapFailed);
        }
        i = i + 1;
    }
    match age_encrypt(&recipients, bytes) {
        Some(data) => {
            assert forall|i: int| 0 <= i < keys.len() implies can_encrypt_to(
                #[trigger] keys[i],
            ) by {
                assert(wrappable(recipients@[i].text@));
            }
            assert forall|i: int| 0 <= i < public_keys@.len() implies can_encrypt_to(
                #[trigger] public_keys@[i]@,
            ) by {
                assert(wrappable(recipients@[i].text@));
            }
            assert forall|i: int, identity: Seq<char>|
                #![trigger public_keys@[i], classic_decrypted(identity, data@)]
                0 <= i < public_keys@.len() && denotes_identity_of(
                    identity,
                    public_keys@[i]@,
                ) implies classic_decrypted(identity, data@) == Some(bytes@) by {
                assert(identity_of(identity, recipients@[i].text@));
            }
            Ok(data)
        },
        None => Err(Error::WrapFailed),
    }
}

/// Encrypts a text to the classical recipients that the key texts denote.
/// Every identity of one of the recipients decrypts the result to the UTF-8
/// bytes of the text.
pub fn encrypt_text(public_keys: &Vec<String>, text: &str) -> (encrypted: Result<Vec<u8>, Error>)
    ensures
        match encrypted {
            Ok(data) => {
                &&& spec_encrypt_refusal(texts_of(public_keys@)) is None
                &&& forall|i: int|
                    0 <= i < public_keys@.len() ==> can_encrypt_to(#[trigger] public_keys@[i]@)
                &&& forall|i: int, identity: Seq<char>|
                    #![trigger public_keys@[i], classic_decrypted(identity, data@)]
                    0 <= i < public_keys@.len() && denotes_identity_of(identity, public_keys@[i]@)
                        ==> classic_decrypted(identity, data@) == Some(encode_utf8(text@))
            },
            Err(e) => spec_encrypt_refusal(texts_of(public_keys@)) == Some(e),
        },
{
    encrypt_bytes(public_keys, text.as_bytes())
}

/// Decrypts an age file with a classical identity.
pub fn decrypt_bytes(identity: &X25519Identity, data: &[u8]) -> (plaintext: Result<Vec<u8>, Error>)
    ensures
        match plaintext {
            Ok(p) => classic_decrypted(identity.text@, data@) == Some(p@),
            Err(e) => e == Error::DecryptionFailed && classic_decrypted(identity.text@, data@)
                is None,
        },
{
    match age_decrypt(identity.text.expose(), data) {
        Some(p) => Ok(p),
        None => Err(Error::DecryptionFailed),
    }
}

} // verus!
