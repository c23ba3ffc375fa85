//! Header stanzas of an age file, and the hybrid stanza that wraps a file key
//! for a post-quantum recipient.

use vstd::prelude::*;
use vstd::string::StringExecFns;
use vstd::string::StringSliceAdditionalSpecFns;
use crate::error::Error;
use crate::hybrid::{spec_recipient_key, HybridIdentity, HybridRecipient};
use crate::text::{array_of, text_equal};

verus! {

/// Bytes of an age file key.
pub const FILE_KEY_BYTES: usize = 16;

/// Bytes of the encapsulated secret that the hybrid KEM produces.
pub const ENCAPSULATION_BYTES: usize = 1120;

/// Bytes of a wrapped file key: the key and its authentication tag.
pub const WRAPPED_KEY_BYTES: usize = 32;

/// One entry of an age header: a tag, arguments and a body.
pub struct Stanza {
    pub tag: String,
    pub args: Vec<String>,
    pub body: Vec<u8>,
}

/// A stanza as plain sequences.
pub struct StanzaModel {
    pub tag: Seq<char>,
    pub args: Seq<Seq<char>>,
    pub body: Seq<u8>,
}

/// The characters of each text in a list.
pub open spec fn texts_of(list: Seq<String>) -> Seq<Seq<char>> {
    Seq::new(list.len(), |i: int| list[i]@)
}

impl View for Stanza {
    type V = StanzaModel;

    open spec fn view(&self) -> StanzaModel {
        StanzaModel { tag: self.tag@, args: texts_of(self.args@), body: self.body@ }
    }
}

/// What wrapping a file key returns: the stanzas for the header and the
/// labels that all recipients of one file must share.
pub struct WrappedKey {
    pub stanzas: Vec<Stanza>,
    pub labels: Vec<String>,
}

/// The tag of the hybrid stanza.
pub open spec fn hybrid_tag() -> Seq<char> {
    "mlkem768x25519"@
}

/// The label that a hybrid recipient puts on a file.
pub open spec fn hybrid_label() -> Seq<char> {
    "postquantum"@
}

/// The context string that binds the key encapsulation to this stanza type.
pub open spec fn hybrid_info() -> Seq<u8> {
    "age-encryption.org/mlkem768x25519".spec_bytes()
}

/// The unpadded standard base64 text of some bytes.
pub uninterp spec fn base64_text(bytes: Seq<u8>) -> Seq<char>;

/// The bytes that an unpadded standard base64 text stands for, when it is one.
pub uninterp spec fn base64_decoded(text: Seq<char>) -> Option<Seq<u8>>;

/// The plaintext that HPKE in base mode (X-Wing KEM, HKDF-SHA-256,
/// ChaCha20-Poly1305, no associated data) opens from an encapsulated secret
/// and a ciphertext under the private key `seed`, when it opens.
pub uninterp spec fn hpke_opened(seed: Seq<u8>, info: Seq<u8>, enc: Seq<u8>, ct: Seq<u8>) -> Option<
    Seq<u8>,
>;

/// `base64::Engine::encode` on `BASE64_STANDARD_NO_PAD`. As the crate
/// documents for its engines, decoding the text gives the bytes back.
#[verifier::external_body]
fn base64_encode(bytes: &[u8]) -> (text: String)
    requires
        bytes@.len() <= 0x1000_0000,
    ensures
        text@ == base64_text(bytes@),
        base64_decoded(text@) == Some(bytes@),
{
    base64::Engine::encode(&base64::prelude::BASE64_STANDARD_NO_PAD, bytes)
}

/// `base64::Engine::decode` on `BASE64_STANDARD_NO_PAD`: the bytes, or
/// nothing when the text is not canonical unpadded base64.
#[verifier::external_body]
fn base64_decode(text: &str) -> (bytes: Option<Vec<u8>>)
    ensures
        match bytes {
            Some(b) => base64_decoded(text@) == Some(b@),
            None => base64_decoded(text@) is None,
        },
{
    base64::Engine::decode(&base64::prelude::BASE64_STANDARD_NO_PAD, text).ok()
}

/// `hpke_rs::Hpke::seal` in base mode with the X-Wing KEM, HKDF-SHA-256 and
/// ChaCha20-Poly1305, without associated data: the encapsulated secret and
/// the ciphertext, or nothing when the crate reports an error. The outcome
/// depends on fresh randomness. As the crate documents for `seal` and `open`,
/// the private key of the recipient opens the result to the plaintext. The
/// private key of an X-Wing recipient is its 32-byte seed: `libcrux_kem`
/// stretches it with SHAKE-256 to the ML-KEM-768 seed and the X25519
/// secret, which is the expansion that `spec_recipient_key` describes.
#[verifier::external_body]
fn hpke_seal(recipient_key: &[u8], info: &[u8], plaintext: &[u8]) -> (sealed: Option<
    (Vec<u8>, Vec<u8>),
>)
    ensures
        sealed matches Some((enc, ct)) ==> forall|seed: Seq<u8>|
            #![trigger hpke_opened(seed, info@, enc@, ct@)]
            seed.len() == 32 && spec_recipient_key(seed) == recipient_key@ ==> hpke_opened(
                seed,
                info@,
                enc@,
                ct@,
            ) == Some(plaintext@),
{
    let mut hpke = hpke_rs::Hpke::<hpke_rs_libcrux::HpkeLibcrux>::try_new(
        hpke_rs::Mode::Base,
        hpke_rs::hpke_types::KemAlgorithm::XWingDraft06,
        hpke_rs::hpke_types::KdfAlgorithm::HkdfSha256,
        hpke_rs::hpke_types::AeadAlgorithm::ChaCha20Poly1305,
    ).ok()?;
    let key = hpke_rs::HpkePublicKey::from(recipient_key);
    hpke.seal(&key, info, &[], plaintext, None, None, None).ok()
}

/// `hpke_rs::Hpke::open` in the same configuration: the plaintext, or
/// nothing when the crate reports an error. Opening draws no randomness, so
/// the object is built by `Hpke::new_with_rng` over a generator that
/// `HpkeLibcruxPrng::try_from_seed` makes from a fixed seed; nothing here
/// reads the system's generator, and the result is a function of the seed,
/// the context string, the encapsulated secret and the ciphertext alone.
#[verifier::external_body]
fn hpke_open(seed: &[u8; 32], info: &[u8], enc: &[u8], ct: &[u8]) -> (opened: Option<Vec<u8>>)
    ensures
        match opened {
            Some(plaintext) => hpke_opened(seed@, info@, enc@, ct@) == Some(plaintext@),
            None => hpke_opened(seed@, info@, enc@, ct@) is None,
        },
{
    let prng = hpke_rs_libcrux::HpkeLibcruxPrng::try_from_seed([0u8; 32]).ok()?;
    let hpke = hpke_rs::Hpke::<hpke_rs_libcrux::HpkeLibcrux>::new_with_rng(
        hpke_rs::Mode::Base,
        hpke_rs::hpke_types::KemAlgorithm::XWingDraft06,
        hpke_rs::hpke_types::KdfAlgorithm::HkdfSha256,
        hpke_rs::hpke_types::AeadAlgorithm::ChaCha20Poly1305,
        prng,
    );
    let key = hpke_rs::HpkePrivateKey::from(&seed[..]);
    hpke.open(enc, &key, info, &[], ct, None, None, None).ok()
}

/// The hybrid stanza for an encapsulated secret and a wrapped file key.
pub open spec fn spec_hybrid_stanza(enc: Seq<u8>, ct: Seq<u8>) -> StanzaModel {
    StanzaModel { tag: hybrid_tag(), args: seq![base64_text(enc)], body: ct }
}

/// The file key that an opened plaintext holds: exactly 16 bytes, or the
/// stanza does not decrypt.
pub open spec fn spec_file_key(opened: Option<Seq<u8>>) -> Result<Seq<u8>, Error> {
    match opened {
        Some(plaintext) => if plaintext.len() == FILE_KEY_BYTES {
            Ok(plaintext)
        } else {
            Err(Error::DecryptionFailed)
        },
        None => Err(Error::DecryptionFailed),
    }
}

/// What a hybrid identity with the given seed makes of a stanza: nothing
/// when the stanza is for another kind of recipient, else the file key or
/// the reason for rejecting the stanza.
pub open spec fn spec_unwrap(seed: Seq<u8>, stanza: StanzaModel) -> Option<Result<Seq<u8>, Error>> {
    if stanza.tag != hybrid_tag() {
        None
    } else if stanza.args.len() != 1 {
        Some(Err(Error::InvalidHeader))
    } else {
        match base64_decoded(stanza.args[0]) {
            None => Some(Err(Error::InvalidHeader)),
            Some(enc) => if enc.len() != ENCAPSULATION_BYTES {
                Some(Err(Error::InvalidHeader))
            } else if stanza.body.len() != WRAPPED_KEY_BYTES {
                Some(Err(Error::DecryptionFailed))
            } else {
                Some(spec_file_key(hpke_opened(seed, hybrid_info(), enc, stanza.body)))
            },
        }
    }
}

/// Builds the header entry for a sealed file key: one stanza tagged
/// `mlkem768x25519` whose argument is the base64 of the encapsulated secret
/// and whose body is the wrapped key, under the label `postquantum`. Refuses
/// an encapsulated secret or a wrapped key of the wrong size.
pub fn hybrid_stanza(enc: Vec<u8>, ct: Vec<u8>) -> (wrapped: Result<WrappedKey, Error>)
    ensures
        wrapped is Ok <==> enc@.len() == ENCAPSULATION_BYTES && ct@.len() == WRAPPED_KEY_BYTES,
        wrapped matches Ok(w) ==> {
            &&& w.stanzas@.len() == 1
            &&& w.stanzas@[0]@ == spec_hybrid_stanza(enc@, ct@)
            &&& base64_decoded(w.stanzas@[0]@.args[0]) == Some(enc@)
            &&& texts_of(w.labels@) == seq![hybrid_label()]
        },
        wrapped matches Err(e) ==> e == Error::WrapFailed,
{
    if enc.len() != ENCAPSULATION_BYTES || ct.len() != WRAPPED_KEY_BYTES {
        return Err(Error::WrapFailed);
    }
    let arg = base64_encode(enc.as_slice());
    let mut args: Vec<String> = Vec::new();
    args.push(arg);
    let stanza = Stanza { tag: String::from_str("mlkem768x25519"), args, body: ct };
    assert(stanza@.args =~= seq![base64_text(enc@)]);
    let mut stanzas: Vec<Stanza> = Vec::new();
    stanzas.push(stanza);
    let mut labels: Vec<String> = Vec::new();
    labels.push(String::from_str("postquantum"));
    assert(texts_of(labels@) =~= seq![hybrid_label()]);
    Ok(WrappedKey { stanzas, labels })
}

/// The encapsulated secret that a decoded stanza argument holds: exactly
/// 1120 bytes, or the header is invalid.
pub fn encapsulation_from(decoded: Option<Vec<u8>>) -> (enc: Result<Vec<u8>, Error>)
    ensures
        match enc {
            Ok(bytes) => decoded == Some(bytes) && bytes@.len() == ENCAPSULATION_BYTES,
            Err(e) => e == Error::InvalidHeader && (decoded matches Some(bytes) ==> bytes@.len()
                != ENCAPSULATION_BYTES),
        },
{
    match decoded {
        Some(bytes) => {
            if bytes.len() == ENCAPSULATION_BYTES {
                Ok(bytes)
            } else {
                Err(Error::InvalidHeader)
            }
        },
        None => Err(Error::InvalidHeader),
    }
}

/// The 16-byte key of an age file, which each stanza wraps for one
/// recipient.
pub struct FileKey {
    pub bytes: [u8; 16],
}

/// The bytes of an opened file key, when it has one.
pub open spec fn opened_bytes(opened: Option<Vec<u8>>) -> Option<Seq<u8>> {
    match opened {
        Some(bytes) => Some(bytes@),
        None => None,
    }
}

/// The file key that an opened plaintext holds: exactly 16 bytes, or the
/// stanza does not decrypt.
pub fn file_key_from(opened: Option<Vec<u8>>) -> (key: Result<FileKey, Error>)
    ensures
        match key {
            Ok(k) => spec_file_key(opened_bytes(opened)) == Ok::<Seq<u8>, Error>(k.bytes@),
            Err(e) => spec_file_key(opened_bytes(opened)) == Err::<Seq<u8>, Error>(e),
        },
{
    match opened {
        Some(plaintext) => {
            if plaintext.len() == FILE_KEY_BYTES {
                Ok(FileKey { bytes: array_of::<16>(plaintext.as_slice()) })
            } else {
                Err(Error::DecryptionFailed)
            }
        },
        None => Err(Error::DecryptionFailed),
    }
}

/// Whether an unwrap result is the one the model gives.
pub open spec fn unwrap_agrees(
    got: Option<Result<FileKey, Error>>,
    want: Option<Result<Seq<u8>, Error>>,
) -> bool {
    match got {
        None => want is None,
        Some(Ok(key)) => want == Some(Ok::<Seq<u8>, Error>(key.bytes@)),
        Some(Err(e)) => want == Some(Err::<Seq<u8>, Error>(e)),
    }
}

/// What wrapping a file key for a hybrid recipient gives: one stanza tagged
/// `mlkem768x25519` with one argument and a 32-byte body, under the label
/// `postquantum`, which every identity whose seed expands to the
/// recipient's key unwraps to the file key.
pub open spec fn hybrid_wrapped(recipient_key: Seq<u8>, file_key: Seq<u8>, w: WrappedKey) -> bool {
    &&& w.stanzas@.len() == 1
    &&& w.stanzas@[0]@.tag == hybrid_tag()
    &&& w.stanzas@[0]@.args.len() == 1
    &&& w.stanzas@[0]@.body.len() == WRAPPED_KEY_BYTES
    &&& texts_of(w.labels@) == seq![hybrid_label()]
    &&& forall|seed: Seq<u8>|
        #![trigger spec_unwrap(seed, w.stanzas@[0]@)]
        seed.len() == 32 && spec_recipient_key(seed) == recipient_key ==> spec_unwrap(
            seed,
            w.stanzas@[0]@,
        ) == Some(Ok::<Seq<u8>, Error>(file_key))
}

impl HybridRecipient {
    /// Wraps a file key for this recipient with HPKE. Every identity whose
    /// seed expands to this recipient unwraps the stanza to the same file key.
    pub fn wrap_file_key(&self, file_key: &FileKey) -> (wrapped: Result<WrappedKey, Error>)
        ensures
            wrapped matches Ok(w) ==> hybrid_wrapped(self.encapsulation_key@, file_key.bytes@, w),
            wrapped matches Err(e) ==> e == Error::WrapFailed,
    {
        let info = "age-encryption.org/mlkem768x25519".as_bytes();
        match hpke_seal(self.encapsulation_key.as_slice(), info, file_key.bytes.as_slice()) {
            None => Err(Error::WrapFailed),
            Some((enc, ct)) => {
                let ghost enc_bytes = enc@;
                let ghost ct_bytes = ct@;
                let wrapped = hybrid_stanza(enc, ct);
                proof {
                    if wrapped is Ok {
                        let stanza = wrapped->Ok_0.stanzas@[0]@;
                        assert forall|seed: Seq<u8>|
                            #![trigger spec_unwrap(seed, stanza)]
                            seed.len() == 32 && spec_recipient_key(seed)
                                == self.encapsulation_key@ implies spec_unwrap(seed, stanza)
                            == Some(Ok::<Seq<u8>, Error>(file_key.bytes@)) by {
                            assert(hpke_opened(seed, info@, enc_bytes, ct_bytes) == Some(
                                file_key.bytes@,
                            ));
                        }
                    }
                }
                wrapped
            },
        }
    }
}

impl HybridIdentity {
    /// Unwraps a stanza: not applicable when the tag is not
    /// `mlkem768x25519`; an invalid header unless there is exactly one
    /// argument that is the base64 of 1120 bytes; a failed decryption unless
    /// the body has 32 bytes and opens to a 16-byte file key.
    pub fn unwrap_stanza(&self, stanza: &Stanza) -> (unwrapped: Option<Result<FileKey, Error>>)
        ensures
            unwrap_agrees(unwrapped, spec_unwrap(self.seed(), stanza@)),
    {
        if !text_equal(stanza.tag.as_str(), "mlkem768x25519") {
            return None;
        }
        if stanza.args.len() != 1 {
            return Some(Err(Error::InvalidHeader));
        }
        let decoded = base64_decode(stanza.args[0].as_str());
        let enc = match encapsulation_from(decoded) {
            Ok(enc) => enc,
            Err(e) => {
                return Some(Err(e));
            },
        };
        if stanza.body.len() != WRAPPED_KEY_BYTES {
            return Some(Err(Error::DecryptionFailed));
        }
        let info = "age-encryption.org/mlkem768x25519".as_bytes();
        let opened = hpke_open(self.expose_seed(), info, enc.as_slice(), stanza.body.as_slice());
        Some(file_key_from(opened))
    }
}

} // verus!
