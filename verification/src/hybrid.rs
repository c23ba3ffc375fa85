//! The post-quantum hybrid key pair: ML-KEM-768 together with X25519.
//!
//! A 32-byte seed determines the whole key pair. The recipient is the
//! 1216-byte encapsulation key; the identity is the seed.

use vstd::prelude::*;
use crate::error::Error;
use crate::keytext::{bech32_text, decode, encode_chars, spec_decode, valid_hrp};
use crate::secret::{SecretKey, SecretText};
use crate::text::{
    array_of, copy_range, is_prefix, lemma_upper_prefix, lower_text,
    starts_with, to_ascii_uppercase, upper_text,
};

verus! {

/// Bytes of seed that ML-KEM-768 key generation takes.
pub const KEM_SEED_BYTES: usize = 64;

/// Bytes of seed that the X25519 key takes.
pub const GROUP_SEED_BYTES: usize = 32;

/// Bytes of an ML-KEM-768 encapsulation key.
pub const KEM_PUBLIC_BYTES: usize = 1184;

/// Bytes of an ML-KEM-768 decapsulation key.
pub const KEM_PRIVATE_BYTES: usize = 2400;

/// Bytes of a hybrid recipient: the ML-KEM-768 key followed by the X25519 key.
pub const RECIPIENT_BYTES: usize = 1216;

/// The first `len` bytes of the SHAKE-256 output for `input`.
pub uninterp spec fn shake256_output(input: Seq<u8>, len: nat) -> Seq<u8>;

/// The ML-KEM-768 key pair that a 64-byte seed generates: the encapsulation
/// key, then the decapsulation key.
pub uninterp spec fn mlkem768_pair(seed: Seq<u8>) -> (Seq<u8>, Seq<u8>);

/// The X25519 public key of a secret scalar.
pub uninterp spec fn x25519_public(scalar: Seq<u8>) -> Seq<u8>;

/// The four keys that a seed expands to, as byte sequences.
pub struct ExpandedModel {
    pub ek_pq: Seq<u8>,
    pub ek_t: Seq<u8>,
    pub dk_pq: Seq<u8>,
    pub dk_t: Seq<u8>,
}

/// The expansion of a seed: SHAKE-256 stretches it to 96 bytes; the first 64
/// seed ML-KEM-768, the last 32 are the X25519 secret.
pub open spec fn spec_expand(seed: Seq<u8>) -> ExpandedModel {
    let full = shake256_output(seed, 96);
    let pair = mlkem768_pair(full.subrange(0, 64));
    let dk_t = full.subrange(64, 96);
    ExpandedModel { ek_pq: pair.0, ek_t: x25519_public(dk_t), dk_pq: pair.1, dk_t }
}

/// The encapsulation key of the recipient that belongs to a seed.
pub open spec fn spec_recipient_key(seed: Seq<u8>) -> Seq<u8> {
    spec_expand(seed).ek_pq + spec_expand(seed).ek_t
}

/// SHAKE-256 as `sha3::Shake256` computes it: the hasher absorbs the input
/// and the reader yields the first `N` bytes of output.
#[verifier::external_body]
pub fn shake256<const N: usize>(input: &[u8]) -> (output: [u8; N])
    ensures
        output@ == shake256_output(input@, N as nat),
{
    let mut hasher = <sha3::Shake256 as Default>::default();
    sha3::digest::Update::update(&mut hasher, input);
    let mut reader = sha3::digest::ExtendableOutput::finalize_xof(hasher);
    let mut output = [0u8; N];
    sha3::digest::XofReader::read(&mut reader, &mut output);
    output
}

/// `libcrux_ml_kem::mlkem768::generate_key_pair`: the key pair is a function
/// of the 64-byte seed alone; returned as encapsulation key, then
/// decapsulation key.
#[verifier::external_body]
fn mlkem768_generate(seed: [u8; 64]) -> (pair: ([u8; 1184], [u8; 2400]))
    ensures
        (pair.0@, pair.1@) == mlkem768_pair(seed@),
{
    let pair = libcrux_ml_kem::mlkem768::generate_key_pair(seed);
    (*pair.pk(), *pair.sk())
}

/// `x25519_dalek::x25519` applied to the secret scalar and the base point
/// `X25519_BASEPOINT_BYTES`: the public key of the scalar.
#[verifier::external_body]
fn x25519_base(scalar: [u8; 32]) -> (public: [u8; 32])
    ensures
        public@ == x25519_public(scalar@),
{
    x25519_dalek::x25519(scalar, x25519_dalek::X25519_BASEPOINT_BYTES)
}

/// The keys that a seed expands to: the two encapsulation keys, which make
/// up the recipient, and the two decapsulation keys.
pub struct ExpandedKey {
    pub ek_pq: [u8; 1184],
    pub ek_t: [u8; 32],
    pub dk_pq: [u8; 2400],
    pub dk_t: SecretKey,
}

impl ExpandedKey {
    /// The keys as byte sequences.
    pub open spec fn model(&self) -> ExpandedModel {
        ExpandedModel { ek_pq: self.ek_pq@, ek_t: self.ek_t@, dk_pq: self.dk_pq@, dk_t: self.dk_t@ }
    }
}

/// Expands an identity seed into its ML-KEM-768 and X25519 key pairs.
pub fn expand_key(seed: &[u8; 32]) -> (keys: ExpandedKey)
    ensures
        keys.model() == spec_expand(seed@),
{
    let full: [u8; 96] = shake256::<96>(seed.as_slice());
    let seed_pq_bytes = copy_range(full.as_slice(), 0, KEM_SEED_BYTES);
    let seed_pq: [u8; 64] = array_of::<64>(seed_pq_bytes.as_slice());
    let seed_t_bytes = copy_range(full.as_slice(), KEM_SEED_BYTES, KEM_SEED_BYTES + GROUP_SEED_BYTES);
    let seed_t: [u8; 32] = array_of::<32>(seed_t_bytes.as_slice());
    let (ek_pq, dk_pq) = mlkem768_generate(seed_pq);
    let ek_t = x25519_base(seed_t);
    ExpandedKey { ek_pq, ek_t, dk_pq, dk_t: SecretKey::new(seed_t) }
}

/// The prefix of a hybrid recipient's text.
pub open spec fn recipient_hrp() -> Seq<char> {
    "age1pq"@
}

/// The prefix of a hybrid identity's text.
pub open spec fn identity_hrp() -> Seq<char> {
    "AGE-SECRET-KEY-PQ-"@
}

/// The prefix of a classical recipient's text.
pub open spec fn classic_recipient_hrp() -> Seq<char> {
    "age"@
}

/// The prefix of a classical identity's text.
pub open spec fn classic_identity_hrp() -> Seq<char> {
    "AGE-SECRET-KEY-"@
}

/// The text of the recipient with the given encapsulation key.
pub open spec fn spec_recipient_text(key: Seq<u8>) -> Seq<char> {
    bech32_text(recipient_hrp(), key)
}

/// The text of the identity with the given seed.
pub open spec fn spec_identity_text(seed: Seq<u8>) -> Seq<char> {
    upper_text(bech32_text(identity_hrp(), seed))
}

/// What parsing a recipient text gives: the encapsulation key, or the first
/// rule that the text breaks.
pub open spec fn spec_parse_recipient(text: Seq<char>) -> Result<Seq<u8>, Error> {
    if !is_prefix(recipient_hrp(), text) {
        Err(Error::NotARecipient)
    } else {
        match spec_decode(recipient_hrp(), text) {
            Err(e) => Err(e),
            Ok(payload) => if payload.len() == RECIPIENT_BYTES {
                Ok(payload)
            } else {
                Err(Error::WrongLength)
            },
        }
    }
}

/// What parsing an identity text gives: the seed, or the first rule that the
/// text breaks.
pub open spec fn spec_parse_identity(text: Seq<char>) -> Result<Seq<u8>, Error> {
    if !is_prefix(identity_hrp(), text) {
        Err(Error::NotASecretKey)
    } else {
        match spec_decode(identity_hrp(), text) {
            Err(e) => Err(e),
            Ok(payload) => if payload.len() == GROUP_SEED_BYTES {
                Ok(payload)
            } else {
                Err(Error::WrongLength)
            },
        }
    }
}

/// The four prefixes are valid human-readable parts, and each is its own
/// form in the case it is written in.
pub proof fn lemma_prefixes()
    ensures
        valid_hrp(recipient_hrp()),
        valid_hrp(identity_hrp()),
        valid_hrp(classic_recipient_hrp()),
        valid_hrp(classic_identity_hrp()),
        lower_text(recipient_hrp()) == recipient_hrp(),
        lower_text(classic_recipient_hrp()) == classic_recipient_hrp(),
        upper_text(identity_hrp()) == identity_hrp(),
        upper_text(classic_identity_hrp()) == classic_identity_hrp(),
        is_prefix(classic_recipient_hrp(), recipient_hrp()),
        is_prefix(classic_identity_hrp(), identity_hrp()),
{
    reveal_strlit("age1pq");
    reveal_strlit("AGE-SECRET-KEY-PQ-");
    reveal_strlit("age");
    reveal_strlit("AGE-SECRET-KEY-");
    let a = recipient_hrp();
    let b = identity_hrp();
    let c = classic_recipient_hrp();
    let d = classic_identity_hrp();
    assert(lower_text(a) =~= a);
    assert(lower_text(c) =~= c);
    assert(upper_text(b) =~= b);
    assert(upper_text(d) =~= d);
    assert(a.subrange(0, 3) =~= c);
    assert(b.subrange(0, 15) =~= d);
}

/// A hybrid recipient: the ML-KEM-768 encapsulation key followed by the
/// X25519 public key.
pub struct HybridRecipient {
    pub encapsulation_key: [u8; 1216],
}

/// A hybrid identity: the seed from which the whole key pair follows.
pub struct HybridIdentity {
    seed: SecretKey,
}

impl HybridRecipient {
    /// The Bech32 text of the recipient, in lower case. It parses back to the
    /// same encapsulation key.
    pub fn to_string(&self) -> (text: String)
        ensures
            text@ == spec_recipient_text(self.encapsulation_key@),
            text@ == lower_text(text@),
            is_prefix(recipient_hrp(), text@),
            spec_parse_recipient(text@) == Ok::<Seq<u8>, Error>(self.encapsulation_key@),
    {
        proof {
            lemma_prefixes();
        }
        encode_chars("age1pq", self.encapsulation_key.as_slice())
    }

    /// Parses the Bech32 text of a recipient.
    pub fn from_string(string: &String) -> (parsed: Result<HybridRecipient, Error>)
        ensures
            match parsed {
                Ok(recipient) => spec_parse_recipient(string@) == Ok::<Seq<u8>, Error>(
                    recipient.encapsulation_key@,
                ),
                Err(e) => spec_parse_recipient(string@) == Err::<Seq<u8>, Error>(e),
            },
    {
        if !starts_with(string.as_str(), "age1pq") {
            return Err(Error::NotARecipient);
        }
        match decode("age1pq", string.as_str()) {
            Err(e) => Err(e),
            Ok(payload) => {
                if payload.len() != RECIPIENT_BYTES {
                    return Err(Error::WrongLength);
                }
                Ok(HybridRecipient { encapsulation_key: array_of::<1216>(payload.as_slice()) })
            },
        }
    }

    /// The X25519 part of the encapsulation key.
    pub open spec fn spec_classic_key(&self) -> Seq<u8> {
        self.encapsulation_key@.subrange(KEM_PUBLIC_BYTES as int, RECIPIENT_BYTES as int)
    }
}

impl HybridIdentity {
    /// The seed of the identity.
    pub closed spec fn seed(&self) -> Seq<u8> {
        self.seed@
    }

    /// A fresh identity: a seed drawn from the operating system's random
    /// generator.
    pub fn generate() -> (identity: Result<HybridIdentity, Error>)
        ensures
            match identity {
                Ok(i) => i.seed().len() == GROUP_SEED_BYTES,
                Err(e) => e == Error::Unavailable,
            },
    {
        match crate::sealbox::random_bytes::<32>() {
            Ok(seed) => Ok(HybridIdentity { seed: SecretKey::new(seed) }),
            Err(e) => Err(e),
        }
    }

    /// The identity with the given seed.
    pub fn from_seed(seed: [u8; 32]) -> (identity: HybridIdentity)
        ensures
            identity.seed() == seed@,
            identity.seed().len() == GROUP_SEED_BYTES,
    {
        HybridIdentity { seed: SecretKey::new(seed) }
    }

    /// The seed, for the code that must hand it to a cipher.
    pub fn expose_seed(&self) -> (seed: &[u8; 32])
        ensures
            seed@ == self.seed(),
            self.seed().len() == 32,
    {
        self.seed.expose()
    }

    /// The recipient that belongs to this identity.
    pub fn to_public(&self) -> (recipient: HybridRecipient)
        ensures
            recipient.encapsulation_key@ == spec_recipient_key(self.seed()),
            recipient.encapsulation_key@.subrange(0, KEM_PUBLIC_BYTES as int) == spec_expand(
                self.seed(),
            ).ek_pq,
            recipient.spec_classic_key() == spec_expand(self.seed()).ek_t,
    {
        let keys = expand_key(self.seed.expose());
        let mut key = [0u8; 1216];
        let mut i: usize = 0;
        while i < KEM_PUBLIC_BYTES
            invariant
                i <= KEM_PUBLIC_BYTES,
                forall|j: int| 0 <= j < i ==> key@[j] == keys.ek_pq@[j],
            decreases KEM_PUBLIC_BYTES - i,
        {
            key[i] = keys.ek_pq[i];
            i = i + 1;
        }
        let mut k: usize = 0;
        while k < GROUP_SEED_BYTES
            invariant
                k <= GROUP_SEED_BYTES,
                forall|j: int| 0 <= j < KEM_PUBLIC_BYTES ==> key@[j] == keys.ek_pq@[j],
                forall|j: int| 0 <= j < k ==> key@[KEM_PUBLIC_BYTES + j] == keys.ek_t@[j],
            decreases GROUP_SEED_BYTES - k,
        {
            key[KEM_PUBLIC_BYTES + k] = keys.ek_t[k];
            k = k + 1;
        }
        assert(key@ =~= keys.ek_pq@ + keys.ek_t@);
        assert(key@.subrange(0, KEM_PUBLIC_BYTES as int) =~= keys.ek_pq@);
        assert(key@.subrange(KEM_PUBLIC_BYTES as int, RECIPIENT_BYTES as int) =~= keys.ek_t@);
        HybridRecipient { encapsulation_key: key }
    }

    /// The Bech32 text of the identity, in upper case. It parses back to the
    /// same seed.
    pub fn to_string(&self) -> (text: SecretText)
        ensures
            text@ == spec_identity_text(self.seed()),
            text@ == upper_text(text@),
            is_prefix(identity_hrp(), text@),
            spec_parse_identity(text@) == Ok::<Seq<u8>, Error>(self.seed()),
    {
        proof {
            lemma_prefixes();
        }
        let lower = encode_chars("AGE-SECRET-KEY-PQ-", self.seed.expose().as_slice());
        let upper = to_ascii_uppercase(lower.as_str());
        proof {
            lemma_upper_prefix(lower_text(identity_hrp()), lower@);
            assert(upper_text(lower_text(identity_hrp())) =~= upper_text(identity_hrp()));
            assert(upper_text(upper_text(lower@)) =~= upper_text(lower@));
        }
        SecretText::new(upper)
    }

    /// Parses the Bech32 text of an identity.
    pub fn from_string(string: SecretText) -> (parsed: Result<HybridIdentity, Error>)
        ensures
            match parsed {
                Ok(identity) => spec_parse_identity(string@) == Ok::<Seq<u8>, Error>(
                    identity.seed(),
                ),
                Err(e) => spec_parse_identity(string@) == Err::<Seq<u8>, Error>(e),
            },
    {
        if !starts_with(string.expose(), "AGE-SECRET-KEY-PQ-") {
            return Err(Error::NotASecretKey);
        }
        match decode("AGE-SECRET-KEY-PQ-", string.expose()) {
            Err(e) => Err(e),
            Ok(payload) => {
                if payload.len() != GROUP_SEED_BYTES {
                    return Err(Error::WrongLength);
                }
                Ok(HybridIdentity { seed: SecretKey::new(array_of::<32>(payload.as_slice())) })
            },
        }
    }
}

} // verus!
