//! The records that the vault stores: a key pair with its name, kind and
//! date of creation.

use vstd::prelude::*;
use crate::classic::X25519Recipient;
use crate::sealbox::{EncryptedSecret, EncryptedSecretModel};

verus! {

/// Whether a record holds a private key or a recipient only.
#[derive(Clone, Copy, Debug, PartialEq, Eq, Structural)]
pub enum KeyType {
    Public,
    Private,
}

/// A point in time: seconds and nanoseconds since the Unix epoch.
#[derive(Clone, Copy, Debug, PartialEq, Eq, Structural)]
pub struct Timestamp {
    pub secs: u64,
    pub nanos: u32,
}

/// The contents of a key: the public key in plain text and, for an
/// identity, the sealed private key.
pub struct KeyPair {
    pub public: String,
    pub private: Option<EncryptedSecret>,
}

/// A key pair as plain values.
pub struct KeyPairModel {
    pub public: Seq<char>,
    pub private: Option<EncryptedSecretModel>,
}

/// A stored key: its identifier, name, kind, date of creation and contents.
pub struct KeyMetadata {
    pub id: String,
    pub name: String,
    pub key_type: KeyType,
    pub date_created: Timestamp,
    pub contents: KeyPair,
}

/// A stored key as plain values.
pub struct KeyMetadataModel {
    pub id: Seq<char>,
    pub name: Seq<char>,
    pub key_type: KeyType,
    pub date_created: Timestamp,
    pub contents: KeyPairModel,
}

/// The plain values of an optional envelope.
pub open spec fn envelope_model(envelope: Option<EncryptedSecret>) -> Option<EncryptedSecretModel> {
    match envelope {
        Some(e) => Some(e@),
        None => None,
    }
}

impl View for KeyPair {
    type V = KeyPairModel;

    open spec fn view(&self) -> KeyPairModel {
        KeyPairModel { public: self.public@, private: envelope_model(self.private) }
    }
}

impl View for KeyMetadata {
    type V = KeyMetadataModel;

    open spec fn view(&self) -> KeyMetadataModel {
        KeyMetadataModel {
            id: self.id@,
            name: self.name@,
            key_type: self.key_type,
            date_created: self.date_created,
            contents: self.contents@,
        }
    }
}

/// The kind that a key pair has when it is created: private exactly when it
/// holds a private key.
pub open spec fn spec_kind_of(pair: KeyPairModel) -> KeyType {
    if pair.private is Some {
        KeyType::Private
    } else {
        KeyType::Public
    }
}

/// A record without its private key; the kind is left as it was.
pub open spec fn spec_redacted(key: KeyMetadataModel) -> KeyMetadataModel {
    KeyMetadataModel {
        contents: KeyPairModel { public: key.contents.public, private: None },
        ..key
    }
}

/// `cuid2::create_id`: a fresh identifier. It depends on the time, a
/// counter and randomness.
#[verifier::external_body]
fn fresh_id() -> (id: String) {
    cuid2::create_id()
}

/// `std::time::SystemTime::now` measured from `UNIX_EPOCH`: whole seconds
/// and the nanoseconds beyond them, or nothing when the clock stands before
/// the epoch.
#[verifier::external_body]
fn clock_now() -> (now: Option<(u64, u32)>)
    ensures
        now matches Some(t) ==> t.1 < 1_000_000_000,
{
    match std::time::SystemTime::now().duration_since(std::time::UNIX_EPOCH) {
        Ok(elapsed) => Some((elapsed.as_secs(), elapsed.subsec_nanos())),
        Err(_) => None,
    }
}

impl Timestamp {
    /// The current time; the epoch itself when the clock stands before it.
    pub fn now() -> (now: Timestamp)
        ensures
            now.nanos < 1_000_000_000,
    {
        match clock_now() {
            Some((secs, nanos)) => Timestamp { secs, nanos },
            None => Timestamp { secs: 0, nanos: 0 },
        }
    }
}

impl KeyPair {
    /// Removes the private key.
    pub fn redact(&mut self)
        ensures
            final(self)@.public == old(self)@.public,
            final(self)@.private is None,
    {
        self.private = None
    }

    /// The key pair of a recipient alone.
    pub fn from_recipient(recipient: X25519Recipient) -> (pair: KeyPair)
        ensures
            pair@.public == recipient.text@,
            pair@.private is None,
    {
        KeyPair { public: recipient.to_string(), private: None }
    }

    /// A key pair with the same contents.
    pub fn duplicate(&self) -> (copy: KeyPair)
        ensures
            copy@ == self@,
    {
        let private = match &self.private {
            Some(envelope) => Some(envelope.duplicate()),
            None => None,
        };
        KeyPair { public: self.public.clone(), private }
    }
}

impl KeyMetadata {
    /// The record for a key pair under a given identifier and date. The
    /// kind is private exactly when the pair holds a private key.
    pub fn assemble(id: String, name: String, date_created: Timestamp, keypair: KeyPair) -> (key:
        KeyMetadata)
        ensures
            key@ == (KeyMetadataModel {
                id: id@,
                name: name@,
                key_type: spec_kind_of(keypair@),
                date_created,
                contents: keypair@,
            }),
    {
        let key_type = match keypair.private {
            Some(_) => KeyType::Private,
            None => KeyType::Public,
        };
        KeyMetadata { id, name, key_type, date_created, contents: keypair }
    }

    /// The record for a key pair under a fresh identifier, dated now.
    pub fn from_keypair(name: String, keypair: KeyPair) -> (key: KeyMetadata)
        ensures
            key@.name == name@,
            key@.key_type == spec_kind_of(keypair@),
            key@.contents == keypair@,
    {
        KeyMetadata::assemble(fresh_id(), name, Timestamp::now(), keypair)
    }

    /// Removes the private key without changing the kind.
    pub fn redacted(self) -> (key: KeyMetadata)
        ensures
            key@ == spec_redacted(self@),
    {
        let mut key = self;
        key.contents.redact();
        key
    }

    /// A record with the same contents.
    pub fn duplicate(&self) -> (copy: KeyMetadata)
        ensures
            copy@ == self@,
    {
        KeyMetadata {
            id: self.id.clone(),
            name: self.name.clone(),
            key_type: self.key_type,
            date_created: self.date_created,
            contents: self.contents.duplicate(),
        }
    }
}

} // verus!
