//! Failures reported by the library, each with the message shown to users.

use vstd::prelude::*;
use vstd::string::StringExecFns;

verus! {

/// The broad class a failure belongs to.
#[derive(Clone, Copy, Debug, PartialEq, Eq, Structural)]
pub enum ErrorKind {
    InvalidInput,
    AuthenticationFailed,
    IntegrityFailure,
    NotFound,
    IoFailure,
    CryptoFailure,
    PreconditionFailed,
}

/// Every failure the library reports.
#[derive(Clone, Copy, Debug, PartialEq, Eq, Structural)]
pub enum Error {
    /// The text does not carry the prefix of a hybrid recipient.
    NotARecipient,
    /// The text does not carry the prefix of a hybrid identity.
    NotASecretKey,
    /// The text is not a well-formed Bech32 string.
    MalformedBech32,
    /// The human-readable part is not the expected one.
    WrongPrefix,
    /// The data part is shorter than a checksum.
    MissingChecksum,
    /// The Bech32 checksum does not match.
    BadChecksum,
    /// The decoded payload has the wrong number of bytes.
    WrongLength,
    /// The text is not a classical age key.
    InvalidClassicalKey,
    /// The passphrase does not open the vault.
    PasswordIncorrect,
    /// The passphrase is right but the stored keys fail authentication.
    IntegrityCheckFailed,
    /// The operation needs an unlocked vault.
    VaultLocked,
    /// A sealed secret did not open under the vault key.
    SecretUnreadable,
    /// No key is stored under the identifier.
    KeyNotFound,
    /// The key record holds no private part.
    NoPrivateKey,
    /// A key needs a name.
    NoNameSet,
    /// A classical key cannot be exported as a post-quantum key.
    CannotExportAsPostQuantum,
    /// Armored input above the size cap is refused.
    ArmoredTooLarge,
    /// A key file above the size cap is refused.
    KeyFileTooLarge,
    /// The vault file cannot be parsed.
    MalformedVault,
    /// A passphrase recipient or identity has no textual or public form.
    NoPublicForm,
    /// The file key could not be wrapped for the recipient.
    WrapFailed,
    /// A stanza is malformed.
    InvalidHeader,
    /// A stanza could not be decrypted.
    DecryptionFailed,
    /// The system could not supply what the operation needs.
    Unavailable,
    /// The bytes are not UTF-8 text.
    NotText,
}

impl Error {
    /// The class of this failure.
    pub open spec fn spec_kind(self) -> ErrorKind {
        match self {
            Error::NotARecipient
            | Error::NotASecretKey
            | Error::MalformedBech32
            | Error::WrongPrefix
            | Error::MissingChecksum
            | Error::BadChecksum
            | Error::WrongLength
            | Error::InvalidClassicalKey
            | Error::MalformedVault
            | Error::NotText
            | Error::InvalidHeader => ErrorKind::InvalidInput,
            Error::PasswordIncorrect => ErrorKind::AuthenticationFailed,
            Error::IntegrityCheckFailed => ErrorKind::IntegrityFailure,
            Error::KeyNotFound => ErrorKind::NotFound,
            Error::Unavailable => ErrorKind::IoFailure,
            Error::SecretUnreadable | Error::WrapFailed | Error::DecryptionFailed =>
                ErrorKind::CryptoFailure,
            Error::VaultLocked
            | Error::NoPrivateKey
            | Error::NoNameSet
            | Error::CannotExportAsPostQuantum
            | Error::ArmoredTooLarge
            | Error::KeyFileTooLarge
            | Error::NoPublicForm => ErrorKind::PreconditionFailed,
        }
    }

    /// The class of this failure.
    pub fn kind(&self) -> (kind: ErrorKind)
        ensures
            kind == self.spec_kind(),
    {
        match self {
            Error::NotARecipient
            | Error::NotASecretKey
            | Error::MalformedBech32
            | Error::WrongPrefix
            | Error::MissingChecksum
            | Error::BadChecksum
            | Error::WrongLength
            | Error::InvalidClassicalKey
            | Error::MalformedVault
            | Error::NotText
            | Error::InvalidHeader => ErrorKind::InvalidInput,
            Error::PasswordIncorrect => ErrorKind::AuthenticationFailed,
            Error::IntegrityCheckFailed => ErrorKind::IntegrityFailure,
            Error::KeyNotFound => ErrorKind::NotFound,
            Error::Unavailable => ErrorKind::IoFailure,
            Error::SecretUnreadable | Error::WrapFailed | Error::DecryptionFailed =>
                ErrorKind::CryptoFailure,
            Error::VaultLocked
            | Error::NoPrivateKey
            | Error::NoNameSet
            | Error::CannotExportAsPostQuantum
            | Error::ArmoredTooLarge
            | Error::KeyFileTooLarge
            | Error::NoPublicForm => ErrorKind::PreconditionFailed,
        }
    }

    /// The message shown for this failure.
    pub open spec fn spec_message(self) -> Seq<char> {
        match self {
            Error::NotARecipient => "not a valid recipient"@,
            Error::NotASecretKey => "not a valid secret key"@,
            Error::MalformedBech32 => "failed to parse string as Bech32"@,
            Error::WrongPrefix => "unexpected key prefix"@,
            Error::MissingChecksum => "key text is too short"@,
            Error::BadChecksum => "failed to decode as Bech32"@,
            Error::WrongLength => "key has the wrong length"@,
            Error::InvalidClassicalKey => "this is not a valid age key"@,
            Error::PasswordIncorrect => "password is incorrect"@,
            Error::IntegrityCheckFailed => "integrity check failed"@,
            Error::VaultLocked => "vault is locked"@,
            Error::SecretUnreadable => "failed to decrypt secret."@,
            Error::KeyNotFound => "no such key"@,
            Error::NoPrivateKey => "no private key!"@,
            Error::NoNameSet => "no name set"@,
            Error::CannotExportAsPostQuantum => "cannot export x25519 key as postquantum"@,
            Error::ArmoredTooLarge => "armored files over 100 MB are not supported"@,
            Error::KeyFileTooLarge => "key file too large"@,
            Error::MalformedVault => "could not parse vault"@,
            Error::NoPublicForm => "passphrase keys have no public form"@,
            Error::WrapFailed => "failed to wrap file key"@,
            Error::InvalidHeader => "invalid header"@,
            Error::DecryptionFailed => "decryption failed"@,
            Error::Unavailable => "operation unavailable"@,
            Error::NotText => "could not decode text content"@,
        }
    }

    /// The message shown for this failure.
    pub fn message(&self) -> (text: String)
        ensures
            text@ == self.spec_message(),
    {
        let literal: &str = match self {
            Error::NotARecipient => "not a valid recipient",
            Error::NotASecretKey => "not a valid secret key",
            Error::MalformedBech32 => "failed to parse string as Bech32",
            Error::WrongPrefix => "unexpected key prefix",
            Error::MissingChecksum => "key text is too short",
            Error::BadChecksum => "failed to decode as Bech32",
            Error::WrongLength => "key has the wrong length",
            Error::InvalidClassicalKey => "this is not a valid age key",
            Error::PasswordIncorrect => "password is incorrect",
            Error::IntegrityCheckFailed => "integrity check failed",
            Error::VaultLocked => "vault is locked",
            Error::SecretUnreadable => "failed to decrypt secret.",
            Error::KeyNotFound => "no such key",
            Error::NoPrivateKey => "no private key!",
            Error::NoNameSet => "no name set",
            Error::CannotExportAsPostQuantum => "cannot export x25519 key as postquantum",
            Error::ArmoredTooLarge => "armored files over 100 MB are not supported",
            Error::KeyFileTooLarge => "key file too large",
            Error::MalformedVault => "could not parse vault",
            Error::NoPublicForm => "passphrase keys have no public form",
            Error::WrapFailed => "failed to wrap file key",
            Error::InvalidHeader => "invalid header",
            Error::DecryptionFailed => "decryption failed",
            Error::Unavailable => "operation unavailable",
            Error::NotText => "could not decode text content",
        };
        String::from_str(literal)
    }
}

} // verus!
