//! Secrets held in memory that is wiped when they are dropped.

use vstd::prelude::*;

verus! {

/// A 32-byte secret: a vault key or an identity seed.
#[verifier::external_body]
pub struct SecretKey {
    inner: secrecy::SecretBox<[u8; 32]>,
}

/// A secret text: a passphrase or the textual form of a private key.
#[verifier::external_body]
pub struct SecretText {
    inner: secrecy::SecretBox<str>,
}

/// The bytes that a 32-byte secret holds.
pub uninterp spec fn secret_key_bytes(key: SecretKey) -> Seq<u8>;

/// The characters that a secret text holds.
pub uninterp spec fn secret_text_chars(text: SecretText) -> Seq<char>;

impl View for SecretKey {
    type V = Seq<u8>;

    open spec fn view(&self) -> Seq<u8> {
        secret_key_bytes(*self)
    }
}

impl View for SecretText {
    type V = Seq<char>;

    open spec fn view(&self) -> Seq<char> {
        secret_text_chars(*self)
    }
}

/// `secrecy::SecretBox::new`: boxes the bytes; the box holds exactly them.
#[verifier::external_body]
fn box_key(bytes: [u8; 32]) -> (key: SecretKey)
    ensures
        secret_key_bytes(key) == bytes@,
{
    SecretKey { inner: secrecy::SecretBox::new(Box::new(bytes)) }
}

/// `secrecy::ExposeSecret::expose_secret` on a boxed array: hands out the
/// bytes that the box holds.
#[verifier::external_body]
fn unbox_key(key: &SecretKey) -> (bytes: &[u8; 32])
    ensures
        bytes@ == secret_key_bytes(*key),
{
    secrecy::ExposeSecret::expose_secret(&key.inner)
}

/// `secrecy::SecretString::from` on an owned string: the secret holds the
/// characters of the string.
#[verifier::external_body]
fn box_text(text: String) -> (secret: SecretText)
    ensures
        secret_text_chars(secret) == text@,
{
    SecretText { inner: secrecy::SecretString::from(text) }
}

/// `secrecy::ExposeSecret::expose_secret` on a secret string: hands out the
/// characters that the secret holds.
#[verifier::external_body]
fn unbox_text(secret: &SecretText) -> (text: &str)
    ensures
        text@ == secret_text_chars(*secret),
{
    secrecy::ExposeSecret::expose_secret(&secret.inner)
}

impl SecretKey {
    /// Moves 32 bytes into wiped-on-drop memory.
    pub fn new(bytes: [u8; 32]) -> (key: SecretKey)
        ensures
            key@ == bytes@,
    {
        box_key(bytes)
    }

    /// The bytes of the secret.
    pub fn expose(&self) -> (bytes: &[u8; 32])
        ensures
            bytes@ == self@,
            self@.len() == 32,
    {
        unbox_key(self)
    }

    /// A second secret with the same bytes.
    pub fn duplicate(&self) -> (key: SecretKey)
        ensures
            key@ == self@,
    {
        box_key(*unbox_key(self))
    }
}

impl SecretText {
    /// Moves a string into wiped-on-drop memory.
    pub fn new(text: String) -> (secret: SecretText)
        ensures
            secret@ == text@,
    {
        box_text(text)
    }

    /// The characters of the secret.
    pub fn expose(&self) -> (text: &str)
        ensures
            text@ == self@,
    {
        unbox_text(self)
    }

    /// A second secret with the same characters.
    pub fn duplicate(&self) -> (secret: SecretText)
        ensures
            secret@ == self@,
    {
        box_text(unbox_text(self).to_owned())
    }
}

} // verus!
