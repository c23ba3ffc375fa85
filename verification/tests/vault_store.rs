use age_vault::classic::X25519Identity;
use age_vault::codec::{encode_file, encode_secrets, write_head, write_text, VaultFile};
use age_vault::error::Error;
use age_vault::hybrid::HybridIdentity;
use age_vault::reader::decode_file;
use age_vault::record::{KeyMetadata, KeyPair, KeyType, Timestamp};
use age_vault::sealbox::{derive_key, integrity_tag, open, seal, seal_with_nonce, EncryptedSecret};
use age_vault::secret::{SecretKey, SecretText};
use age_vault::vault::Vault;
use age_vault::wildcard::WildcardIdentity;
use chacha20poly1305::aead::Aead;
use chacha20poly1305::KeyInit;
use hmac::Mac;

const PASSPHRASE: &str = "correct horse battery staple";

fn secret(text: &str) -> SecretText {
    SecretText::new(text.to_string())
}

fn new_vault() -> Vault {
    Vault::create_vault("vault.cb", &secret(PASSPHRASE)).expect("vault is created")
}

fn public_record(id: &str, name: &str, public: &str) -> KeyMetadata {
    KeyMetadata::assemble(
        id.to_string(),
        name.to_string(),
        Timestamp { secs: 1_700_000_000, nanos: 5 },
        KeyPair { public: public.to_string(), private: None },
    )
}

fn find(haystack: &[u8], needle: &[u8]) -> usize {
    haystack.windows(needle.len()).position(|w| w == needle).expect("needle is there")
}

#[test]
fn vault_lifecycle() {
    let mut vault = new_vault();
    assert!(vault.is_unlocked());
    let bytes = vault.save_vault().expect("unlocked vault saves");
    vault.delete_vault_key();
    assert!(!vault.is_unlocked());
    let wrong = vault.set_vault_key(secret("wrong"));
    assert_eq!(wrong, Err(Error::PasswordIncorrect));
    assert_eq!(wrong.unwrap_err().message(), "password is incorrect");
    assert!(!vault.is_unlocked());
    assert_eq!(vault.set_vault_key(secret(PASSPHRASE)), Ok(()));
    assert!(vault.is_unlocked());

    let mut loaded = Vault::load_vault("vault.cb", &bytes).expect("saved vault loads");
    assert!(!loaded.is_unlocked());
    assert_eq!(loaded.path(), "vault.cb");
    assert_eq!(loaded.set_vault_key(secret("wrong")), Err(Error::PasswordIncorrect));
    assert_eq!(loaded.set_vault_key(secret(PASSPHRASE)), Ok(()));
    assert!(loaded.is_unlocked());
}

#[test]
fn fresh_vault_is_empty_and_untagged() {
    let vault = new_vault();
    assert!(vault.list_keys().is_empty());
    assert!(vault.get_key("anything").is_none());
    assert!(vault.get_vault_key().is_ok());
}

#[test]
fn unsaved_vault_fails_the_integrity_check() {
    let mut vault = new_vault();
    vault.delete_vault_key();
    assert_eq!(vault.set_vault_key(secret(PASSPHRASE)), Err(Error::IntegrityCheckFailed));
    // The key is set all the same.
    assert!(vault.is_unlocked());
}

#[test]
fn saved_keys_come_back_byte_for_byte() {
    let mut vault = new_vault();
    let mut texts = Vec::new();
    for fill in [1u8, 2, 3] {
        let identity = HybridIdentity::from_seed([fill; 32]);
        texts.push(identity.to_string().expose().to_string());
        let pair = vault.keypair_from(&WildcardIdentity::Hybrid(identity)).expect("unlocked");
        let record = KeyMetadata::from_keypair(format!("key {fill}"), pair);
        vault.put_key(record).expect("unlocked");
    }
    let classic = X25519Identity::generate();
    texts.push(classic.text.expose().to_string());
    let pair = vault.keypair_from(&WildcardIdentity::X25519(classic)).expect("unlocked");
    vault.put_key(KeyMetadata::from_keypair("classic".to_string(), pair)).expect("unlocked");
    let before = vault.list_keys();
    let bytes = vault.save_vault().expect("unlocked");

    let mut loaded = Vault::load_vault("elsewhere", &bytes).expect("loads");
    assert_eq!(loaded.set_vault_key(secret(PASSPHRASE)), Ok(()));
    let after = loaded.list_keys();
    assert_eq!(after.len(), 4);
    assert_eq!(before.len(), after.len());
    let mut recovered = Vec::new();
    for (a, b) in before.iter().zip(after.iter()) {
        assert_eq!(a.id, b.id);
        assert_eq!(a.name, b.name);
        assert_eq!(a.key_type, b.key_type);
        assert_eq!(a.date_created, b.date_created);
        assert_eq!(a.contents.public, b.contents.public);
        let stored = loaded.get_key(&b.id).expect("stored");
        let envelope = stored.contents.private.as_ref().expect("private key is stored");
        recovered.push(loaded.decrypt_secret(envelope).expect("opens").expose().to_string());
    }
    texts.sort();
    recovered.sort();
    assert_eq!(texts, recovered);
    // Saving the loaded vault gives the very same bytes.
    assert_eq!(loaded.save_vault().expect("unlocked"), bytes);
}

#[test]
fn list_keys_never_shows_a_private_key() {
    let mut vault = new_vault();
    let record = vault.generate_hybrid_key("alice".to_string()).expect("unlocked");
    assert!(record.contents.private.is_some());
    assert_eq!(record.key_type, KeyType::Private);
    let id = record.id.clone();
    vault.put_key(record).expect("unlocked");
    vault.put_key(public_record("zz", "bob", "age1xyz")).expect("unlocked");
    let listed = vault.list_keys();
    assert_eq!(listed.len(), 2);
    for key in &listed {
        assert!(key.contents.private.is_none());
    }
    let alice = listed.iter().find(|k| k.id == id).expect("alice is listed");
    // Redaction keeps the kind.
    assert_eq!(alice.key_type, KeyType::Private);
    assert_eq!(alice.name, "alice");
    assert!(vault.get_key(&id).expect("stored").contents.private.is_some());
}

#[test]
fn tampering_with_the_stored_keys_is_an_integrity_failure() {
    let mut vault = new_vault();
    let record = vault.generate_hybrid_key("alice".to_string()).expect("unlocked");
    let id = record.id.clone();
    let public = record.contents.public.clone();
    vault.put_key(record).expect("unlocked");
    let mut bytes = vault.save_vault().expect("unlocked");

    // Flip one bit of the stored public key.
    let at = find(&bytes, b"age1pq1") + 20;
    bytes[at] ^= 1;
    let mut loaded = Vault::load_vault("vault.cb", &bytes).expect("still well formed");
    assert_ne!(loaded.get_key(&id).expect("stored").contents.public, public);
    let outcome = loaded.set_vault_key(secret(PASSPHRASE));
    assert_eq!(outcome, Err(Error::IntegrityCheckFailed));
    assert_eq!(outcome.unwrap_err().message(), "integrity check failed");
    assert!(loaded.is_unlocked());

    // Repair: derive the public keys anew, save, and unlock cleanly.
    loaded.regenerate_public_identities().expect("private keys are intact");
    assert_eq!(loaded.get_key(&id).expect("stored").contents.public, public);
    let repaired = loaded.save_vault().expect("unlocked");
    let mut again = Vault::load_vault("vault.cb", &repaired).expect("loads");
    assert_eq!(again.set_vault_key(secret(PASSPHRASE)), Ok(()));
    assert_eq!(again.get_key(&id).expect("stored").name, "alice");
}

#[test]
fn tampering_with_a_name_is_an_integrity_failure() {
    let mut vault = new_vault();
    vault.put_key(public_record("id-1", "alice", "age1abc")).expect("unlocked");
    let mut bytes = vault.save_vault().expect("unlocked");
    let at = find(&bytes, b"alice");
    bytes[at] = b'e';
    let mut loaded = Vault::load_vault("vault.cb", &bytes).expect("still well formed");
    assert_eq!(loaded.get_key("id-1").expect("stored").name, "elice");
    assert_eq!(loaded.set_vault_key(secret(PASSPHRASE)), Err(Error::IntegrityCheckFailed));
}

#[test]
fn wrong_passphrase_is_never_an_integrity_failure() {
    let mut vault = new_vault();
    vault.put_key(public_record("id-1", "alice", "age1abc")).expect("unlocked");
    let mut bytes = vault.save_vault().expect("unlocked");
    let at = find(&bytes, b"alice");
    bytes[at] = b'e';
    let mut tampered = Vault::load_vault("vault.cb", &bytes).expect("still well formed");
    assert_eq!(tampered.set_vault_key(secret("wrong")), Err(Error::PasswordIncorrect));
    assert!(!tampered.is_unlocked());
    assert_eq!(tampered.set_vault_key(secret("")), Err(Error::PasswordIncorrect));
    // A wrong passphrase after a right one locks the vault again.
    assert_eq!(tampered.set_vault_key(secret(PASSPHRASE)), Err(Error::IntegrityCheckFailed));
    assert!(tampered.is_unlocked());
    assert_eq!(tampered.set_vault_key(secret("wrong")), Err(Error::PasswordIncorrect));
    assert!(!tampered.is_unlocked());
}

#[test]
fn tampering_with_the_tag_is_an_integrity_failure() {
    let mut vault = new_vault();
    let mut bytes = vault.save_vault().expect("unlocked");
    let last = bytes.len() - 1;
    bytes[last] ^= 0x80;
    let mut loaded = Vault::load_vault("vault.cb", &bytes).expect("still well formed");
    assert_eq!(loaded.set_vault_key(secret(PASSPHRASE)), Err(Error::IntegrityCheckFailed));
}

#[test]
fn locked_vault_refuses_key_operations() {
    let mut vault = new_vault();
    let record = vault.generate_key("classic".to_string()).expect("unlocked");
    let envelope_owner = record.duplicate();
    vault.put_key(record).expect("unlocked");
    vault.delete_vault_key();
    assert_eq!(vault.get_vault_key().err(), Some(Error::VaultLocked));
    assert_eq!(vault.put_key(public_record("a", "a", "age1a")), Err(Error::VaultLocked));
    assert_eq!(vault.delete_key(&envelope_owner.id), Err(Error::VaultLocked));
    assert_eq!(vault.save_vault().err(), Some(Error::VaultLocked));
    assert_eq!(vault.generate_key("x".to_string()).err(), Some(Error::VaultLocked));
    assert_eq!(vault.generate_hybrid_key("x".to_string()).err(), Some(Error::VaultLocked));
    assert_eq!(vault.regenerate_public_identities(), Err(Error::VaultLocked));
    let envelope = envelope_owner.contents.private.as_ref().expect("private");
    assert_eq!(vault.decrypt_secret(envelope).err(), Some(Error::VaultLocked));
    let identity = WildcardIdentity::Hybrid(HybridIdentity::from_seed([1; 32]));
    assert_eq!(vault.keypair_from(&identity).err(), Some(Error::VaultLocked));
    assert_eq!(
        vault.new_key("n".to_string(), "age1a".to_string(), Some(secret("s"))).err(),
        Some(Error::VaultLocked)
    );
    assert_eq!(Error::VaultLocked.message(), "vault is locked");
    // Nothing was lost.
    assert_eq!(vault.list_keys().len(), 1);
    // A record without a private key needs no sealing.
    assert!(vault.new_key("n".to_string(), "age1a".to_string(), None).is_ok());
}

#[test]
fn put_replaces_by_identifier_and_delete_removes() {
    let mut vault = new_vault();
    vault.put_key(public_record("b", "first", "age1b")).expect("unlocked");
    vault.put_key(public_record("a", "second", "age1a")).expect("unlocked");
    vault.put_key(public_record("c", "third", "age1c")).expect("unlocked");
    vault.put_key(public_record("b", "replaced", "age1bb")).expect("unlocked");
    let listed = vault.list_keys();
    let ids: Vec<&str> = listed.iter().map(|k| k.id.as_str()).collect();
    assert_eq!(ids, vec!["a", "b", "c"]);
    assert_eq!(vault.get_key("b").expect("stored").name, "replaced");
    assert_eq!(vault.get_key("b").expect("stored").contents.public, "age1bb");
    vault.delete_key("a").expect("unlocked");
    vault.delete_key("missing").expect("unlocked");
    let listed = vault.list_keys();
    let ids: Vec<&str> = listed.iter().map(|k| k.id.as_str()).collect();
    assert_eq!(ids, vec!["b", "c"]);
    assert!(vault.get_key("a").is_none());
}

#[test]
fn keys_are_written_in_ascending_order_of_identifier() {
    let mut forward = new_vault();
    let mut backward = new_vault();
    let ids = ["a", "ab", "b", "B", "é", "z0"];
    for id in ids {
        forward.put_key(public_record(id, "n", "age1x")).expect("unlocked");
    }
    for id in ids.iter().rev() {
        backward.put_key(public_record(id, "n", "age1x")).expect("unlocked");
    }
    let listed: Vec<String> = forward.list_keys().into_iter().map(|k| k.id).collect();
    assert_eq!(listed, vec!["B", "a", "ab", "b", "z0", "é"]);
    let other: Vec<String> = backward.list_keys().into_iter().map(|k| k.id).collect();
    assert_eq!(listed, other);
    assert_eq!(encode_secrets(&forward.list_keys()), encode_secrets(&backward.list_keys()));
}

#[test]
fn decrypt_secret_opens_only_what_the_vault_key_sealed() {
    let vault = new_vault();
    let key = vault.get_vault_key().expect("unlocked");
    let sealed = Vault::encrypt_secret(key, &secret("AGE-SECRET-KEY-1XYZ")).expect("seals");
    assert_eq!(sealed.nonce.len(), 24);
    assert_eq!(sealed.ciphertext.len(), "AGE-SECRET-KEY-1XYZ".len() + 16);
    assert_eq!(vault.decrypt_secret(&sealed).expect("opens").expose(), "AGE-SECRET-KEY-1XYZ");

    let mut changed = sealed.duplicate();
    changed.ciphertext[0] ^= 1;
    assert_eq!(vault.decrypt_secret(&changed).err(), Some(Error::SecretUnreadable));
    assert_eq!(Error::SecretUnreadable.message(), "failed to decrypt secret.");
    let mut short = sealed.duplicate();
    short.nonce.pop();
    assert_eq!(vault.decrypt_secret(&short).err(), Some(Error::SecretUnreadable));

    let other = new_vault();
    assert_eq!(other.decrypt_secret(&sealed).err(), Some(Error::SecretUnreadable));

    // Bytes that are no text do not come out as a text.
    let not_text = seal(key, &[0xff, 0xfe]).expect("seals");
    assert_eq!(vault.decrypt_secret(&not_text).err(), Some(Error::SecretUnreadable));
}

#[test]
fn key_derivation_is_a_function_of_passphrase_and_salt() {
    let a = derive_key(&secret("pw"), &[1u8; 16]).expect("salt is long enough");
    let b = derive_key(&secret("pw"), &[1u8; 16]).expect("salt is long enough");
    let c = derive_key(&secret("pw"), &[2u8; 16]).expect("salt is long enough");
    let d = derive_key(&secret("pW"), &[1u8; 16]).expect("salt is long enough");
    assert_eq!(a.expose(), b.expose());
    assert_ne!(a.expose(), c.expose());
    assert_ne!(a.expose(), d.expose());
    assert_ne!(a.expose(), &[0u8; 32]);
    // Argon2 wants at least eight bytes of salt.
    assert_eq!(derive_key(&secret("pw"), &[1u8; 7]).err(), Some(Error::PasswordIncorrect));
}

#[test]
fn key_derivation_matches_argon2id_defaults() {
    let key = derive_key(&secret("password"), b"somesalt-16bytes").expect("derives");
    let mut expected = [0u8; 32];
    argon2::Argon2::default()
        .hash_password_into(b"password", b"somesalt-16bytes", &mut expected)
        .expect("derives");
    assert_eq!(key.expose(), &expected);
}

#[test]
fn sealed_envelope_is_xchacha20_poly1305() {
    let key = SecretKey::new([7u8; 32]);
    let sealed = seal_with_nonce(&key, [9u8; 24], b"hello").expect("seals");
    assert_eq!(sealed.nonce, vec![9u8; 24]);
    let cipher = <chacha20poly1305::XChaCha20Poly1305 as KeyInit>::new((&[7u8; 32]).into());
    let expected = cipher.encrypt((&[9u8; 24]).into(), &b"hello"[..]).expect("encrypts");
    assert_eq!(sealed.ciphertext, expected);
    assert_eq!(open(&key, &sealed), Some(b"hello".to_vec()));
    assert_eq!(open(&SecretKey::new([8u8; 32]), &sealed), None);
    let empty = EncryptedSecret { nonce: vec![], ciphertext: vec![] };
    assert_eq!(open(&key, &empty), None);
    // Fresh nonces differ.
    let one = seal(&key, b"x").expect("seals");
    let two = seal(&key, b"x").expect("seals");
    assert_ne!(one.nonce, two.nonce);
}

#[test]
fn integrity_tag_is_hmac_sha256() {
    // The key and message of a well-known HMAC example, the key padded to the size of a vault key.
    let mut key = [0u8; 32];
    key[..4].copy_from_slice(b"Jefe");
    let tag = integrity_tag(&SecretKey::new(key), b"what do ya want for nothing?");
    let mut mac = <hmac::Hmac<sha2::Sha256> as Mac>::new_from_slice(&key).expect("any key length");
    mac.update(b"what do ya want for nothing?");
    assert_eq!(tag, mac.finalize().into_bytes().to_vec());
    assert_eq!(tag.len(), 32);
    assert_ne!(tag, integrity_tag(&SecretKey::new(key), b"what do ya want for nothing!"));
}

#[test]
fn saved_tag_is_the_tag_of_the_encoded_keys() {
    let mut vault = new_vault();
    vault.put_key(public_record("id-1", "alice", "age1abc")).expect("unlocked");
    let bytes = vault.save_vault().expect("unlocked");
    let file = decode_file(&bytes).expect("parses");
    let key = vault.get_vault_key().expect("unlocked");
    let expected = integrity_tag(key, &encode_secrets(&file.secrets));
    assert_eq!(file.hmac, Some(expected));
}

#[test]
fn heads_take_the_shortest_form() {
    let cases: Vec<(u8, u64, Vec<u8>)> = vec![
        (0, 0, vec![0x00]),
        (0, 23, vec![0x17]),
        (0, 24, vec![0x18, 0x18]),
        (0, 255, vec![0x18, 0xff]),
        (0, 256, vec![0x19, 0x01, 0x00]),
        (0, 65535, vec![0x19, 0xff, 0xff]),
        (0, 65536, vec![0x1a, 0x00, 0x01, 0x00, 0x00]),
        (0, 4294967295, vec![0x1a, 0xff, 0xff, 0xff, 0xff]),
        (0, 4294967296, vec![0x1b, 0, 0, 0, 1, 0, 0, 0, 0]),
        (0, u64::MAX, vec![0x1b, 0xff, 0xff, 0xff, 0xff, 0xff, 0xff, 0xff, 0xff]),
        (2, 16, vec![0x50]),
        (3, 5, vec![0x65]),
        (4, 4, vec![0x84]),
        (5, 0, vec![0xa0]),
        (5, 1000, vec![0xb9, 0x03, 0xe8]),
    ];
    for (major, n, expected) in cases {
        let mut out = vec![0xaa];
        write_head(&mut out, major, n);
        assert_eq!(&out[1..], &expected[..], "head of major {major} and argument {n}");
        assert_eq!(out[0], 0xaa);
    }
    let mut out = Vec::new();
    write_text(&mut out, "héllo");
    assert_eq!(out, vec![0x66, b'h', 0xc3, 0xa9, b'l', b'l', b'o']);
}

#[test]
fn vault_file_has_the_documented_layout() {
    let file = VaultFile {
        salt: vec![1; 16],
        hello: EncryptedSecret { nonce: vec![2; 24], ciphertext: vec![3; 21] },
        secrets: vec![KeyMetadata::assemble(
            "k1".to_string(),
            "alice".to_string(),
            Timestamp { secs: 1000, nanos: 7 },
            KeyPair {
                public: "age1".to_string(),
                private: Some(EncryptedSecret { nonce: vec![4; 24], ciphertext: vec![5; 2] }),
            },
        )],
        hmac: None,
    };
    let mut expected: Vec<u8> = vec![0x84, 0x50];
    expected.extend([1u8; 16]);
    expected.extend([0x82, 0x58, 0x18]);
    expected.extend([2u8; 24]);
    expected.push(0x55);
    expected.extend([3u8; 21]);
    expected.push(0xa1);
    expected.extend([0x62, b'k', b'1']);
    expected.push(0x86);
    expected.extend([0x65, b'a', b'l', b'i', b'c', b'e']);
    expected.push(0x01);
    expected.extend([0x19, 0x03, 0xe8]);
    expected.push(0x07);
    expected.extend([0x64, b'a', b'g', b'e', b'1']);
    expected.extend([0x82, 0x58, 0x18]);
    expected.extend([4u8; 24]);
    expected.extend([0x42, 5, 5]);
    expected.push(0xf6);
    let bytes = encode_file(&file);
    assert_eq!(bytes, expected);

    let back = decode_file(&bytes).expect("parses");
    assert_eq!(back.salt, file.salt);
    assert_eq!(back.hello.nonce, file.hello.nonce);
    assert_eq!(back.hello.ciphertext, file.hello.ciphertext);
    assert_eq!(back.hmac, None);
    assert_eq!(back.secrets.len(), 1);
    assert_eq!(back.secrets[0].id, "k1");
    assert_eq!(back.secrets[0].name, "alice");
    assert_eq!(back.secrets[0].key_type, KeyType::Private);
    assert_eq!(back.secrets[0].date_created, Timestamp { secs: 1000, nanos: 7 });
    assert_eq!(back.secrets[0].contents.public, "age1");
    assert_eq!(back.secrets[0].contents.private.as_ref().unwrap().ciphertext, vec![5, 5]);
}

#[test]
fn vault_file_is_cbor() {
    let mut vault = new_vault();
    vault.put_key(public_record("id-1", "alice", "age1abc")).expect("unlocked");
    let record = vault.generate_key("bob".to_string()).expect("unlocked");
    vault.put_key(record).expect("unlocked");
    let bytes = vault.save_vault().expect("unlocked");
    let value: serde_cbor::Value = serde_cbor::from_slice(&bytes).expect("valid CBOR");
    match value {
        serde_cbor::Value::Array(items) => {
            assert_eq!(items.len(), 4);
            assert!(matches!(&items[0], serde_cbor::Value::Bytes(salt) if salt.len() == 16));
            assert!(matches!(&items[1], serde_cbor::Value::Array(hello) if hello.len() == 2));
            assert!(matches!(&items[2], serde_cbor::Value::Map(keys) if keys.len() == 2));
            assert!(matches!(&items[3], serde_cbor::Value::Bytes(tag) if tag.len() == 32));
        }
        _ => panic!("a vault file is an array"),
    }
}

#[test]
fn malformed_vault_files_are_refused() {
    let mut vault = new_vault();
    vault.put_key(public_record("a", "alice", "age1abc")).expect("unlocked");
    vault.put_key(public_record("b", "bob", "age1abd")).expect("unlocked");
    let bytes = vault.save_vault().expect("unlocked");
    assert!(Vault::load_vault("p", &bytes).is_ok());

    assert_eq!(Vault::load_vault("p", &[]).err(), Some(Error::MalformedVault));
    assert_eq!(Error::MalformedVault.message(), "could not parse vault");
    assert_eq!(Vault::load_vault("p", &bytes[..bytes.len() - 1]).err(), Some(Error::MalformedVault));
    let mut longer = bytes.clone();
    longer.push(0);
    assert_eq!(Vault::load_vault("p", &longer).err(), Some(Error::MalformedVault));
    let mut wrong_array = bytes.clone();
    wrong_array[0] = 0x85;
    assert_eq!(Vault::load_vault("p", &wrong_array).err(), Some(Error::MalformedVault));

    // Identifiers out of order, or twice.
    let mut swapped = bytes.clone();
    let first = find(&bytes, &[0x61, b'a', 0x86]);
    let second = find(&bytes, &[0x61, b'b', 0x86]);
    swapped[first + 1] = b'b';
    swapped[second + 1] = b'a';
    assert_eq!(Vault::load_vault("p", &swapped).err(), Some(Error::MalformedVault));
    let mut twice = bytes.clone();
    twice[second + 1] = b'a';
    assert_eq!(Vault::load_vault("p", &twice).err(), Some(Error::MalformedVault));

    // A kind other than 0 or 1.
    let mut kind = bytes.clone();
    let at = find(&bytes, &[0x65, b'a', b'l', b'i', b'c', b'e']) + 6;
    assert_eq!(kind[at], 0x00);
    kind[at] = 0x02;
    assert_eq!(Vault::load_vault("p", &kind).err(), Some(Error::MalformedVault));

    // A name that is not UTF-8.
    let mut name = bytes.clone();
    name[at - 1] = 0xff;
    assert_eq!(Vault::load_vault("p", &name).err(), Some(Error::MalformedVault));
}

#[test]
fn heads_in_a_longer_form_are_refused() {
    // The salt length 16 written with a one-byte argument instead of inline.
    let file = VaultFile {
        salt: vec![1; 16],
        hello: EncryptedSecret { nonce: vec![2; 24], ciphertext: vec![3; 21] },
        secrets: vec![],
        hmac: None,
    };
    let bytes = encode_file(&file);
    assert!(decode_file(&bytes).is_some());
    let mut longer = vec![0x84, 0x58, 0x10];
    longer.extend(&bytes[2..]);
    assert!(decode_file(&longer).is_none());
    // Nanoseconds beyond 32 bits.
    let record = public_record("k", "n", "p");
    let mut with_key = VaultFile { secrets: vec![record], ..file };
    with_key.secrets[0].date_created = Timestamp { secs: 0, nanos: u32::MAX };
    let good = encode_file(&with_key);
    let parsed = decode_file(&good).expect("parses");
    assert_eq!(parsed.secrets[0].date_created.nanos, u32::MAX);
    let at = find(&good, &[0x1a, 0xff, 0xff, 0xff, 0xff]);
    let mut bad = good[..at].to_vec();
    bad.extend([0x1b, 0, 0, 0, 1, 0, 0, 0, 0]);
    bad.extend(&good[at + 5..]);
    assert!(decode_file(&bad).is_none());
}

#[test]
fn record_kind_follows_the_private_key() {
    let public = KeyMetadata::from_keypair(
        "p".to_string(),
        KeyPair { public: "age1".to_string(), private: None },
    );
    assert_eq!(public.key_type, KeyType::Public);
    assert!(!public.id.is_empty());
    let private = KeyMetadata::from_keypair(
        "s".to_string(),
        KeyPair {
            public: "age1".to_string(),
            private: Some(EncryptedSecret { nonce: vec![0; 24], ciphertext: vec![1] }),
        },
    );
    assert_eq!(private.key_type, KeyType::Private);
    assert_ne!(public.id, private.id);
    assert!(private.date_created.secs > 1_600_000_000);
    let redacted = private.redacted();
    assert!(redacted.contents.private.is_none());
    assert_eq!(redacted.key_type, KeyType::Private);
    assert_eq!(redacted.name, "s");
    let mut pair = KeyPair {
        public: "age1".to_string(),
        private: Some(EncryptedSecret { nonce: vec![0; 24], ciphertext: vec![1] }),
    };
    pair.redact();
    assert!(pair.private.is_none());
    assert_eq!(pair.public, "age1");
}

#[test]
fn regeneration_keeps_records_without_private_key() {
    let mut vault = new_vault();
    vault.put_key(public_record("a", "friend", "age1friend")).expect("unlocked");
    let record = vault.generate_key("mine".to_string()).expect("unlocked");
    let id = record.id.clone();
    let public = record.contents.public.clone();
    let mut broken = record.duplicate();
    broken.contents.public = "age1broken".to_string();
    vault.put_key(broken).expect("unlocked");
    vault.regenerate_public_identities().expect("private keys are intact");
    assert_eq!(vault.list_keys().len(), 2);
    assert_eq!(vault.get_key("a").expect("kept").contents.public, "age1friend");
    let mine = vault.get_key(&id).expect("kept");
    assert_eq!(mine.contents.public, public);
    assert_eq!(mine.name, "mine");
    assert_eq!(mine.date_created, record.date_created);
    let text = vault.decrypt_secret(mine.contents.private.as_ref().unwrap()).expect("opens");
    assert!(text.expose().starts_with("AGE-SECRET-KEY-1"));
}

#[test]
fn regeneration_fails_without_change_when_a_private_key_is_unreadable() {
    let mut vault = new_vault();
    let record = vault.generate_hybrid_key("mine".to_string()).expect("unlocked");
    let mut broken = record.duplicate();
    broken.contents.private.as_mut().unwrap().ciphertext[3] ^= 1;
    broken.contents.public = "age1pqbroken".to_string();
    let id = broken.id.clone();
    vault.put_key(broken).expect("unlocked");
    assert_eq!(vault.regenerate_public_identities(), Err(Error::SecretUnreadable));
    assert_eq!(vault.get_key(&id).expect("kept").contents.public, "age1pqbroken");
}

#[test]
fn probe_with_a_short_nonce_never_opens() {
    let vault = new_vault();
    let key = vault.get_vault_key().expect("unlocked");
    let mut hello = seal(key, b"hello").expect("seals");
    hello.nonce.pop();
    let file = VaultFile { salt: vec![1; 16], hello, secrets: vec![], hmac: None };
    let mut loaded = Vault::load_vault("p", &encode_file(&file)).expect("well formed");
    assert_eq!(loaded.set_vault_key(secret(PASSPHRASE)), Err(Error::PasswordIncorrect));
    // A salt that the key derivation refuses counts as a wrong passphrase too.
    let hello = seal(key, b"hello").expect("seals");
    let file = VaultFile { salt: vec![1; 4], hello, secrets: vec![], hmac: None };
    let mut loaded = Vault::load_vault("p", &encode_file(&file)).expect("well formed");
    assert_eq!(loaded.set_vault_key(secret(PASSPHRASE)), Err(Error::PasswordIncorrect));
    assert!(!loaded.is_unlocked());
}

#[test]
fn vault_from_given_salt_and_nonce() {
    let salt = [3u8; 16];
    let nonce = [5u8; 24];
    let vault = Vault::create_vault_with("v", &secret(PASSPHRASE), salt, nonce).expect("created");
    assert!(vault.is_unlocked());
    assert_eq!(vault.path(), "v");
    assert!(vault.list_keys().is_empty());
    let mut expected_key = [0u8; 32];
    argon2::Argon2::default()
        .hash_password_into(PASSPHRASE.as_bytes(), &salt, &mut expected_key)
        .expect("derives");
    assert_eq!(vault.get_vault_key().expect("unlocked").expose(), &expected_key);

    // The same draws give the same file; another nonce gives another probe.
    let mut first = Vault::create_vault_with("v", &secret(PASSPHRASE), salt, nonce).unwrap();
    let mut second = Vault::create_vault_with("v", &secret(PASSPHRASE), salt, nonce).unwrap();
    let mut third = Vault::create_vault_with("v", &secret(PASSPHRASE), salt, [6u8; 24]).unwrap();
    let bytes = first.save_vault().expect("unlocked");
    assert_eq!(bytes, second.save_vault().expect("unlocked"));
    assert_ne!(bytes, third.save_vault().expect("unlocked"));

    let file = decode_file(&bytes).expect("parses");
    assert_eq!(file.salt, salt.to_vec());
    assert_eq!(file.hello.nonce, nonce.to_vec());
    let cipher = <chacha20poly1305::XChaCha20Poly1305 as KeyInit>::new((&expected_key).into());
    let probe = cipher.encrypt((&nonce).into(), &b"hello"[..]).expect("encrypts");
    assert_eq!(file.hello.ciphertext, probe);
    assert_eq!(file.hmac.as_ref().map(|tag| tag.len()), Some(32));

    let mut loaded = Vault::load_vault("v", &bytes).expect("loads");
    assert_eq!(loaded.set_vault_key(secret(PASSPHRASE)), Ok(()));
    let fresh = new_vault();
    let fresh_bytes = encode_file(&decode_file(&{
        let mut v = fresh;
        v.save_vault().expect("unlocked")
    })
    .expect("parses"));
    assert_ne!(fresh_bytes, bytes);
}
