use age_vault::classic::{
    decrypt_bytes, encrypt_bytes, encrypt_text, generate_key, keys_to_x25519_recipients,
    X25519Identity,
};
use age_vault::commands::{
    armor_check_bytes, armor_check_text, authenticate_step, check_armored_size, check_import,
    check_keyfile_type, downgrade_hybrid_public_key, export_key, export_text, fetch_key,
    fetch_keys, generate_keypair, generate_passphrase, import_key_text, import_record, lock_vault,
    passphrase_from_words, private_text, resolve_identity, resolve_recipients,
    validate_key_bytes, validate_key_text, vault_unlocked, word_is_plain, words_distinct,
    words_plain, AuthAction, AuthEvent,
    DecryptionMethod, EncryptionMethod, KeyExportMode, KeyFormat, VaultStatusUpdate,
};
use age_vault::error::{Error, ErrorKind};
use age_vault::hybrid::{HybridIdentity, HybridRecipient};
use age_vault::record::{KeyMetadata, KeyPair, KeyType, Timestamp};
use age_vault::secret::SecretText;
use age_vault::stanza::FileKey;
use age_vault::vault::Vault;
use age_vault::wildcard::{
    identity_from_text, keys_all_hybrid, select_recipient, select_recipients, WildcardIdentity,
    WildcardRecipient,
};

const PASSPHRASE: &str = "correct horse battery staple";
const CLASSIC_SK: &str = "AGE-SECRET-KEY-1GQ9778VQXMMJVE8SK7J6VT8UJ4HDQAJUVSFCWCM02D8GEWQ72PVQ2Y5J33";
const CLASSIC_PK: &str = "age1t7rxyev2z3rw82stdlrrepyc39nvn86l5078zqkf5uasdy86jp6svpy7pa";

fn secret(text: &str) -> SecretText {
    SecretText::new(text.to_string())
}

fn new_vault() -> Vault {
    let mut vault = Vault::create_vault("vault.cb", &secret(PASSPHRASE)).expect("vault is created");
    vault.save_vault().expect("unlocked");
    vault
}

fn only_key(vault: &Vault) -> KeyMetadata {
    let mut keys = vault.list_keys();
    assert_eq!(keys.len(), 1);
    let listed = keys.pop().unwrap();
    vault.get_key(&listed.id).expect("stored").duplicate()
}

fn key_named(vault: &Vault, name: &str) -> KeyMetadata {
    let listed = vault.list_keys();
    let found = listed.iter().find(|k| k.name == name).expect("a key of that name");
    vault.get_key(&found.id).expect("stored").duplicate()
}

#[test]
fn armored_text_is_told_by_its_first_line() {
    assert!(armor_check_text("-----BEGIN AGE ENCRYPTED FILE-----\nabc".to_string()));
    assert!(armor_check_text("-----BEGIN AGE ENCRYPTED FILE-----".to_string()));
    assert!(!armor_check_text("-----BEGIN AGE ENCRYPTED FILE----".to_string()));
    assert!(!armor_check_text(" -----BEGIN AGE ENCRYPTED FILE-----".to_string()));
    assert!(!armor_check_text(String::new()));
    assert_eq!(armor_check_bytes(b"-----BEGIN AGE ENCRYPTED FILE-----"), Ok(true));
    assert_eq!(armor_check_bytes(b"age-encryption.org/v1\n-> X25519 abc"), Ok(false));
    assert_eq!(armor_check_bytes(&[]), Ok(false));
    assert_eq!(armor_check_bytes(&[0x61, 0xff, 0x62]), Err(Error::NotText));
    assert_eq!(Error::NotText.message(), "could not decode text content");
}

#[test]
fn armored_size_limit() {
    let mb = 1024 * 1024;
    let refused = check_armored_size(150 * mb, true);
    assert_eq!(refused, Err(Error::ArmoredTooLarge));
    assert_eq!(refused.unwrap_err().message(), "armored files over 100 MB are not supported");
    assert_eq!(check_armored_size(150 * mb, false), Ok(()));
    assert_eq!(check_armored_size(100 * mb, true), Ok(()));
    assert_eq!(check_armored_size(100 * mb + 1, true), Err(Error::ArmoredTooLarge));
    assert_eq!(check_armored_size(0, true), Ok(()));
    assert_eq!(check_armored_size(u64::MAX, false), Ok(()));
}

#[test]
fn key_files_are_told_apart_by_their_prefix() {
    assert!(check_keyfile_type(CLASSIC_SK));
    assert!(check_keyfile_type("AGE-SECRET-KEY-PQ-1ABC"));
    assert!(check_keyfile_type("AGE-SECRET-KEY"));
    assert!(!check_keyfile_type(CLASSIC_PK));
    assert!(!check_keyfile_type("age-secret-key-1abc"));
    assert!(!check_keyfile_type(""));
}

#[test]
fn key_text_validation_follows_bech32() {
    assert_eq!(validate_key_text(CLASSIC_PK.to_string()), Ok(()));
    assert_eq!(validate_key_text(CLASSIC_SK.to_string()), Ok(()));
    let invalid = validate_key_text("not a key".to_string());
    assert_eq!(invalid, Err(Error::InvalidClassicalKey));
    assert_eq!(invalid.unwrap_err().message(), "this is not a valid age key");
    let mut changed = CLASSIC_PK.to_string();
    changed.pop();
    changed.push('q');
    assert_eq!(validate_key_text(changed), Err(Error::InvalidClassicalKey));
    // A hybrid recipient is longer than the Bech32 crate reads, and valid all the same.
    let hybrid = HybridIdentity::from_seed([4; 32]);
    let recipient_text = hybrid.to_public().to_string();
    assert!(bech32::decode(&recipient_text).is_err());
    assert_eq!(validate_key_text(recipient_text.clone()), Ok(()));
    assert_eq!(validate_key_bytes(recipient_text.as_bytes()), Ok(()));
    assert_eq!(validate_key_text(hybrid.to_string().expose().to_string()), Ok(()));
    let mut broken = recipient_text;
    broken.pop();
    broken.push('b');
    assert_eq!(validate_key_text(broken), Err(Error::InvalidClassicalKey));
    assert_eq!(validate_key_bytes(CLASSIC_PK.as_bytes()), Ok(()));
    assert_eq!(validate_key_bytes(b"nope"), Err(Error::InvalidClassicalKey));
    assert_eq!(validate_key_bytes(&[0xc3, 0x28]), Err(Error::NotText));
}

#[test]
fn import_needs_a_name_and_a_small_file() {
    assert_eq!(check_import("alice", 10), Ok(()));
    assert_eq!(check_import("alice", 10 * 1024), Ok(()));
    assert_eq!(check_import("alice", 10 * 1024 + 1), Err(Error::KeyFileTooLarge));
    assert_eq!(check_import("", 10), Err(Error::NoNameSet));
    assert_eq!(check_import("", 1 << 40), Err(Error::NoNameSet));
    assert_eq!(Error::NoNameSet.message(), "no name set");
    assert_eq!(Error::KeyFileTooLarge.message(), "key file too large");
}

#[test]
fn generating_a_key_needs_a_name_and_an_unlocked_vault() {
    let mut vault = new_vault();
    assert_eq!(generate_keypair(&mut vault, String::new(), None), Err(Error::NoNameSet));
    assert!(vault.list_keys().is_empty());
    lock_vault(&mut vault);
    assert_eq!(
        generate_keypair(&mut vault, "alice".to_string(), Some(KeyFormat::X25519)),
        Err(Error::VaultLocked)
    );
    assert_eq!(
        generate_keypair(&mut vault, String::new(), Some(KeyFormat::PostQuantum)),
        Err(Error::NoNameSet)
    );
    assert!(vault.list_keys().is_empty());
}

#[test]
fn generated_keys_have_the_format_asked_for() {
    let mut vault = new_vault();
    generate_keypair(&mut vault, "pq".to_string(), Some(KeyFormat::PostQuantum)).expect("stored");
    generate_keypair(&mut vault, "default".to_string(), None).expect("stored");
    generate_keypair(&mut vault, "classic".to_string(), Some(KeyFormat::X25519)).expect("stored");
    assert_eq!(vault.list_keys().len(), 3);
    for name in ["pq", "default"] {
        let key = key_named(&vault, name);
        assert_eq!(key.key_type, KeyType::Private);
        assert!(key.contents.public.starts_with("age1pq1"));
        let text = private_text(&vault, &key.id).expect("opens");
        assert!(text.expose().starts_with("AGE-SECRET-KEY-PQ-1"));
        let identity = HybridIdentity::from_string(text).expect("parses");
        assert_eq!(identity.to_public().to_string(), key.contents.public);
    }
    let key = key_named(&vault, "classic");
    assert_eq!(key.key_type, KeyType::Private);
    assert_eq!(key.contents.public.len(), CLASSIC_PK.len());
    let text = private_text(&vault, &key.id).expect("opens");
    assert!(text.expose().starts_with("AGE-SECRET-KEY-1"));
    let identity = X25519Identity::from_string(&text).expect("parses");
    assert_eq!(identity.to_public().expect("valid").text, key.contents.public);
}

#[test]
fn export_follows_the_mode() {
    let hybrid = HybridIdentity::from_seed([5; 32]);
    let pq_text = hybrid.to_string().expose().to_string();
    let twin_text = hybrid.to_x25519().text.expose().to_string();

    let as_pq = export_text(secret(&pq_text), KeyExportMode::PostQuantum).expect("exports");
    assert_eq!(as_pq.expose(), pq_text);
    let as_classic = export_text(secret(&pq_text), KeyExportMode::X25519).expect("exports");
    assert_eq!(as_classic.expose(), twin_text);
    let classic = export_text(secret(CLASSIC_SK), KeyExportMode::X25519).expect("exports");
    assert_eq!(classic.expose(), CLASSIC_SK);
    let refused = export_text(secret(CLASSIC_SK), KeyExportMode::PostQuantum);
    assert_eq!(refused.as_ref().err(), Some(&Error::CannotExportAsPostQuantum));
    assert_eq!(
        refused.err().unwrap().message(),
        "cannot export x25519 key as postquantum"
    );
    let broken = export_text(secret("AGE-SECRET-KEY-PQ-1QQQ"), KeyExportMode::X25519);
    assert_eq!(broken.err(), Some(Error::MissingChecksum));
    let kept = export_text(secret("AGE-SECRET-KEY-PQ-1QQQ"), KeyExportMode::PostQuantum);
    assert_eq!(kept.expect("kept as it is").expose(), "AGE-SECRET-KEY-PQ-1QQQ");
}

#[test]
fn export_reads_the_stored_private_key() {
    let mut vault = new_vault();
    generate_keypair(&mut vault, "alice".to_string(), None).expect("stored");
    let key = only_key(&vault);
    let text = export_key(&vault, &key.id, KeyExportMode::PostQuantum).expect("exports");
    assert!(text.expose().starts_with("AGE-SECRET-KEY-PQ-1"));
    assert_eq!(
        export_key(&vault, "missing", KeyExportMode::PostQuantum).err(),
        Some(Error::KeyNotFound)
    );
    let public_only = KeyMetadata::assemble(
        "pub".to_string(),
        "friend".to_string(),
        Timestamp { secs: 1, nanos: 0 },
        KeyPair { public: CLASSIC_PK.to_string(), private: None },
    );
    vault.put_key(public_only).expect("unlocked");
    let refused = export_key(&vault, "pub", KeyExportMode::X25519);
    assert_eq!(refused.as_ref().err(), Some(&Error::NoPrivateKey));
    assert_eq!(refused.err().unwrap().message(), "no private key!");
    lock_vault(&mut vault);
    assert_eq!(export_key(&vault, &key.id, KeyExportMode::X25519).err(), Some(Error::VaultLocked));
}

#[test]
fn hybrid_round_trip() {
    let mut vault = new_vault();
    generate_keypair(&mut vault, "alice".to_string(), Some(KeyFormat::PostQuantum))
        .expect("stored");
    let alice = only_key(&vault);
    let exported = export_key(&vault, &alice.id, KeyExportMode::PostQuantum).expect("exports");
    let file_contents = exported.expose().to_string();
    vault.delete_key(&alice.id).expect("unlocked");
    assert!(vault.list_keys().is_empty());

    let message = import_key_text(&mut vault, "alice2".to_string(), file_contents)
        .expect("imports");
    assert_eq!(message, "key import complete");
    let alice2 = only_key(&vault);
    assert_eq!(alice2.name, "alice2");
    assert_eq!(alice2.key_type, KeyType::Private);
    assert_eq!(alice2.contents.public, alice.contents.public);
    assert_ne!(alice2.id, alice.id);

    // Encrypt to alice2's public key, decrypt with alice2's private key.
    let recipients = resolve_recipients(&vault, EncryptionMethod::X25519(vec![alice2.id.clone()]))
        .expect("recipients");
    assert_eq!(recipients.len(), 1);
    assert!(matches!(recipients[0], WildcardRecipient::Hybrid(_)));
    let file_key = FileKey { bytes: *b"ping ping ping !" };
    let wrapped = recipients[0].wrap_file_key(&file_key).expect("wraps");
    let identity = resolve_identity(&vault, alice2.id.clone(), DecryptionMethod::X25519)
        .expect("identity");
    let mut opened = None;
    for candidate in identity.decryption_identities() {
        if let Some(result) = candidate.unwrap_stanza(&wrapped.stanzas[0]) {
            opened = Some(result.expect("decrypts").bytes);
            break;
        }
    }
    assert_eq!(opened, Some(*b"ping ping ping !"));
}

#[test]
fn downgrade_rule() {
    let mut vault = new_vault();
    generate_keypair(&mut vault, "a".to_string(), Some(KeyFormat::PostQuantum)).expect("stored");
    generate_keypair(&mut vault, "b".to_string(), Some(KeyFormat::PostQuantum)).expect("stored");
    generate_keypair(&mut vault, "c".to_string(), Some(KeyFormat::X25519)).expect("stored");
    let a = key_named(&vault, "a");
    let b = key_named(&vault, "b");
    let c = key_named(&vault, "c");

    // All hybrid: hybrid stanzas.
    let all = resolve_recipients(
        &vault,
        EncryptionMethod::X25519(vec![a.id.clone(), b.id.clone()]),
    )
    .expect("recipients");
    assert_eq!(all.len(), 2);
    let file_key = FileKey { bytes: [b'm'; 16] };
    for recipient in &all {
        assert!(matches!(recipient, WildcardRecipient::Hybrid(_)));
        let wrapped = recipient.wrap_file_key(&file_key).expect("wraps");
        assert_eq!(wrapped.stanzas[0].tag, "mlkem768x25519");
    }

    // Mixed: classical stanzas throughout, readable by a's twin and by c.
    let mixed = resolve_recipients(
        &vault,
        EncryptionMethod::X25519(vec![a.id.clone(), c.id.clone()]),
    )
    .expect("recipients");
    assert_eq!(mixed.len(), 2);
    let mut texts = Vec::new();
    for recipient in &mixed {
        assert!(matches!(recipient, WildcardRecipient::X25519(_)));
        let wrapped = recipient.wrap_file_key(&file_key).expect("wraps");
        assert_eq!(wrapped.stanzas[0].tag, "X25519");
        texts.push(recipient.to_string().expect("has text"));
    }
    let a_identity = HybridIdentity::from_string(private_text(&vault, &a.id).expect("opens"))
        .expect("parses");
    assert_eq!(texts[0], a_identity.to_public().to_x25519().text);
    assert_eq!(texts[1], c.contents.public);

    let file = encrypt_bytes(&texts, b"m").expect("encrypts");
    let twin = a_identity.to_x25519();
    assert_eq!(decrypt_bytes(&twin, &file), Ok(b"m".to_vec()));
    let c_identity = X25519Identity::from_string(&private_text(&vault, &c.id).expect("opens"))
        .expect("parses");
    assert_eq!(decrypt_bytes(&c_identity, &file), Ok(b"m".to_vec()));
    // b was not a recipient.
    let b_identity = HybridIdentity::from_string(private_text(&vault, &b.id).expect("opens"))
        .expect("parses");
    assert_eq!(decrypt_bytes(&b_identity.to_x25519(), &file), Err(Error::DecryptionFailed));

    // The decrypting side tries the hybrid identity and then its twin.
    let tried = resolve_identity(&vault, a.id.clone(), DecryptionMethod::X25519)
        .expect("identity")
        .decryption_identities();
    assert_eq!(tried.len(), 2);
    match &tried[1] {
        WildcardIdentity::X25519(identity) => {
            assert_eq!(decrypt_bytes(identity, &file), Ok(b"m".to_vec()))
        }
        _ => panic!("the twin is classical"),
    }
}

#[test]
fn selection_keeps_hybrid_only_when_all_are_hybrid() {
    let pq1 = HybridIdentity::from_seed([1; 32]).to_public();
    let pq2 = HybridIdentity::from_seed([2; 32]).to_public();
    let all_pq = vec![pq1.to_string(), pq2.to_string()];
    assert!(keys_all_hybrid(&all_pq));
    let selected = select_recipients(&all_pq).expect("parses");
    match (&selected[0], &selected[1]) {
        (WildcardRecipient::Hybrid(a), WildcardRecipient::Hybrid(b)) => {
            assert_eq!(a.encapsulation_key, pq1.encapsulation_key);
            assert_eq!(b.encapsulation_key, pq2.encapsulation_key);
        }
        _ => panic!("all recipients are hybrid"),
    }

    let mixed = vec![pq1.to_string(), CLASSIC_PK.to_string(), pq2.to_string()];
    assert!(!keys_all_hybrid(&mixed));
    let selected = select_recipients(&mixed).expect("parses");
    assert_eq!(selected.len(), 3);
    let texts: Vec<String> = selected.iter().map(|r| r.to_string().expect("text")).collect();
    assert_eq!(texts[0], pq1.to_x25519().text);
    assert_eq!(texts[1], CLASSIC_PK);
    assert_eq!(texts[2], pq2.to_x25519().text);
    assert!(selected.iter().all(|r| matches!(r, WildcardRecipient::X25519(_))));

    // No key at all counts as all hybrid, and selects nobody.
    assert!(keys_all_hybrid(&vec![]));
    assert!(select_recipients(&vec![]).expect("nothing to parse").is_empty());

    // The first key that does not parse decides the error.
    let bad = vec![CLASSIC_PK.to_string(), "age1pq1qqq".to_string(), "junk".to_string()];
    assert_eq!(select_recipients(&bad).err(), Some(Error::MissingChecksum));
    let bad = vec!["junk".to_string(), "age1pq1qqq".to_string()];
    assert_eq!(select_recipients(&bad).err(), Some(Error::InvalidClassicalKey));
    assert!(matches!(
        select_recipient(&pq1.to_string(), true),
        Ok(WildcardRecipient::Hybrid(_))
    ));
    assert!(matches!(
        select_recipient(&pq1.to_string(), false),
        Ok(WildcardRecipient::X25519(_))
    ));
}

#[test]
fn downgrading_a_public_key_gives_its_classical_twin() {
    let recipient = HybridIdentity::from_seed([8; 32]).to_public();
    let twin = downgrade_hybrid_public_key(recipient.to_string()).expect("parses");
    assert_eq!(twin, recipient.to_x25519().text);
    let expected = bech32::encode::<bech32::Bech32>(
        bech32::Hrp::parse("age").unwrap(),
        &recipient.encapsulation_key[1184..],
    )
    .unwrap();
    assert_eq!(twin, expected);
    assert_eq!(
        downgrade_hybrid_public_key(CLASSIC_PK.to_string()).err(),
        Some(Error::NotARecipient)
    );
    let back = HybridRecipient::from_string(&recipient.to_string()).expect("parses");
    assert_eq!(back.to_x25519().text, twin);
}

#[test]
fn importing_keys_of_each_kind() {
    let mut vault = new_vault();
    import_key_text(&mut vault, "friend".to_string(), CLASSIC_PK.to_string()).expect("imports");
    let friend = key_named(&vault, "friend");
    assert_eq!(friend.key_type, KeyType::Public);
    assert_eq!(friend.contents.public, CLASSIC_PK);
    assert!(friend.contents.private.is_none());

    import_key_text(&mut vault, "me".to_string(), CLASSIC_SK.to_string()).expect("imports");
    let me = key_named(&vault, "me");
    assert_eq!(me.key_type, KeyType::Private);
    assert_eq!(me.contents.public, CLASSIC_PK);
    assert_eq!(private_text(&vault, &me.id).expect("opens").expose(), CLASSIC_SK);

    let hybrid = HybridIdentity::from_seed([3; 32]);
    let recipient_text = hybrid.to_public().to_string();
    import_key_text(&mut vault, "pq friend".to_string(), recipient_text.clone())
        .expect("imports");
    let pq_friend = key_named(&vault, "pq friend");
    assert_eq!(pq_friend.key_type, KeyType::Public);
    assert_eq!(pq_friend.contents.public, recipient_text);

    let identity_text = hybrid.to_string().expose().to_string();
    import_key_text(&mut vault, "pq me".to_string(), identity_text.clone()).expect("imports");
    let pq_me = key_named(&vault, "pq me");
    assert_eq!(pq_me.key_type, KeyType::Private);
    assert_eq!(pq_me.contents.public, recipient_text);
    assert_eq!(private_text(&vault, &pq_me.id).expect("opens").expose(), identity_text);
    assert_eq!(vault.list_keys().len(), 4);
}

#[test]
fn importing_bad_keys_changes_nothing() {
    let mut vault = new_vault();
    assert_eq!(
        import_key_text(&mut vault, "x".to_string(), "junk".to_string()),
        Err(Error::InvalidClassicalKey)
    );
    assert_eq!(
        import_key_text(&mut vault, "x".to_string(), "AGE-SECRET-KEY-1QQQ".to_string()),
        Err(Error::InvalidClassicalKey)
    );
    assert_eq!(
        import_key_text(&mut vault, "x".to_string(), "AGE-SECRET-KEY-PQ-1QQQ".to_string()),
        Err(Error::MissingChecksum)
    );
    assert_eq!(
        import_key_text(&mut vault, "x".to_string(), "age1pq1qqq".to_string()),
        Err(Error::MissingChecksum)
    );
    assert!(vault.list_keys().is_empty());
    lock_vault(&mut vault);
    assert_eq!(
        import_key_text(&mut vault, "x".to_string(), CLASSIC_SK.to_string()),
        Err(Error::VaultLocked)
    );
    assert_eq!(
        import_key_text(&mut vault, "x".to_string(), CLASSIC_PK.to_string()),
        Err(Error::VaultLocked)
    );
    assert_eq!(import_record(&vault, "x".to_string(), CLASSIC_SK.to_string()).err(), Some(Error::VaultLocked));
    assert!(import_record(&vault, "x".to_string(), CLASSIC_PK.to_string()).is_ok());
    assert!(vault.list_keys().is_empty());
}

#[test]
fn identities_are_read_by_their_prefix() {
    let hybrid = HybridIdentity::from_seed([6; 32]);
    match identity_from_text(hybrid.to_string()) {
        Ok(WildcardIdentity::Hybrid(identity)) => assert_eq!(identity.expose_seed(), &[6; 32]),
        _ => panic!("a hybrid identity"),
    }
    match identity_from_text(secret(CLASSIC_SK)) {
        Ok(WildcardIdentity::X25519(identity)) => assert_eq!(identity.text.expose(), CLASSIC_SK),
        _ => panic!("a classical identity"),
    }
    assert_eq!(identity_from_text(secret("junk")).err(), Some(Error::InvalidClassicalKey));
    assert_eq!(
        identity_from_text(secret("AGE-SECRET-KEY-PQ-1")).err(),
        Some(Error::MissingChecksum)
    );
}

#[test]
fn passphrase_methods_need_no_vault_key() {
    let mut vault = new_vault();
    lock_vault(&mut vault);
    let recipients = resolve_recipients(&vault, EncryptionMethod::Scrypt("pw".to_string()))
        .expect("no lookup needed");
    assert_eq!(recipients.len(), 1);
    match &recipients[0] {
        WildcardRecipient::Scrypt(r) => assert_eq!(r.passphrase.expose(), "pw"),
        _ => panic!("a passphrase recipient"),
    }
    match resolve_identity(&vault, "pw".to_string(), DecryptionMethod::Scrypt) {
        Ok(WildcardIdentity::Scrypt(i)) => assert_eq!(i.passphrase.expose(), "pw"),
        _ => panic!("a passphrase identity"),
    }
    assert_eq!(
        resolve_identity(&vault, "missing".to_string(), DecryptionMethod::X25519).err(),
        Some(Error::KeyNotFound)
    );
    assert_eq!(
        resolve_recipients(&vault, EncryptionMethod::X25519(vec!["missing".to_string()])).err(),
        Some(Error::KeyNotFound)
    );
    assert_eq!(Error::KeyNotFound.kind(), ErrorKind::NotFound);
}

#[test]
fn authentication_steps() {
    let mut vault = new_vault();
    assert_eq!(lock_vault(&mut vault), VaultStatusUpdate::Locked);
    assert!(!vault_unlocked(Some(&vault)));
    assert!(!vault_unlocked(None));

    assert_eq!(
        authenticate_step(&mut vault, AuthEvent::Password("wrong".to_string())),
        AuthAction::Retry
    );
    assert!(!vault_unlocked(Some(&vault)));
    assert_eq!(
        authenticate_step(&mut vault, AuthEvent::Cancel),
        AuthAction::Finish(VaultStatusUpdate::AuthenticationCancel)
    );
    assert!(!vault_unlocked(Some(&vault)));
    assert_eq!(
        authenticate_step(&mut vault, AuthEvent::Password(PASSPHRASE.to_string())),
        AuthAction::Finish(VaultStatusUpdate::Unlocked)
    );
    assert!(vault_unlocked(Some(&vault)));
    // A cancellation leaves an unlocked vault unlocked.
    assert_eq!(
        authenticate_step(&mut vault, AuthEvent::Cancel),
        AuthAction::Finish(VaultStatusUpdate::AuthenticationCancel)
    );
    assert!(vault_unlocked(Some(&vault)));
}

#[test]
fn authentication_repairs_after_a_failed_verification() {
    let mut vault = new_vault();
    generate_keypair(&mut vault, "alice".to_string(), None).expect("stored");
    let alice = only_key(&vault);
    let mut bytes = vault.save_vault().expect("unlocked");
    let at = bytes.windows(7).position(|w| w == b"age1pq1").expect("public key") + 30;
    bytes[at] ^= 1;
    let mut loaded = Vault::load_vault("vault.cb", &bytes).expect("well formed");
    assert_eq!(
        authenticate_step(&mut loaded, AuthEvent::Password(PASSPHRASE.to_string())),
        AuthAction::Finish(VaultStatusUpdate::VerificationFail)
    );
    assert!(vault_unlocked(Some(&loaded)));
    assert_eq!(only_key(&loaded).contents.public, alice.contents.public);
}

#[test]
fn fetching_keys() {
    let mut vault = new_vault();
    assert!(fetch_keys(None).is_empty());
    assert!(fetch_keys(Some(&vault)).is_empty());
    generate_keypair(&mut vault, "alice".to_string(), None).expect("stored");
    let listed = fetch_keys(Some(&vault));
    assert_eq!(listed.len(), 1);
    assert!(listed[0].contents.private.is_none());
    let fetched = fetch_key(Some(&vault), &listed[0].id).expect("stored");
    assert_eq!(fetched.name, "alice");
    assert!(fetched.contents.private.is_some());
    assert!(fetch_key(Some(&vault), "missing").is_none());
    assert!(fetch_key(None, &listed[0].id).is_none());
}

#[test]
fn passphrases_are_twelve_different_words() {
    let passphrase = generate_passphrase().expect("words are available");
    let words: Vec<&str> = passphrase.split('-').collect();
    assert_eq!(words.len(), 12);
    for (i, word) in words.iter().enumerate() {
        assert!(!word.is_empty());
        assert!(word.chars().all(|c| c.is_ascii_lowercase()));
        assert!(!words[..i].contains(word));
    }
    assert_ne!(passphrase, generate_passphrase().expect("words are available"));
}

#[test]
fn passphrase_is_the_words_joined_by_hyphens() {
    let words: Vec<String> = "a b c d e f g h i j k l".split(' ').map(String::from).collect();
    assert!(words_distinct(&words));
    assert_eq!(passphrase_from_words(&words), Some("a-b-c-d-e-f-g-h-i-j-k-l".to_string()));
    let mut twice = words.clone();
    twice[11] = "a".to_string();
    assert!(!words_distinct(&twice));
    assert_eq!(passphrase_from_words(&twice), None);
    let mut eleven = words.clone();
    eleven.pop();
    assert_eq!(passphrase_from_words(&eleven), None);
    let mut thirteen = words.clone();
    thirteen.push("m".to_string());
    assert_eq!(passphrase_from_words(&thirteen), None);
    assert!(words_distinct(&vec![]));
    // A word with a space, a hyphen, an upper-case letter or nothing in it is no word.
    for bad in ["a b", "a-b", "A", "", "é", "a1"] {
        assert!(!word_is_plain(bad));
        let mut list = words.clone();
        list[3] = bad.to_string();
        assert!(!words_plain(&list));
        assert_eq!(passphrase_from_words(&list), None);
    }
    assert!(word_is_plain("abandon"));
    assert!(word_is_plain("z"));
    assert!(words_plain(&words));
    assert!(words_plain(&vec![]));
}

#[test]
fn classical_encryption_round_trip() {
    let pair = generate_key();
    assert!(pair.public_key.starts_with("age1"));
    let identity = X25519Identity::from_string(&pair.private_key).expect("valid");
    assert_eq!(identity.to_public().expect("valid").text, pair.public_key);
    let file = encrypt_bytes(&vec![pair.public_key.clone()], b"plain").expect("encrypts");
    assert!(file.starts_with(b"age-encryption.org/v1\n"));
    assert_eq!(decrypt_bytes(&identity, &file), Ok(b"plain".to_vec()));
    let text = encrypt_text(&vec![pair.public_key.clone()], "ping").expect("encrypts");
    assert_eq!(decrypt_bytes(&identity, &text), Ok(b"ping".to_vec()));
    assert_eq!(decrypt_bytes(&identity, b"not an age file"), Err(Error::DecryptionFailed));
    assert_eq!(decrypt_bytes(&X25519Identity::generate(), &file), Err(Error::DecryptionFailed));
    assert_eq!(encrypt_bytes(&vec![], b"plain").err(), Some(Error::WrapFailed));
    assert_eq!(
        encrypt_bytes(&vec!["junk".to_string()], b"plain").err(),
        Some(Error::InvalidClassicalKey)
    );
    let parsed = keys_to_x25519_recipients(&vec![CLASSIC_PK.to_string()]).expect("parses");
    assert_eq!(parsed[0].text, CLASSIC_PK);
    assert_eq!(
        keys_to_x25519_recipients(&vec![CLASSIC_PK.to_string(), CLASSIC_SK.to_string()]).err(),
        Some(Error::InvalidClassicalKey)
    );
}

#[test]
fn every_error_has_a_kind_and_a_message() {
    let all = [
        (Error::NotARecipient, ErrorKind::InvalidInput, "not a valid recipient"),
        (Error::NotASecretKey, ErrorKind::InvalidInput, "not a valid secret key"),
        (Error::MalformedBech32, ErrorKind::InvalidInput, "failed to parse string as Bech32"),
        (Error::WrongPrefix, ErrorKind::InvalidInput, "unexpected key prefix"),
        (Error::MissingChecksum, ErrorKind::InvalidInput, "key text is too short"),
        (Error::BadChecksum, ErrorKind::InvalidInput, "failed to decode as Bech32"),
        (Error::WrongLength, ErrorKind::InvalidInput, "key has the wrong length"),
        (Error::InvalidClassicalKey, ErrorKind::InvalidInput, "this is not a valid age key"),
        (Error::PasswordIncorrect, ErrorKind::AuthenticationFailed, "password is incorrect"),
        (Error::IntegrityCheckFailed, ErrorKind::IntegrityFailure, "integrity check failed"),
        (Error::VaultLocked, ErrorKind::PreconditionFailed, "vault is locked"),
        (Error::SecretUnreadable, ErrorKind::CryptoFailure, "failed to decrypt secret."),
        (Error::KeyNotFound, ErrorKind::NotFound, "no such key"),
        (Error::NoPrivateKey, ErrorKind::PreconditionFailed, "no private key!"),
        (Error::NoNameSet, ErrorKind::PreconditionFailed, "no name set"),
        (
            Error::CannotExportAsPostQuantum,
            ErrorKind::PreconditionFailed,
            "cannot export x25519 key as postquantum",
        ),
        (
            Error::ArmoredTooLarge,
            ErrorKind::PreconditionFailed,
            "armored files over 100 MB are not supported",
        ),
        (Error::KeyFileTooLarge, ErrorKind::PreconditionFailed, "key file too large"),
        (Error::MalformedVault, ErrorKind::InvalidInput, "could not parse vault"),
        (Error::NoPublicForm, ErrorKind::PreconditionFailed, "passphrase keys have no public form"),
        (Error::WrapFailed, ErrorKind::CryptoFailure, "failed to wrap file key"),
        (Error::InvalidHeader, ErrorKind::InvalidInput, "invalid header"),
        (Error::DecryptionFailed, ErrorKind::CryptoFailure, "decryption failed"),
        (Error::Unavailable, ErrorKind::IoFailure, "operation unavailable"),
        (Error::NotText, ErrorKind::InvalidInput, "could not decode text content"),
    ];
    for (error, kind, message) in all {
        assert_eq!(error.kind(), kind);
        assert_eq!(error.message(), message);
    }
}
