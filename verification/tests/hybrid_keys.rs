use age_vault::classic::{X25519Identity, X25519Recipient};
use age_vault::error::Error;
use age_vault::hybrid::{expand_key, shake256, HybridIdentity, HybridRecipient};
use age_vault::keytext::decode;
use age_vault::secret::SecretText;

fn seed(fill: u8) -> [u8; 32] {
    let mut seed = [fill; 32];
    for (i, byte) in seed.iter_mut().enumerate() {
        *byte = byte.wrapping_add(i as u8);
    }
    seed
}

fn secret(text: &str) -> SecretText {
    SecretText::new(text.to_string())
}

#[test]
fn shake256_of_empty_input_matches_the_standard() {
    let out: [u8; 32] = shake256::<32>(&[]);
    let expected: [u8; 32] = [
        0x46, 0xb9, 0xdd, 0x2b, 0x0b, 0xa8, 0x8d, 0x13, 0x23, 0x3b, 0x3f, 0xeb, 0x74, 0x3e, 0xeb,
        0x24, 0x3f, 0xcd, 0x52, 0xea, 0x62, 0xb8, 0x1b, 0x82, 0xb5, 0x0c, 0x27, 0x64, 0x6e, 0xd5,
        0x76, 0x2f,
    ];
    assert_eq!(out, expected);
}

#[test]
fn shake256_output_is_a_prefix_of_longer_output() {
    let short: [u8; 16] = shake256::<16>(b"seed");
    let long: [u8; 96] = shake256::<96>(b"seed");
    assert_eq!(&short[..], &long[..16]);
    assert_ne!(&long[..32], &shake256::<32>(b"seee")[..]);
}

#[test]
fn expansion_splits_the_stretched_seed() {
    let s = seed(3);
    let keys = expand_key(&s);
    let full: [u8; 96] = shake256::<96>(&s);
    assert_eq!(&keys.dk_t.expose()[..], &full[64..96]);
    let mut seed_pq = [0u8; 64];
    seed_pq.copy_from_slice(&full[..64]);
    let pair = libcrux_ml_kem::mlkem768::generate_key_pair(seed_pq);
    assert_eq!(&keys.ek_pq[..], &pair.pk()[..]);
    assert_eq!(&keys.dk_pq[..], &pair.sk()[..]);
    let mut dk_t = [0u8; 32];
    dk_t.copy_from_slice(&full[64..]);
    let ek_t = x25519_dalek::x25519(dk_t, x25519_dalek::X25519_BASEPOINT_BYTES);
    assert_eq!(keys.ek_t, ek_t);
}

#[test]
fn expansion_is_a_function_of_the_seed() {
    let a = expand_key(&seed(1));
    let b = expand_key(&seed(1));
    let c = expand_key(&seed(2));
    assert_eq!(a.ek_pq, b.ek_pq);
    assert_eq!(a.ek_t, b.ek_t);
    assert_eq!(a.dk_pq, b.dk_pq);
    assert_ne!(a.ek_t, c.ek_t);
    assert_ne!(a.ek_pq, c.ek_pq);
}

#[test]
fn recipient_is_kem_key_followed_by_group_key() {
    let s = seed(9);
    let keys = expand_key(&s);
    let recipient = HybridIdentity::from_seed(s).to_public();
    assert_eq!(recipient.encapsulation_key.len(), 1216);
    assert_eq!(&recipient.encapsulation_key[..1184], &keys.ek_pq[..]);
    assert_eq!(&recipient.encapsulation_key[1184..], &keys.ek_t[..]);
}

#[test]
fn identity_seed_round_trips_through_text() {
    for fill in [0u8, 1, 77, 255] {
        let s = seed(fill);
        let text = HybridIdentity::from_seed(s).to_string();
        let back = HybridIdentity::from_string(text).expect("own text parses");
        assert_eq!(back.expose_seed(), &s);
    }
}

#[test]
fn identity_text_is_upper_case_with_prefix() {
    let text = HybridIdentity::from_seed(seed(5)).to_string();
    let shown = text.expose();
    assert!(shown.starts_with("AGE-SECRET-KEY-PQ-1"));
    assert_eq!(shown, shown.to_ascii_uppercase());
    // 32 bytes take 52 characters, the checksum 6 more.
    assert_eq!(shown.len(), "AGE-SECRET-KEY-PQ-1".len() + 52 + 6);
}

#[test]
fn identity_text_of_the_zero_seed() {
    let text = HybridIdentity::from_seed([0u8; 32]).to_string();
    let expected = bech32::encode::<bech32::Bech32>(
        bech32::Hrp::parse("age-secret-key-pq-").unwrap(),
        &[0u8; 32],
    )
    .unwrap()
    .to_ascii_uppercase();
    assert_eq!(text.expose(), expected);
    assert!(text.expose().starts_with("AGE-SECRET-KEY-PQ-1QQQQQQQQ"));
}

#[test]
fn recipient_text_holds_exactly_the_encapsulation_key() {
    let recipient = HybridIdentity::from_seed(seed(11)).to_public();
    let text = recipient.to_string();
    assert!(text.starts_with("age1pq1"));
    assert_eq!(text, text.to_ascii_lowercase());
    // 1216 bytes take 1946 characters, the checksum 6 more.
    assert_eq!(text.len(), "age1pq1".len() + 1946 + 6);
    let payload = decode("age1pq", &text).expect("own text decodes");
    assert_eq!(&payload[..], &recipient.encapsulation_key[..]);
    let back = HybridRecipient::from_string(&text).expect("own text parses");
    assert_eq!(back.encapsulation_key, recipient.encapsulation_key);
}

#[test]
fn recipient_without_prefix_is_not_a_recipient() {
    let text = "age1t7rxyev2z3rw82stdlrrepyc39nvn86l5078zqkf5uasdy86jp6svpy7pa".to_string();
    assert_eq!(HybridRecipient::from_string(&text).err(), Some(Error::NotARecipient));
    assert_eq!(HybridRecipient::from_string(&String::new()).err(), Some(Error::NotARecipient));
}

#[test]
fn recipient_with_broken_text_is_malformed() {
    // No separator is left once the prefix holds the only `1`s and the data has a bad character.
    let text = "age1pq1bbbb!".to_string();
    assert_eq!(HybridRecipient::from_string(&text).err(), Some(Error::MalformedBech32));
    let mixed = "age1pq1QQqqqqqq".to_string();
    assert_eq!(HybridRecipient::from_string(&mixed).err(), Some(Error::MalformedBech32));
}

#[test]
fn recipient_with_longer_prefix_has_the_wrong_prefix() {
    let text = bech32::encode::<bech32::Bech32>(bech32::Hrp::parse("age1pqx").unwrap(), &[1, 2, 3])
        .unwrap();
    assert!(text.starts_with("age1pq"));
    assert_eq!(HybridRecipient::from_string(&text).err(), Some(Error::WrongPrefix));
}

#[test]
fn recipient_too_short_for_a_checksum() {
    let text = "age1pq1qqq".to_string();
    assert_eq!(HybridRecipient::from_string(&text).err(), Some(Error::MissingChecksum));
}

#[test]
fn recipient_with_changed_character_fails_the_checksum() {
    let mut text = HybridIdentity::from_seed(seed(2)).to_public().to_string();
    let last = text.pop().unwrap();
    text.push(if last == 'q' { 'p' } else { 'q' });
    assert_eq!(HybridRecipient::from_string(&text).err(), Some(Error::BadChecksum));
}

#[test]
fn recipient_of_wrong_length_is_rejected() {
    let text = bech32::encode::<bech32::Bech32>(bech32::Hrp::parse("age1pq").unwrap(), &[7u8; 40])
        .unwrap();
    assert_eq!(HybridRecipient::from_string(&text).err(), Some(Error::WrongLength));
}

#[test]
fn identity_without_prefix_is_not_a_secret_key() {
    let classic = "AGE-SECRET-KEY-1GQ9778VQXMMJVE8SK7J6VT8UJ4HDQAJUVSFCWCM02D8GEWQ72PVQ2Y5J33";
    assert_eq!(HybridIdentity::from_string(secret(classic)).err(), Some(Error::NotASecretKey));
    assert_eq!(HybridIdentity::from_string(secret("")).err(), Some(Error::NotASecretKey));
}

#[test]
fn identity_of_wrong_length_is_rejected() {
    let text = bech32::encode::<bech32::Bech32>(
        bech32::Hrp::parse("age-secret-key-pq-").unwrap(),
        &[7u8; 31],
    )
    .unwrap()
    .to_ascii_uppercase();
    assert_eq!(HybridIdentity::from_string(secret(&text)).err(), Some(Error::WrongLength));
}

#[test]
fn identity_in_lower_case_has_the_wrong_prefix() {
    let text = HybridIdentity::from_seed(seed(4)).to_string().expose().to_ascii_lowercase();
    assert_eq!(HybridIdentity::from_string(secret(&text)).err(), Some(Error::NotASecretKey));
}

#[test]
fn identity_with_changed_character_fails_the_checksum() {
    let mut text = HybridIdentity::from_seed(seed(4)).to_string().expose().to_string();
    let last = text.pop().unwrap();
    text.push(if last == 'Q' { 'P' } else { 'Q' });
    assert_eq!(HybridIdentity::from_string(secret(&text)).err(), Some(Error::BadChecksum));
}

#[test]
fn generated_identities_differ() {
    let a = HybridIdentity::generate().expect("random seed");
    let b = HybridIdentity::generate().expect("random seed");
    assert_ne!(a.expose_seed(), b.expose_seed());
}

#[test]
fn classical_twins_belong_together() {
    let identity = HybridIdentity::from_seed(seed(21));
    let recipient = identity.to_public();
    let twin_recipient = recipient.to_x25519();
    let twin_identity = identity.to_x25519();
    assert!(twin_recipient.text.starts_with("age1"));
    assert!(twin_identity.text.expose().starts_with("AGE-SECRET-KEY-1"));
    // The age crate reads both, and the identity's recipient is the twin recipient.
    let parsed = X25519Recipient::from_string(&twin_recipient.text).expect("valid recipient");
    assert_eq!(parsed.text, twin_recipient.text);
    let public = twin_identity.to_public().expect("valid identity");
    assert_eq!(public.text, twin_recipient.text);
    let reparsed = X25519Identity::from_string(&twin_identity.text).expect("valid identity");
    assert_eq!(reparsed.text.expose(), twin_identity.text.expose());
}

#[test]
fn classical_twin_text_of_known_key() {
    // The key pair that the age crate uses in its own tests.
    let sk = "AGE-SECRET-KEY-1GQ9778VQXMMJVE8SK7J6VT8UJ4HDQAJUVSFCWCM02D8GEWQ72PVQ2Y5J33";
    let pk = "age1t7rxyev2z3rw82stdlrrepyc39nvn86l5078zqkf5uasdy86jp6svpy7pa";
    let identity = X25519Identity::from_string(&secret(sk)).expect("valid identity");
    assert_eq!(identity.to_string().expose(), sk);
    assert_eq!(identity.to_public().expect("valid").text, pk);
    assert_eq!(X25519Recipient::from_string(pk).expect("valid").to_string(), pk);
    assert_eq!(X25519Recipient::from_string(sk).err(), Some(Error::InvalidClassicalKey));
    assert_eq!(
        X25519Identity::from_string(&secret(pk)).err(),
        Some(Error::InvalidClassicalKey)
    );
}
