use dotfiles::secret::{
    content_text, encrypt_secret, generate_secret_key, key_passphrase, key_settings,
    load_secret_key, secret_cipher, secret_key_path, Cipher, Compression, Digest, SecretError,
};
use pgp::Deserializable;

fn open(armored: &str, key: &pgp::SignedSecretKey) -> String {
    let (message, _) = pgp::Message::from_string(armored).unwrap();
    let passphrase = key_passphrase();
    let (mut decrypter, _) = message.decrypt(|| passphrase.clone(), &[key]).unwrap();
    let inner = decrypter.next().unwrap().unwrap();
    content_text(inner.get_content().unwrap()).unwrap()
}

#[test]
fn secret_round_trip() {
    let armored_key = generate_secret_key().unwrap();
    assert!(armored_key.contains("PRIVATE KEY BLOCK"));
    let key = load_secret_key(&armored_key).unwrap();
    let sealed = encrypt_secret("hello", &key).unwrap();
    assert!(sealed.starts_with("-----BEGIN PGP MESSAGE-----"));
    assert!(!sealed.contains("hello"));
    assert_eq!(open(&sealed, &key), "hello");

    let text = "user = me\npassword = x\n\nend\n";
    let sealed = encrypt_secret(text, &key).unwrap();
    assert_eq!(open(&sealed, &key), text);
}

#[test]
fn key_settings_are_rsa_2048_for_signing() {
    let s = key_settings();
    assert_eq!(s.bits, 2048);
    assert!(s.can_sign);
    assert_eq!(s.user_id, "dotfiles");
    assert_eq!(s.cipher, Cipher::Aes256);
    assert_eq!(s.digest, Digest::Sha256);
    assert_eq!(s.compression, Compression::Zlib);
    assert_eq!(secret_cipher(), Cipher::Aes128);
    assert_eq!(key_passphrase(), "");
}

#[test]
fn secret_key_path_prefers_the_explicit_path() {
    let explicit = Some("/keys/a.asc".to_string());
    let configured = Some("/keys/b.asc".to_string());
    assert_eq!(secret_key_path(explicit, configured.clone()).unwrap(), "/keys/a.asc");
    assert_eq!(secret_key_path(None, configured).unwrap(), "/keys/b.asc");
    assert!(matches!(secret_key_path(None, None), Err(SecretError::SecretKeyRequired)));
}

#[test]
fn content_text_checks_the_payload() {
    assert_eq!(content_text(Some(b"hello".to_vec())).unwrap(), "hello");
    assert_eq!(content_text(Some("h\u{e9}".as_bytes().to_vec())).unwrap(), "h\u{e9}");
    assert!(matches!(content_text(None), Err(SecretError::NoContentInPGPMessage)));
    assert!(matches!(
        content_text(Some(vec![0xff, 0xfe])),
        Err(SecretError::MessageNotUTF8Encoded)
    ));
}

#[test]
fn load_secret_key_refuses_garbage() {
    assert!(matches!(load_secret_key("not a key"), Err(SecretError::FailedReadingKey)));
}
