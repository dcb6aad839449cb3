use vstd::prelude::*;
use vstd::string::*;

use pgp::crypto::hash::HashAlgorithm;
use pgp::crypto::sym::SymmetricKeyAlgorithm;
use pgp::types::CompressionAlgorithm;
use pgp::{
    Deserializable, KeyType, Message, SecretKey, SecretKeyParams, SecretKeyParamsBuilder,
    SignedSecretKey,
};

verus! {

#[verifier::external_type_specification]
#[verifier::external_body]
pub struct ExMessage(pgp::Message);

#[verifier::external_type_specification]
#[verifier::external_body]
pub struct ExSignedSecretKey(pgp::SignedSecretKey);

#[verifier::external_type_specification]
#[verifier::external_body]
pub struct ExSecretKey(pgp::SecretKey);

#[verifier::external_type_specification]
#[verifier::external_body]
pub struct ExSecretKeyParams(pgp::SecretKeyParams);

#[verifier::external_type_specification]
#[verifier::external_body]
pub struct ExPgpError(pgp::errors::Error);

/// Why a secret could not be sealed, opened, or keyed.
#[derive(Debug)]
pub enum SecretError {
    /// Neither an explicit key path nor a configured one is available.
    SecretKeyRequired,
    FailedReadingKey,
    /// The parameters of a new key were refused.
    InvalidKeyParameters,
    KeyGenerationFailed(pgp::errors::Error),
    PGPKeySignError(pgp::errors::Error),
    FailedEncryptingContent(pgp::errors::Error),
    PGPWriterError(pgp::errors::Error),
    NoContentInPGPMessage,
    MessageNotUTF8Encoded,
}

/// A symmetric cipher.
#[derive(PartialEq, Eq, Structural, Clone, Copy, Debug)]
pub enum Cipher {
    Aes128,
    Aes256,
}

/// A hash algorithm.
#[derive(PartialEq, Eq, Structural, Clone, Copy, Debug)]
pub enum Digest {
    Sha256,
}

/// A compression algorithm.
#[derive(PartialEq, Eq, Structural, Clone, Copy, Debug)]
pub enum Compression {
    Zlib,
}

/// What a new key is made with.
pub struct KeySettings {
    /// The size of the RSA modulus.
    pub bits: u32,
    /// The key may sign.
    pub can_sign: bool,
    pub user_id: String,
    /// The preferred symmetric cipher.
    pub cipher: Cipher,
    /// The preferred hash.
    pub digest: Digest,
    /// The preferred compression.
    pub compression: Compression,
}

/// The user id written into new keys.
pub open spec fn key_user_id() -> Seq<char> {
    seq!['d', 'o', 't', 'f', 'i', 'l', 'e', 's']
}

/// The settings of a new key: RSA-2048, flagged for signing, preferring
/// AES-256, SHA-256 and ZLIB.
pub fn key_settings() -> (r: KeySettings)
    ensures
        r.bits == 2048,
        r.can_sign,
        r.user_id@ == key_user_id(),
        r.cipher == Cipher::Aes256,
        r.digest == Digest::Sha256,
        r.compression == Compression::Zlib,
{
    proof {
        reveal_strlit("dotfiles");
    }
    assert("dotfiles"@ =~= key_user_id());
    KeySettings {
        bits: 2048,
        can_sign: true,
        user_id: String::from_str("dotfiles"),
        cipher: Cipher::Aes256,
        digest: Digest::Sha256,
        compression: Compression::Zlib,
    }
}

/// The cipher that secrets are encrypted with.
pub fn secret_cipher() -> (r: Cipher)
    ensures
        r == Cipher::Aes128,
{
    Cipher::Aes128
}

/// The passphrase of the keys: keys carry none, so it is empty.
pub fn key_passphrase() -> (r: String)
    ensures
        r@.len() == 0,
{
    proof {
        reveal_strlit("");
    }
    String::from_str("")
}

/// What pgp's `SignedSecretKey::from_string` reads from an armored text.
pub uninterp spec fn parsed_key(armored: Seq<char>) -> Option<SignedSecretKey>;

/// What `String::from_utf8` makes of the bytes: their text, or `None`
/// when they are not UTF-8.
pub uninterp spec fn utf8_decoded(b: Seq<u8>) -> Option<Seq<char>>;

/// Relies on `String::from_utf8`: the text that the bytes encode, or an
/// error when they are not valid UTF-8.
#[verifier::external_body]
fn utf8_text(b: Vec<u8>) -> (r: Option<String>)
    ensures
        match r {
            Some(s) => utf8_decoded(b@) == Some(s@),
            None => utf8_decoded(b@) is None,
        },
{
    String::from_utf8(b).ok()
}

/// Relies on pgp's `Deserializable::from_string` for `SignedSecretKey`:
/// reads an armored secret key; the result depends on the text alone.
#[verifier::external_body]
fn read_secret_key(armored: &str) -> (r: Option<SignedSecretKey>)
    ensures
        r == parsed_key(armored@),
{
    SignedSecretKey::from_string(armored).map(|(k, _)| k).ok()
}

/// Relies on pgp's `Message::new_literal_bytes`: a message that carries
/// `data` unchanged as binary literal data.
#[verifier::external_body]
fn literal_message(data: &[u8]) -> (r: Message) {
    Message::new_literal_bytes("", data)
}

/// Relies on pgp's `Message::encrypt_to_keys`: encrypts to the public part
/// of `key` under `cipher`, with a fresh session key.
#[verifier::external_body]
fn encrypt_to_key(m: &Message, key: &SignedSecretKey, cipher: Cipher) -> (r: Result<
    Message,
    pgp::errors::Error,
>) {
    let alg = match cipher {
        Cipher::Aes128 => SymmetricKeyAlgorithm::AES128,
        Cipher::Aes256 => SymmetricKeyAlgorithm::AES256,
    };
    m.encrypt_to_keys(&mut rand::thread_rng(), alg, &[key])
}

/// Relies on pgp's `Message::to_armored_string`: the message in ASCII armor.
#[verifier::external_body]
fn armored_message(m: &Message) -> (r: Result<String, pgp::errors::Error>) {
    m.to_armored_string(None)
}

/// Relies on pgp's `SecretKeyParamsBuilder`: the parameters of an RSA key
/// built from `s`, field for field.
#[verifier::external_body]
fn key_params(s: &KeySettings) -> (r: Option<SecretKeyParams>) {
    let sym = match s.cipher {
        Cipher::Aes128 => SymmetricKeyAlgorithm::AES128,
        Cipher::Aes256 => SymmetricKeyAlgorithm::AES256,
    };
    let hash = match s.digest { Digest::Sha256 => HashAlgorithm::SHA2_256 };
    let zip = match s.compression { Compression::Zlib => CompressionAlgorithm::ZLIB };
    let mut b = SecretKeyParamsBuilder::default();
    b.key_type(KeyType::Rsa(s.bits)).can_sign(s.can_sign).primary_user_id(s.user_id.clone());
    b.preferred_symmetric_algorithms(vec![sym].into()).preferred_hash_algorithms(vec![hash].into());
    b.preferred_compression_algorithms(vec![zip].into()).build().ok()
}

/// Relies on pgp's `SecretKeyParams::generate`: a new key from the
/// parameters, drawn with the thread's random generator.
#[verifier::external_body]
fn generate_from(p: SecretKeyParams) -> (r: Result<SecretKey, pgp::errors::Error>) {
    p.generate()
}

/// Relies on pgp's `SecretKey::sign`: the key with its own details signed,
/// unlocked with `passphrase`.
#[verifier::external_body]
fn self_sign(k: SecretKey, passphrase: String) -> (r: Result<SignedSecretKey, pgp::errors::Error>) {
    k.sign(|| passphrase.clone())
}

/// Relies on pgp's `SignedSecretKey::to_armored_string`: the key in ASCII
/// armor.
#[verifier::external_body]
fn armored_key(k: &SignedSecretKey) -> (r: Result<String, pgp::errors::Error>) {
    k.to_armored_string(None)
}

/// The path of the secret key: the explicit one if given, else the
/// configured one.
pub fn secret_key_path(explicit: Option<String>, configured: Option<String>) -> (r: Result<
    String,
    SecretError,
>)
    ensures
        match (explicit, configured) {
            (Some(p), _) => r matches Ok(s) && s@ == p@,
            (None, Some(p)) => r matches Ok(s) && s@ == p@,
            (None, None) => r matches Err(SecretError::SecretKeyRequired),
        },
{
    match explicit {
        Some(p) => Ok(p),
        None => match configured {
            Some(p) => Ok(p),
            None => Err(SecretError::SecretKeyRequired),
        },
    }
}

/// Reads a secret key from its armored text.
pub fn load_secret_key(armored: &str) -> (r: Result<SignedSecretKey, SecretError>)
    ensures
        match parsed_key(armored@) {
            Some(k) => r matches Ok(x) && x == k,
            None => r matches Err(SecretError::FailedReadingKey),
        },
{
    match read_secret_key(armored) {
        Some(k) => Ok(k),
        None => Err(SecretError::FailedReadingKey),
    }
}

/// Encrypts the bytes of `plaintext`, unchanged, to `key` under the
/// cipher that `secret_cipher` gives, and arms the result.
pub fn encrypt_secret(plaintext: &str, key: &SignedSecretKey) -> (r: Result<String, SecretError>)
    ensures
        r matches Err(e) ==> (e is FailedEncryptingContent || e is PGPWriterError),
{
    let m = literal_message(plaintext.as_bytes());
    let sealed = match encrypt_to_key(&m, key, secret_cipher()) {
        Ok(s) => s,
        Err(e) => return Err(SecretError::FailedEncryptingContent(e)),
    };
    match armored_message(&sealed) {
        Ok(t) => Ok(t),
        Err(e) => Err(SecretError::PGPWriterError(e)),
    }
}

/// The text of a decrypted message, given its literal content.
pub fn content_text(content: Option<Vec<u8>>) -> (r: Result<String, SecretError>)
    ensures
        match content {
            None => r matches Err(SecretError::NoContentInPGPMessage),
            Some(b) => match utf8_decoded(b@) {
                Some(t) => r matches Ok(s) && s@ == t,
                None => r matches Err(SecretError::MessageNotUTF8Encoded),
            },
        },
{
    match content {
        None => Err(SecretError::NoContentInPGPMessage),
        Some(b) => match utf8_text(b) {
            Some(s) => Ok(s),
            None => Err(SecretError::MessageNotUTF8Encoded),
        },
    }
}

/// Generates a new key with the settings that `key_settings` gives, signs
/// its own details with the passphrase that `key_passphrase` gives, and
/// returns it in ASCII armor.
pub fn generate_secret_key() -> (r: Result<String, SecretError>)
    ensures
        r matches Err(e) ==> (e is InvalidKeyParameters || e is KeyGenerationFailed
            || e is PGPKeySignError || e is PGPWriterError),
{
    let settings = key_settings();
    let params = match key_params(&settings) {
        Some(p) => p,
        None => return Err(SecretError::InvalidKeyParameters),
    };
    let key = match generate_from(params) {
        Ok(k) => k,
        Err(e) => return Err(SecretError::KeyGenerationFailed(e)),
    };
    let signed = match self_sign(key, key_passphrase()) {
        Ok(s) => s,
        Err(e) => return Err(SecretError::PGPKeySignError(e)),
    };
    match armored_key(&signed) {
        Ok(t) => Ok(t),
        Err(e) => Err(SecretError::PGPWriterError(e)),
    }
}

} // verus!
