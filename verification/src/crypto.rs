//! Encryption-at-rest and password hashing, at the library's boundary.
//!
//! The ciphers themselves are outside code; the library states their
//! shapes (nonce and tag sizes, encoding lengths), keeps the input
//! checks verified, and names what is deterministic — whether a
//! password matches a hash — so callers' contracts can be exact.

use vstd::prelude::*;

use crate::errors::AppError;
use aes_gcm::aead::{Aead, AeadCore, OsRng};
use aes_gcm::{Aes256Gcm, Key, KeyInit, Nonce};
use argon2::password_hash::rand_core::RngCore;
use argon2::password_hash::{PasswordHash, SaltString};
use argon2::{Argon2, PasswordHasher, PasswordVerifier};
use base64::Engine;
use vstd::string::StringExecFns;

verus! {

/// Whether `password` matches the PHC hash string `hash` under the
/// default Argon2 parameters.  The outcome depends on the two texts
/// alone.
pub uninterp spec fn argon2_verifies(password: Seq<char>, hash: Seq<char>) -> bool;

/// The standard base64 text of a byte string, with padding.  The
/// encoding is a pure function of the bytes.
pub uninterp spec fn b64_of(bytes: Seq<u8>) -> Seq<char>;

/// Relies on `aes_gcm::Aes256Gcm` with `aead::Aead::encrypt` and a
/// random 96-bit nonce from `AeadCore::generate_nonce`: on success the
/// result is the nonce followed by the ciphertext, which carries a
/// 16-byte tag after the message.  The nonce is random, so nothing
/// beyond the shape can be claimed.
#[verifier::external_body]
fn aes_encrypt_bytes(data: &[u8]) -> (r: Result<Vec<u8>, ()>)
    ensures
        r matches Ok(v) ==> v@.len() == data@.len() + 28,
{
    let key_bytes = b"an example very very secret key.";
    let key = Key::<Aes256Gcm>::from_slice(key_bytes);
    let cipher = Aes256Gcm::new(key);
    let nonce = Aes256Gcm::generate_nonce(&mut OsRng);
    match cipher.encrypt(&nonce, data) {
        Ok(ciphertext) => {
            let mut out = nonce.to_vec();
            out.extend_from_slice(&ciphertext);
            Ok(out)
        },
        Err(_) => Err(()),
    }
}

/// Relies on `aead::Aead::decrypt` for `aes_gcm::Aes256Gcm`: on success
/// the plaintext is the ciphertext minus its 16-byte tag; an
/// unauthentic input is refused.
#[verifier::external_body]
fn aes_decrypt_bytes(nonce: &[u8], ciphertext: &[u8]) -> (r: Result<Vec<u8>, ()>)
    requires
        nonce@.len() == 12,
    ensures
        r matches Ok(v) ==> ciphertext@.len() >= 16 && v@.len() == ciphertext@.len() - 16,
{
    let key_bytes = b"an example very very secret key.";
    let key = Key::<Aes256Gcm>::from_slice(key_bytes);
    let cipher = Aes256Gcm::new(key);
    let n = Nonce::from_slice(nonce);
    match cipher.decrypt(n, ciphertext) {
        Ok(plaintext) => Ok(plaintext),
        Err(_) => Err(()),
    }
}

/// Relies on `base64::engine::general_purpose::STANDARD` `encode`: the
/// base64 text of the bytes — [`b64_of`] — which runs four characters
/// for every three input bytes, padded.
#[verifier::external_body]
pub(crate) fn b64_encode(bytes: &[u8]) -> (r: String)
    ensures
        r@ == b64_of(bytes@),
        r@.len() == 4 * ((bytes@.len() + 2) / 3),
{
    base64::engine::general_purpose::STANDARD.encode(bytes)
}

/// Relies on `base64::engine::general_purpose::STANDARD` `decode`:
/// yields the decoded bytes for valid standard base64 and refuses
/// anything else.
#[verifier::external_body]
pub(crate) fn b64_decode(text: &str) -> (r: Result<Vec<u8>, ()>)
    ensures
        r matches Ok(v) ==> 3 * (text@.len() / 4) >= v@.len(),
{
    match base64::engine::general_purpose::STANDARD.decode(text) {
        Ok(v) => Ok(v),
        Err(_) => Err(()),
    }
}

/// Relies on `String::from_utf8` and vstd's UTF-8 model: `Some` exactly
/// for valid UTF-8, and then the decoded characters.
#[verifier::external_body]
pub(crate) fn bytes_to_string(bytes: Vec<u8>) -> (r: Option<String>)
    ensures
        match r {
            Some(s) => vstd::utf8::valid_utf8(bytes@) && s@ == vstd::utf8::decode_utf8(bytes@),
            None => !vstd::utf8::valid_utf8(bytes@),
        },
{
    match String::from_utf8(bytes) {
        Ok(s) => Some(s),
        Err(_) => None,
    }
}

/// Relies on `argon2::Argon2::hash_password` with a salt from `OsRng`:
/// a PHC string, never empty.  The salt is random, so nothing beyond
/// the shape can be claimed.
#[verifier::external_body]
fn argon2_hash(password: &str) -> (r: Result<String, ()>)
    ensures
        r matches Ok(h) ==> h@.len() > 0,
{
    let salt = SaltString::generate(&mut OsRng);
    match Argon2::default().hash_password(password.as_bytes(), &salt) {
        Ok(h) => Ok(h.to_string()),
        Err(_) => Err(()),
    }
}

/// Relies on `argon2::Argon2::verify_password` and
/// `password_hash::PasswordHash::new`: an unparsable hash is refused;
/// otherwise the verdict is the deterministic [`argon2_verifies`] of
/// the two texts.
#[verifier::external_body]
fn argon2_verify(password: &str, hash: &str) -> (r: Result<bool, ()>)
    ensures
        r matches Ok(b) ==> b == argon2_verifies(password@, hash@),
{
    match PasswordHash::new(hash) {
        Ok(parsed) => match Argon2::default().verify_password(password.as_bytes(), &parsed) {
            Ok(_) => Ok(true),
            Err(_) => Ok(false),
        },
        Err(_) => Err(()),
    }
}

/// Relies on `rand_core::OsRng::fill_bytes`: `length` random bytes.
/// Randomness allows no claim about the contents.
#[verifier::external_body]
fn random_bytes(length: usize) -> (r: Vec<u8>)
    ensures
        r@.len() == length,
{
    let mut bytes = vec![0u8; length];
    OsRng.fill_bytes(&mut bytes);
    bytes
}

/// Encryption-at-rest for sensitive fields, under the application key.
pub struct CryptoService;

impl CryptoService {
    pub fn new() -> (r: CryptoService) {
        CryptoService
    }

    /// Encrypts bytes: on success the result holds the 12-byte nonce,
    /// the message and the 16-byte tag.
    pub fn encrypt_data(&self, data: &[u8]) -> (r: Result<Vec<u8>, AppError>)
        ensures
            r matches Ok(v) ==> v@.len() == data@.len() + 28,
    {
        match aes_encrypt_bytes(data) {
            Ok(v) => Ok(v),
            Err(_) => Err(AppError::unknown_error(String::from_str("Encryption failed"))),
        }
    }

    /// Decrypts bytes laid out as nonce then ciphertext.  Anything
    /// shorter than a nonce is rejected outright; on success the
    /// plaintext is 28 bytes shorter than the input.
    pub fn decrypt_data(&self, encrypted_data: &[u8]) -> (r: Result<Vec<u8>, AppError>)
        ensures
            encrypted_data@.len() < 12 ==> r is Err,
            r matches Ok(v) ==> encrypted_data@.len() >= 28 && v@.len() == encrypted_data@.len()
                - 28,
    {
        if encrypted_data.len() < 12 {
            return Err(
                AppError::validation_error(String::from_str("Invalid encrypted data length")),
            );
        }
        let (nonce, ciphertext) = encrypted_data.split_at(12);
        match aes_decrypt_bytes(nonce, ciphertext) {
            Ok(v) => Ok(v),
            Err(_) => Err(AppError::unknown_error(String::from_str("Decryption failed"))),
        }
    }

    /// Encrypts text and wraps the result in base64.
    pub fn encrypt_string(&self, data: &str) -> (r: Result<String, AppError>)
        ensures
            r matches Ok(s) ==> s@.len() == 4 * ((vstd::utf8::encode_utf8(data@).len() + 28 + 2)
                / 3),
    {
        let bytes = data.as_bytes();
        match self.encrypt_data(bytes) {
            Ok(encrypted) => Ok(b64_encode(encrypted.as_slice())),
            Err(e) => Err(e),
        }
    }

    /// Unwraps base64 and decrypts back to text; refuses bad encoding,
    /// unauthentic ciphertext and non-textual plaintext.
    pub fn decrypt_string(&self, encrypted_data: &str) -> (r: Result<String, AppError>)
    {
        let decoded = match b64_decode(encrypted_data) {
            Ok(v) => v,
            Err(_) => {
                return Err(
                    AppError::validation_error(String::from_str("Invalid base64 encoding")),
                );
            },
        };
        let plain = match self.decrypt_data(decoded.as_slice()) {
            Ok(v) => v,
            Err(e) => {
                return Err(e);
            },
        };
        match bytes_to_string(plain) {
            Some(s) => Ok(s),
            None => Err(AppError::validation_error(String::from_str("Invalid text encoding"))),
        }
    }

    /// Hashes a password with a fresh random salt into a PHC string.
    pub fn hash_password(&self, password: &str) -> (r: Result<String, AppError>)
        ensures
            r matches Ok(h) ==> h@.len() > 0,
    {
        match argon2_hash(password) {
            Ok(h) => Ok(h),
            Err(_) => Err(AppError::unknown_error(String::from_str("Password hashing failed"))),
        }
    }

    /// Checks a password against a PHC hash string: exactly
    /// [`argon2_verifies`] on the two texts, with an unparsable hash
    /// refused.
    pub fn verify_password(&self, password: &str, hash: &str) -> (r: Result<bool, AppError>)
        ensures
            r matches Ok(b) ==> b == argon2_verifies(password@, hash@),
    {
        match argon2_verify(password, hash) {
            Ok(b) => Ok(b),
            Err(_) => Err(AppError::auth_error(String::from_str("Invalid password hash"))),
        }
    }

    /// A fresh random token: `length` random bytes in base64.
    pub fn generate_random_token(&self, length: usize) -> (r: String)
        ensures
            r@.len() == 4 * ((length + 2) / 3),
    {
        let bytes = random_bytes(length);
        b64_encode(bytes.as_slice())
    }
}

/// Hashes a password with the application's cipher service.
pub fn hash_password(password: &str) -> (r: Result<String, AppError>)
    ensures
        r matches Ok(h) ==> h@.len() > 0,
{
    let crypto = CryptoService::new();
    crypto.hash_password(password)
}

/// Checks a password against a stored hash: exactly
/// [`argon2_verifies`].
pub fn verify_password(password: &str, hash: &str) -> (r: Result<bool, AppError>)
    ensures
        r matches Ok(b) ==> b == argon2_verifies(password@, hash@),
{
    let crypto = CryptoService::new();
    crypto.verify_password(password, hash)
}

} // verus!
