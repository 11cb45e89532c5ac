//! Encryption of stored broker credentials.
//!
//! A key is derived from the master key and a per-install salt with
//! Argon2id; each credential is sealed with AES-256-GCM under a fresh
//! nonce, and stored as the Base64 text of the nonce followed by the
//! ciphertext.
use aes_gcm::aead::{Aead, AeadCore, KeyInit};
use aes_gcm::{Aes256Gcm, Nonce};
use argon2::{Algorithm, Argon2, Params, Version};
use base64::engine::general_purpose::STANDARD;
use base64::Engine;
use rand::RngCore;
use vstd::prelude::*;
use vstd::string::StringSliceAdditionalSpecFns;
use vstd::utf8::{decode_utf8, encode_utf8, valid_utf8};
use crate::records::{trim_text, trimmed};
use crate::routes::AppError;
use crate::text::{str_equal, string_of};

verus! {

// ------------------------------------------------------------------
// Outside primitives
// ------------------------------------------------------------------

/// What the standard Base64 engine writes for some bytes.
pub uninterp spec fn base64_encoded(bytes: Seq<u8>) -> Seq<char>;

/// What the standard Base64 engine reads from a text; nothing when the
/// text is not valid Base64.
pub uninterp spec fn base64_decoded(text: Seq<char>) -> Option<Seq<u8>>;

/// The Argon2id (version 0x13, default parameters) key of 32 bytes for a
/// password and a salt; nothing when the inputs are refused.
pub uninterp spec fn argon2id_key(password: Seq<u8>, salt: Seq<u8>) -> Option<Seq<u8>>;

/// The AES-256-GCM ciphertext (tag included) of a plaintext.
pub uninterp spec fn aes_gcm_sealed(key: Seq<u8>, nonce: Seq<u8>, plaintext: Seq<u8>) -> Option<Seq<u8>>;

/// The AES-256-GCM plaintext of a ciphertext; nothing when it does not
/// authenticate.
pub uninterp spec fn aes_gcm_opened(key: Seq<u8>, nonce: Seq<u8>, ciphertext: Seq<u8>) -> Option<Seq<u8>>;

/// `STANDARD.encode`. Decoding what it writes gives the bytes back.
#[verifier::external_body]
fn base64_encode(bytes: &[u8]) -> (s: String)
    ensures
        s@ == base64_encoded(bytes@),
        base64_decoded(s@) == Some(bytes@),
{
    STANDARD.encode(bytes)
}

/// `STANDARD.decode`; the error is the decoder's message.
#[verifier::external_body]
fn base64_decode(text: &str) -> (r: Result<Vec<u8>, String>)
    ensures
        r is Ok <==> base64_decoded(text@) is Some,
        r matches Ok(b) ==> base64_decoded(text@) == Some(b@),
{
    STANDARD.decode(text).map_err(|err| err.to_string())
}

/// `Argon2::hash_password_into` with Argon2id, version 0x13 and default
/// parameters, into 32 bytes; the error is the hasher's message.
#[verifier::external_body]
fn argon2id_derive(password: &[u8], salt: &[u8]) -> (r: Result<Vec<u8>, String>)
    ensures
        r is Ok <==> argon2id_key(password@, salt@) is Some,
        r matches Ok(k) ==> k@.len() == 32 && argon2id_key(password@, salt@) == Some(k@),
{
    let argon = Argon2::new(Algorithm::Argon2id, Version::V0x13, Params::default());
    let mut key = [0u8; 32];
    match argon.hash_password_into(password, salt, &mut key) {
        Ok(()) => Ok(key.to_vec()),
        Err(err) => Err(err.to_string()),
    }
}

/// `Aes256Gcm::encrypt` under the key and nonce. What it seals opens again
/// to the plaintext under the same key and nonce.
#[verifier::external_body]
fn aes_gcm_seal(key: &[u8], nonce: &[u8], plaintext: &[u8]) -> (r: Result<Vec<u8>, String>)
    requires
        key@.len() == 32,
        nonce@.len() == 12,
    ensures
        r is Ok <==> aes_gcm_sealed(key@, nonce@, plaintext@) is Some,
        r matches Ok(c) ==> aes_gcm_sealed(key@, nonce@, plaintext@) == Some(c@)
            && aes_gcm_opened(key@, nonce@, c@) == Some(plaintext@),
{
    let cipher = match Aes256Gcm::new_from_slice(key) {
        Ok(c) => c,
        Err(err) => return Err(err.to_string()),
    };
    cipher.encrypt(Nonce::from_slice(nonce), plaintext).map_err(|err| err.to_string())
}

/// `Aes256Gcm::decrypt` under the key and nonce.
#[verifier::external_body]
fn aes_gcm_open(key: &[u8], nonce: &[u8], ciphertext: &[u8]) -> (r: Option<Vec<u8>>)
    requires
        key@.len() == 32,
        nonce@.len() == 12,
    ensures
        r is Some <==> aes_gcm_opened(key@, nonce@, ciphertext@) is Some,
        r matches Some(p) ==> aes_gcm_opened(key@, nonce@, ciphertext@) == Some(p@),
{
    let cipher = match Aes256Gcm::new_from_slice(key) {
        Ok(c) => c,
        Err(_) => return None,
    };
    cipher.decrypt(Nonce::from_slice(nonce), ciphertext).ok()
}

/// A fresh random nonce (`Aes256Gcm::generate_nonce` with `OsRng`).
#[verifier::external_body]
fn fresh_nonce() -> (n: Vec<u8>)
    ensures
        n@.len() == 12,
{
    Aes256Gcm::generate_nonce(&mut rand::rngs::OsRng).to_vec()
}

/// Sixteen random bytes from `OsRng`.
#[verifier::external_body]
fn fresh_salt() -> (s: Vec<u8>)
    ensures
        s@.len() == 16,
{
    let mut salt = vec![0u8; 16];
    rand::rngs::OsRng.fill_bytes(&mut salt);
    salt
}

/// `String::from_utf8`: the text when the bytes are valid UTF-8; the error
/// is its message.
#[verifier::external_body]
fn utf8_text(bytes: Vec<u8>) -> (r: Result<String, String>)
    ensures
        r is Ok <==> valid_utf8(bytes@),
        r matches Ok(s) ==> s@ == decode_utf8(bytes@),
{
    String::from_utf8(bytes).map_err(|err| err.to_string())
}

// ------------------------------------------------------------------
// The master key and the salt
// ------------------------------------------------------------------

/// The placeholder master key of the example settings, which is refused.
pub open spec fn placeholder_master_key() -> Seq<char> {
    "change-me-before-production"@
}

/// Refuses a master key that is blank or still the placeholder.
pub fn check_master_key(master_key: &str) -> (r: Result<(), AppError>)
    ensures
        trimmed(master_key@).len() == 0 ==> (r matches Err(AppError::Internal(m))
            && m@ == "AUTO_STONKS_MASTER_KEY is required; set it to a strong, unique secret before starting the backend"@),
        trimmed(master_key@).len() != 0 && master_key@ == placeholder_master_key() ==> (r matches Err(AppError::Internal(m))
            && m@ == "AUTO_STONKS_MASTER_KEY still uses the placeholder value from .env.example; set it to a strong, unique secret"@),
        r is Ok <==> trimmed(master_key@).len() != 0 && master_key@ != placeholder_master_key(),
{
    if trim_text(master_key).is_empty() {
        return Err(AppError::Internal(string_of(
            "AUTO_STONKS_MASTER_KEY is required; set it to a strong, unique secret before starting the backend",
        )));
    }
    if str_equal(master_key, "change-me-before-production") {
        return Err(AppError::Internal(string_of(
            "AUTO_STONKS_MASTER_KEY still uses the placeholder value from .env.example; set it to a strong, unique secret",
        )));
    }
    Ok(())
}

/// The salt to use: the stored one (Base64, surrounding white space
/// ignored), which must decode to at least 16 bytes; or, when none is
/// stored, 16 fresh random bytes together with the text to store.
pub fn resolve_credential_salt(stored: Option<&str>) -> (r: Result<(Vec<u8>, Option<String>), AppError>)
    ensures
        stored matches Some(s) ==> match base64_decoded(trimmed(s@)) {
            None => r matches Err(AppError::Internal(_)),
            Some(b) => if b.len() < 16 {
                r matches Err(AppError::Internal(m)) && m@ == "stored credential salt is too short"@
            } else {
                r matches Ok(v) && v.0@ == b && v.1 is None
            },
        },
        stored is None ==> (r matches Ok(v) && v.0@.len() == 16 && (v.1 matches Some(t)
            && t@ == base64_encoded(v.0@) && base64_decoded(t@) == Some(v.0@))),
{
    match stored {
        Some(encoded) => {
            let bytes = match base64_decode(trim_text(encoded)) {
                Ok(b) => b,
                Err(err) => return Err(AppError::Internal(string_of("decode credential salt: ").concat(err.as_str()))),
            };
            if bytes.len() < 16 {
                return Err(AppError::Internal(string_of("stored credential salt is too short")));
            }
            Ok((bytes, None))
        },
        None => {
            let salt = fresh_salt();
            let encoded = base64_encode(salt.as_slice());
            Ok((salt, Some(encoded)))
        },
    }
}

// ------------------------------------------------------------------
// Sealing and opening credentials
// ------------------------------------------------------------------

/// The key that credentials are sealed with.
pub struct CredentialCipher {
    key: Vec<u8>,
}

impl CredentialCipher {
    pub closed spec fn key(&self) -> Seq<u8> {
        self.key@
    }

    pub closed spec fn wf(&self) -> bool {
        self.key@.len() == 32
    }
}

/// Derives the credential key from the master key and the salt.
pub fn derive_credential_cipher(master_key: &str, salt: &[u8]) -> (r: Result<CredentialCipher, AppError>)
    ensures
        r is Ok <==> argon2id_key(master_key.spec_bytes(), salt@) is Some,
        r matches Ok(c) ==> c.wf() && Some(c.key()) == argon2id_key(master_key.spec_bytes(), salt@),
        r matches Err(e) ==> e is Internal,
{
    match argon2id_derive(master_key.as_bytes(), salt) {
        Ok(key) => Ok(CredentialCipher { key }),
        Err(err) => Err(AppError::Internal(string_of("argon2 kdf: ").concat(err.as_str()))),
    }
}

/// The credential text that a stored text opens to under a key: Base64
/// decoding, then a 12-byte nonce and the ciphertext, then UTF-8.
pub open spec fn opened_credential(key: Seq<u8>, text: Seq<char>) -> Option<Seq<char>> {
    match base64_decoded(text) {
        None => None,
        Some(b) => if b.len() < 12 {
            None
        } else {
            match aes_gcm_opened(key, b.take(12), b.skip(12)) {
                None => None,
                Some(p) => if valid_utf8(p) { Some(decode_utf8(p)) } else { None },
            }
        },
    }
}

fn split_payload(b: &Vec<u8>) -> (r: (Vec<u8>, Vec<u8>))
    requires
        b@.len() >= 12,
    ensures
        r.0@ == b@.take(12),
        r.1@ == b@.skip(12),
{
    let mut head: Vec<u8> = Vec::new();
    let mut tail: Vec<u8> = Vec::new();
    let mut i: usize = 0;
    while i < b.len()
        invariant
            i <= b.len(),
            b@.len() >= 12,
            i <= 12 ==> head@ == b@.take(i as int) && tail@.len() == 0,
            i > 12 ==> head@ == b@.take(12) && tail@ == b@.subrange(12, i as int),
        decreases b.len() - i,
    {
        if i < 12 {
            head.push(b[i]);
            assert(b@.take(i + 1) =~= b@.take(i as int).push(b@[i as int]));
        } else {
            tail.push(b[i]);
            assert(b@.subrange(12, i + 1) =~= b@.subrange(12, i as int).push(b@[i as int]));
        }
        i = i + 1;
    }
    assert(b@.subrange(12, b.len() as int) =~= b@.skip(12));
    (head, tail)
}

/// Seals a credential under a fresh nonce and writes it as Base64. What
/// it writes opens again to the credential.
pub fn encrypt(cipher: &CredentialCipher, plaintext: &str) -> (r: Result<String, AppError>)
    requires
        cipher.wf(),
    ensures
        r matches Ok(s) ==> opened_credential(cipher.key(), s@) == Some(plaintext@),
        r matches Ok(s) ==> exists|nonce: Seq<u8>, ct: Seq<u8>| nonce.len() == 12
            && aes_gcm_sealed(cipher.key(), nonce, encode_utf8(plaintext@)) == Some(ct)
            && s@ == base64_encoded(nonce + ct),
        r is Err ==> exists|nonce: Seq<u8>| nonce.len() == 12
            && aes_gcm_sealed(cipher.key(), nonce, encode_utf8(plaintext@)) is None,
        r matches Err(e) ==> e is Internal,
{
    let nonce = fresh_nonce();
    let bytes = plaintext.as_bytes();
    let sealed = aes_gcm_seal(cipher.key.as_slice(), nonce.as_slice(), bytes);
    let ct = match sealed {
        Ok(c) => c,
        Err(err) => return Err(AppError::Internal(err)),
    };
    let mut combined = nonce.clone();
    let mut rest = ct.clone();
    combined.append(&mut rest);
    let s = base64_encode(combined.as_slice());
    proof {
        broadcast use vstd::utf8::encode_utf8_decode_utf8;
        broadcast use vstd::utf8::encode_utf8_valid_utf8;
        assert(combined@ == nonce@ + ct@);
        assert(combined@.take(12) =~= nonce@);
        assert(combined@.skip(12) =~= ct@);
        assert(bytes@ == encode_utf8(plaintext@));
        assert(decode_utf8(encode_utf8(plaintext@)) == plaintext@);
    }
    Ok(s)
}

/// Opens a stored credential. Fails with an internal error when the text is
/// not Base64, is shorter than a nonce, or is not UTF-8 once opened, and as
/// unauthorized when it does not authenticate under the key.
pub fn decrypt(cipher: &CredentialCipher, encoded: &str) -> (r: Result<String, AppError>)
    requires
        cipher.wf(),
    ensures
        r matches Ok(p) ==> opened_credential(cipher.key(), encoded@) == Some(p@),
        r is Ok <==> opened_credential(cipher.key(), encoded@) is Some,
        base64_decoded(encoded@) matches Some(b) ==> (b.len() < 12 ==> (r matches Err(AppError::Internal(m))
            && m@ == "credential payload too short"@)),
        base64_decoded(encoded@) matches Some(b) ==> (b.len() >= 12 && aes_gcm_opened(cipher.key(), b.take(12), b.skip(12)) is None
            ==> (r matches Err(AppError::Unauthorized(m))
            && m@ == "failed to decrypt credential; the master key may have changed"@)),
        base64_decoded(encoded@) is None ==> r matches Err(AppError::Internal(_)),
{
    let combined = match base64_decode(encoded) {
        Ok(b) => b,
        Err(err) => return Err(AppError::Internal(err)),
    };
    if combined.len() < 12 {
        return Err(AppError::Internal(string_of("credential payload too short")));
    }
    let (nonce, body) = split_payload(&combined);
    let plain = match aes_gcm_open(cipher.key.as_slice(), nonce.as_slice(), body.as_slice()) {
        Some(p) => p,
        None => return Err(AppError::Unauthorized(string_of(
            "failed to decrypt credential; the master key may have changed",
        ))),
    };
    match utf8_text(plain) {
        Ok(s) => Ok(s),
        Err(err) => Err(AppError::Internal(err)),
    }
}


/// Keys derived from the same master key and salt are the same key, so a
/// cipher rebuilt after a restart opens every credential that the earlier
/// one sealed.
pub proof fn law_same_master_key_and_salt_open_alike(
    master_key: Seq<u8>,
    salt: Seq<u8>,
    first: Seq<u8>,
    second: Seq<u8>,
    stored: Seq<char>,
)
    requires
        argon2id_key(master_key, salt) == Some(first),
        argon2id_key(master_key, salt) == Some(second),
    ensures
        first == second,
        opened_credential(first, stored) == opened_credential(second, stored),
{
}

// ------------------------------------------------------------------
// Credential pairs
// ------------------------------------------------------------------

/// Seals a new broker credential pair for storage. The key and the secret
/// are trimmed first; either being blank is refused.
pub fn seal_credential_pair(cipher: &CredentialCipher, api_key: &str, api_secret: &str) -> (r: Result<(String, String), AppError>)
    requires
        cipher.wf(),
    ensures
        trimmed(api_key@).len() == 0 || trimmed(api_secret@).len() == 0 ==> (r matches Err(AppError::ValidationError(m))
            && m@ == "Alpaca API key and secret are required"@),
        r matches Ok(p) ==> opened_credential(cipher.key(), p.0@) == Some(trimmed(api_key@))
            && opened_credential(cipher.key(), p.1@) == Some(trimmed(api_secret@)),
        r matches Ok(p) ==> (exists|nonce: Seq<u8>, ct: Seq<u8>| nonce.len() == 12
            && aes_gcm_sealed(cipher.key(), nonce, encode_utf8(trimmed(api_key@))) == Some(ct)
            && p.0@ == base64_encoded(nonce + ct)),
        r matches Ok(p) ==> (exists|nonce: Seq<u8>, ct: Seq<u8>| nonce.len() == 12
            && aes_gcm_sealed(cipher.key(), nonce, encode_utf8(trimmed(api_secret@))) == Some(ct)
            && p.1@ == base64_encoded(nonce + ct)),
        r matches Err(e) ==> (e is ValidationError ==> trimmed(api_key@).len() == 0 || trimmed(api_secret@).len() == 0),
        r matches Err(AppError::Internal(_)) ==> trimmed(api_key@).len() != 0 && trimmed(api_secret@).len() != 0
            && exists|nonce: Seq<u8>| nonce.len() == 12
                && (aes_gcm_sealed(cipher.key(), nonce, encode_utf8(trimmed(api_key@))) is None
                || aes_gcm_sealed(cipher.key(), nonce, encode_utf8(trimmed(api_secret@))) is None),
        r matches Err(e) ==> (e is ValidationError || e is Internal),
{
    let key = trim_text(api_key);
    let secret = trim_text(api_secret);
    if key.is_empty() || secret.is_empty() {
        return Err(AppError::ValidationError(string_of("Alpaca API key and secret are required")));
    }
    let sealed_key = match encrypt(cipher, key) {
        Ok(t) => t,
        Err(e) => return Err(e),
    };
    let sealed_secret = match encrypt(cipher, secret) {
        Ok(t) => t,
        Err(e) => return Err(e),
    };
    Ok((sealed_key, sealed_secret))
}

/// Opens a stored credential pair: the key first, then the secret; the
/// first failure is returned.
pub fn open_credential_pair(cipher: &CredentialCipher, sealed_key: &str, sealed_secret: &str) -> (r: Result<(String, String), AppError>)
    requires
        cipher.wf(),
    ensures
        r is Ok <==> opened_credential(cipher.key(), sealed_key@) is Some
            && opened_credential(cipher.key(), sealed_secret@) is Some,
        r matches Ok(p) ==> opened_credential(cipher.key(), sealed_key@) == Some(p.0@)
            && opened_credential(cipher.key(), sealed_secret@) == Some(p.1@),
{
    let key = decrypt(cipher, sealed_key)?;
    let secret = decrypt(cipher, sealed_secret)?;
    Ok((key, secret))
}

} // verus!
