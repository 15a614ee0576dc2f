//! Secrets at rest: passphrase-derived encryption of API keys, and the
//! resolution of a usable plaintext credential from what the configuration
//! holds.

use vstd::prelude::*;

use vstd::utf8::decode_utf8;
use vstd::utf8::valid_utf8;

use base64::Engine;
use ring::aead;
use ring::rand::SecureRandom;

verus! {

/// How long the random salt of one encrypted secret is.
pub const SALT_LEN: usize = 16;

/// How long the AEAD nonce of one encrypted secret is.
pub const NONCE_LEN: usize = 12;

/// How long the derived AEAD key is.
pub const KEY_LEN: usize = 32;

/// An encrypted secret at rest: salt, nonce and ciphertext, each base64.
#[derive(Clone, Debug)]
pub struct EncryptedSecret {
    pub salt: String,
    pub nonce: String,
    pub ciphertext: String,
}

/// Why a secret could not be produced or resolved.
#[derive(Clone, Debug)]
pub enum SecretError {
    /// Encryption was asked for but no passphrase is available.
    PassphraseRequired,
    /// A required credential is absent; carries the caller's context line.
    Missing(String),
    /// A stored field is not valid base64.
    BadEncoding,
    /// The random source failed, the key was rejected, or the ciphertext did
    /// not authenticate.
    CryptoFailed,
    /// The decrypted bytes are not text.
    NotUtf8,
}

/// The key that the key-derivation function yields for a passphrase and a
/// salt.
pub uninterp spec fn derived_key_of(passphrase: Seq<char>, salt: Seq<u8>) -> Seq<u8>;

/// The ciphertext (with its appended tag) that sealing yields.
pub uninterp spec fn sealed_of(key: Seq<u8>, nonce: Seq<u8>, plaintext: Seq<u8>) -> Seq<u8>;

/// What opening a ciphertext yields: the plaintext, or nothing when the
/// ciphertext does not authenticate under the key and nonce.
pub uninterp spec fn opened_of(key: Seq<u8>, nonce: Seq<u8>, ciphertext: Seq<u8>) -> Option<
    Seq<u8>,
>;

/// The standard base64 encoding of a byte string.
pub uninterp spec fn b64_of(bytes: Seq<u8>) -> Seq<char>;

/// What standard base64 decoding yields: the bytes, or nothing when the text
/// is not valid base64.
pub uninterp spec fn b64_decoded_of(text: Seq<char>) -> Option<Seq<u8>>;

/// Relies on ring's SystemRandom::fill: fills a buffer with random bytes.
/// Nothing is promised of the values.
#[verifier::external_body]
fn random_bytes(n: usize) -> (r: Result<Vec<u8>, ()>)
    ensures
        match r {
            Ok(b) => b@.len() == n,
            Err(_) => true,
        },
{
    let rng = ring::rand::SystemRandom::new();
    let mut buf = vec![0u8; n];
    match rng.fill(&mut buf) {
        Ok(()) => Ok(buf),
        Err(_) => Err(()),
    }
}

/// Relies on ring's pbkdf2::derive with HMAC-SHA256: the derived key is a
/// function of the passphrase and the salt alone.
#[verifier::external_body]
fn derive_key(passphrase: &str, salt: &[u8]) -> (r: Vec<u8>)
    ensures
        r@ == derived_key_of(passphrase@, salt@),
        r@.len() == KEY_LEN,
{
    let mut key = [0u8; 32];
    ring::pbkdf2::derive(
        ring::pbkdf2::PBKDF2_HMAC_SHA256,
        core::num::NonZeroU32::new(150_000).unwrap(),
        salt,
        passphrase.as_bytes(),
        &mut key,
    );
    key.to_vec()
}

/// Relies on ring's AES-256-GCM seal_in_place_append_tag: the ciphertext is
/// a function of key, nonce and plaintext alone.
#[verifier::external_body]
fn aead_seal(key: &[u8], nonce: &[u8], plaintext: &[u8]) -> (r: Result<Vec<u8>, ()>)
    requires
        key@.len() == KEY_LEN,
        nonce@.len() == NONCE_LEN,
    ensures
        match r {
            Ok(c) => c@ == sealed_of(key@, nonce@, plaintext@),
            Err(_) => true,
        },
{
    let unbound = match aead::UnboundKey::new(&aead::AES_256_GCM, key) {
        Ok(k) => k,
        Err(_) => return Err(()),
    };
    let sealing_key = aead::LessSafeKey::new(unbound);
    let mut nonce_bytes = [0u8; 12];
    nonce_bytes.copy_from_slice(nonce);
    let nonce = aead::Nonce::assume_unique_for_key(nonce_bytes);
    let mut buffer = plaintext.to_vec();
    match sealing_key.seal_in_place_append_tag(nonce, aead::Aad::empty(), &mut buffer) {
        Ok(()) => Ok(buffer),
        Err(_) => Err(()),
    }
}

/// Relies on ring's AES-256-GCM open_in_place: opening authenticates and
/// yields the plaintext, or fails; the outcome is a function of key, nonce
/// and ciphertext alone.
#[verifier::external_body]
fn aead_open(key: &[u8], nonce: &[u8], ciphertext: &[u8]) -> (r: Result<Vec<u8>, ()>)
    requires
        key@.len() == KEY_LEN,
        nonce@.len() == NONCE_LEN,
    ensures
        match r {
            Ok(p) => opened_of(key@, nonce@, ciphertext@) == Some(p@),
            Err(_) => opened_of(key@, nonce@, ciphertext@) is None,
        },
{
    let unbound = match aead::UnboundKey::new(&aead::AES_256_GCM, key) {
        Ok(k) => k,
        Err(_) => return Err(()),
    };
    let opening_key = aead::LessSafeKey::new(unbound);
    let mut nonce_bytes = [0u8; 12];
    nonce_bytes.copy_from_slice(nonce);
    let nonce = aead::Nonce::assume_unique_for_key(nonce_bytes);
    let mut buffer = ciphertext.to_vec();
    match opening_key.open_in_place(nonce, aead::Aad::empty(), &mut buffer) {
        Ok(plain) => Ok(plain.to_vec()),
        Err(_) => Err(()),
    }
}

/// Relies on the base64 crate's standard engine encode.
#[verifier::external_body]
fn b64_encode(bytes: &[u8]) -> (r: String)
    ensures
        r@ == b64_of(bytes@),
{
    base64::engine::general_purpose::STANDARD.encode(bytes)
}

/// Relies on the base64 crate's standard engine decode.
#[verifier::external_body]
fn b64_decode(text: &str) -> (r: Result<Vec<u8>, ()>)
    ensures
        match r {
            Ok(b) => b64_decoded_of(text@) == Some(b@),
            Err(_) => b64_decoded_of(text@) is None,
        },
{
    base64::engine::general_purpose::STANDARD.decode(text).map_err(|_| ())
}

/// Relies on String::from_utf8: succeeds exactly on valid UTF-8 and decodes
/// it.
#[verifier::external_body]
fn utf8_string(bytes: Vec<u8>) -> (r: Result<String, ()>)
    ensures
        match r {
            Ok(s) => valid_utf8(bytes@) && s@ == decode_utf8(bytes@),
            Err(_) => !valid_utf8(bytes@),
        },
{
    String::from_utf8(bytes).map_err(|_| ())
}

/// What decrypting a stored secret under a passphrase yields, if anything:
/// the three fields are base64-decoded, the nonce must have the AEAD nonce
/// length, the key is derived from the passphrase and salt, the ciphertext
/// is opened, and the plaintext must be text.
pub open spec fn decrypt_spec(passphrase: Seq<char>, data: EncryptedSecret) -> Option<Seq<char>> {
    match b64_decoded_of(data.salt@) {
        None => None,
        Some(salt) => match b64_decoded_of(data.nonce@) {
            None => None,
            Some(nonce) => if nonce.len() != NONCE_LEN {
                None
            } else {
                match b64_decoded_of(data.ciphertext@) {
                    None => None,
                    Some(ct) => match opened_of(derived_key_of(passphrase, salt), nonce, ct) {
                        None => None,
                        Some(pt) => if valid_utf8(pt) {
                            Some(decode_utf8(pt))
                        } else {
                            None
                        },
                    },
                }
            },
        },
    }
}

/// Decrypt a stored secret with a passphrase.
pub fn decrypt_secret(passphrase: &str, data: &EncryptedSecret) -> (r: Result<String, SecretError>)
    ensures
        match r {
            Ok(s) => decrypt_spec(passphrase@, *data) == Some(s@),
            Err(_) => decrypt_spec(passphrase@, *data) is None,
        },
{
    let salt = match b64_decode(data.salt.as_str()) {
        Ok(b) => b,
        Err(_) => return Err(SecretError::BadEncoding),
    };
    let nonce = match b64_decode(data.nonce.as_str()) {
        Ok(b) => b,
        Err(_) => return Err(SecretError::BadEncoding),
    };
    if nonce.len() != NONCE_LEN {
        return Err(SecretError::CryptoFailed);
    }
    let ciphertext = match b64_decode(data.ciphertext.as_str()) {
        Ok(b) => b,
        Err(_) => return Err(SecretError::BadEncoding),
    };
    let key = derive_key(passphrase, salt.as_slice());
    let plain = match aead_open(key.as_slice(), nonce.as_slice(), ciphertext.as_slice()) {
        Ok(p) => p,
        Err(_) => return Err(SecretError::CryptoFailed),
    };
    match utf8_string(plain) {
        Ok(s) => Ok(s),
        Err(_) => Err(SecretError::NotUtf8),
    }
}

/// Encrypt a plaintext secret under a passphrase with a fresh random salt
/// and nonce.
pub fn encrypt_secret(passphrase: &str, plaintext: &str) -> (r: Result<
    EncryptedSecret,
    SecretError,
>)
    ensures
        match r {
            Ok(e) => exists|salt: Seq<u8>, nonce: Seq<u8>|
                {
                    &&& salt.len() == SALT_LEN
                    &&& nonce.len() == NONCE_LEN
                    &&& e.salt@ == b64_of(salt)
                    &&& e.nonce@ == b64_of(nonce)
                    &&& e.ciphertext@ == b64_of(
                        sealed_of(
                            derived_key_of(passphrase@, salt),
                            nonce,
                            text_bytes(plaintext@),
                        ),
                    )
                },
            Err(_) => true,
        },
{
    let salt = match random_bytes(SALT_LEN) {
        Ok(b) => b,
        Err(_) => return Err(SecretError::CryptoFailed),
    };
    let nonce = match random_bytes(NONCE_LEN) {
        Ok(b) => b,
        Err(_) => return Err(SecretError::CryptoFailed),
    };
    let key = derive_key(passphrase, salt.as_slice());
    let sealed = match aead_seal(key.as_slice(), nonce.as_slice(), plaintext.as_bytes()) {
        Ok(c) => c,
        Err(_) => return Err(SecretError::CryptoFailed),
    };
    let out = EncryptedSecret {
        salt: b64_encode(salt.as_slice()),
        nonce: b64_encode(nonce.as_slice()),
        ciphertext: b64_encode(sealed.as_slice()),
    };
    proof {
        assert(out.salt@ == b64_of(salt@) && out.nonce@ == b64_of(nonce@) && out.ciphertext@
            == b64_of(
            sealed_of(derived_key_of(passphrase@, salt@), nonce@, text_bytes(plaintext@)),
        ));
    }
    Ok(out)
}

/// The byte encoding of a text, as it is sealed.
pub open spec fn text_bytes(s: Seq<char>) -> Seq<u8> {
    vstd::utf8::encode_utf8(s)
}

/// The environment variable consulted for the passphrase by default.
pub fn default_master_env() -> (r: &'static str)
    ensures
        r@ == "RUSTCHAT_PASSPHRASE"@,
{
    "RUSTCHAT_PASSPHRASE"
}

/// What a passphrase requirement resolves to: the value read from the
/// environment, or a failure when the variable was not set.
pub fn require_passphrase_from_env(env_label: &str, env_value: Option<&str>) -> (r: Result<
    String,
    SecretError,
>)
    ensures
        match env_value {
            Some(v) => r matches Ok(s) && s@ == v@,
            None => r matches Err(e) && e is PassphraseRequired,
        },
{
    match env_value {
        Some(v) => Ok(v.to_owned()),
        None => Err(SecretError::PassphraseRequired),
    }
}

/// What resolving a credential yields: a configured plaintext wins; else a
/// stored encrypted secret is decrypted with the provided passphrase, or the
/// one from the environment; else there is no credential.
pub open spec fn resolve_spec(
    plain: Option<Seq<char>>,
    encrypted: Option<EncryptedSecret>,
    passphrase: Option<Seq<char>>,
) -> Result<Option<Seq<char>>, ()> {
    match plain {
        Some(v) => Ok(Some(v)),
        None => match encrypted {
            Some(data) => match passphrase {
                None => Err(()),
                Some(p) => match decrypt_spec(p, data) {
                    Some(s) => Ok(Some(s)),
                    None => Err(()),
                },
            },
            None => Ok(None),
        },
    }
}

/// The view of an optional borrowed string.
pub open spec fn opt_view(s: Option<&str>) -> Option<Seq<char>> {
    match s {
        Some(x) => Some(x@),
        None => None,
    }
}

/// The passphrase a resolution uses: the one handed in by the caller, else
/// the one read from the environment.
pub open spec fn effective_passphrase(
    provided: Option<Seq<char>>,
    env_value: Option<Seq<char>>,
) -> Option<Seq<char>> {
    match provided {
        Some(p) => Some(p),
        None => env_value,
    }
}

/// Resolve a usable credential from the configured plaintext, the stored
/// encrypted secret, the caller's passphrase and the environment's.
pub fn resolve_secret(
    plain: Option<&str>,
    encrypted: Option<&EncryptedSecret>,
    provided_passphrase: Option<&str>,
    env_label: &str,
    env_value: Option<&str>,
) -> (r: Result<Option<String>, SecretError>)
    ensures
        ({
            let enc = match encrypted {
                Some(e) => Some(*e),
                None => None,
            };
            let spec_r = resolve_spec(
                opt_view(plain),
                enc,
                effective_passphrase(opt_view(provided_passphrase), opt_view(env_value)),
            );
            match r {
                Ok(Some(s)) => spec_r == Ok::<Option<Seq<char>>, ()>(Some(s@)),
                Ok(None) => spec_r == Ok::<Option<Seq<char>>, ()>(None::<Seq<char>>),
                Err(_) => spec_r is Err,
            }
        }),
{
    match plain {
        Some(v) => Ok(Some(v.to_owned())),
        None => match encrypted {
            Some(data) => {
                let passphrase = match provided_passphrase {
                    Some(p) => p.to_owned(),
                    None => match require_passphrase_from_env(env_label, env_value) {
                        Ok(p) => p,
                        Err(e) => {
                            return Err(e);
                        },
                    },
                };
                match decrypt_secret(passphrase.as_str(), data) {
                    Ok(s) => Ok(Some(s)),
                    Err(e) => Err(e),
                }
            },
            None => Ok(None),
        },
    }
}

/// Resolve a credential that must exist; its absence is reported with the
/// caller's context line.
pub fn require_secret(
    plain: Option<&str>,
    encrypted: Option<&EncryptedSecret>,
    provided_passphrase: Option<&str>,
    env_label: &str,
    env_value: Option<&str>,
    missing_context: &str,
) -> (r: Result<String, SecretError>)
    ensures
        ({
            let enc = match encrypted {
                Some(e) => Some(*e),
                None => None,
            };
            let spec_r = resolve_spec(
                opt_view(plain),
                enc,
                effective_passphrase(opt_view(provided_passphrase), opt_view(env_value)),
            );
            match r {
                Ok(s) => spec_r == Ok::<Option<Seq<char>>, ()>(Some(s@)),
                Err(e) => spec_r is Err || spec_r == Ok::<Option<Seq<char>>, ()>(
                    None::<Seq<char>>,
                ) && (e matches SecretError::Missing(m) && m@ == missing_context@),
            }
        }),
{
    match resolve_secret(plain, encrypted, provided_passphrase, env_label, env_value) {
        Ok(Some(s)) => Ok(s),
        Ok(None) => Err(SecretError::Missing(missing_context.to_owned())),
        Err(e) => Err(e),
    }
}

/// Prepare a secret for storage: left as plaintext unless encryption was
/// asked for, in which case it is encrypted under the passphrase and only
/// the encrypted form is kept.
pub fn maybe_encrypt_secret(
    value: Option<String>,
    encrypt: bool,
    passphrase: Option<&str>,
) -> (r: Result<(Option<String>, Option<EncryptedSecret>), SecretError>)
    ensures
        !encrypt ==> (r matches Ok(p) && p.1 is None && (match value {
            Some(v) => p.0 matches Some(pv) && pv@ == v@,
            None => p.0 is None,
        })),
        encrypt && value is None ==> (r matches Ok(p) && p.0 is None && p.1 is None),
        encrypt && value is Some && passphrase is None ==> (r matches Err(e) && e
            is PassphraseRequired),
        encrypt && value is Some && passphrase is Some ==> (match r {
            Ok(p) => p.0 is None && p.1 is Some,
            Err(e) => e is CryptoFailed,
        }),
{
    if !encrypt {
        return Ok((value, None));
    }
    let plaintext = match value {
        Some(v) => v,
        None => {
            return Ok((None, None));
        },
    };
    let passphrase = match passphrase {
        Some(p) => p,
        None => {
            return Err(SecretError::PassphraseRequired);
        },
    };
    match encrypt_secret(passphrase, plaintext.as_str()) {
        Ok(e) => Ok((None, Some(e))),
        Err(_) => Err(SecretError::CryptoFailed),
    }
}

} // verus!
