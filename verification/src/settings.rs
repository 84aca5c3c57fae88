//! Application settings and their sealed at-rest form: the settings
//! bytes are framed as nonce plus ciphertext and then base64-encoded.
//! The framing and its round trip are verified; the cipher and the
//! encoding are trusted wrappers over outside crates. Reading and
//! writing the sealed file is left to the surrounding application.

use vstd::prelude::*;
use aes_gcm::aead::{Aead, AeadCore};
use aes_gcm::KeyInit;
use base64::Engine;

verus! {

/// Connection parameters of one remote endpoint.
#[derive(Debug, PartialEq, Eq)]
pub struct SshConfig {
    pub hostname: String,
    pub port: u16,
    pub username: String,
    pub key_path: String,
}

/// One stored backup job: an endpoint and a remote/local path pair.
#[derive(Debug, PartialEq, Eq)]
pub struct BackupConfig {
    pub ssh: SshConfig,
    pub remote_folder: String,
    pub local_folder: String,
}

/// Persisted application settings.
#[derive(Debug, PartialEq, Eq)]
pub struct AppSettings {
    pub backup_configs: Vec<BackupConfig>,
    pub default_local_backup_path: Option<String>,
    pub auto_backup_enabled: bool,
    pub auto_backup_interval_hours: u32,
}

impl Default for AppSettings {
    /// No jobs, no default path, automatic backup off, daily interval.
    fn default() -> (r: AppSettings)
        ensures
            r.backup_configs@.len() == 0,
            r.default_local_backup_path is None,
            !r.auto_backup_enabled,
            r.auto_backup_interval_hours == 24,
    {
        AppSettings {
            backup_configs: Vec::new(),
            default_local_backup_path: None,
            auto_backup_enabled: false,
            auto_backup_interval_hours: 24,
        }
    }
}

/// A failure while opening sealed settings, distinct per cause.
#[derive(Clone, Copy, Debug, PartialEq, Eq, Structural)]
pub enum ConfigError {
    /// The text is not valid base64.
    InvalidEncoding,
    /// The decoded bytes are too short to hold a nonce.
    InvalidData,
    /// The ciphertext did not authenticate under the key.
    DecryptionFailed,
}

/// The ciphertext (with its appended authentication tag) that
/// AES-256-GCM produces for a key, nonce and plaintext.
pub uninterp spec fn gcm_seal_of(key: Seq<u8>, nonce: Seq<u8>, plain: Seq<u8>) -> Seq<u8>;

/// The base64 text (standard alphabet, padded) of a byte string.
pub uninterp spec fn b64_of(data: Seq<u8>) -> Seq<char>;

/// Relies on aes_gcm's `Aes256Gcm::encrypt`: the ciphertext with its
/// appended tag is a function of the key, the nonce and the
/// plaintext alone.
#[verifier::external_body]
fn aes_encrypt(key: &[u8; 32], nonce: &Vec<u8>, plain: &Vec<u8>) -> (r: Option<Vec<u8>>)
    requires
        nonce@.len() == 12,
    ensures
        r matches Some(c) ==> c@ == gcm_seal_of(key@, nonce@, plain@),
{
    let cipher = aes_gcm::Aes256Gcm::new(aes_gcm::Key::<aes_gcm::Aes256Gcm>::from_slice(key));
    let n = aes_gcm::Nonce::from_slice(nonce.as_slice());
    cipher.encrypt(n, plain.as_slice()).ok()
}

/// Relies on aes_gcm's `Aes256Gcm::decrypt`: a ciphertext produced by
/// `encrypt` under the same key and nonce decrypts to the original
/// plaintext (the AEAD round trip its documentation promises).
#[verifier::external_body]
fn aes_decrypt(key: &[u8; 32], nonce: &Vec<u8>, cipher_text: &Vec<u8>) -> (r: Option<Vec<u8>>)
    requires
        nonce@.len() == 12,
    ensures
        r is None ==> forall|plain: Seq<u8>| cipher_text@ != gcm_seal_of(key@, nonce@, plain),
        r matches Some(p) ==> forall|plain: Seq<u8>|
            cipher_text@ == gcm_seal_of(key@, nonce@, plain) ==> p@ == plain,
{
    let cipher = aes_gcm::Aes256Gcm::new(aes_gcm::Key::<aes_gcm::Aes256Gcm>::from_slice(key));
    let n = aes_gcm::Nonce::from_slice(nonce.as_slice());
    cipher.decrypt(n, cipher_text.as_slice()).ok()
}

/// Relies on base64's `STANDARD` engine: the encoding is a function
/// of the input bytes.
#[verifier::external_body]
fn b64_encode(data: &Vec<u8>) -> (r: String)
    ensures
        r@ == b64_of(data@),
{
    base64::engine::general_purpose::STANDARD.encode(data.as_slice())
}

/// Relies on base64's `STANDARD` engine: decoding inverts encoding
/// (the crate's documented round trip); `None` on text that is not
/// valid base64.
#[verifier::external_body]
fn b64_decode(text: &str) -> (r: Option<Vec<u8>>)
    ensures
        r is None ==> forall|data: Seq<u8>| text@ != b64_of(data),
        r matches Some(d) ==> forall|data: Seq<u8>| text@ == b64_of(data) ==> d@ == data,
{
    base64::engine::general_purpose::STANDARD.decode(text.as_bytes()).ok()
}

/// Relies on `Aes256Gcm::generate_nonce` over rand's thread-local
/// generator: a fresh 96-bit (12-byte) nonce. Its value is random;
/// only its length is promised.
#[verifier::external_body]
fn generate_nonce() -> (r: Vec<u8>)
    ensures
        r@.len() == 12,
{
    aes_gcm::Aes256Gcm::generate_nonce(&mut rand::thread_rng()).to_vec()
}

/// Seal settings bytes under `key`: encrypt under a fresh nonce,
/// prepend the nonce, and base64-encode the frame.
pub fn seal_settings(key: &[u8; 32], plain: &Vec<u8>) -> (r: Option<String>)
    ensures
        r matches Some(s) ==> exists|nonce: Seq<u8>|
            nonce.len() == 12 && s@ == b64_of(nonce + gcm_seal_of(key@, nonce, plain@)),
{
    let nonce = generate_nonce();
    match aes_encrypt(key, &nonce, plain) {
        Option::Some(cipher_text) => {
            let mut framed: Vec<u8> = Vec::new();
            let mut i: usize = 0;
            let ghost nonce_view = nonce@;
            while i < nonce.len()
                invariant
                    nonce@ == nonce_view,
                    i <= nonce@.len(),
                    framed@ == nonce@.take(i as int),
                decreases nonce@.len() - i,
            {
                framed.push(nonce[i]);
                proof {
                    assert(framed@ =~= nonce@.take(i as int + 1));
                }
                i = i + 1;
            }
            proof {
                assert(nonce@.take(nonce@.len() as int) =~= nonce@);
            }
            let mut j: usize = 0;
            while j < cipher_text.len()
                invariant
                    nonce@ == nonce_view,
                    j <= cipher_text@.len(),
                    framed@ == nonce@ + cipher_text@.take(j as int),
                decreases cipher_text@.len() - j,
            {
                framed.push(cipher_text[j]);
                proof {
                    assert(framed@ =~= nonce@ + cipher_text@.take(j as int + 1));
                }
                j = j + 1;
            }
            proof {
                assert(cipher_text@.take(cipher_text@.len() as int) =~= cipher_text@);
            }
            let encoded = b64_encode(&framed);
            proof {
                assert(encoded@ == b64_of(nonce@ + gcm_seal_of(key@, nonce@, plain@)));
            }
            Some(encoded)
        },
        Option::None => None,
    }
}

/// Open sealed settings text under `key`: decode the base64 frame,
/// split off the nonce, and decrypt. Opening inverts sealing: for a
/// frame produced under the same key, the original settings bytes
/// come back.
pub fn open_settings(key: &[u8; 32], text: &str) -> (r: Result<Vec<u8>, ConfigError>)
    ensures
        forall|nonce: Seq<u8>, plain: Seq<u8>|
            nonce.len() == 12 && text@ == b64_of(nonce + gcm_seal_of(key@, nonce, plain)) ==> (
            r matches Ok(p) && p@ == plain),
{
    let decoded_opt = b64_decode(text);
    match decoded_opt {
        Option::None => {
            proof {
                assert forall|nonce: Seq<u8>, plain: Seq<u8>|
                    nonce.len() == 12 && text@ == b64_of(
                        nonce + gcm_seal_of(key@, nonce, plain),
                    ) implies false by {}
            }
            Err(ConfigError::InvalidEncoding)
        },
        Option::Some(decoded) => {
            if decoded.len() < 12 {
                proof {
                    assert forall|nonce: Seq<u8>, plain: Seq<u8>|
                        nonce.len() == 12 && text@ == b64_of(
                            nonce + gcm_seal_of(key@, nonce, plain),
                        ) implies false by {
                        assert(decoded@ == nonce + gcm_seal_of(key@, nonce, plain));
                        assert(decoded@.len() >= 12);
                    }
                }
                return Err(ConfigError::InvalidData);
            }
            let mut nonce_part: Vec<u8> = Vec::new();
            let mut i: usize = 0;
            while i < 12
                invariant
                    decoded@.len() >= 12,
                    i <= 12,
                    nonce_part@ == decoded@.take(i as int),
                decreases 12 - i,
            {
                nonce_part.push(decoded[i]);
                proof {
                    assert(nonce_part@ =~= decoded@.take(i as int + 1));
                }
                i = i + 1;
            }
            let mut cipher_part: Vec<u8> = Vec::new();
            let mut j: usize = 12;
            while j < decoded.len()
                invariant
                    decoded@.len() >= 12,
                    12 <= j <= decoded@.len(),
                    nonce_part@ == decoded@.take(12),
                    cipher_part@ == decoded@.subrange(12, j as int),
                decreases decoded@.len() - j,
            {
                cipher_part.push(decoded[j]);
                proof {
                    assert(cipher_part@ =~= decoded@.subrange(12, j as int + 1));
                }
                j = j + 1;
            }
            let plain_opt = aes_decrypt(key, &nonce_part, &cipher_part);
            match plain_opt {
                Option::Some(p) => {
                    proof {
                        assert forall|nonce: Seq<u8>, plain: Seq<u8>|
                            nonce.len() == 12 && text@ == b64_of(
                                nonce + gcm_seal_of(key@, nonce, plain),
                            ) implies p@ == plain by {
                            assert(decoded@ == nonce + gcm_seal_of(key@, nonce, plain));
                            assert(nonce_part@ =~= nonce);
                            assert(cipher_part@ =~= gcm_seal_of(key@, nonce, plain));
                        }
                    }
                    Ok(p)
                },
                Option::None => {
                    proof {
                        assert forall|nonce: Seq<u8>, plain: Seq<u8>|
                            nonce.len() == 12 && text@ == b64_of(
                                nonce + gcm_seal_of(key@, nonce, plain),
                            ) implies false by {
                            assert(decoded@ == nonce + gcm_seal_of(key@, nonce, plain));
                            assert(nonce_part@ =~= nonce);
                            assert(cipher_part@ =~= gcm_seal_of(key@, nonce, plain));
                        }
                    }
                    Err(ConfigError::DecryptionFailed)
                },
            }
        },
    }
}

} // verus!
