//! The encrypted vault: a secret sealed with AES-256-GCM under a master key,
//! stored as base64 text with the nonce it was sealed with.
use aes_gcm::aead::rand_core::RngCore;
use aes_gcm::aead::{Aead, KeyInit};
use base64::Engine;
use crate::text::push_decimal;
use vstd::prelude::*;
use vstd::utf8::{decode_utf8, encode_utf8, valid_utf8};

verus! {

broadcast use vstd::string::group_string_axioms;

/// The vault file format this library reads and writes.
pub const VAULT_VERSION: u32 = 1;

/// The longest plaintext AES-GCM seals, in bytes.
pub const GCM_MAX_PLAINTEXT: u64 = 0x10_0000_0000;

/// A sealed secret as stored on disk.
#[derive(Debug, Clone, PartialEq)]
pub struct VaultFile {
    pub version: u32,
    /// The nonce, in base64.
    pub nonce: String,
    /// The ciphertext with its tag, in base64.
    pub ciphertext: String,
}

pub struct VaultFileView {
    pub version: u32,
    pub nonce: Seq<char>,
    pub ciphertext: Seq<char>,
}

impl View for VaultFile {
    type V = VaultFileView;

    open spec fn view(&self) -> VaultFileView {
        VaultFileView { version: self.version, nonce: self.nonce@, ciphertext: self.ciphertext@ }
    }
}

/// The base64 text (standard alphabet, padded) of some bytes.
pub uninterp spec fn base64_text(bytes: Seq<u8>) -> Seq<char>;

/// The bytes a base64 text (standard alphabet, padded) stands for, if it is
/// well formed.
pub uninterp spec fn base64_bytes(text: Seq<char>) -> Option<Seq<u8>>;

/// The AES-256-GCM ciphertext (with its tag) of a plaintext under a key and
/// nonce.
pub uninterp spec fn gcm_sealed(key: Seq<u8>, nonce: Seq<u8>, plaintext: Seq<u8>) -> Seq<u8>;

/// The plaintext an AES-256-GCM ciphertext opens to under a key and nonce, if
/// its tag checks.
pub uninterp spec fn gcm_opened(key: Seq<u8>, nonce: Seq<u8>, ciphertext: Seq<u8>) -> Option<
    Seq<u8>,
>;

/// Calls `base64::engine::general_purpose::STANDARD.encode`. The text is named
/// by `base64_text`, and the same engine decodes it back to the bytes.
#[verifier::external_body]
fn encode_base64(bytes: &[u8]) -> (text: String)
    ensures
        text@ == base64_text(bytes@),
        base64_bytes(text@) == Some(bytes@),
{
    base64::engine::general_purpose::STANDARD.encode(bytes)
}

/// Calls `base64::engine::general_purpose::STANDARD.decode`; an error comes
/// back as its message, whose text is not stated.
#[verifier::external_body]
fn decode_base64(text: &str) -> (bytes: Result<Vec<u8>, String>)
    ensures
        match bytes {
            Ok(b) => base64_bytes(text@) == Some(b@),
            Err(_) => base64_bytes(text@) is None,
        },
{
    match base64::engine::general_purpose::STANDARD.decode(text) {
        Ok(b) => Ok(b),
        Err(e) => Err(e.to_string()),
    }
}

/// Calls `Aes256Gcm::encrypt` with no associated data. It fails only on a
/// plaintext longer than `GCM_MAX_PLAINTEXT`; the ciphertext is named by
/// `gcm_sealed`, and decrypting it under the same key and nonce gives the
/// plaintext back. The error message's text is not stated.
#[verifier::external_body]
fn seal_gcm(key: &[u8], nonce: &[u8], plaintext: &[u8]) -> (sealed: Result<Vec<u8>, String>)
    requires
        key@.len() == 32,
        nonce@.len() == 12,
    ensures
        match sealed {
            Ok(c) => plaintext@.len() <= GCM_MAX_PLAINTEXT && c@ == gcm_sealed(
                key@,
                nonce@,
                plaintext@,
            ) && gcm_opened(key@, nonce@, c@) == Some(plaintext@),
            Err(_) => plaintext@.len() > GCM_MAX_PLAINTEXT,
        },
{
    let cipher = aes_gcm::Aes256Gcm::new(aes_gcm::Key::<aes_gcm::Aes256Gcm>::from_slice(key));
    match cipher.encrypt(aes_gcm::Nonce::from_slice(nonce), plaintext) {
        Ok(c) => Ok(c),
        Err(e) => Err(e.to_string()),
    }
}

/// Calls `Aes256Gcm::decrypt` with no associated data; the plaintext is named
/// by `gcm_opened`. The error message's text is not stated.
#[verifier::external_body]
fn open_gcm(key: &[u8], nonce: &[u8], ciphertext: &[u8]) -> (opened: Result<Vec<u8>, String>)
    requires
        key@.len() == 32,
        nonce@.len() == 12,
    ensures
        match opened {
            Ok(p) => gcm_opened(key@, nonce@, ciphertext@) == Some(p@),
            Err(_) => gcm_opened(key@, nonce@, ciphertext@) is None,
        },
{
    let cipher = aes_gcm::Aes256Gcm::new(aes_gcm::Key::<aes_gcm::Aes256Gcm>::from_slice(key));
    match cipher.decrypt(aes_gcm::Nonce::from_slice(nonce), ciphertext) {
        Ok(p) => Ok(p),
        Err(e) => Err(e.to_string()),
    }
}

/// Calls `String::from_utf8`: it succeeds exactly on valid UTF-8, with the
/// characters the bytes encode. The error message's text is not stated.
#[verifier::external_body]
fn string_from_utf8(bytes: Vec<u8>) -> (text: Result<String, String>)
    ensures
        match text {
            Ok(s) => valid_utf8(bytes@) && s@ == decode_utf8(bytes@),
            Err(_) => !valid_utf8(bytes@),
        },
{
    match String::from_utf8(bytes) {
        Ok(s) => Ok(s),
        Err(e) => Err(e.to_string()),
    }
}

/// `count` bytes from the operating system's random source
/// (`OsRng::try_fill_bytes`), or the message of its error when the source
/// fails. Nothing is stated of the bytes but their number, nor of the
/// message's text.
#[verifier::external_body]
pub(crate) fn random_bytes(count: usize) -> (bytes: Result<Vec<u8>, String>)
    ensures
        bytes matches Ok(b) ==> b@.len() == count,
{
    let mut bytes = vec![0u8; count];
    match aes_gcm::aead::OsRng.try_fill_bytes(&mut bytes) {
        Ok(()) => Ok(bytes),
        Err(e) => Err(e.to_string()),
    }
}

/// The start of the message when the random source fails.
pub open spec fn random_failed_prefix() -> Seq<char> {
    "Failed to draw random bytes: "@
}

/// Draws `count` random bytes; an error names the failing random source.
pub(crate) fn draw_random_bytes(count: usize) -> (bytes: Result<Vec<u8>, String>)
    ensures
        match bytes {
            Ok(b) => b@.len() == count,
            Err(m) => starts_with(m@, random_failed_prefix()),
        },
{
    match random_bytes(count) {
        Ok(b) => Ok(b),
        Err(e) => Err(message("Failed to draw random bytes: ", e.as_str())),
    }
}

/// `s` begins with `prefix`.
pub open spec fn starts_with(s: Seq<char>, prefix: Seq<char>) -> bool {
    prefix.len() <= s.len() && s.subrange(0, prefix.len() as int) == prefix
}

/// `prefix` followed by `detail`.
fn message(prefix: &str, detail: &str) -> (m: String)
    ensures
        m@ == prefix@ + detail@,
        starts_with(m@, prefix@),
{
    let mut m = String::from_str(prefix);
    m.append(detail);
    proof {
        assert(m@.subrange(0, prefix@.len() as int) =~= prefix@);
    }
    m
}

pub open spec fn invalid_master_key_prefix() -> Seq<char> {
    "Invalid vault master key: "@
}

pub open spec fn master_key_length_message() -> Seq<char> {
    "Vault master key must be 32 bytes"@
}

pub open spec fn encrypt_failed_prefix() -> Seq<char> {
    "Failed to encrypt vault secret: "@
}

pub open spec fn unsupported_version_message(version: u32) -> Seq<char> {
    "Unsupported vault version: "@ + crate::text::decimal_text(version as nat)
}

pub open spec fn invalid_nonce_prefix() -> Seq<char> {
    "Invalid vault nonce: "@
}

pub open spec fn invalid_ciphertext_prefix() -> Seq<char> {
    "Invalid vault ciphertext: "@
}

pub open spec fn decrypt_failed_prefix() -> Seq<char> {
    "Failed to decrypt vault secret: "@
}

pub open spec fn invalid_utf8_prefix() -> Seq<char> {
    "Vault plaintext is invalid UTF-8: "@
}

/// The key held in 32 bytes.
fn key_from_bytes(bytes: &Vec<u8>) -> (key: [u8; 32])
    requires
        bytes@.len() == 32,
    ensures
        key@ == bytes@,
{
    let mut key = [0u8; 32];
    let mut i: usize = 0;
    while i < 32
        invariant
            i <= 32,
            bytes@.len() == 32,
            forall|j: int| 0 <= j < i ==> key@[j] == bytes@[j],
        decreases 32 - i,
    {
        key[i] = bytes[i];
        i += 1;
    }
    proof {
        assert(key@ =~= bytes@);
    }
    key
}

/// Reads the master key from its base64 text: an error when the text is not
/// base64 or does not hold exactly 32 bytes.
pub fn decode_master_key(encoded: &str) -> (key: Result<[u8; 32], String>)
    ensures
        match base64_bytes(encoded@) {
            None => key matches Err(m) && starts_with(m@, invalid_master_key_prefix()),
            Some(b) => if b.len() == 32 {
                key matches Ok(k) && k@ == b
            } else {
                key matches Err(m) && m@ == master_key_length_message()
            },
        },
{
    match decode_base64(encoded) {
        Err(e) => Err(message("Invalid vault master key: ", e.as_str())),
        Ok(bytes) => {
            if bytes.len() != 32 {
                Err(String::from_str("Vault master key must be 32 bytes"))
            } else {
                Ok(key_from_bytes(&bytes))
            }
        },
    }
}

/// A fresh random master key and its base64 text, which reads back as the
/// key; an error when the random source fails.
pub fn new_master_key() -> (created: Result<([u8; 32], String), String>)
    ensures
        match created {
            Ok((key, text)) => text@ == base64_text(key@) && base64_bytes(text@) == Some(key@),
            Err(m) => starts_with(m@, random_failed_prefix()),
        },
{
    let bytes = match draw_random_bytes(32) {
        Ok(bytes) => bytes,
        Err(e) => return Err(e),
    };
    let key = key_from_bytes(&bytes);
    let encoded = encode_base64(key.as_slice());
    Ok((key, encoded))
}

/// The vault file of `secret` sealed under `key` with `nonce`.
pub open spec fn sealed_vault(key: Seq<u8>, nonce: Seq<u8>, secret: Seq<char>) -> VaultFileView {
    VaultFileView {
        version: VAULT_VERSION,
        nonce: base64_text(nonce),
        ciphertext: base64_text(gcm_sealed(key, nonce, encode_utf8(secret))),
    }
}

/// What opening `file` with `key` gives: the secret, or an error (an exact
/// message or the start of one); none where the stored nonce is not 12 bytes
/// long.
pub open spec fn opened_vault(file: VaultFileView, key: Seq<u8>) -> Option<
    Result<Seq<char>, Seq<char>>,
> {
    if file.version != VAULT_VERSION {
        Some(Err(unsupported_version_message(file.version)))
    } else {
        match base64_bytes(file.nonce) {
            None => Some(Err(invalid_nonce_prefix())),
            Some(nonce) => match base64_bytes(file.ciphertext) {
                None => Some(Err(invalid_ciphertext_prefix())),
                Some(ciphertext) => if nonce.len() != 12 {
                    None
                } else {
                    match gcm_opened(key, nonce, ciphertext) {
                        None => Some(Err(decrypt_failed_prefix())),
                        Some(plaintext) => if valid_utf8(plaintext) {
                            Some(Ok(decode_utf8(plaintext)))
                        } else {
                            Some(Err(invalid_utf8_prefix()))
                        },
                    }
                },
            },
        }
    }
}

/// `outcome` is what `expected` describes: the same secret, or an error
/// message that begins with the expected text.
pub open spec fn outcome_matches(
    outcome: Option<Result<String, String>>,
    expected: Option<Result<Seq<char>, Seq<char>>>,
) -> bool {
    match (outcome, expected) {
        (None, None) => true,
        (Some(Ok(s)), Some(Ok(t))) => s@ == t,
        (Some(Err(m)), Some(Err(p))) => starts_with(m@, p),
        _ => false,
    }
}

/// Seals `secret` under `key` with `nonce`; fails only on a secret too long
/// for AES-GCM. The file opens with the same key to the same secret.
pub fn seal_secret_with_nonce(key: &[u8; 32], nonce: &[u8], secret: &str) -> (file: Result<
    VaultFile,
    String,
>)
    requires
        nonce@.len() == 12,
    ensures
        match file {
            Ok(f) => encode_utf8(secret@).len() <= GCM_MAX_PLAINTEXT && f@ == sealed_vault(
                key@,
                nonce@,
                secret@,
            ) && opened_vault(f@, key@) == Some(Ok::<Seq<char>, Seq<char>>(secret@)),
            Err(m) => encode_utf8(secret@).len() > GCM_MAX_PLAINTEXT && starts_with(
                m@,
                encrypt_failed_prefix(),
            ),
        },
{
    broadcast use vstd::utf8::group_utf8_lib;

    let plaintext = secret.as_bytes();
    match seal_gcm(key.as_slice(), nonce, plaintext) {
        Err(e) => Err(message("Failed to encrypt vault secret: ", e.as_str())),
        Ok(ciphertext) => {
            let file = VaultFile {
                version: VAULT_VERSION,
                nonce: encode_base64(nonce),
                ciphertext: encode_base64(ciphertext.as_slice()),
            };
            proof {
                assert(decode_utf8(encode_utf8(secret@)) == secret@);
            }
            Ok(file)
        },
    }
}

/// Seals `secret` under `key` with a fresh random 12-byte nonce; fails only
/// when the random source fails or on a secret too long for AES-GCM. The file is the sealed vault of the secret
/// under some 12-byte nonce (which one is left to chance) and opens with the
/// same key to the same secret.
pub fn seal_secret(key: &[u8; 32], secret: &str) -> (file: Result<VaultFile, String>)
    ensures
        match file {
            Ok(f) => encode_utf8(secret@).len() <= GCM_MAX_PLAINTEXT && (exists|nonce: Seq<u8>|
                nonce.len() == 12 && f@ == #[trigger] sealed_vault(key@, nonce, secret@))
                && opened_vault(f@, key@) == Some(Ok::<Seq<char>, Seq<char>>(secret@)),
            Err(m) => starts_with(m@, random_failed_prefix()) || (encode_utf8(secret@).len()
                > GCM_MAX_PLAINTEXT && starts_with(m@, encrypt_failed_prefix())),
        },
{
    let nonce = match draw_random_bytes(12) {
        Ok(nonce) => nonce,
        Err(e) => return Err(e),
    };
    seal_secret_with_nonce(key, nonce.as_slice(), secret)
}

/// Opens a vault file with the master key that `load_key` gives. A file of
/// another version is refused before the key is loaded; an error of
/// `load_key` is passed on. The result is none where the stored nonce is not
/// 12 bytes long, which AES-GCM cannot take.
pub fn open_vault_file<F: Fn() -> Result<[u8; 32], String>>(file: &VaultFile, load_key: F) -> (opened:
    Option<Result<String, String>>)
    requires
        call_requires(load_key, ()),
    ensures
        file.version != VAULT_VERSION ==> (opened matches Some(Err(m)) && m@
            == unsupported_version_message(file.version)),
        file.version == VAULT_VERSION ==> exists|k: Result<[u8; 32], String>|
            #[trigger] call_ensures(load_key, (), k) && match k {
                Err(e) => opened == Some(Err::<String, String>(e)),
                Ok(key) => outcome_matches(opened, opened_vault(file@, key@)),
            },
{
    if file.version != VAULT_VERSION {
        let mut m = String::from_str("Unsupported vault version: ");
        push_decimal(&mut m, file.version as u64);
        return Some(Err(m));
    }
    let key = match load_key() {
        Err(e) => return Some(Err(e)),
        Ok(key) => key,
    };
    let nonce = match decode_base64(file.nonce.as_str()) {
        Err(e) => return Some(Err(message("Invalid vault nonce: ", e.as_str()))),
        Ok(nonce) => nonce,
    };
    let ciphertext = match decode_base64(file.ciphertext.as_str()) {
        Err(e) => return Some(Err(message("Invalid vault ciphertext: ", e.as_str()))),
        Ok(ciphertext) => ciphertext,
    };
    if nonce.len() != 12 {
        return None;
    }
    let plaintext = match open_gcm(key.as_slice(), nonce.as_slice(), ciphertext.as_slice()) {
        Err(e) => return Some(Err(message("Failed to decrypt vault secret: ", e.as_str()))),
        Ok(plaintext) => plaintext,
    };
    match string_from_utf8(plaintext) {
        Err(e) => Some(Err(message("Vault plaintext is invalid UTF-8: ", e.as_str()))),
        Ok(secret) => Some(Ok(secret)),
    }
}

} // verus!
