//! Sealing the tracker's credentials for the disk: a key from the password,
//! and the credentials encrypted under it.
//!
//! The files are the caller's. It reads or creates the salt, hands the
//! credentials in as the text that it stores, and gets back what to write;
//! on the way back it hands in what it has read and gets the text.

use crate::codec::{
    base64_decode, base64_decoded, base64_encode, base64_standard, bytes_of, encodable_len,
};
use aes_gcm::aead::{Aead, KeyInit, OsRng};
use aes_gcm::{Aes256Gcm, Nonce};
use argon2::Argon2;
use rand::RngCore;
use vstd::prelude::*;
use vstd::string::*;

verus! {

/// The name of the file that holds the sealed credentials.
pub const CREDENTIALS_FILE: &'static str = "jira_credentials.enc";

/// The name of the file that holds the salt.
pub const SALT_FILE: &'static str = "jira_salt.key";

/// The credentials of the tracker, in the clear.
#[derive(Debug, PartialEq, Eq)]
pub struct JiraCredentials {
    pub base_url: String,
    pub email: String,
    pub api_token: String,
}

impl Clone for JiraCredentials {
    fn clone(&self) -> (r: Self)
        ensures
            r == *self,
    {
        JiraCredentials {
            base_url: self.base_url.clone(),
            email: self.email.clone(),
            api_token: self.api_token.clone(),
        }
    }
}

/// The sealed credentials as they are stored: the nonce and the ciphertext,
/// both in base64.
#[derive(Debug, PartialEq, Eq)]
pub struct EncryptedCredentials {
    pub nonce: String,
    pub ciphertext: String,
}

/// What an [`EncryptedCredentials`] holds, as plain text.
pub struct EncryptedCredentialsView {
    pub nonce: Seq<char>,
    pub ciphertext: Seq<char>,
}

impl View for EncryptedCredentials {
    type V = EncryptedCredentialsView;

    open spec fn view(&self) -> EncryptedCredentialsView {
        EncryptedCredentialsView { nonce: self.nonce@, ciphertext: self.ciphertext@ }
    }
}

/// The key of 32 bytes that Argon2 with its default parameters makes of
/// `password` and `salt`, or the words of its refusal.
pub uninterp spec fn argon2_key(password: Seq<u8>, salt: Seq<u8>) -> Result<Seq<u8>, Seq<char>>;

/// What AES-256-GCM makes of `plain` under `key` and `nonce`: the
/// ciphertext with its tag, or the words of its refusal.
pub uninterp spec fn aes_gcm_sealed(key: Seq<u8>, nonce: Seq<u8>, plain: Seq<u8>) -> Result<
    Seq<u8>,
    Seq<char>,
>;

/// What AES-256-GCM reads out of `sealed` under `key` and `nonce`: the
/// message, or nothing where the tag does not fit.
pub uninterp spec fn aes_gcm_opened(key: Seq<u8>, nonce: Seq<u8>, sealed: Seq<u8>) -> Option<
    Seq<u8>,
>;

/// The view of a derived key.
pub open spec fn key_of(r: Result<[u8; 32], String>) -> Result<Seq<u8>, Seq<char>> {
    match r {
        Ok(key) => Ok(key@),
        Err(e) => Err(e@),
    }
}

/// The view of optional bytes.
pub open spec fn opened_of(r: Option<Vec<u8>>) -> Option<Seq<u8>> {
    match r {
        Some(bytes) => Some(bytes@),
        None => None,
    }
}

/// `Argon2::default().hash_password_into` of the `argon2` crate, into a
/// buffer of 32 bytes: the key, or the text of the error. The function
/// reads nothing but its arguments.
#[verifier::external_body]
fn argon2_derive(password: &[u8], salt: &[u8]) -> (r: Result<[u8; 32], String>)
    ensures
        key_of(r) == argon2_key(password@, salt@),
{
    let mut key = [0u8; 32];
    match Argon2::default().hash_password_into(password, salt, &mut key) {
        Ok(()) => Ok(key),
        Err(e) => Err(e.to_string()),
    }
}

/// `Aes256Gcm::encrypt` of the `aes-gcm` crate, with a cipher made of
/// `key`: the ciphertext with its tag, or the text of the error. The cipher
/// reserves room for the message and its tag of 16 bytes, so the message is
/// kept short of what `usize` can count.
#[verifier::external_body]
fn aes_gcm_seal(key: &[u8; 32], nonce: &[u8; 12], plain: &[u8]) -> (r: Result<Vec<u8>, String>)
    requires
        plain@.len() <= encodable_len() - 16,
    ensures
        bytes_of(r) == aes_gcm_sealed(key@, nonce@, plain@),
{
    match Aes256Gcm::new(key.into()).encrypt(Nonce::from_slice(nonce), plain) {
        Ok(sealed) => Ok(sealed),
        Err(e) => Err(e.to_string()),
    }
}

/// `Aes256Gcm::decrypt` of the `aes-gcm` crate, with a cipher made of
/// `key`: the message, or nothing where the cipher refuses.
#[verifier::external_body]
fn aes_gcm_open(key: &[u8; 32], nonce: &[u8; 12], sealed: &[u8]) -> (r: Option<Vec<u8>>)
    ensures
        opened_of(r) == aes_gcm_opened(key@, nonce@, sealed@),
{
    Aes256Gcm::new(key.into()).decrypt(Nonce::from_slice(nonce), sealed).ok()
}

/// `OsRng.fill_bytes` on 32 bytes: a salt from the system's source of
/// randomness. Two calls are unrelated.
#[verifier::external_body]
fn random_salt() -> (salt: Vec<u8>)
    ensures
        salt@.len() == 32,
{
    let mut salt = vec![0u8; 32];
    OsRng.fill_bytes(&mut salt);
    salt
}

/// `OsRng.fill_bytes` on 12 bytes: a nonce from the system's source of
/// randomness. Two calls are unrelated.
#[verifier::external_body]
fn random_nonce() -> (nonce: [u8; 12]) {
    let mut nonce = [0u8; 12];
    OsRng.fill_bytes(&mut nonce);
    nonce
}

/// A fresh salt of 32 bytes.
pub fn fresh_salt() -> (salt: Vec<u8>)
    ensures
        salt@.len() == 32,
{
    random_salt()
}

/// A fresh nonce.
pub fn fresh_nonce() -> (nonce: [u8; 12]) {
    random_nonce()
}

/// `prefix` followed by `detail`.
fn failure(prefix: &str, detail: &str) -> (message: String)
    ensures
        message@ == prefix@ + detail@,
{
    let mut message = String::from_str(prefix);
    message.append(detail);
    message
}

/// The result of deriving a key, given what Argon2 has made of the
/// password and the salt.
pub open spec fn derived(made: Result<Seq<u8>, Seq<char>>) -> Result<Seq<u8>, Seq<char>> {
    match made {
        Ok(key) => Ok(key),
        Err(e) => Err("Key derivation failed: "@ + e),
    }
}

/// The key for `password` under `salt`.
pub fn derive_key(password: &str, salt: &[u8]) -> (r: Result<[u8; 32], String>)
    ensures
        key_of(r) == derived(argon2_key(password.spec_bytes(), salt@)),
{
    key_from(argon2_derive(password.as_bytes(), salt))
}

/// The result of deriving a key, given what Argon2 has made of the
/// password and the salt.
pub fn key_from(made: Result<[u8; 32], String>) -> (r: Result<[u8; 32], String>)
    ensures
        key_of(r) == derived(key_of(made)),
{
    match made {
        Ok(key) => Ok(key),
        Err(e) => Err(failure("Key derivation failed: ", e.as_str())),
    }
}

/// The failure to seal a text that is too long for the cipher or for the
/// encoder.
pub open spec fn too_long() -> Seq<char> {
    "Encryption failed: message too long"@
}

/// What is stored of a sealed text, given the nonce and what the cipher
/// has made of the text.
pub open spec fn stored(nonce: Seq<u8>, sealed: Result<Seq<u8>, Seq<char>>) -> Result<
    EncryptedCredentialsView,
    Seq<char>,
> {
    match sealed {
        Ok(bytes) => if bytes.len() <= encodable_len() {
            Ok(
                EncryptedCredentialsView {
                    nonce: base64_standard(nonce),
                    ciphertext: base64_standard(bytes),
                },
            )
        } else {
            Err(too_long())
        },
        Err(e) => Err("Encryption failed: "@ + e),
    }
}

/// What sealing `plain` under `key` and `nonce` gives.
pub open spec fn encrypted(key: Seq<u8>, nonce: Seq<u8>, plain: Seq<u8>) -> Result<
    EncryptedCredentialsView,
    Seq<char>,
> {
    if plain.len() <= encodable_len() - 16 {
        stored(nonce, aes_gcm_sealed(key, nonce, plain))
    } else {
        Err(too_long())
    }
}

/// The view of a sealing result.
pub open spec fn stored_of(r: Result<EncryptedCredentials, String>) -> Result<
    EncryptedCredentialsView,
    Seq<char>,
> {
    match r {
        Ok(e) => Ok(e@),
        Err(e) => Err(e@),
    }
}

/// Seals `plain_text` under `key` with `nonce`: what to store.
pub fn encrypt_credentials(key: &[u8; 32], nonce: &[u8; 12], plain_text: &str) -> (r: Result<
    EncryptedCredentials,
    String,
>)
    ensures
        stored_of(r) == encrypted(key@, nonce@, plain_text.spec_bytes()),
{
    let plain = plain_text.as_bytes();
    if plain.len() > usize::MAX / 2 - 16 {
        return Err(String::from_str("Encryption failed: message too long"));
    }
    let sealed = aes_gcm_seal(key, nonce, plain);
    store(nonce, sealed)
}

/// What is stored of a sealed text, given the nonce and what the cipher
/// has made of the text.
pub fn store(nonce: &[u8; 12], sealed: Result<Vec<u8>, String>) -> (r: Result<
    EncryptedCredentials,
    String,
>)
    ensures
        stored_of(r) == stored(nonce@, bytes_of(sealed)),
{
    match sealed {
        Ok(bytes) => {
            if bytes.len() > usize::MAX / 2 {
                Err(String::from_str("Encryption failed: message too long"))
            } else {
                Ok(
                    EncryptedCredentials {
                        nonce: base64_encode(nonce.as_slice()),
                        ciphertext: base64_encode(bytes.as_slice()),
                    },
                )
            }
        },
        Err(e) => Err(failure("Encryption failed: ", e.as_str())),
    }
}

/// The failure to open what is stored: a wrong password, or stored bytes
/// that are not what was written.
pub open spec fn cannot_open() -> Seq<char> {
    "Invalid password or corrupted credentials"@
}

/// What opening stored credentials under `key` gives, given what the
/// decoder has made of the stored nonce and of the stored ciphertext. A
/// nonce of another length than 12 bytes is not what was written.
pub open spec fn opened(
    key: Seq<u8>,
    nonce: Result<Seq<u8>, Seq<char>>,
    sealed: Result<Seq<u8>, Seq<char>>,
) -> Result<Seq<u8>, Seq<char>> {
    match nonce {
        Err(e) => Err("Failed to decode nonce: "@ + e),
        Ok(nonce_bytes) => match sealed {
            Err(e) => Err("Failed to decode ciphertext: "@ + e),
            Ok(sealed_bytes) => if nonce_bytes.len() == 12 {
                match aes_gcm_opened(key, nonce_bytes, sealed_bytes) {
                    Some(plain) => Ok(plain),
                    None => Err(cannot_open()),
                }
            } else {
                Err(cannot_open())
            },
        },
    }
}

/// Opens what is stored under `key`: the text that was sealed, as bytes.
pub fn decrypt_credentials(key: &[u8; 32], encrypted: &EncryptedCredentials) -> (r: Result<
    Vec<u8>,
    String,
>)
    ensures
        bytes_of(r) == opened(
            key@,
            base64_decoded(encrypted@.nonce),
            base64_decoded(encrypted@.ciphertext),
        ),
{
    let nonce = base64_decode(encrypted.nonce.as_str());
    let sealed = base64_decode(encrypted.ciphertext.as_str());
    open(key, nonce, sealed)
}

/// Opens stored credentials under `key`, given what the decoder has made of
/// the stored nonce and of the stored ciphertext.
pub fn open(key: &[u8; 32], nonce: Result<Vec<u8>, String>, sealed: Result<Vec<u8>, String>) -> (r:
    Result<Vec<u8>, String>)
    ensures
        bytes_of(r) == opened(key@, bytes_of(nonce), bytes_of(sealed)),
{
    let nonce_bytes = match nonce {
        Ok(bytes) => bytes,
        Err(e) => {
            return Err(failure("Failed to decode nonce: ", e.as_str()));
        },
    };
    let sealed_bytes = match sealed {
        Ok(bytes) => bytes,
        Err(e) => {
            return Err(failure("Failed to decode ciphertext: ", e.as_str()));
        },
    };
    if nonce_bytes.len() != 12 {
        return Err(String::from_str("Invalid password or corrupted credentials"));
    }
    let mut nonce12: [u8; 12] = [0u8; 12];
    let mut i: usize = 0;
    while i < 12
        invariant
            i <= 12,
            nonce_bytes.len() == 12,
            forall|j: int| 0 <= j < i ==> nonce12@[j] == nonce_bytes@[j],
        decreases 12 - i,
    {
        nonce12[i] = nonce_bytes[i];
        i += 1;
    }
    assert(nonce12@ =~= nonce_bytes@);
    plain_from(aes_gcm_open(key, &nonce12, sealed_bytes.as_slice()))
}

/// The result of opening, given what the cipher has read: the message, or
/// the failure where it has read none.
pub fn plain_from(read: Option<Vec<u8>>) -> (r: Result<Vec<u8>, String>)
    ensures
        bytes_of(r) == (match opened_of(read) {
            Some(plain) => Ok(plain),
            None => Err(cannot_open()),
        }),
{
    match read {
        Some(plain) => Ok(plain),
        None => Err(String::from_str("Invalid password or corrupted credentials")),
    }
}

} // verus!
