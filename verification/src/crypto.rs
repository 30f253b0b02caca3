//! The trusted boundary around the cryptographic primitives and identifier
//! generation. Each wrapper makes exactly one outside call; digests and
//! ciphertexts are given names (`sha256_of`, `aes256_gcm_seal`) because they
//! are functions of their arguments alone, while random results carry only
//! what holds of every outcome.
use vstd::prelude::*;

use aes_gcm::KeyInit;
use sha2::Digest;

use crate::text::{bytes_to_hex, hex_seq, is_lower_hex_digit};

verus! {

use vstd::string::StrSliceExecFns;

/// The SHA-256 digest of a byte string, as a function: same bytes in, same
/// digest out, in every process and on every machine.
pub uninterp spec fn sha256_of(input: Seq<u8>) -> Seq<u8>;

/// Relies on sha2::Sha256 (via Digest::digest): the digest is a pure
/// function of the input bytes and is always 32 bytes long.
#[verifier::external_body]
pub(crate) fn sha256_digest(input: &[u8]) -> (r: Vec<u8>)
    ensures
        r@ == sha256_of(input@),
        r@.len() == 32,
{
    let digest = sha2::Sha256::digest(input);
    digest.to_vec()
}

/// The lowercase-hex SHA-256 digest of a string's UTF-8 bytes.
pub open spec fn sha256_hex_of(s: Seq<char>) -> Seq<char> {
    hex_seq(sha256_of(vstd::utf8::encode_utf8(s)))
}

/// Hashes a string and renders the digest in lowercase hex, e.g. the hash
/// stored beside every evidence payload.
pub fn sha256_hex(s: &str) -> (r: String)
    ensures
        r@ == sha256_hex_of(s@),
        r@.len() == 64,
{
    let bytes = s.as_bytes_vec();
    let digest = sha256_digest(bytes.as_slice());
    bytes_to_hex(&digest)
}

/// The AES-256-GCM ciphertext (with its appended tag) for a key, nonce and
/// plaintext: deterministic in all three arguments.
pub uninterp spec fn aes256_gcm_seal(key: Seq<u8>, nonce: Seq<u8>, plaintext: Seq<u8>) -> Seq<u8>;

/// The longest plaintext AES-GCM accepts: 2^36 - 32 bytes.
pub open spec fn aes_gcm_plaintext_limit() -> int {
    0xF_FFFF_FFE0
}

/// Relies on aes_gcm::Aes256Gcm (KeyInit::new_from_slice and Aead::encrypt):
/// encryption is deterministic in key, nonce and plaintext, and the returned
/// buffer is the ciphertext with the 16-byte tag appended. With a 32-byte
/// key and 12-byte nonce the only failure the cipher knows is a plaintext
/// beyond AES-GCM's size limit, so success is owed below it.
#[verifier::external_body]
pub(crate) fn aes256_gcm_encrypt(key: &[u8], nonce: &[u8], plaintext: &[u8]) -> (r: Option<
    Vec<u8>,
>)
    requires
        key@.len() == 32,
        nonce@.len() == 12,
    ensures
        r matches Option::Some(ct) ==> ct@ == aes256_gcm_seal(key@, nonce@, plaintext@)
            && ct@.len() == plaintext@.len() + 16,
        plaintext@.len() <= aes_gcm_plaintext_limit() ==> r is Some,
{
    let cipher = match aes_gcm::Aes256Gcm::new_from_slice(key) {
        Ok(c) => c,
        Err(_) => return None,
    };
    let nonce_arr = match nonce.try_into() {
        Ok(n) => n,
        Err(_) => return None,
    };
    aes_gcm::aead::Aead::encrypt(&cipher, nonce_arr, plaintext).ok()
}

/// Relies on rand::fill (thread-local RNG): fills a fresh buffer of the
/// requested length; nothing is promised of the bytes themselves.
#[verifier::external_body]
pub(crate) fn random_bytes(n: usize) -> (r: Vec<u8>)
    ensures
        r@.len() == n,
{
    let mut buf = vec![0u8; n];
    rand::fill(&mut buf[..]);
    buf
}

/// Relies on uuid::Uuid::new_v4 with the hyphenated Display format: always
/// 36 characters; the value itself is random and carries no promise.
#[verifier::external_body]
pub(crate) fn uuid_hyphenated() -> (r: String)
    ensures
        r@.len() == 36,
{
    uuid::Uuid::new_v4().to_string()
}

/// Relies on uuid::Uuid::new_v4 with the simple format: always 32
/// lowercase hexadecimal digits; which digits they are is random and
/// carries no promise.
#[verifier::external_body]
pub(crate) fn uuid_simple() -> (r: String)
    ensures
        r@.len() == 32,
        forall|i: int| 0 <= i < 32 ==> is_lower_hex_digit(#[trigger] r@[i]),
{
    uuid::Uuid::new_v4().simple().to_string()
}

} // verus!
