//! The cryptographic primitives the library calls: SHA-256, BLAKE3, AES-256-GCM,
//! Ed25519 and the system random number generator. Each result that is a function of
//! its arguments alone has a name; the facts stated beside the names are those the
//! algorithms' definitions give.
use aes_gcm::aead::{Aead, KeyInit};
use ed25519_dalek::{Signer, Verifier};
use rand::RngCore;
use sha2::Digest;
use vstd::prelude::*;

verus! {

/// The largest plaintext, in bytes, that AES-GCM encrypts (`aes_gcm::P_MAX`, 2^36).
pub const AES_GCM_MAX_PLAINTEXT: u64 = 68719476736u64;

/// Length in bytes of an AES-GCM authentication tag.
pub const AES_GCM_TAG_LEN: usize = 16usize;

/// SHA-256 digest of `data`.
pub uninterp spec fn sha256(data: Seq<u8>) -> Seq<u8>;

/// BLAKE3 digest (32 bytes) of `data`.
pub uninterp spec fn blake3_digest(data: Seq<u8>) -> Seq<u8>;

/// AES-256-GCM ciphertext-with-tag of `plaintext` under `key` and `nonce`, no associated data.
pub uninterp spec fn aes256gcm_seal(key: Seq<u8>, nonce: Seq<u8>, plaintext: Seq<u8>) -> Seq<u8>;

/// AES-256-GCM opening of `ciphertext` under `key` and `nonce`; `None` when the tag fails.
pub uninterp spec fn aes256gcm_open(key: Seq<u8>, nonce: Seq<u8>, ciphertext: Seq<u8>) -> Option<
    Seq<u8>,
>;

/// The Ed25519 public key (compressed point) of the 32-byte `secret`.
pub uninterp spec fn ed25519_public_key(secret: Seq<u8>) -> Seq<u8>;

/// The Ed25519 signature of `message` under the 32-byte `secret`.
pub uninterp spec fn ed25519_signature(secret: Seq<u8>, message: Seq<u8>) -> Seq<u8>;

/// Whether `public_key` decompresses to a curve point (`VerifyingKey::from_bytes` succeeds).
pub uninterp spec fn ed25519_point_valid(public_key: Seq<u8>) -> bool;

/// Whether `signature` verifies for `message` under `public_key`.
pub uninterp spec fn ed25519_verifies(public_key: Seq<u8>, message: Seq<u8>, signature: Seq<u8>) -> bool;

/// `sha2::Sha256::digest`: the SHA-256 digest of `data`, named by [`sha256`].
#[verifier::external_body]
pub(crate) fn sha256_bytes(data: &[u8]) -> (r: [u8; 32])
    ensures
        r@ == sha256(data@),
{
    sha2::Sha256::digest(data).into()
}

/// `blake3::hash`: the BLAKE3 digest of `data`, named by [`blake3_digest`].
#[verifier::external_body]
pub(crate) fn blake3_bytes(data: &[u8]) -> (r: [u8; 32])
    ensures
        r@ == blake3_digest(data@),
{
    *blake3::hash(data).as_bytes()
}

/// `Aead::encrypt` of `aes_gcm::Aes256Gcm`: fails exactly when the plaintext is longer than
/// `P_MAX`; otherwise the ciphertext (named by [`aes256gcm_seal`]) is the plaintext's length
/// plus the 16-byte tag.
#[verifier::external_body]
pub(crate) fn aes256gcm_encrypt(key: &[u8; 32], nonce: &[u8; 12], plaintext: &[u8]) -> (r: Option<Vec<u8>>)
    ensures
        r is Some <==> plaintext@.len() <= AES_GCM_MAX_PLAINTEXT,
        r is Some ==> r->0@ == aes256gcm_seal(key@, nonce@, plaintext@),
        r is Some ==> r->0@.len() == plaintext@.len() + AES_GCM_TAG_LEN,
{
    let cipher = aes_gcm::Aes256Gcm::new(aes_gcm::Key::<aes_gcm::Aes256Gcm>::from_slice(key));
    cipher.encrypt(aes_gcm::Nonce::from_slice(nonce), plaintext).ok()
}

/// `Aead::decrypt` of `aes_gcm::Aes256Gcm`: the opening named by [`aes256gcm_open`]. Claimed
/// besides, from the algorithm: a text shorter than the tag never opens, and a ciphertext
/// that sealing produced opens to the plaintext sealed.
#[verifier::external_body]
pub(crate) fn aes256gcm_decrypt(key: &[u8; 32], nonce: &[u8], ciphertext: &[u8]) -> (r: Option<Vec<u8>>)
    requires
        nonce@.len() == 12,
    ensures
        r is Some <==> aes256gcm_open(key@, nonce@, ciphertext@) is Some,
        r is Some ==> aes256gcm_open(key@, nonce@, ciphertext@) == Some(r->0@),
        ciphertext@.len() < AES_GCM_TAG_LEN ==> r is None,
        forall|p: Seq<u8>|
            p.len() <= AES_GCM_MAX_PLAINTEXT && #[trigger] aes256gcm_seal(key@, nonce@, p)
                == ciphertext@ ==> (r is Some && r->0@ == p),
{
    let cipher = aes_gcm::Aes256Gcm::new(aes_gcm::Key::<aes_gcm::Aes256Gcm>::from_slice(key));
    cipher.decrypt(aes_gcm::Nonce::from_slice(nonce), ciphertext).ok()
}

/// `SigningKey::verifying_key`: the public key of `secret`, named by [`ed25519_public_key`];
/// such a key always decompresses.
#[verifier::external_body]
pub(crate) fn ed25519_derive_public(secret: &[u8; 32]) -> (r: [u8; 32])
    ensures
        r@ == ed25519_public_key(secret@),
        ed25519_point_valid(r@),
{
    ed25519_dalek::SigningKey::from_bytes(secret).verifying_key().to_bytes()
}

/// `Signer::sign` of `ed25519_dalek::SigningKey`: the deterministic signature named by
/// [`ed25519_signature`].
#[verifier::external_body]
pub(crate) fn ed25519_sign(secret: &[u8; 32], message: &[u8]) -> (r: [u8; 64])
    ensures
        r@ == ed25519_signature(secret@, message@),
{
    ed25519_dalek::SigningKey::from_bytes(secret).sign(message).to_bytes()
}

/// `VerifyingKey::from_bytes`: whether `public_key` is accepted, named by
/// [`ed25519_point_valid`]; the public key of any secret is accepted.
#[verifier::external_body]
pub(crate) fn ed25519_public_key_accepted(public_key: &[u8; 32]) -> (r: bool)
    ensures
        r == ed25519_point_valid(public_key@),
        forall|s: Seq<u8>|
            s.len() == 32 && #[trigger] ed25519_public_key(s) == public_key@ ==> r,
{
    ed25519_dalek::VerifyingKey::from_bytes(public_key).is_ok()
}

/// `Verifier::verify` of `ed25519_dalek::VerifyingKey`: whether `signature` verifies, named by
/// [`ed25519_verifies`]; a signature made with the matching secret always verifies.
#[verifier::external_body]
pub(crate) fn ed25519_verify(public_key: &[u8; 32], message: &[u8], signature: &[u8; 64]) -> (r: bool)
    requires
        ed25519_point_valid(public_key@),
    ensures
        r == ed25519_verifies(public_key@, message@, signature@),
        forall|s: Seq<u8>|
            s.len() == 32 && #[trigger] ed25519_public_key(s) == public_key@
                && ed25519_signature(s, message@) == signature@ ==> r,
{
    match ed25519_dalek::VerifyingKey::from_bytes(public_key) {
        Ok(key) => key.verify(message, &ed25519_dalek::Signature::from_bytes(signature)).is_ok(),
        Err(_) => false,
    }
}

/// `rand::random::<[u8; 32]>()`: 32 bytes from the thread-local generator.
#[verifier::external_body]
pub(crate) fn random_secret() -> (r: [u8; 32]) {
    rand::random()
}

/// `rand::random::<[u8; 12]>()`: 12 bytes from the thread-local generator.
#[verifier::external_body]
pub(crate) fn random_nonce() -> (r: [u8; 12]) {
    rand::random()
}

/// `RngCore::fill_bytes` on `rand::thread_rng()`: 32 bytes from the thread-local generator.
#[verifier::external_body]
pub(crate) fn fill_random_key() -> (r: [u8; 32]) {
    let mut key = [0u8; 32];
    rand::thread_rng().fill_bytes(&mut key);
    key
}

} // verus!
