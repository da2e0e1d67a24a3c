//! Encrypted container layers: AES-256-GCM sealing of layer bytes, with the SHA-256 of
//! the plaintext kept beside the ciphertext and checked again after decryption.
use vstd::prelude::*;
use crate::crypto::{
    aes256gcm_decrypt, aes256gcm_encrypt, aes256gcm_open, aes256gcm_seal, fill_random_key,
    random_nonce, sha256, sha256_bytes, AES_GCM_MAX_PLAINTEXT,
};
use crate::encoding::{hex_lower, to_hex_lower};
use crate::text::str_eq;

verus! {

/// An encrypted layer as stored and shipped: ciphertext with its tag, the 12-byte nonce,
/// the lowercase hex SHA-256 of the plaintext, and the algorithm's name.
pub struct EncryptedLayer {
    pub ciphertext: Vec<u8>,
    pub nonce: Vec<u8>,
    pub original_hash: String,
    pub algorithm: String,
}

/// Why encrypting or decrypting a layer failed.
#[derive(Debug, Clone, Copy, PartialEq, Eq)]
pub enum LayerError {
    /// The cipher refused the plaintext (longer than AES-GCM allows).
    EncryptionFailed,
    /// The stored nonce is not 12 bytes long.
    InvalidNonceLength,
    /// The ciphertext did not open under the key (wrong key or tampered bytes).
    DecryptionFailed,
    /// The opened plaintext does not hash to the stored digest.
    IntegrityMismatch,
}

/// The name recorded for the cipher.
pub open spec fn algorithm_name() -> Seq<char> {
    "AES-256-GCM"@
}

/// The digest text recorded for a plaintext: lowercase hex of its SHA-256.
pub open spec fn layer_digest(data: Seq<u8>) -> Seq<char> {
    hex_lower(sha256(data))
}

/// `layer` was made from `data` under `key`: sealed with its own nonce, the digest of
/// `data` recorded, and the algorithm named.
pub open spec fn sealed_from(layer: EncryptedLayer, key: Seq<u8>, data: Seq<u8>) -> bool {
    &&& layer.nonce@.len() == 12
    &&& layer.ciphertext@ == aes256gcm_seal(key, layer.nonce@, data)
    &&& layer.original_hash@ == layer_digest(data)
    &&& layer.algorithm@ == algorithm_name()
}

/// What decrypting `layer` with `key` gives.
pub open spec fn decrypt_outcome(layer: EncryptedLayer, key: Seq<u8>) -> Result<Seq<u8>, LayerError> {
    if layer.nonce@.len() != 12 {
        Err(LayerError::InvalidNonceLength)
    } else {
        match aes256gcm_open(key, layer.nonce@, layer.ciphertext@) {
            None => Err(LayerError::DecryptionFailed),
            Some(plain) => if layer_digest(plain) == layer.original_hash@ {
                Ok(plain)
            } else {
                Err(LayerError::IntegrityMismatch)
            },
        }
    }
}

/// A fresh random 32-byte layer key.
pub fn generate_layer_key() -> (key: [u8; 32]) {
    fill_random_key()
}

/// Encrypts `layer_data` under `encryption_key` with the given `nonce`.
pub fn encrypt_layer_with_nonce(layer_data: &[u8], encryption_key: &[u8; 32], nonce: [u8; 12]) -> (r:
    Result<EncryptedLayer, LayerError>)
    ensures
        r is Ok <==> layer_data@.len() <= AES_GCM_MAX_PLAINTEXT,
        r is Ok ==> sealed_from(r->Ok_0, encryption_key@, layer_data@) && r->Ok_0.nonce@ == nonce@,
        r is Ok ==> r->Ok_0.ciphertext@.len() == layer_data@.len() + 16,
        r is Ok ==> r->Ok_0.original_hash@.len() == 64,
        r is Err ==> r == Err::<EncryptedLayer, LayerError>(LayerError::EncryptionFailed),
{
    let ciphertext = match aes256gcm_encrypt(encryption_key, &nonce, layer_data) {
        Some(c) => c,
        None => return Err(LayerError::EncryptionFailed),
    };
    let digest = sha256_bytes(layer_data);
    proof {
        crate::encoding::lemma_hex_lower_len(digest@);
    }
    let mut nonce_vec: Vec<u8> = Vec::new();
    let mut i: usize = 0;
    while i < 12
        invariant
            i <= 12,
            nonce_vec@ == nonce@.take(i as int),
        decreases 12 - i,
    {
        nonce_vec.push(nonce[i]);
        assert(nonce@.take(i as int).push(nonce@[i as int]) =~= nonce@.take(i + 1));
        i = i + 1;
    }
    assert(nonce@.take(12) =~= nonce@);
    Ok(
        EncryptedLayer {
            ciphertext,
            nonce: nonce_vec,
            original_hash: to_hex_lower(&digest),
            algorithm: "AES-256-GCM".to_owned(),
        },
    )
}

/// Encrypts `layer_data` under `encryption_key` with a fresh random nonce.
pub fn encrypt_layer(layer_data: &[u8], encryption_key: &[u8; 32]) -> (r: Result<EncryptedLayer, LayerError>)
    ensures
        r is Ok <==> layer_data@.len() <= AES_GCM_MAX_PLAINTEXT,
        r is Ok ==> sealed_from(r->Ok_0, encryption_key@, layer_data@),
        r is Ok ==> r->Ok_0.ciphertext@.len() == layer_data@.len() + 16,
        r is Ok ==> r->Ok_0.original_hash@.len() == 64,
        r is Err ==> r == Err::<EncryptedLayer, LayerError>(LayerError::EncryptionFailed),
{
    let nonce = random_nonce();
    encrypt_layer_with_nonce(layer_data, encryption_key, nonce)
}

/// Decrypts `layer` with `encryption_key` and checks the plaintext against the stored digest.
/// A layer sealed from some data under the same key decrypts back to that data.
pub fn decrypt_layer(layer: &EncryptedLayer, encryption_key: &[u8; 32]) -> (r: Result<Vec<u8>, LayerError>)
    ensures
        match decrypt_outcome(*layer, encryption_key@) {
            Ok(plain) => r is Ok && r->Ok_0@ == plain,
            Err(e) => r == Err::<Vec<u8>, LayerError>(e),
        },
        forall|data: Seq<u8>|
            data.len() <= AES_GCM_MAX_PLAINTEXT && #[trigger] sealed_from(
                *layer,
                encryption_key@,
                data,
            ) ==> (r is Ok && r->Ok_0@ == data),
{
    if layer.nonce.len() != 12 {
        return Err(LayerError::InvalidNonceLength);
    }
    let plaintext = match aes256gcm_decrypt(encryption_key, &layer.nonce, &layer.ciphertext) {
        Some(p) => p,
        None => return Err(LayerError::DecryptionFailed),
    };
    let digest = to_hex_lower(&sha256_bytes(&plaintext));
    if !str_eq(digest.as_str(), layer.original_hash.as_str()) {
        return Err(LayerError::IntegrityMismatch);
    }
    Ok(plaintext)
}

/// Re-encrypts `layer` from `old_key` to `new_key`: decrypts and checks it, then seals the
/// same plaintext under the new key with a fresh nonce. The content is kept: the result
/// decrypts under the new key to what the layer held under the old one.
pub fn rotate_layer(layer: &EncryptedLayer, old_key: &[u8; 32], new_key: &[u8; 32]) -> (r: Result<EncryptedLayer, LayerError>)
    ensures
        match decrypt_outcome(*layer, old_key@) {
            Err(e) => r == Err::<EncryptedLayer, LayerError>(e),
            Ok(plain) => if plain.len() <= AES_GCM_MAX_PLAINTEXT {
                r is Ok && sealed_from(r->Ok_0, new_key@, plain)
            } else {
                r == Err::<EncryptedLayer, LayerError>(LayerError::EncryptionFailed)
            },
        },
{
    let plaintext = decrypt_layer(layer, old_key)?;
    encrypt_layer(&plaintext, new_key)
}

/// What decrypting a layer gives always hashes to the digest the layer records.
pub proof fn lemma_decrypted_matches_digest(layer: EncryptedLayer, key: Seq<u8>)
    requires
        decrypt_outcome(layer, key) is Ok,
    ensures
        layer_digest(decrypt_outcome(layer, key)->Ok_0) == layer.original_hash@,
        layer.nonce@.len() == 12,
        aes256gcm_open(key, layer.nonce@, layer.ciphertext@) == Some(
            decrypt_outcome(layer, key)->Ok_0,
        ),
{
}

} // verus!
