use vaultship::layer::{
    decrypt_layer, encrypt_layer, encrypt_layer_with_nonce, generate_layer_key, rotate_layer,
    LayerError,
};

#[test]
fn roundtrip_encrypt_decrypt() {
    let key = [7_u8; 32];
    let input = b"vaultship-layer-bytes";
    let encrypted = encrypt_layer(input, &key).expect("encrypt");
    let output = decrypt_layer(&encrypted, &key).expect("decrypt");
    assert_eq!(output, input);
}

#[test]
fn fails_on_tampered_ciphertext() {
    let key = [9_u8; 32];
    let input = b"vaultship-layer-bytes";
    let mut encrypted = encrypt_layer(input, &key).expect("encrypt");
    encrypted.ciphertext[0] ^= 0x01;
    assert!(decrypt_layer(&encrypted, &key).is_err());
}

#[test]
fn fails_on_stolen_key_mismatch() {
    let right_key = [1_u8; 32];
    let wrong_key = [2_u8; 32];
    let input = b"vaultship-layer-bytes";
    let encrypted = encrypt_layer(input, &right_key).expect("encrypt");
    assert!(decrypt_layer(&encrypted, &wrong_key).is_err());
}

#[test]
fn fails_on_replay_hash_mismatch() {
    let key = [4_u8; 32];
    let input = b"vaultship-layer-bytes";
    let mut encrypted = encrypt_layer(input, &key).expect("encrypt");
    encrypted.original_hash = "deadbeef".to_string();
    assert!(decrypt_layer(&encrypted, &key).is_err());
}

#[test]
fn roundtrip_random_key() {
    let key = generate_layer_key();
    let data = b"hello vaultship integration test";
    let enc = encrypt_layer(data, &key).expect("encrypt");
    let dec = decrypt_layer(&enc, &key).expect("decrypt");
    assert_eq!(dec, data);
}

#[test]
fn tampered_ciphertext_is_rejected() {
    let key = generate_layer_key();
    let data = b"sensitive payload";
    let mut enc = encrypt_layer(data, &key).expect("encrypt");
    enc.ciphertext[0] ^= 0xff;
    assert!(decrypt_layer(&enc, &key).is_err());
}

#[test]
fn wrong_key_is_rejected() {
    let key1 = generate_layer_key();
    let key2 = generate_layer_key();
    let data = b"sensitive payload";
    let enc = encrypt_layer(data, &key1).expect("encrypt");
    assert!(decrypt_layer(&enc, &key2).is_err());
}

#[test]
fn hash_tamper_is_rejected() {
    let key = generate_layer_key();
    let data = b"sensitive payload";
    let mut enc = encrypt_layer(data, &key).expect("encrypt");
    enc.original_hash = "deadbeef".to_string();
    assert!(decrypt_layer(&enc, &key).is_err());
}

#[test]
fn large_payload_roundtrip() {
    let key = generate_layer_key();
    let data: Vec<u8> = (0..65536).map(|i| (i % 256) as u8).collect();
    let enc = encrypt_layer(&data, &key).expect("encrypt large");
    let dec = decrypt_layer(&enc, &key).expect("decrypt large");
    assert_eq!(dec, data);
}

#[test]
fn layer_records_digest_nonce_and_algorithm() {
    let key = [3_u8; 32];
    let enc = encrypt_layer_with_nonce(b"", &key, [5_u8; 12]).expect("encrypt");
    assert_eq!(enc.nonce, vec![5_u8; 12]);
    assert_eq!(enc.algorithm, "AES-256-GCM");
    assert_eq!(enc.original_hash, "e3b0c44298fc1c149afbf4c8996fb92427ae41e4649b934ca495991b7852b855");
    assert_eq!(enc.ciphertext.len(), 16);
}

#[test]
fn decrypt_error_variants() {
    let key = [3_u8; 32];
    let mut enc = encrypt_layer(b"abc", &key).expect("encrypt");
    let good_nonce = enc.nonce.clone();
    enc.nonce = vec![0_u8; 11];
    assert_eq!(decrypt_layer(&enc, &key), Err(LayerError::InvalidNonceLength));
    enc.nonce = good_nonce;
    assert_eq!(decrypt_layer(&enc, &[8_u8; 32]), Err(LayerError::DecryptionFailed));
    enc.original_hash = "00".to_string();
    assert_eq!(decrypt_layer(&enc, &key), Err(LayerError::IntegrityMismatch));
    enc.ciphertext.truncate(5);
    assert_eq!(decrypt_layer(&enc, &key), Err(LayerError::DecryptionFailed));
}

#[test]
fn rotation_keeps_content() {
    let old_key = [1_u8; 32];
    let new_key = [2_u8; 32];
    let enc = encrypt_layer(b"rotate me", &old_key).expect("encrypt");
    let rotated = rotate_layer(&enc, &old_key, &new_key).expect("rotate");
    assert_eq!(decrypt_layer(&rotated, &new_key).expect("decrypt"), b"rotate me");
    assert!(decrypt_layer(&rotated, &old_key).is_err());
    assert_eq!(rotate_layer(&enc, &new_key, &old_key).err(), Some(LayerError::DecryptionFailed));
}

#[test]
fn ciphertext_carries_a_tag_and_digest_is_64_hex() {
    let key = generate_layer_key();
    for n in [0usize, 1, 17, 1000] {
        let data = vec![7u8; n];
        let enc = encrypt_layer(&data, &key).expect("encrypt");
        assert_eq!(enc.ciphertext.len(), n + 16);
        assert_eq!(enc.original_hash.len(), 64);
    }
}
