use base64::Engine as _;
use vaultship::signing::{
    sign_image_reference, split_signed_reference, verify_signature, SignError,
};

fn make_keypair(seed: u8) -> (String, String) {
    let mut secret = [0u8; 32];
    for (i, x) in secret.iter_mut().enumerate() {
        *x = (i as u8).wrapping_mul(37).wrapping_add(seed);
    }
    let signing = ed25519_dalek::SigningKey::from_bytes(&secret);
    let verifying = signing.verifying_key();
    let priv_b64 = base64::engine::general_purpose::STANDARD.encode(signing.to_bytes());
    let pub_b64 = base64::engine::general_purpose::STANDARD.encode(verifying.to_bytes());
    (priv_b64, pub_b64)
}

fn keypair_from_secret(secret: [u8; 32]) -> (String, String) {
    let signing = ed25519_dalek::SigningKey::from_bytes(&secret);
    let verifying = signing.verifying_key();
    (
        base64::engine::general_purpose::STANDARD.encode(signing.to_bytes()),
        base64::engine::general_purpose::STANDARD.encode(verifying.to_bytes()),
    )
}

#[test]
fn roundtrip_sign_verify() {
    let (signing, verifying) = make_keypair(1);
    let signed = sign_image_reference("myapp:v1.0", &signing).expect("sign");
    assert!(signed.contains("@sig:"), "must contain @sig: marker");
    verify_signature(&signed, &verifying).expect("verify must pass");
    let tampered = signed.replace("myapp:v1.0", "evil:latest");
    assert!(verify_signature(&tampered, &verifying).is_err());
}

#[test]
fn wrong_key_fails_verification() {
    let (signing_b64, _) = make_keypair(1);
    let (_, wrong_pub_b64) = make_keypair(2);
    let signed = sign_image_reference("myapp:v1.0", &signing_b64).expect("sign");
    assert!(verify_signature(&signed, &wrong_pub_b64).is_err());
}

#[test]
fn encrypt_decrypt_sign_verify_pipeline() {
    let mut secret = [0u8; 32];
    for (i, x) in secret.iter_mut().enumerate() {
        *x = (i as u8).wrapping_add(42);
    }
    let (priv_b64, pub_b64) = keypair_from_secret(secret);
    let layer_key = vaultship::layer::generate_layer_key();
    let payload = b"docker-compose.yml contents for myapp:v2";
    let encrypted = vaultship::layer::encrypt_layer(payload, &layer_key).expect("encrypt");
    let decrypted = vaultship::layer::decrypt_layer(&encrypted, &layer_key).expect("decrypt");
    assert_eq!(decrypted, payload);
    let signed_ref = sign_image_reference("myapp:v2", &priv_b64).expect("sign");
    assert!(signed_ref.starts_with("myapp:v2@sig:"));
    verify_signature(&signed_ref, &pub_b64).expect("verify must pass");
}

#[test]
fn tampered_signed_ref_is_rejected() {
    let (priv_b64, pub_b64) = keypair_from_secret([99u8; 32]);
    let signed = sign_image_reference("service:v1", &priv_b64).expect("sign");
    let tampered = signed.replace("service:v1", "evil:v1");
    assert!(verify_signature(&tampered, &pub_b64).is_err());
    let parts: Vec<&str> = signed.splitn(2, "@sig:").collect();
    let bad_ref = format!(
        "{}@sig:AAAAAAAAAAAAAAAAAAAAAAAAAAAAAAAAAAAAAAAAAAAAAAAAAAAAAAAAAAAAAAAAAAAAAAAAAAAAAAAAAAAAAAAA==",
        parts[0]
    );
    assert!(verify_signature(&bad_ref, &pub_b64).is_err());
}

#[test]
fn signing_is_deterministic_and_keys_tolerate_whitespace() {
    let (priv_b64, pub_b64) = make_keypair(3);
    let a = sign_image_reference("app:1", &priv_b64).expect("sign");
    let b = sign_image_reference("app:1", &format!("  {priv_b64}\n")).expect("sign");
    assert_eq!(a, b);
    verify_signature(&a, &format!("{pub_b64}\n")).expect("verify");
}

#[test]
fn signing_and_verification_errors() {
    let (priv_b64, pub_b64) = make_keypair(4);
    assert_eq!(sign_image_reference("x", "not base64!"), Err(SignError::InvalidKeyEncoding));
    assert_eq!(sign_image_reference("x", "AAAA"), Err(SignError::InvalidPrivateKeyLength));
    assert_eq!(verify_signature("x", &pub_b64), Err(SignError::MissingSignatureMarker));
    assert_eq!(verify_signature("x@sig:AAAA", "AAAA"), Err(SignError::InvalidPublicKeyLength));
    assert_eq!(verify_signature("x@sig:AAAA", &pub_b64), Err(SignError::InvalidSignatureLength));
    assert_eq!(verify_signature("x@sig:***", &pub_b64), Err(SignError::InvalidSignatureEncoding));
    let signed = sign_image_reference("x", &priv_b64).expect("sign");
    let other = signed.replacen("x@", "y@", 1);
    assert_eq!(verify_signature(&other, &pub_b64), Err(SignError::VerificationFailed));
    let (a, b) = split_signed_reference("img@sig:abc@sig:def").expect("split");
    assert_eq!(a, "img");
    assert_eq!(b, "abc@sig:def");
}
