use base64::Engine as _;
use vaultship::bind::{
    create_bound_key_file, parse_public_key, parse_signing_key, validate_bound_key, BindError,
};
use vaultship::license::{keygen, HardwareFingerprint, License};
use vaultship::sdk::{check_before_machine, validate, SdkError};

fn b64(bytes: &[u8]) -> String {
    base64::engine::general_purpose::STANDARD.encode(bytes)
}

fn machine(host: &str) -> HardwareFingerprint {
    HardwareFingerprint::from_parts(
        vec!["aa:bb".to_string()],
        None,
        host.to_string(),
        "cpu".to_string(),
    )
}

#[test]
fn bound_key_released_on_matching_machine() {
    let (secret, public) = keygen();
    let layer_key = [7_u8; 32];
    let payload = b"key-and-fingerprint".to_vec();
    let signing = parse_signing_key(&format!("{}\n", b64(&secret))).expect("signing key");
    let bound = create_bound_key_file(b64(&layer_key), machine("host-a"), &signing, &payload);
    let key = validate_bound_key(&bound, &payload, &b64(&public), &machine("host-a")).expect("release");
    assert_eq!(key, layer_key);
    assert_eq!(
        validate_bound_key(&bound, &payload, &b64(&public), &HardwareFingerprint::from_parts(
            vec!["cc".to_string()],
            None,
            "host-b".to_string(),
            "other".to_string(),
        )),
        Err(BindError::FingerprintMismatch)
    );
    assert_eq!(
        validate_bound_key(&bound, b"other payload", &b64(&public), &machine("host-a")),
        Err(BindError::InvalidSignature)
    );
}

#[test]
fn bound_key_errors() {
    let (secret, public) = keygen();
    let payload = b"p".to_vec();
    let bound = create_bound_key_file("AAAA".to_string(), machine("h"), &secret, &payload);
    assert_eq!(
        validate_bound_key(&bound, &payload, &b64(&public), &machine("h")),
        Err(BindError::InvalidBoundKeyLength)
    );
    assert_eq!(parse_public_key("AAAA"), Err(BindError::InvalidPublicKeyLength));
    assert_eq!(parse_signing_key("@@"), Err(BindError::InvalidEncoding));
    assert_eq!(parse_signing_key("AAAA"), Err(BindError::InvalidPrivateKeyLength));
}

#[test]
fn sdk_validates_embedded_key() {
    let (secret, public) = keygen();
    let unsigned = License::unsigned("C", "P", None, None, 1, vec![]);
    let payload = b"payload".to_vec();
    let license = unsigned.signed(&secret, &payload);
    assert_eq!(validate(&license, &payload, b64(&public).as_bytes(), None), Ok(()));
    assert_eq!(validate(&license, &payload, &[0xff], None), Err(SdkError::InvalidUtf8));
    assert_eq!(validate(&license, &payload, b"!!", None), Err(SdkError::InvalidKeyEncoding));
    assert_eq!(validate(&license, &payload, b"AAAA", None), Err(SdkError::InvalidKeyLength));
    let (_, other) = keygen();
    assert!(matches!(
        validate(&license, &payload, b64(&other).as_bytes(), None),
        Err(SdkError::License(_))
    ));
}

#[test]
fn sdk_checks_key_and_signature_before_the_machine() {
    let (secret, public) = keygen();
    let unsigned = License::unsigned("C", "P", None, None, 1, vec![]);
    let payload = b"payload".to_vec();
    let license = unsigned.signed(&secret, &payload);
    assert!(check_before_machine(&license, &payload, b64(&public).as_bytes()).is_ok());
    assert_eq!(check_before_machine(&license, &payload, &[0xff]).err(), Some(SdkError::InvalidUtf8));
    assert_eq!(check_before_machine(&license, &payload, b"AAAA").err(), Some(SdkError::InvalidKeyLength));
    let (_, other) = keygen();
    assert_eq!(
        check_before_machine(&license, &payload, b64(&other).as_bytes()).err(),
        Some(SdkError::License(vaultship::license::LicenseError::InvalidSignature))
    );
}
