use vaultship::license::{
    check_license_before_machine, check_license_before_machine_at, check_license_machine,
    cpu_id_from, disk_serial_from_lsblk, generate_activation_challenge, keygen,
    mac_addresses_from, public_key_of, storage_serial, validate_license, validate_license_at,
    HardwareFingerprint, License, LicenseError, LicensePayload,
};
use vaultship::time::{heartbeat_from, next_heartbeat_at, parse_expiry, ExpiryError, Timestamp};

fn payload_bytes(license: &License) -> Vec<u8> {
    let p = LicensePayload::from_license(license);
    let fp = match &p.hardware_fingerprint {
        Some(f) => format!("{:?}|{:?}|{}|{}|{}", f.mac_addresses, f.disk_serial, f.hostname, f.cpu_id, f.composite_hash),
        None => "null".to_string(),
    };
    format!(
        "{:?}|{}|{}|{}|{}.{}|{:?}|{}|{:?}",
        p.id,
        p.customer,
        p.product,
        fp,
        p.issued_at.secs,
        p.issued_at.nanos,
        p.expires_at.map(|t| (t.secs, t.nanos)),
        p.seats,
        p.features
    )
    .into_bytes()
}

fn create(
    signing: &[u8; 32],
    customer: &str,
    product: &str,
    fingerprint: Option<HardwareFingerprint>,
    expires_at: Option<Timestamp>,
    seats: u32,
    features: Vec<String>,
) -> License {
    let unsigned = License::unsigned(customer, product, fingerprint, expires_at, seats, features);
    let payload = payload_bytes(&unsigned);
    unsigned.signed(signing, &payload)
}

fn days_from_now(days: i64) -> Timestamp {
    let now = chrono::Utc::now();
    Timestamp { secs: now.timestamp() + days * 86400, nanos: now.timestamp_subsec_nanos() }
}

fn fingerprint(mac: &str, serial: Option<&str>, host: &str, cpu: &str) -> HardwareFingerprint {
    HardwareFingerprint::from_parts(
        vec![mac.to_string()],
        serial.map(|s| s.to_string()),
        host.to_string(),
        cpu.to_string(),
    )
}

#[test]
fn accepts_valid_signed_license() {
    let (signing, verifying) = keygen();
    let license = create(&signing, "LawFirm-ABC", "vaultship-demo", None, None, 5, vec!["scan".to_string()]);
    validate_license(&license, &payload_bytes(&license), &verifying, None).expect("validate");
}

#[test]
fn create_and_validate_basic_license() {
    let (signing, verifying) = keygen();
    let license = create(
        &signing,
        "Acme Corp",
        "vaultship-pro",
        None,
        None,
        5,
        vec!["scan".to_string(), "harden".to_string()],
    );
    assert_eq!(license.customer, "Acme Corp");
    assert_eq!(license.seats, 5);
    validate_license(&license, &payload_bytes(&license), &verifying, None).expect("valid license must pass");
}

#[test]
fn expired_license_is_rejected() {
    let (signing, verifying) = keygen();
    let past = days_from_now(-1);
    let license = create(&signing, "Acme Corp", "vaultship-pro", None, Some(past), 1, vec![]);
    assert!(
        validate_license(&license, &payload_bytes(&license), &verifying, None).is_err(),
        "expired must fail"
    );
}

#[test]
fn wrong_public_key_is_rejected() {
    let (signing, _) = keygen();
    let (_, other_verifying) = keygen();
    let license = create(&signing, "Acme Corp", "vaultship-pro", None, None, 1, vec![]);
    assert!(validate_license(&license, &payload_bytes(&license), &other_verifying, None).is_err());
}

#[test]
fn tampered_customer_is_rejected() {
    let (signing, verifying) = keygen();
    let mut license = create(&signing, "Acme Corp", "vaultship-pro", None, None, 1, vec![]);
    license.customer = "Evil Corp".to_string();
    assert!(validate_license(&license, &payload_bytes(&license), &verifying, None).is_err());
}

#[test]
fn future_expiry_passes() {
    let (signing, verifying) = keygen();
    let future = days_from_now(365);
    let license = create(&signing, "Acme Corp", "vaultship-pro", None, Some(future), 3, vec!["scan".to_string()]);
    validate_license(&license, &payload_bytes(&license), &verifying, None).expect("future expiry must pass");
}

#[test]
fn license_and_encryption_together() {
    let (signing, verifying) = keygen();
    let license = create(
        &signing,
        "Pipeline Test Corp",
        "vaultship-full",
        None,
        None,
        10,
        vec!["encrypt".to_string(), "sign".to_string()],
    );
    validate_license(&license, &payload_bytes(&license), &verifying, None).expect("license valid");
    let key = vaultship::layer::generate_layer_key();
    let plaintext = b"protected layer bytes";
    let enc = vaultship::layer::encrypt_layer(plaintext, &key).expect("encrypt");
    let dec = vaultship::layer::decrypt_layer(&enc, &key).expect("decrypt");
    assert_eq!(dec, plaintext);
}

#[test]
fn expiry_is_exclusive_at_the_instant() {
    let (signing, verifying) = keygen();
    let at = Timestamp { secs: 1_000, nanos: 5 };
    let license = create(&signing, "C", "P", None, Some(at), 1, vec![]);
    let payload = payload_bytes(&license);
    assert_eq!(validate_license_at(&license, &payload, &verifying, at, None), Ok(()));
    let later = Timestamp { secs: 1_000, nanos: 6 };
    assert_eq!(validate_license_at(&license, &payload, &verifying, later, None), Err(LicenseError::Expired));
}

#[test]
fn license_signature_errors() {
    let (signing, verifying) = keygen();
    let mut license = create(&signing, "C", "P", None, None, 1, vec![]);
    let payload = payload_bytes(&license);
    let now = Timestamp { secs: 0, nanos: 0 };
    license.signature = "%%%".to_string();
    assert_eq!(validate_license_at(&license, &payload, &verifying, now, None), Err(LicenseError::InvalidSignatureEncoding));
    license.signature = "AAAA".to_string();
    assert_eq!(validate_license_at(&license, &payload, &verifying, now, None), Err(LicenseError::InvalidSignatureLength));
    let other = create(&signing, "D", "P", None, None, 1, vec![]);
    license.signature = other.signature.clone();
    assert_eq!(validate_license_at(&license, &payload, &verifying, now, None), Err(LicenseError::InvalidSignature));
}

#[test]
fn hardware_bound_license_checks_the_machine() {
    let (signing, verifying) = keygen();
    let bound = fingerprint("aa:bb", Some("SN1"), "host-a", "cpu-x");
    let license = create(&signing, "C", "P", Some(bound), None, 1, vec![]);
    let payload = payload_bytes(&license);
    let now = Timestamp { secs: 0, nanos: 0 };
    let same_host_cpu = fingerprint("cc:dd", None, "host-a", "cpu-x");
    assert_eq!(validate_license_at(&license, &payload, &verifying, now, Some(&same_host_cpu)), Ok(()));
    let only_mac = fingerprint("aa:bb", None, "host-b", "cpu-y");
    assert_eq!(
        validate_license_at(&license, &payload, &verifying, now, Some(&only_mac)),
        Err(LicenseError::HardwareMismatch)
    );
}

#[test]
fn fingerprint_match_rule_counts_identifiers() {
    let a = fingerprint("m1", Some("s1"), "h1", "c1");
    assert!(a.verify_current(&fingerprint("m1", Some("s1"), "hX", "cX")));
    assert!(a.verify_current(&fingerprint("mX", Some("s1"), "h1", "cX")));
    assert!(!a.verify_current(&fingerprint("mX", Some("sX"), "h1", "cX")));
    let no_serial = fingerprint("m1", None, "hX", "cX");
    assert!(!no_serial.verify_current(&fingerprint("mY", None, "hX", "cY")));
    assert!(no_serial.verify_current(&fingerprint("m1", None, "hX", "cY")));
}

#[test]
fn fingerprint_composite_hash() {
    let f = fingerprint("ab", Some("cd"), "ef", "gh");
    // SHA-256 of "abcdefgh"
    assert_eq!(f.composite_hash, "9c56cc51b374c3ba189210d5b6d4bf57790d351c96c47c02190ecf1e430635ab");
}

#[test]
fn machine_identifier_defaults() {
    assert_eq!(mac_addresses_from(None), vec!["unknown-mac".to_string()]);
    assert_eq!(mac_addresses_from(Some("01:02".to_string())), vec!["01:02".to_string()]);
    assert_eq!(cpu_id_from(None), "unknown-cpu");
    assert_eq!(cpu_id_from(Some(("Brand".to_string(), "Vendor".to_string()))), "Brand-Vendor");
    assert_eq!(disk_serial_from_lsblk(true, b"\n  \n  SER123  \nOTHER\n"), Some("SER123".to_string()));
    assert_eq!(disk_serial_from_lsblk(false, b"SER123\n"), None);
    assert_eq!(disk_serial_from_lsblk(true, b"\n \n"), None);
    assert_eq!(disk_serial_from_lsblk(true, &[0xff, 0xfe]), None);
    let items = vec![
        (None, None),
        (Some(String::new()), Some("row".to_string())),
        (None, Some("row-2".to_string())),
    ];
    assert_eq!(storage_serial(&items), Some("row-2".to_string()));
}

#[test]
fn activation_challenge_is_blake3_hex() {
    let c = generate_activation_challenge("").expect("challenge");
    assert_eq!(c, "activation:af1349b9f5f9a1a6a0404dea36dcc9499bcb25c9adc112b7cc9a93cae41f3262");
}

#[test]
fn expiry_dates_end_at_last_second_of_day() {
    assert_eq!(parse_expiry(None), Ok(None));
    assert_eq!(
        parse_expiry(Some("2027-01-01".to_string())),
        Ok(Some(Timestamp { secs: 1_798_847_999, nanos: 0 }))
    );
    assert_eq!(
        parse_expiry(Some("1970-01-01".to_string())),
        Ok(Some(Timestamp { secs: 86_399, nanos: 0 }))
    );
    assert_eq!(
        parse_expiry(Some("1969-12-31".to_string())),
        Ok(Some(Timestamp { secs: -1, nanos: 0 }))
    );
    assert_eq!(
        parse_expiry(Some("2024-02-29".to_string())),
        Ok(Some(Timestamp { secs: 1_709_251_199, nanos: 0 }))
    );
    assert_eq!(parse_expiry(Some("2023-02-29".to_string())), Err(ExpiryError::InvalidDate));
    assert_eq!(parse_expiry(Some("tomorrow".to_string())), Err(ExpiryError::InvalidDate));
}

#[test]
fn a_machine_matches_its_own_fingerprint() {
    for f in [
        fingerprint("m1", Some("s1"), "h1", "c1"),
        fingerprint("", None, "", ""),
        HardwareFingerprint::from_parts(vec![], None, "host".to_string(), "cpu".to_string()),
    ] {
        assert!(f.verify_current(&f.duplicate()));
    }
}

#[test]
fn heartbeat_is_interval_minutes_later_within_range() {
    let now = Timestamp { secs: 1_000, nanos: 5 };
    assert_eq!(heartbeat_from(now, 60), Some(Timestamp { secs: 4_600, nanos: 5 }));
    assert_eq!(heartbeat_from(now, -1), Some(Timestamp { secs: 940, nanos: 5 }));
    assert_eq!(heartbeat_from(now, 0), Some(now));
    let last = Timestamp { secs: 8210266876799, nanos: 0 };
    assert_eq!(heartbeat_from(last, 0), Some(last));
    assert_eq!(heartbeat_from(last, 1), None);
    let first = Timestamp { secs: -8334601315200, nanos: 0 };
    assert_eq!(heartbeat_from(first, -1), None);
    assert_eq!(heartbeat_from(now, i64::MAX), None);
    assert_eq!(heartbeat_from(now, 153722867280912 + 1), None);
    assert!(next_heartbeat_at(0).is_some());
    let before = chrono::Utc::now().timestamp();
    let next = next_heartbeat_at(240).expect("in range");
    let after = chrono::Utc::now().timestamp();
    assert!(before + 240 * 60 <= next.secs && next.secs <= after + 240 * 60);
}

#[test]
fn fingerprint_hash_is_64_hex_characters() {
    let f = fingerprint("m", None, "h", "c");
    assert_eq!(f.composite_hash.len(), 64);
    assert!(f.composite_hash.chars().all(|c| c.is_ascii_hexdigit() && !c.is_ascii_uppercase()));
}

#[test]
fn public_key_of_matches_keygen() {
    let (secret, public) = keygen();
    assert_eq!(public_key_of(&secret), public);
}

#[test]
fn checks_before_the_machine_come_first() {
    let (signing, verifying) = keygen();
    let bound = fingerprint("aa:bb", Some("SN1"), "host-a", "cpu-x");
    let expired = create(&signing, "C", "P", Some(bound.duplicate()), Some(days_from_now(-1)), 1, vec![]);
    let payload = payload_bytes(&expired);
    assert_eq!(check_license_before_machine(&expired, &payload, &verifying).err(), Some(LicenseError::Expired));
    let (_, other) = keygen();
    let live = create(&signing, "C", "P", Some(bound.duplicate()), Some(days_from_now(1)), 1, vec![]);
    let payload = payload_bytes(&live);
    assert_eq!(check_license_before_machine(&live, &payload, &other).err(), Some(LicenseError::InvalidSignature));
    let now = check_license_before_machine(&live, &payload, &verifying).expect("valid so far");
    assert_eq!(check_license_before_machine_at(&live, &payload, &verifying, now), Ok(()));
    let elsewhere = fingerprint("zz", None, "host-b", "cpu-y");
    assert_eq!(check_license_machine(&live, Some(&elsewhere)), Err(LicenseError::HardwareMismatch));
    assert_eq!(check_license_machine(&live, Some(&bound)), Ok(()));
    assert_eq!(validate_license(&live, &payload, &verifying, Some(&elsewhere)), Err(LicenseError::HardwareMismatch));
}

#[test]
fn license_id_is_a_version_4_uuid() {
    let l = License::unsigned("C", "P", None, None, 1, vec![]);
    assert_eq!(l.id[6] >> 4, 4);
    assert_eq!(l.id[8] >> 6, 2);
}
