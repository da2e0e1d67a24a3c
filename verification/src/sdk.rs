//! The license check that protected applications embed.
use vstd::prelude::*;
use crate::crypto::{ed25519_point_valid, ed25519_public_key_accepted};
use crate::encoding::{b64_decode, base64_decode};
use crate::license::{
    check_license_before_machine, pre_machine_outcome, validate_license, validate_outcome,
    HardwareFingerprint, License, LicenseError,
};
use crate::time::{clock_instant, Timestamp};
use crate::text::str_from_utf8;

verus! {

/// Why the embedded license check failed.
#[derive(Debug, Clone, Copy, PartialEq, Eq)]
pub enum SdkError {
    /// The public key bytes are not UTF-8.
    InvalidUtf8,
    /// The public key is not valid base64.
    InvalidKeyEncoding,
    /// The public key does not decode to 32 bytes.
    InvalidKeyLength,
    /// The public key is not a valid Ed25519 point.
    InvalidPublicKey,
    /// The license was refused.
    License(LicenseError),
}

/// The public key the embedded base64 text holds, or why it holds none.
pub open spec fn embedded_key(public_key_base64: Seq<u8>) -> Result<Seq<u8>, SdkError> {
    if !vstd::utf8::valid_utf8(public_key_base64) {
        Err(SdkError::InvalidUtf8)
    } else {
        match base64_decode(vstd::utf8::decode_utf8(public_key_base64)) {
            None => Err(SdkError::InvalidKeyEncoding),
            Some(k) => if k.len() != 32 {
                Err(SdkError::InvalidKeyLength)
            } else if !ed25519_point_valid(k) {
                Err(SdkError::InvalidPublicKey)
            } else {
                Ok(k)
            },
        }
    }
}

/// The public key in the embedded base64 text, checked to be a valid Ed25519 point.
fn decode_embedded_key(public_key_base64: &[u8]) -> (r: Result<[u8; 32], SdkError>)
    ensures
        match embedded_key(public_key_base64@) {
            Err(e) => r == Err::<[u8; 32], SdkError>(e),
            Ok(k) => r is Ok && r->Ok_0@ == k,
        },
{
    let text = match str_from_utf8(public_key_base64) {
        Some(t) => t,
        None => return Err(SdkError::InvalidUtf8),
    };
    proof {
        vstd::utf8::encode_utf8_decode_utf8(text@);
    }
    let key_bytes = match b64_decode(text) {
        Some(k) => k,
        None => return Err(SdkError::InvalidKeyEncoding),
    };
    if key_bytes.len() != 32 {
        return Err(SdkError::InvalidKeyLength);
    }
    let mut raw = [0u8; 32];
    let mut i: usize = 0;
    while i < 32
        invariant
            i <= 32,
            key_bytes@.len() == 32,
            forall|j: int| 0 <= j < i ==> raw@[j] == key_bytes@[j],
        decreases 32 - i,
    {
        raw[i] = key_bytes[i];
        i = i + 1;
    }
    assert(raw@ =~= key_bytes@);
    if !ed25519_public_key_accepted(&raw) {
        return Err(SdkError::InvalidPublicKey);
    }
    Ok(raw)
}

/// Validates `license` (whose serialized payload is `payload`) against the embedded
/// base64 public key, now, on the machine described by `current`. The signed bytes
/// `payload` are taken as given; nothing here ties them to the license's fields.
pub fn validate(
    license: &License,
    payload: &[u8],
    public_key_base64: &[u8],
    current: Option<&HardwareFingerprint>,
) -> (r: Result<(), SdkError>)
    requires
        license.hardware_fingerprint is Some ==> current is Some,
    ensures
        match embedded_key(public_key_base64@) {
            Err(e) => r == Err::<(), SdkError>(e),
            Ok(k) => exists|now: Timestamp|
                now.nanos < 1_000_000_000 && r == match validate_outcome(
                    *license,
                    payload@,
                    k,
                    now,
                    match current {
                        Some(c) => Some(*c),
                        None => None,
                    },
                ) {
                    Ok(()) => Ok::<(), SdkError>(()),
                    Err(e) => Err(SdkError::License(e)),
                },
        },
{
    let raw = decode_embedded_key(public_key_base64)?;
    match validate_license(license, payload, &raw, current) {
        Ok(()) => Ok(()),
        Err(e) => Err(SdkError::License(e)),
    }
}

/// The checks made before the machine is read: the embedded key, then the license's
/// signature and expiry, now; the instant used is returned. A caller reads the machine only
/// after these pass, then calls [`crate::license::check_license_machine`].
pub fn check_before_machine(license: &License, payload: &[u8], public_key_base64: &[u8]) -> (r: Result<
    Timestamp,
    SdkError,
>)
    ensures
        match embedded_key(public_key_base64@) {
            Err(e) => r == Err::<Timestamp, SdkError>(e),
            Ok(k) => match r {
                Ok(now) => clock_instant(now) && pre_machine_outcome(*license, payload@, k, now) is Ok,
                Err(SdkError::License(e)) => exists|now: Timestamp|
                    clock_instant(now) && pre_machine_outcome(*license, payload@, k, now) == Err::<
                        (),
                        LicenseError,
                    >(e),
                Err(_) => false,
            },
        },
{
    let raw = decode_embedded_key(public_key_base64)?;
    match check_license_before_machine(license, payload, &raw) {
        Ok(now) => Ok(now),
        Err(e) => Err(SdkError::License(e)),
    }
}

} // verus!
