//! Hardware-bound key files: a layer key and a machine fingerprint, signed together, and
//! released only on a machine that matches the fingerprint.
use vstd::prelude::*;
use crate::crypto::{
    ed25519_point_valid, ed25519_public_key, ed25519_public_key_accepted, ed25519_sign,
    ed25519_signature, ed25519_verifies, ed25519_verify,
};
use crate::encoding::{b64_decode, b64_encode, base64_decode, base64_encode, is_base64_char};
use crate::license::{fingerprint_matches, HardwareFingerprint};
use crate::text::{chars_of, lemma_trim_identity, string_of, trim, trim_chars};

verus! {

/// A layer key bound to a machine: the base64 key, the fingerprint of the machine, and
/// the base64 Ed25519 signature over both.
pub struct BoundKeyFile {
    pub key_base64: String,
    pub fingerprint: HardwareFingerprint,
    pub signature_base64: String,
}

/// Why a key or a bound key file was refused.
#[derive(Debug, Clone, Copy, PartialEq, Eq)]
pub enum BindError {
    /// A key or signature text is not valid base64.
    InvalidEncoding,
    /// The private key does not decode to 32 bytes.
    InvalidPrivateKeyLength,
    /// The public key does not decode to 32 bytes.
    InvalidPublicKeyLength,
    /// The public key is not a valid Ed25519 point.
    InvalidPublicKey,
    /// The signature of the bound file does not decode to 64 bytes.
    InvalidSignatureLength,
    /// The signature of the bound file does not verify.
    InvalidSignature,
    /// This machine does not match the bound fingerprint.
    FingerprintMismatch,
    /// The bound layer key does not decode to 32 bytes.
    InvalidBoundKeyLength,
}

/// What decoding a base64 key text (whitespace trimmed) of 32 bytes gives; `short` is the
/// error for a wrong length.
pub open spec fn key_outcome(text: Seq<char>, short: BindError) -> Result<Seq<u8>, BindError> {
    match base64_decode(trim(text)) {
        None => Err(BindError::InvalidEncoding),
        Some(k) => if k.len() != 32 {
            Err(short)
        } else {
            Ok(k)
        },
    }
}

/// What validating `bound` gives, with `payload` its serialized key-and-fingerprint part,
/// under the base64 public key `public_key_text`, on the machine described by `current`.
pub open spec fn bound_outcome(
    bound: BoundKeyFile,
    payload: Seq<u8>,
    public_key_text: Seq<char>,
    current: HardwareFingerprint,
) -> Result<Seq<u8>, BindError> {
    match key_outcome(public_key_text, BindError::InvalidPublicKeyLength) {
        Err(e) => Err(e),
        Ok(pk) => if !ed25519_point_valid(pk) {
            Err(BindError::InvalidPublicKey)
        } else {
            match base64_decode(trim(bound.signature_base64@)) {
                None => Err(BindError::InvalidEncoding),
                Some(sig) => if sig.len() != 64 {
                    Err(BindError::InvalidSignatureLength)
                } else if !ed25519_verifies(pk, payload, sig) {
                    Err(BindError::InvalidSignature)
                } else if !fingerprint_matches(bound.fingerprint, current) {
                    Err(BindError::FingerprintMismatch)
                } else {
                    key_outcome(bound.key_base64@, BindError::InvalidBoundKeyLength)
                },
            }
        },
    }
}

fn decode_trimmed(text: &str) -> (r: Option<Vec<u8>>)
    ensures
        r is Some <==> base64_decode(trim(text@)) is Some,
        r is Some ==> base64_decode(trim(text@)) == Some(r->0@),
        forall|data: Seq<u8>|
            #[trigger] base64_encode(data) == trim(text@) ==> (r is Some && r->0@ == data),
{
    let trimmed = string_of(&trim_chars(&chars_of(text)));
    b64_decode(trimmed.as_str())
}

fn array32(v: &Vec<u8>) -> (r: [u8; 32])
    requires
        v@.len() == 32,
    ensures
        r@ == v@,
{
    let mut a = [0u8; 32];
    let mut i: usize = 0;
    while i < 32
        invariant
            i <= 32,
            v@.len() == 32,
            forall|j: int| 0 <= j < i ==> a@[j] == v@[j],
        decreases 32 - i,
    {
        a[i] = v[i];
        i = i + 1;
    }
    assert(a@ =~= v@);
    a
}

fn array64(v: &Vec<u8>) -> (r: [u8; 64])
    requires
        v@.len() == 64,
    ensures
        r@ == v@,
{
    let mut a = [0u8; 64];
    let mut i: usize = 0;
    while i < 64
        invariant
            i <= 64,
            v@.len() == 64,
            forall|j: int| 0 <= j < i ==> a@[j] == v@[j],
        decreases 64 - i,
    {
        a[i] = v[i];
        i = i + 1;
    }
    assert(a@ =~= v@);
    a
}

/// Decodes a base64 key text (whitespace trimmed) that must hold 32 bytes.
fn decode_key32(text: &str, short: BindError) -> (r: Result<[u8; 32], BindError>)
    ensures
        match key_outcome(text@, short) {
            Ok(k) => r is Ok && r->Ok_0@ == k,
            Err(e) => r == Err::<[u8; 32], BindError>(e),
        },
{
    let bytes = match decode_trimmed(text) {
        Some(b) => b,
        None => return Err(BindError::InvalidEncoding),
    };
    if bytes.len() != 32 {
        return Err(short);
    }
    Ok(array32(&bytes))
}

/// The 32-byte Ed25519 private key in a base64 key text.
pub fn parse_signing_key(text: &str) -> (r: Result<[u8; 32], BindError>)
    ensures
        match key_outcome(text@, BindError::InvalidPrivateKeyLength) {
            Ok(k) => r is Ok && r->Ok_0@ == k,
            Err(e) => r == Err::<[u8; 32], BindError>(e),
        },
{
    decode_key32(text, BindError::InvalidPrivateKeyLength)
}

/// The 32-byte Ed25519 public key in a base64 key text; it must be a valid point.
pub fn parse_public_key(text: &str) -> (r: Result<[u8; 32], BindError>)
    ensures
        match key_outcome(text@, BindError::InvalidPublicKeyLength) {
            Ok(k) => if ed25519_point_valid(k) {
                r is Ok && r->Ok_0@ == k
            } else {
                r == Err::<[u8; 32], BindError>(BindError::InvalidPublicKey)
            },
            Err(e) => r == Err::<[u8; 32], BindError>(e),
        },
        forall|secret: Seq<u8>|
            secret.len() == 32 && key_outcome(text@, BindError::InvalidPublicKeyLength) == Ok::<
                Seq<u8>,
                BindError,
            >(#[trigger] ed25519_public_key(secret)) ==> r is Ok,
{
    let key = decode_key32(text, BindError::InvalidPublicKeyLength)?;
    if !ed25519_public_key_accepted(&key) {
        return Err(BindError::InvalidPublicKey);
    }
    Ok(key)
}

/// A bound key file for `key_base64` on the machine `fingerprint`, signed over `payload`
/// (the serialized key-and-fingerprint part) with `signing_key`.
pub fn create_bound_key_file(
    key_base64: String,
    fingerprint: HardwareFingerprint,
    signing_key: &[u8; 32],
    payload: &[u8],
) -> (r: BoundKeyFile)
    ensures
        r.key_base64 == key_base64,
        r.fingerprint == fingerprint,
        r.signature_base64@ == base64_encode(ed25519_signature(signing_key@, payload@)),
        ed25519_signature(signing_key@, payload@).len() == 64,
        trim(r.signature_base64@) == r.signature_base64@,
{
    let sig = ed25519_sign(signing_key, payload);
    let signature_base64 = b64_encode(&sig);
    proof {
        if signature_base64@.len() > 0 {
            assert(is_base64_char(signature_base64@[0]));
            assert(is_base64_char(signature_base64@[signature_base64@.len() - 1]));
        }
        lemma_trim_identity(signature_base64@);
    }
    BoundKeyFile { key_base64, fingerprint, signature_base64 }
}

/// Validates a bound key file and releases its layer key: the public key text decodes to
/// a valid 32-byte point, the signature decodes to 64 bytes and verifies for `payload`, this
/// machine (`current`) matches the bound fingerprint, and the bound key decodes to 32 bytes.
/// A file signed with the secret of the public key releases its key on a matching machine.
/// The signed bytes `payload` are taken as given: the caller serializes them from the
/// file's key and fingerprint, and nothing here ties those bytes to the fields.
pub fn validate_bound_key(
    bound: &BoundKeyFile,
    payload: &[u8],
    public_key_text: &str,
    current: &HardwareFingerprint,
) -> (r: Result<[u8; 32], BindError>)
    ensures
        match bound_outcome(*bound, payload@, public_key_text@, *current) {
            Ok(k) => r is Ok && r->Ok_0@ == k,
            Err(e) => r == Err::<[u8; 32], BindError>(e),
        },
        forall|secret: Seq<u8>|
            secret.len() == 32 && #[trigger] ed25519_public_key(secret).len() == 32
                && base64_decode(trim(public_key_text@)) == Some(ed25519_public_key(secret))
                && ed25519_signature(secret, payload@).len() == 64 && trim(bound.signature_base64@)
                == base64_encode(ed25519_signature(secret, payload@)) && fingerprint_matches(
                bound.fingerprint,
                *current,
            ) && key_outcome(bound.key_base64@, BindError::InvalidBoundKeyLength) is Ok
                ==> r is Ok,
{
    let pk = parse_public_key(public_key_text)?;
    let sig_bytes = match decode_trimmed(bound.signature_base64.as_str()) {
        Some(s) => s,
        None => return Err(BindError::InvalidEncoding),
    };
    if sig_bytes.len() != 64 {
        return Err(BindError::InvalidSignatureLength);
    }
    let sig = array64(&sig_bytes);
    if !ed25519_verify(&pk, payload, &sig) {
        return Err(BindError::InvalidSignature);
    }
    if !bound.fingerprint.verify_current(current) {
        return Err(BindError::FingerprintMismatch);
    }
    decode_key32(bound.key_base64.as_str(), BindError::InvalidBoundKeyLength)
}

/// A bound key file releases its key only when its signature verifies under the public
/// key and the machine matches the bound fingerprint; the key released is the one bound.
pub proof fn lemma_released_only_on_bound_machine(
    bound: BoundKeyFile,
    payload: Seq<u8>,
    public_key_text: Seq<char>,
    current: HardwareFingerprint,
)
    requires
        bound_outcome(bound, payload, public_key_text, current) is Ok,
    ensures
        key_outcome(public_key_text, BindError::InvalidPublicKeyLength) matches Ok(pk)
            && ed25519_point_valid(pk),
        key_outcome(public_key_text, BindError::InvalidPublicKeyLength) matches Ok(pk)
            && base64_decode(trim(bound.signature_base64@)) matches Some(sig)
            && ed25519_verifies(pk, payload, sig),
        fingerprint_matches(bound.fingerprint, current),
        key_outcome(bound.key_base64@, BindError::InvalidBoundKeyLength) == bound_outcome(
            bound,
            payload,
            public_key_text,
            current,
        ),
{
}

} // verus!
