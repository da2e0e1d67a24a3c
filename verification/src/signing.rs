//! Signed image references `{image}@sig:{base64 Ed25519 signature}`: signing with a
//! base64 private key and verifying with a base64 public key.
use vstd::prelude::*;
use vstd::utf8::encode_utf8;
use crate::crypto::{
    ed25519_point_valid, ed25519_public_key, ed25519_public_key_accepted, ed25519_sign,
    ed25519_signature, ed25519_verifies, ed25519_verify,
};
use crate::encoding::{b64_decode, b64_encode, base64_decode, base64_encode, is_base64_char};
use crate::text::{
    chars_of, contains_seq, find_first, lemma_find_first, lemma_trim_identity, split_once, split_once_exec,
    string_of, trim, trim_chars,
};

verus! {

/// Why signing or verifying an image reference failed.
#[derive(Debug, Clone, Copy, PartialEq, Eq)]
pub enum SignError {
    /// The reference has no `@sig:` marker.
    MissingSignatureMarker,
    /// A key is not valid base64.
    InvalidKeyEncoding,
    /// The private key does not decode to 32 bytes.
    InvalidPrivateKeyLength,
    /// The public key does not decode to 32 bytes.
    InvalidPublicKeyLength,
    /// The public key is not a valid Ed25519 point.
    InvalidPublicKey,
    /// The signature is not valid base64.
    InvalidSignatureEncoding,
    /// The signature does not decode to 64 bytes.
    InvalidSignatureLength,
    /// The signature does not verify for the image.
    VerificationFailed,
}

/// The base64 signature text for `image` under `secret`.
pub open spec fn encoded_signature(secret: Seq<u8>, image: Seq<char>) -> Seq<char> {
    base64_encode(ed25519_signature(secret, encode_utf8(image)))
}

/// The signed reference for `image` under `secret`.
pub open spec fn signed_reference(image: Seq<char>, secret: Seq<u8>) -> Seq<char> {
    image + "@sig:"@ + encoded_signature(secret, image)
}

/// What signing `image` with the base64 private key text `key_text` gives.
pub open spec fn sign_outcome(image: Seq<char>, key_text: Seq<char>) -> Result<Seq<char>, SignError> {
    match base64_decode(trim(key_text)) {
        None => Err(SignError::InvalidKeyEncoding),
        Some(key) => if key.len() != 32 {
            Err(SignError::InvalidPrivateKeyLength)
        } else {
            Ok(signed_reference(image, key))
        },
    }
}

/// What verifying the signature text `sig_text` of `image` with the base64 public key text
/// `key_text` gives.
pub open spec fn verify_parts_outcome(image: Seq<char>, sig_text: Seq<char>, key_text: Seq<char>) -> Result<(), SignError> {
    match base64_decode(trim(key_text)) {
        None => Err(SignError::InvalidKeyEncoding),
        Some(key) => if key.len() != 32 {
            Err(SignError::InvalidPublicKeyLength)
        } else if !ed25519_point_valid(key) {
            Err(SignError::InvalidPublicKey)
        } else {
            match base64_decode(trim(sig_text)) {
                None => Err(SignError::InvalidSignatureEncoding),
                Some(sig) => if sig.len() != 64 {
                    Err(SignError::InvalidSignatureLength)
                } else if !ed25519_verifies(key, encode_utf8(image), sig) {
                    Err(SignError::VerificationFailed)
                } else {
                    Ok(())
                },
            }
        },
    }
}

/// What verifying the signed reference `image_ref` gives.
pub open spec fn verify_outcome(image_ref: Seq<char>, key_text: Seq<char>) -> Result<(), SignError> {
    match split_once(image_ref, "@sig:"@) {
        None => Err(SignError::MissingSignatureMarker),
        Some(parts) => verify_parts_outcome(parts.0, parts.1, key_text),
    }
}

fn decode_key(text: &str) -> (r: Option<Vec<u8>>)
    ensures
        r is Some <==> base64_decode(trim(text@)) is Some,
        r is Some ==> base64_decode(trim(text@)) == Some(r->0@),
        forall|data: Seq<u8>|
            #[trigger] base64_encode(data) == trim(text@) ==> (r is Some && r->0@ == data),
{
    let trimmed = string_of(&trim_chars(&chars_of(text)));
    b64_decode(trimmed.as_str())
}

fn to_array32(v: &Vec<u8>) -> (r: [u8; 32])
    requires
        v@.len() == 32,
    ensures
        r@ == v@,
{
    let mut a = [0u8; 32];
    let mut i: usize = 0;
    while i < 32
        invariant
            i <= 32,
            v@.len() == 32,
            forall|j: int| 0 <= j < i ==> a@[j] == v@[j],
        decreases 32 - i,
    {
        a[i] = v[i];
        i = i + 1;
    }
    assert(a@ =~= v@);
    a
}

fn to_array64(v: &Vec<u8>) -> (r: [u8; 64])
    requires
        v@.len() == 64,
    ensures
        r@ == v@,
{
    let mut a = [0u8; 64];
    let mut i: usize = 0;
    while i < 64
        invariant
            i <= 64,
            v@.len() == 64,
            forall|j: int| 0 <= j < i ==> a@[j] == v@[j],
        decreases 64 - i,
    {
        a[i] = v[i];
        i = i + 1;
    }
    assert(a@ =~= v@);
    a
}

/// Signs `image` with the base64 Ed25519 private key `private_key_text` (surrounding
/// whitespace ignored), giving `{image}@sig:{base64 signature}`. The signature text has no
/// surrounding whitespace.
pub fn sign_image_reference(image: &str, private_key_text: &str) -> (r: Result<String, SignError>)
    ensures
        match sign_outcome(image@, private_key_text@) {
            Ok(text) => r is Ok && r->Ok_0@ == text,
            Err(e) => r == Err::<String, SignError>(e),
        },
        r is Ok ==> forall|secret: Seq<u8>|
            base64_decode(trim(private_key_text@)) == Some(secret) ==> #[trigger] trim(
                encoded_signature(secret, image@),
            ) == encoded_signature(secret, image@) && ed25519_signature(
                secret,
                encode_utf8(image@),
            ).len() == 64,
{
    let key_bytes = match decode_key(private_key_text) {
        Some(k) => k,
        None => return Err(SignError::InvalidKeyEncoding),
    };
    if key_bytes.len() != 32 {
        return Err(SignError::InvalidPrivateKeyLength);
    }
    let key = to_array32(&key_bytes);
    let signature = ed25519_sign(&key, image.as_bytes());
    let sig_b64 = b64_encode(&signature);
    proof {
        if sig_b64@.len() > 0 {
            assert(is_base64_char(sig_b64@[0]));
            assert(is_base64_char(sig_b64@[sig_b64@.len() - 1]));
        }
        lemma_trim_identity(sig_b64@);
    }
    let mut out = image.to_owned();
    out.append("@sig:");
    out.append(sig_b64.as_str());
    Ok(out)
}

/// Splits a signed reference at its first `@sig:` marker into the image and the signature.
pub fn split_signed_reference(image_ref: &str) -> (r: Result<(String, String), SignError>)
    ensures
        match split_once(image_ref@, "@sig:"@) {
            Some(parts) => r is Ok && r->Ok_0.0@ == parts.0 && r->Ok_0.1@ == parts.1,
            None => r == Err::<(String, String), SignError>(SignError::MissingSignatureMarker),
        },
{
    match split_once_exec(&chars_of(image_ref), &chars_of("@sig:")) {
        Some(parts) => Ok((string_of(&parts.0), string_of(&parts.1))),
        None => Err(SignError::MissingSignatureMarker),
    }
}

/// Verifies the base64 signature `sig_text` of `image` with the base64 Ed25519 public key
/// `public_key_text` (surrounding whitespace ignored in both). A signature made with the
/// secret whose public key the key text encodes verifies.
pub fn verify_signature_parts(image: &str, sig_text: &str, public_key_text: &str) -> (r: Result<(), SignError>)
    ensures
        r == verify_parts_outcome(image@, sig_text@, public_key_text@),
        forall|secret: Seq<u8>|
            secret.len() == 32 && ed25519_public_key(secret).len() == 32 && ed25519_signature(
                secret,
                encode_utf8(image@),
            ).len() == 64 && base64_decode(trim(public_key_text@)) == Some(
                ed25519_public_key(secret),
            ) && trim(sig_text@) == #[trigger] encoded_signature(secret, image@) ==> r is Ok,
{
    let key_bytes = match decode_key(public_key_text) {
        Some(k) => k,
        None => return Err(SignError::InvalidKeyEncoding),
    };
    if key_bytes.len() != 32 {
        return Err(SignError::InvalidPublicKeyLength);
    }
    let key = to_array32(&key_bytes);
    if !ed25519_public_key_accepted(&key) {
        return Err(SignError::InvalidPublicKey);
    }
    let sig_bytes = match decode_key(sig_text) {
        Some(s) => s,
        None => return Err(SignError::InvalidSignatureEncoding),
    };
    if sig_bytes.len() != 64 {
        return Err(SignError::InvalidSignatureLength);
    }
    let sig = to_array64(&sig_bytes);
    if !ed25519_verify(&key, image.as_bytes(), &sig) {
        return Err(SignError::VerificationFailed);
    }
    Ok(())
}

/// Verifies a signed reference `{image}@sig:{signature}` with the base64 Ed25519 public key
/// `public_key_text`. A reference signed for an image without the marker, with the secret
/// whose public key the key text encodes, verifies.
pub fn verify_signature(image_ref: &str, public_key_text: &str) -> (r: Result<(), SignError>)
    ensures
        r == verify_outcome(image_ref@, public_key_text@),
        forall|image: Seq<char>, secret: Seq<u8>|
            secret.len() == 32 && ed25519_public_key(secret).len() == 32 && ed25519_signature(
                secret,
                encode_utf8(image),
            ).len() == 64 && !contains_seq(image, "@sig:"@) && image_ref@ == #[trigger] signed_reference(
                image,
                secret,
            ) && base64_decode(trim(public_key_text@)) == Some(ed25519_public_key(secret)) && trim(
                encoded_signature(secret, image),
            ) == encoded_signature(secret, image) ==> r is Ok,
{
    let split = split_signed_reference(image_ref);
    proof {
        reveal_strlit("@sig:");
        lemma_find_first(image_ref@, "@sig:"@);
        assert forall|img: Seq<char>, secret: Seq<u8>|
            secret.len() == 32 && !contains_seq(img, "@sig:"@) && image_ref@ == #[trigger] signed_reference(
                img,
                secret,
            ) implies split is Ok && split->Ok_0.0@ == img && split->Ok_0.1@ == encoded_signature(
                secret,
                img,
            ) by {
            let sep = "@sig:"@;
            assert(image_ref@.subrange(img.len() as int, (img.len() + sep.len()) as int) =~= sep);
            assert(crate::text::occurs_at(image_ref@, sep, img.len() as int));
            let k = find_first(image_ref@, sep)->0;
            assert(k <= img.len());
            if k < img.len() {
                if k + sep.len() <= img.len() {
                    assert(img.subrange(k, k + sep.len()) =~= image_ref@.subrange(k, k + sep.len()));
                    assert(crate::text::occurs_at(img, sep, k));
                } else {
                    let d = img.len() - k;
                    assert(image_ref@[k + d] == sep[d]);
                    assert(image_ref@[img.len() as int] == sep[0]);
                }
            }
            assert(split->Ok_0.0@ =~= img);
            assert(split->Ok_0.1@ =~= encoded_signature(secret, img));
        }
    }
    let (image, sig_text) = match split {
        Ok(parts) => parts,
        Err(e) => return Err(e),
    };
    verify_signature_parts(image.as_str(), sig_text.as_str(), public_key_text)
}

} // verus!
