//! Signed deployment licenses, optionally bound to a hardware fingerprint: the fingerprint
//! digest, the hardware match rule, license signing and license validation.
use vstd::prelude::*;
use vstd::utf8::encode_utf8;
use crate::crypto::{
    ed25519_point_valid, ed25519_public_key, ed25519_public_key_accepted, ed25519_sign,
    ed25519_signature, ed25519_verifies, ed25519_verify, sha256, sha256_bytes,
};
use crate::encoding::{b64_decode, b64_encode, base64_decode, base64_encode, hex_lower, to_hex_lower};
use crate::harden::string_views;
use crate::text::{chars_of, str_eq};
use crate::time::{clock_instant, is_later, later, utc_now, Timestamp};

verus! {

/// What identifies a machine: its MAC addresses, disk serial, host name and CPU, with the
/// SHA-256 over all of them.
pub struct HardwareFingerprint {
    pub mac_addresses: Vec<String>,
    pub disk_serial: Option<String>,
    pub hostname: String,
    pub cpu_id: String,
    pub composite_hash: String,
}

/// A license: who may run which product, until when, on which machine, with how many
/// seats and which features, and the base64 Ed25519 signature over its payload.
pub struct License {
    pub id: [u8; 16],
    pub customer: String,
    pub product: String,
    pub hardware_fingerprint: Option<HardwareFingerprint>,
    pub issued_at: Timestamp,
    pub expires_at: Option<Timestamp>,
    pub seats: u32,
    pub features: Vec<String>,
    pub signature: String,
}

/// The signed part of a license: every field but the signature.
pub struct LicensePayload {
    pub id: [u8; 16],
    pub customer: String,
    pub product: String,
    pub hardware_fingerprint: Option<HardwareFingerprint>,
    pub issued_at: Timestamp,
    pub expires_at: Option<Timestamp>,
    pub seats: u32,
    pub features: Vec<String>,
}

/// Why a license was refused.
#[derive(Debug, Clone, Copy, PartialEq, Eq)]
pub enum LicenseError {
    /// The public key is not a valid Ed25519 point.
    InvalidPublicKey,
    /// The signature is not valid base64.
    InvalidSignatureEncoding,
    /// The signature does not decode to 64 bytes.
    InvalidSignatureLength,
    /// The signature does not verify for the payload.
    InvalidSignature,
    /// The license expired before now.
    Expired,
    /// The license is bound to other hardware.
    HardwareMismatch,
}

// ---------------------------------------------------------------------------
// Fingerprints
// ---------------------------------------------------------------------------

/// The UTF-8 bytes of each text, one after another.
pub open spec fn concat_utf8(texts: Seq<Seq<char>>) -> Seq<u8>
    decreases texts.len(),
{
    if texts.len() == 0 {
        Seq::empty()
    } else {
        concat_utf8(texts.drop_last()) + encode_utf8(texts.last())
    }
}

/// The bytes the composite hash is taken over: the MAC addresses, the disk serial when
/// there is one, the host name and the CPU, in that order.
pub open spec fn fingerprint_material(
    macs: Seq<Seq<char>>,
    serial: Option<Seq<char>>,
    hostname: Seq<char>,
    cpu_id: Seq<char>,
) -> Seq<u8> {
    concat_utf8(macs) + match serial {
        Some(s) => encode_utf8(s),
        None => Seq::empty(),
    } + encode_utf8(hostname) + encode_utf8(cpu_id)
}

/// The view of an optional string.
pub open spec fn opt_view(s: Option<String>) -> Option<Seq<char>> {
    match s {
        Some(t) => Some(t@),
        None => None,
    }
}

/// Some MAC address of `a` is among those of `b`.
pub open spec fn shares_mac(a: Seq<Seq<char>>, b: Seq<Seq<char>>) -> bool {
    exists|i: int, j: int| 0 <= i < a.len() && 0 <= j < b.len() && a[i] == b[j]
}

/// How many of the four identifiers match: a shared MAC address, the same (present) disk
/// serial, the same host name, the same CPU.
pub open spec fn match_count(expected: HardwareFingerprint, current: HardwareFingerprint) -> int {
    (if shares_mac(string_views(expected.mac_addresses@), string_views(current.mac_addresses@)) {
        1int
    } else {
        0int
    }) + (if expected.disk_serial is Some && opt_view(expected.disk_serial) == opt_view(
        current.disk_serial,
    ) {
        1int
    } else {
        0int
    }) + (if expected.hostname@ == current.hostname@ {
        1int
    } else {
        0int
    }) + (if expected.cpu_id@ == current.cpu_id@ {
        1int
    } else {
        0int
    })
}

/// A machine matches a fingerprint when at least two identifiers match.
pub open spec fn fingerprint_matches(expected: HardwareFingerprint, current: HardwareFingerprint) -> bool {
    match_count(expected, current) >= 2
}

fn append_bytes(v: &mut Vec<u8>, s: &str)
    ensures
        final(v)@ == old(v)@ + encode_utf8(s@),
{
    let bytes = s.as_bytes();
    let mut i: usize = 0;
    while i < bytes.len()
        invariant
            i <= bytes@.len(),
            bytes@ == encode_utf8(s@),
            v@ == old(v)@ + bytes@.take(i as int),
        decreases bytes@.len() - i,
    {
        v.push(bytes[i]);
        assert(old(v)@ + bytes@.take(i + 1) =~= old(v)@ + bytes@.take(i as int) + seq![bytes@[i as int]]);
        i = i + 1;
    }
    assert(bytes@.take(bytes@.len() as int) =~= bytes@);
}

fn clone_string(s: &String) -> (r: String)
    ensures
        r@ == s@,
{
    s.clone()
}

fn clone_strings(v: &Vec<String>) -> (r: Vec<String>)
    ensures
        string_views(r@) == string_views(v@),
{
    let mut r: Vec<String> = Vec::new();
    let mut i: usize = 0;
    while i < v.len()
        invariant
            i <= v@.len(),
            r@.len() == i,
            forall|j: int| 0 <= j < i ==> #[trigger] r@[j]@ == v@[j]@,
        decreases v@.len() - i,
    {
        r.push(clone_string(&v[i]));
        i = i + 1;
    }
    assert(string_views(r@) =~= string_views(v@));
    r
}

fn clone_opt_string(s: &Option<String>) -> (r: Option<String>)
    ensures
        opt_view(r) == opt_view(*s),
{
    match s {
        Some(t) => Some(clone_string(t)),
        None => None,
    }
}

/// Two fingerprints with the same identifiers and composite hash.
pub open spec fn same_fingerprint(a: HardwareFingerprint, b: HardwareFingerprint) -> bool {
    &&& string_views(a.mac_addresses@) == string_views(b.mac_addresses@)
    &&& opt_view(a.disk_serial) == opt_view(b.disk_serial)
    &&& a.hostname@ == b.hostname@
    &&& a.cpu_id@ == b.cpu_id@
    &&& a.composite_hash@ == b.composite_hash@
}

/// Two optional fingerprints that are both absent or the same.
pub open spec fn same_opt_fingerprint(a: Option<HardwareFingerprint>, b: Option<HardwareFingerprint>) -> bool {
    match (a, b) {
        (Some(x), Some(y)) => same_fingerprint(x, y),
        (None, None) => true,
        _ => false,
    }
}

impl HardwareFingerprint {
    /// A fingerprint of the given identifiers, with the SHA-256 over them as its composite
    /// hash (lowercase hex).
    pub fn from_parts(
        mac_addresses: Vec<String>,
        disk_serial: Option<String>,
        hostname: String,
        cpu_id: String,
    ) -> (r: HardwareFingerprint)
        ensures
            string_views(r.mac_addresses@) == string_views(mac_addresses@),
            opt_view(r.disk_serial) == opt_view(disk_serial),
            r.hostname@ == hostname@,
            r.cpu_id@ == cpu_id@,
            r.composite_hash@ == hex_lower(
                sha256(
                    fingerprint_material(
                        string_views(mac_addresses@),
                        opt_view(disk_serial),
                        hostname@,
                        cpu_id@,
                    ),
                ),
            ),
            r.composite_hash@.len() == 64,
    {
        let mut material: Vec<u8> = Vec::new();
        let mut i: usize = 0;
        while i < mac_addresses.len()
            invariant
                i <= mac_addresses@.len(),
                material@ == concat_utf8(string_views(mac_addresses@).take(i as int)),
            decreases mac_addresses@.len() - i,
        {
            append_bytes(&mut material, mac_addresses[i].as_str());
            assert(string_views(mac_addresses@).take(i + 1).drop_last() =~= string_views(
                mac_addresses@,
            ).take(i as int));
            i = i + 1;
        }
        assert(string_views(mac_addresses@).take(mac_addresses@.len() as int) =~= string_views(
            mac_addresses@,
        ));
        if let Some(serial) = &disk_serial {
            append_bytes(&mut material, serial.as_str());
        }
        append_bytes(&mut material, hostname.as_str());
        append_bytes(&mut material, cpu_id.as_str());
        let digest = sha256_bytes(&material);
        proof {
            crate::encoding::lemma_hex_lower_len(digest@);
        }
        let composite_hash = to_hex_lower(&digest);
        HardwareFingerprint { mac_addresses, disk_serial, hostname, cpu_id, composite_hash }
    }

    /// Whether the machine described by `current` matches this fingerprint: at least two
    /// of a shared MAC address, the same disk serial (when this fingerprint has one), the
    /// same host name and the same CPU.
    pub fn verify_current(&self, current: &HardwareFingerprint) -> (r: bool)
        ensures
            r == fingerprint_matches(*self, *current),
    {
        let mut matches: u32 = 0;
        let mut shared = false;
        let mut i: usize = 0;
        while i < self.mac_addresses.len() && !shared
            invariant
                i <= self.mac_addresses@.len(),
                shared ==> shares_mac(
                    string_views(self.mac_addresses@),
                    string_views(current.mac_addresses@),
                ),
                !shared ==> forall|a: int, b: int|
                    #![trigger self.mac_addresses@[a], current.mac_addresses@[b]]
                    0 <= a < i && 0 <= b < current.mac_addresses@.len() ==> self.mac_addresses@[a]@
                        != current.mac_addresses@[b]@,
            decreases self.mac_addresses@.len() - i,
        {
            let mut j: usize = 0;
            while j < current.mac_addresses.len() && !shared
                invariant
                    i < self.mac_addresses@.len(),
                    j <= current.mac_addresses@.len(),
                    shared ==> shares_mac(
                        string_views(self.mac_addresses@),
                        string_views(current.mac_addresses@),
                    ),
                    !shared ==> forall|a: int, b: int|
                        #![trigger self.mac_addresses@[a], current.mac_addresses@[b]]
                        0 <= a < i && 0 <= b < current.mac_addresses@.len()
                            ==> self.mac_addresses@[a]@ != current.mac_addresses@[b]@,
                    !shared ==> forall|b: int|
                        0 <= b < j ==> self.mac_addresses@[i as int]@
                            != #[trigger] current.mac_addresses@[b]@,
                decreases current.mac_addresses@.len() - j,
            {
                if str_eq(self.mac_addresses[i].as_str(), current.mac_addresses[j].as_str()) {
                    shared = true;
                    assert(string_views(self.mac_addresses@)[i as int] == string_views(
                        current.mac_addresses@,
                    )[j as int]);
                }
                j = j + 1;
            }
            i = i + 1;
        }
        if !shared {
            assert forall|a: int, b: int|
                0 <= a < string_views(self.mac_addresses@).len() && 0 <= b < string_views(
                    current.mac_addresses@,
                ).len() implies string_views(self.mac_addresses@)[a] != string_views(
                current.mac_addresses@,
            )[b] by {
                assert(self.mac_addresses@[a]@ != current.mac_addresses@[b]@);
            }
        }
        if shared {
            matches = matches + 1;
        }
        let serial_match = match (&self.disk_serial, &current.disk_serial) {
            (Some(a), Some(b)) => str_eq(a.as_str(), b.as_str()),
            _ => false,
        };
        if serial_match {
            matches = matches + 1;
        }
        if str_eq(self.hostname.as_str(), current.hostname.as_str()) {
            matches = matches + 1;
        }
        if str_eq(self.cpu_id.as_str(), current.cpu_id.as_str()) {
            matches = matches + 1;
        }
        matches >= 2
    }

    /// A copy of this fingerprint.
    pub fn duplicate(&self) -> (r: HardwareFingerprint)
        ensures
            same_fingerprint(r, *self),
    {
        HardwareFingerprint {
            mac_addresses: clone_strings(&self.mac_addresses),
            disk_serial: clone_opt_string(&self.disk_serial),
            hostname: clone_string(&self.hostname),
            cpu_id: clone_string(&self.cpu_id),
            composite_hash: clone_string(&self.composite_hash),
        }
    }
}

fn duplicate_opt(f: &Option<HardwareFingerprint>) -> (r: Option<HardwareFingerprint>)
    ensures
        same_opt_fingerprint(r, *f),
{
    match f {
        Some(x) => Some(x.duplicate()),
        None => None,
    }
}

/// The MAC addresses found on the machine: the one found, or the placeholder
/// `unknown-mac` when none was found.
pub fn mac_addresses_from(found: Option<String>) -> (r: Vec<String>)
    ensures
        string_views(r@) == match found {
            Some(m) => seq![m@],
            None => seq!["unknown-mac"@],
        },
{
    let mut addrs: Vec<String> = Vec::new();
    if let Some(m) = found {
        addrs.push(m);
    }
    if addrs.len() == 0 {
        addrs.push("unknown-mac".to_owned());
    }
    assert(string_views(addrs@) =~= match found {
        Some(m) => seq![m@],
        None => seq!["unknown-mac"@],
    });
    addrs
}

/// The CPU identifier `{brand}-{vendor}` of the first CPU, or `unknown-cpu` when none is
/// reported.
pub fn cpu_id_from(first_cpu: Option<(String, String)>) -> (r: String)
    ensures
        r@ == match first_cpu {
            Some(cpu) => cpu.0@ + "-"@ + cpu.1@,
            None => "unknown-cpu"@,
        },
{
    match first_cpu {
        Some((brand, vendor)) => {
            let mut r = brand;
            r.append("-");
            r.append(vendor.as_str());
            r
        },
        None => "unknown-cpu".to_owned(),
    }
}

// ---------------------------------------------------------------------------
// Licenses
// ---------------------------------------------------------------------------

/// `uuid::Uuid::new_v4`: sixteen random bytes, with the version nibble 4 and the RFC 4122
/// variant bits set.
#[verifier::external_body]
pub(crate) fn new_license_id() -> (r: [u8; 16])
    ensures
        r@[6] / 16 == 4,
        r@[8] / 64 == 2,
{
    uuid::Uuid::new_v4().into_bytes()
}

/// The payload carries the license's fields.
pub open spec fn payload_of(p: LicensePayload, l: License) -> bool {
    &&& p.id == l.id
    &&& p.customer@ == l.customer@
    &&& p.product@ == l.product@
    &&& same_opt_fingerprint(p.hardware_fingerprint, l.hardware_fingerprint)
    &&& p.issued_at == l.issued_at
    &&& p.expires_at == l.expires_at
    &&& p.seats == l.seats
    &&& string_views(p.features@) == string_views(l.features@)
}

/// What the checks made before the machine is read give: the public key is a valid point,
/// the signature decodes to 64 bytes and verifies for `payload`, and the license has not
/// expired at `now`.
pub open spec fn pre_machine_outcome(
    license: License,
    payload: Seq<u8>,
    public_key: Seq<u8>,
    now: Timestamp,
) -> Result<(), LicenseError> {
    if !ed25519_point_valid(public_key) {
        Err(LicenseError::InvalidPublicKey)
    } else {
        match base64_decode(license.signature@) {
            None => Err(LicenseError::InvalidSignatureEncoding),
            Some(sig) => if sig.len() != 64 {
                Err(LicenseError::InvalidSignatureLength)
            } else if !ed25519_verifies(public_key, payload, sig) {
                Err(LicenseError::InvalidSignature)
            } else if license.expires_at is Some && later(now, license.expires_at->0) {
                Err(LicenseError::Expired)
            } else {
                Ok(())
            },
        }
    }
}

/// What the machine check gives: a hardware-bound license must match the machine
/// described by `current`.
pub open spec fn machine_outcome(license: License, current: Option<HardwareFingerprint>) -> Result<
    (),
    LicenseError,
> {
    if license.hardware_fingerprint is Some && !fingerprint_matches(
        license.hardware_fingerprint->0,
        current->0,
    ) {
        Err(LicenseError::HardwareMismatch)
    } else {
        Ok(())
    }
}

/// What validating `license` gives, with `payload` the serialized payload, at instant
/// `now`, on the machine described by `current`: the checks before the machine first, then
/// the machine.
pub open spec fn validate_outcome(
    license: License,
    payload: Seq<u8>,
    public_key: Seq<u8>,
    now: Timestamp,
    current: Option<HardwareFingerprint>,
) -> Result<(), LicenseError> {
    match pre_machine_outcome(license, payload, public_key, now) {
        Err(e) => Err(e),
        Ok(()) => machine_outcome(license, current),
    }
}

impl LicensePayload {
    /// The payload of `license`: every field but the signature.
    pub fn from_license(license: &License) -> (r: LicensePayload)
        ensures
            payload_of(r, *license),
    {
        LicensePayload {
            id: license.id,
            customer: clone_string(&license.customer),
            product: clone_string(&license.product),
            hardware_fingerprint: duplicate_opt(&license.hardware_fingerprint),
            issued_at: license.issued_at,
            expires_at: license.expires_at,
            seats: license.seats,
            features: clone_strings(&license.features),
        }
    }
}

impl License {
    /// A new license, issued now with a fresh random id, carrying no signature yet.
    pub fn unsigned(
        customer: &str,
        product: &str,
        fingerprint: Option<HardwareFingerprint>,
        expires_at: Option<Timestamp>,
        seats: u32,
        features: Vec<String>,
    ) -> (r: License)
        ensures
            r.customer@ == customer@,
            r.product@ == product@,
            r.hardware_fingerprint == fingerprint,
            r.expires_at == expires_at,
            r.seats == seats,
            r.features == features,
            r.signature@ == Seq::<char>::empty(),
            r.issued_at.nanos < 1_000_000_000,
            r.id@[6] / 16 == 4,
            r.id@[8] / 64 == 2,
    {
        License {
            id: new_license_id(),
            customer: customer.to_owned(),
            product: product.to_owned(),
            hardware_fingerprint: fingerprint,
            issued_at: utc_now(),
            expires_at,
            seats,
            features,
            signature: String::new(),
        }
    }

    /// This license with its signature set: the base64 Ed25519 signature of `payload`
    /// (the serialized payload of this license) under `signing_key`.
    pub fn signed(self, signing_key: &[u8; 32], payload: &[u8]) -> (r: License)
        ensures
            r.signature@ == base64_encode(ed25519_signature(signing_key@, payload@)),
            ed25519_signature(signing_key@, payload@).len() == 64,
            r.id == self.id,
            r.customer == self.customer,
            r.product == self.product,
            r.hardware_fingerprint == self.hardware_fingerprint,
            r.issued_at == self.issued_at,
            r.expires_at == self.expires_at,
            r.seats == self.seats,
            r.features == self.features,
    {
        let sig = ed25519_sign(signing_key, payload);
        License { signature: b64_encode(&sig), ..self }
    }
}

fn signature_array(v: &Vec<u8>) -> (r: [u8; 64])
    requires
        v@.len() == 64,
    ensures
        r@ == v@,
{
    let mut a = [0u8; 64];
    let mut i: usize = 0;
    while i < 64
        invariant
            i <= 64,
            v@.len() == 64,
            forall|j: int| 0 <= j < i ==> a@[j] == v@[j],
        decreases 64 - i,
    {
        a[i] = v[i];
        i = i + 1;
    }
    assert(a@ =~= v@);
    a
}

/// The checks made before the machine is read, at instant `now`: the public key is a
/// valid point, the signature decodes to 64 bytes and verifies for `payload`, and the
/// license has not expired. A license signed over its payload with the secret of the public
/// key and unexpired passes them.
pub fn check_license_before_machine_at(
    license: &License,
    payload: &[u8],
    public_key: &[u8; 32],
    now: Timestamp,
) -> (r: Result<(), LicenseError>)
    ensures
        r == pre_machine_outcome(*license, payload@, public_key@, now),
        forall|secret: Seq<u8>|
            secret.len() == 32 && public_key@ == ed25519_public_key(secret) && #[trigger] ed25519_signature(
                secret,
                payload@,
            ).len() == 64 && license.signature@ == base64_encode(ed25519_signature(secret, payload@))
                && !(license.expires_at is Some && later(now, license.expires_at->0)) ==> r is Ok,
{
    if !ed25519_public_key_accepted(public_key) {
        return Err(LicenseError::InvalidPublicKey);
    }
    let sig_bytes = match b64_decode(license.signature.as_str()) {
        Some(s) => s,
        None => return Err(LicenseError::InvalidSignatureEncoding),
    };
    if sig_bytes.len() != 64 {
        return Err(LicenseError::InvalidSignatureLength);
    }
    let sig = signature_array(&sig_bytes);
    if !ed25519_verify(public_key, payload, &sig) {
        return Err(LicenseError::InvalidSignature);
    }
    if let Some(expires) = license.expires_at {
        if is_later(now, expires) {
            return Err(LicenseError::Expired);
        }
    }
    Ok(())
}

/// The machine check: a hardware-bound license must match the machine described by
/// `current`.
pub fn check_license_machine(license: &License, current: Option<&HardwareFingerprint>) -> (r: Result<
    (),
    LicenseError,
>)
    requires
        license.hardware_fingerprint is Some ==> current is Some,
    ensures
        r == machine_outcome(
            *license,
            match current {
                Some(c) => Some(*c),
                None => None,
            },
        ),
{
    if let Some(expected) = &license.hardware_fingerprint {
        let cur = current.unwrap();
        if !expected.verify_current(cur) {
            return Err(LicenseError::HardwareMismatch);
        }
    }
    Ok(())
}

/// The checks made before the machine is read, now (read from the system clock); the
/// instant used is returned. A caller reads the machine only after these pass, then calls
/// [`check_license_machine`]; together they are [`validate_license_at`] at that instant.
pub fn check_license_before_machine(
    license: &License,
    payload: &[u8],
    public_key: &[u8; 32],
) -> (r: Result<Timestamp, LicenseError>)
    ensures
        r matches Ok(now) ==> clock_instant(now) && pre_machine_outcome(
            *license,
            payload@,
            public_key@,
            now,
        ) is Ok,
        r matches Err(e) ==> exists|now: Timestamp|
            clock_instant(now) && pre_machine_outcome(*license, payload@, public_key@, now) == Err::<
                (),
                LicenseError,
            >(e),
{
    let now = utc_now();
    match check_license_before_machine_at(license, payload, public_key, now) {
        Ok(()) => Ok(now),
        Err(e) => {
            assert(clock_instant(now));
            Err(e)
        },
    }
}

/// Validates `license` at instant `now`: the public key is a valid point, the signature
/// decodes to 64 bytes and verifies for `payload` (the serialized payload of the license),
/// the license has not expired, and a hardware-bound license matches `current`. A license
/// signed over its payload with the secret of the public key, unexpired, and unbound or
/// matching, validates. The signed bytes `payload` are taken as given: the caller
/// serializes them from the license's fields, and nothing here ties those bytes to the
/// fields.
pub fn validate_license_at(
    license: &License,
    payload: &[u8],
    public_key: &[u8; 32],
    now: Timestamp,
    current: Option<&HardwareFingerprint>,
) -> (r: Result<(), LicenseError>)
    requires
        license.hardware_fingerprint is Some ==> current is Some,
    ensures
        r == validate_outcome(
            *license,
            payload@,
            public_key@,
            now,
            match current {
                Some(c) => Some(*c),
                None => None,
            },
        ),
        forall|secret: Seq<u8>|
            secret.len() == 32 && public_key@ == ed25519_public_key(secret) && #[trigger] ed25519_signature(
                secret,
                payload@,
            ).len() == 64 && license.signature@ == base64_encode(ed25519_signature(secret, payload@))
                && !(license.expires_at is Some && later(now, license.expires_at->0)) && (
            license.hardware_fingerprint is Some ==> fingerprint_matches(
                license.hardware_fingerprint->0,
                *current->0,
            )) ==> r is Ok,
{
    check_license_before_machine_at(license, payload, public_key, now)?;
    check_license_machine(license, current)
}

/// Validates `license` now (read from the system clock); see [`validate_license_at`],
/// whose `payload` is likewise taken as given.
pub fn validate_license(
    license: &License,
    payload: &[u8],
    public_key: &[u8; 32],
    current: Option<&HardwareFingerprint>,
) -> (r: Result<(), LicenseError>)
    requires
        license.hardware_fingerprint is Some ==> current is Some,
    ensures
        exists|now: Timestamp|
            now.nanos < 1_000_000_000 && r == validate_outcome(
                *license,
                payload@,
                public_key@,
                now,
                match current {
                    Some(c) => Some(*c),
                    None => None,
                },
            ),
{
    let now = utc_now();
    validate_license_at(license, payload, public_key, now, current)
}

/// A fresh Ed25519 key pair: a random 32-byte secret and its public key.
pub fn keygen() -> (r: ([u8; 32], [u8; 32]))
    ensures
        r.1@ == ed25519_public_key(r.0@),
        ed25519_point_valid(r.1@),
{
    let secret = crate::crypto::random_secret();
    let public = crate::crypto::ed25519_derive_public(&secret);
    (secret, public)
}

/// The Ed25519 public key of a 32-byte secret; it is always a valid point.
pub fn public_key_of(secret: &[u8; 32]) -> (r: [u8; 32])
    ensures
        r@ == ed25519_public_key(secret@),
        ed25519_point_valid(r@),
{
    crate::crypto::ed25519_derive_public(secret)
}

/// The offline activation challenge for a fingerprint document: `activation:` and the
/// lowercase hex BLAKE3 of its bytes.
pub fn generate_activation_challenge(fingerprint_json: &str) -> (r: Result<String, LicenseError>)
    ensures
        r is Ok,
        r->Ok_0@ == "activation:"@ + hex_lower(
            crate::crypto::blake3_digest(encode_utf8(fingerprint_json@)),
        ),
{
    let digest = crate::crypto::blake3_bytes(fingerprint_json.as_bytes());
    let mut r = "activation:".to_owned();
    r.append(to_hex_lower(&digest).as_str());
    Ok(r)
}

/// The first line of `text` (lines split at `\n`) that is not blank, trimmed.
pub open spec fn first_nonblank_line(text: Seq<char>) -> Option<Seq<char>>
    decreases text.len(),
{
    match crate::text::find_first(text, seq!['\n']) {
        Some(i) => if crate::text::trim(text.take(i)).len() > 0 {
            Some(crate::text::trim(text.take(i)))
        } else if 0 <= i < text.len() {
            first_nonblank_line(text.skip(i + 1))
        } else {
            None
        },
        None => if crate::text::trim(text).len() > 0 {
            Some(crate::text::trim(text))
        } else {
            None
        },
    }
}

/// The disk serial in the output of `lsblk --nodeps --output SERIAL --noheadings`: the
/// first non-blank line, trimmed; `None` when the command failed, its output is not UTF-8,
/// or every line is blank.
pub fn disk_serial_from_lsblk(success: bool, stdout: &[u8]) -> (r: Option<String>)
    ensures
        !success ==> r is None,
        success && !vstd::utf8::valid_utf8(stdout@) ==> r is None,
        success && vstd::utf8::valid_utf8(stdout@) ==> match first_nonblank_line(
            vstd::utf8::decode_utf8(stdout@),
        ) {
            Some(line) => r is Some && r->0@ == line,
            None => r is None,
        },
{
    if !success {
        return None;
    }
    let text = match crate::text::str_from_utf8(stdout) {
        Some(t) => t,
        None => return None,
    };
    proof {
        vstd::utf8::encode_utf8_decode_utf8(text@);
    }
    let newline = vec!['\n'];
    assert(newline@ =~= seq!['\n']);
    let mut rest = chars_of(text);
    while rest.len() > 0
        invariant
            newline@ == seq!['\n'],
            success && vstd::utf8::valid_utf8(stdout@),
            text@ == vstd::utf8::decode_utf8(stdout@),
            first_nonblank_line(rest@) == first_nonblank_line(text@),
        decreases rest@.len(),
    {
        match crate::text::find(&rest, &newline) {
            Some(i) => {
                proof {
                    crate::text::lemma_find_first(rest@, newline@);
                }
                assert(i < rest.len());
                let line = crate::text::trim_chars(&crate::text::slice(&rest, 0, i));
                assert(rest@.subrange(0, i as int) =~= rest@.take(i as int));
                if line.len() > 0 {
                    return Some(crate::text::string_of(&line));
                }
                let tail = crate::text::slice(&rest, i + 1, rest.len());
                assert(tail@ =~= rest@.skip(i + 1));
                rest = tail;
            },
            None => {
                let line = crate::text::trim_chars(&rest);
                if line.len() > 0 {
                    return Some(crate::text::string_of(&line));
                }
                return None;
            },
        }
    }
    proof {
        crate::text::lemma_find_first(rest@, newline@);
        assert(crate::text::trim(rest@) =~= rest@);
    }
    None
}

/// The storage identifier in `system_profiler SPStorageDataType` entries, given each
/// entry's `volume_uuid` and `_rowIdentifier` strings (when they are strings): the first
/// non-empty one, preferring the volume UUID.
pub open spec fn storage_serial_spec(items: Seq<(Option<Seq<char>>, Option<Seq<char>>)>) -> Option<Seq<char>>
    decreases items.len(),
{
    if items.len() == 0 {
        None
    } else {
        let chosen = if items[0].0 is Some {
            items[0].0
        } else {
            items[0].1
        };
        if chosen is Some && chosen->0.len() > 0 {
            chosen
        } else {
            storage_serial_spec(items.drop_first())
        }
    }
}

/// The views of storage entries.
pub open spec fn storage_items_view(items: Seq<(Option<String>, Option<String>)>) -> Seq<(Option<Seq<char>>, Option<Seq<char>>)> {
    items.map_values(|e: (Option<String>, Option<String>)| (opt_view(e.0), opt_view(e.1)))
}

/// The disk identifier reported by `system_profiler`: see [`storage_serial_spec`].
pub fn storage_serial(items: &Vec<(Option<String>, Option<String>)>) -> (r: Option<String>)
    ensures
        opt_view(r) == storage_serial_spec(storage_items_view(items@)),
{
    let mut i: usize = 0;
    assert(storage_items_view(items@).skip(0) =~= storage_items_view(items@));
    while i < items.len()
        invariant
            i <= items@.len(),
            storage_serial_spec(storage_items_view(items@)) == storage_serial_spec(
                storage_items_view(items@).skip(i as int),
            ),
        decreases items@.len() - i,
    {
        assert(storage_items_view(items@).skip(i as int)[0] == storage_items_view(items@)[i as int]);
        assert(storage_items_view(items@).skip(i as int).drop_first() =~= storage_items_view(
            items@,
        ).skip(i + 1));
        let chosen = match &items[i].0 {
            Some(v) => Some(clone_string(v)),
            None => clone_opt_string(&items[i].1),
        };
        if let Some(c) = &chosen {
            if !c.as_str().is_empty() {
                return chosen;
            }
        }
        i = i + 1;
    }
    None
}

/// A machine always matches its own fingerprint: the host name and the CPU agree.
pub proof fn lemma_fingerprint_matches_itself(f: HardwareFingerprint)
    ensures
        fingerprint_matches(f, f),
{
}

/// A license validates only if its signature verifies for the payload under the public
/// key, it has not expired, and, when hardware-bound, the machine matches.
pub proof fn lemma_valid_license_requirements(
    license: License,
    payload: Seq<u8>,
    public_key: Seq<u8>,
    now: Timestamp,
    current: Option<HardwareFingerprint>,
)
    requires
        validate_outcome(license, payload, public_key, now, current) is Ok,
    ensures
        ed25519_point_valid(public_key),
        base64_decode(license.signature@) matches Some(sig) && sig.len() == 64
            && ed25519_verifies(public_key, payload, sig),
        !(license.expires_at is Some && later(now, license.expires_at->0)),
        license.hardware_fingerprint is Some ==> fingerprint_matches(
            license.hardware_fingerprint->0,
            current->0,
        ),
{
}

} // verus!
