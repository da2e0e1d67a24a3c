//! The decisions of the command-line tool: exit codes, profile templates, configuration,
//! container engine arguments and artifact names.
use vstd::prelude::*;
use crate::harden::{string_views, HardenConfig, SeccompMode};
use crate::text::{
    chars_of, contains, contains_seq, has_suffix, lowercase, rfind, rfind_char, slice, str_eq,
    string_of, to_lowercase,
};

verus! {

// ---------------------------------------------------------------------------
// Exit codes
// ---------------------------------------------------------------------------

/// Whether a lowercased failure message tells of a binding or hardware-fingerprint
/// validation failure: a fingerprint mismatch, a bound key, or a license not valid for
/// this hardware.
pub open spec fn binding_failure(m: Seq<char>) -> bool {
    contains_seq(m, "fingerprint mismatch"@) || contains_seq(m, "bound key"@) || contains_seq(
        m,
        "not valid for this hardware"@,
    )
}

/// Whether a lowercased failure message tells of a signature verification failure,
/// cosign's included.
pub open spec fn signature_failure(m: Seq<char>) -> bool {
    contains_seq(m, "signature"@) || contains_seq(m, "verify"@) || contains_seq(m, "verification"@)
}

/// Whether a lowercased failure message tells of a registry push, pull or manifest failure.
pub open spec fn registry_failure(m: Seq<char>) -> bool {
    contains_seq(m, "registry"@) || contains_seq(m, "manifest"@) || contains_seq(m, "blob"@)
}

/// Whether a lowercased failure message tells of a hardening or compose failure.
pub open spec fn hardening_failure(m: Seq<char>) -> bool {
    contains_seq(m, "compose"@) || contains_seq(m, "harden"@)
}

/// Whether a lowercased failure message tells of a container engine run failure: a failed
/// `docker run`, or a podman or nerdctl failure.
pub open spec fn engine_failure(m: Seq<char>) -> bool {
    contains_seq(m, "docker run failed"@) || contains_seq(m, "podman"@) || contains_seq(m, "nerdctl"@)
}

/// The documented exit code for a lowercased failure message: 21 binding or fingerprint
/// validation, 22 signature verification, 23 registry, 24 hardening or compose, 25 container
/// engine, 1 any other failure; the first that applies, in that order.
pub open spec fn exit_code_for(m: Seq<char>) -> i32 {
    if binding_failure(m) {
        21
    } else if signature_failure(m) {
        22
    } else if registry_failure(m) {
        23
    } else if hardening_failure(m) {
        24
    } else if engine_failure(m) {
        25
    } else {
        1
    }
}

/// The exit code for a failure message, matched case-insensitively.
pub open spec fn exit_code_spec(message: Seq<char>) -> i32 {
    exit_code_for(lowercase(message))
}

fn has(m: &Vec<char>, needle: &str) -> (r: bool)
    ensures
        r == contains_seq(m@, needle@),
{
    contains(m, &chars_of(needle))
}

/// The documented exit code for a failure message already in lowercase.
pub fn exit_code_of_lowercase(m: &str) -> (r: i32)
    ensures
        r == exit_code_for(m@),
{
    let m = chars_of(m);
    if has(&m, "fingerprint mismatch") || has(&m, "bound key") || has(
        &m,
        "not valid for this hardware",
    ) {
        21
    } else if has(&m, "signature") || has(&m, "verify") || has(&m, "verification") {
        22
    } else if has(&m, "registry") || has(&m, "manifest") || has(&m, "blob") {
        23
    } else if has(&m, "compose") || has(&m, "harden") {
        24
    } else if has(&m, "docker run failed") || has(&m, "podman") || has(&m, "nerdctl") {
        25
    } else {
        1
    }
}

/// The process exit code for the failure whose message is `message`.
pub fn map_exit_code(message: &str) -> (r: i32)
    ensures
        r == exit_code_spec(message@),
{
    exit_code_of_lowercase(to_lowercase(message).as_str())
}

// ---------------------------------------------------------------------------
// Profiles
// ---------------------------------------------------------------------------

/// The protection profiles `init` writes a configuration for.
#[derive(Debug, Clone, Copy, PartialEq, Eq)]
pub enum ProtectionProfile {
    Baseline,
    Strict,
    HighAssurance,
}

/// Why a profile name was refused.
#[derive(Debug, Clone, Copy, PartialEq, Eq)]
pub enum InitError {
    UnknownProfile,
}

/// The profile named `baseline`, `strict` or `high-assurance`.
pub fn select_profile(name: &str) -> (r: Result<ProtectionProfile, InitError>)
    ensures
        name@ == "baseline"@ ==> r == Ok::<ProtectionProfile, InitError>(ProtectionProfile::Baseline),
        name@ == "strict"@ ==> r == Ok::<ProtectionProfile, InitError>(ProtectionProfile::Strict),
        name@ == "high-assurance"@ ==> r == Ok::<ProtectionProfile, InitError>(
            ProtectionProfile::HighAssurance,
        ),
        name@ != "baseline"@ && name@ != "strict"@ && name@ != "high-assurance"@ ==> r == Err::<
            ProtectionProfile,
            InitError,
        >(InitError::UnknownProfile),
{
    proof {
        reveal_strlit("baseline");
        reveal_strlit("strict");
        reveal_strlit("high-assurance");
        assert("baseline"@.len() == 8 && "strict"@.len() == 6 && "high-assurance"@.len() == 14);
    }
    if str_eq(name, "baseline") {
        Ok(ProtectionProfile::Baseline)
    } else if str_eq(name, "strict") {
        Ok(ProtectionProfile::Strict)
    } else if str_eq(name, "high-assurance") {
        Ok(ProtectionProfile::HighAssurance)
    } else {
        Err(InitError::UnknownProfile)
    }
}

/// The configuration written for the baseline profile: the protection-profile guide's
/// baseline tables, with the project and bind settings the tool reads.
pub open spec fn baseline_template_text() -> Seq<char> {
    "[profile]\nname = \"baseline\"\n\n[project]\nname = \"vaultship-demo\"\n\n[harden]\nread_only = true\ndrop_capabilities = true\nno_new_privileges = true\nseccomp_profile = \"auto\"\nanti_debug = true\n\n[bind]\nenabled = true\nhardware_required = false\nhardware_bind = false\nheartbeat_interval_minutes = 240\npublic_key_path = \"./vaultship.public.key\"\n\n[signing]\nenforce_cosign = false\n\n[attestation]\nenabled = false\n"@
}

/// The configuration written for the strict profile: the guide's strict tables (hardware
/// binding, cosign enforced), with the project and bind settings the tool reads.
pub open spec fn strict_template_text() -> Seq<char> {
    "[profile]\nname = \"strict\"\n\n[project]\nname = \"vaultship-demo\"\n\n[harden]\nread_only = true\ndrop_capabilities = true\nno_new_privileges = true\nseccomp_profile = \"strict\"\nanti_debug = true\n\n[bind]\nenabled = true\nhardware_required = true\nhardware_bind = true\nheartbeat_interval_minutes = 60\npublic_key_path = \"./vaultship.public.key\"\n\n[signing]\nenforce_cosign = true\ncosign_key_path = \"/etc/vaultship/cosign.key\"\n\n[attestation]\nenabled = false\n"@
}

/// The configuration written for the high-assurance profile: the strict tables with a
/// shorter heartbeat and attested key release.
pub open spec fn high_assurance_template_text() -> Seq<char> {
    "[profile]\nname = \"high-assurance\"\n\n[project]\nname = \"vaultship-demo\"\n\n[harden]\nread_only = true\ndrop_capabilities = true\nno_new_privileges = true\nseccomp_profile = \"strict\"\nanti_debug = true\n\n[bind]\nenabled = true\nhardware_required = true\nhardware_bind = true\nheartbeat_interval_minutes = 30\npublic_key_path = \"./vaultship.public.key\"\n\n[signing]\nenforce_cosign = true\ncosign_key_path = \"/etc/vaultship/cosign.key\"\n\n[attestation]\nenabled = true\nbackend = \"coco\"\nrequire_attested_key_release = true\n"@
}

/// The baseline profile's configuration text.
pub fn baseline_template() -> (r: String)
    ensures
        r@ == baseline_template_text(),
{
    "[profile]\nname = \"baseline\"\n\n[project]\nname = \"vaultship-demo\"\n\n[harden]\nread_only = true\ndrop_capabilities = true\nno_new_privileges = true\nseccomp_profile = \"auto\"\nanti_debug = true\n\n[bind]\nenabled = true\nhardware_required = false\nhardware_bind = false\nheartbeat_interval_minutes = 240\npublic_key_path = \"./vaultship.public.key\"\n\n[signing]\nenforce_cosign = false\n\n[attestation]\nenabled = false\n".to_owned()
}

/// The strict profile's configuration text.
pub fn strict_template() -> (r: String)
    ensures
        r@ == strict_template_text(),
{
    "[profile]\nname = \"strict\"\n\n[project]\nname = \"vaultship-demo\"\n\n[harden]\nread_only = true\ndrop_capabilities = true\nno_new_privileges = true\nseccomp_profile = \"strict\"\nanti_debug = true\n\n[bind]\nenabled = true\nhardware_required = true\nhardware_bind = true\nheartbeat_interval_minutes = 60\npublic_key_path = \"./vaultship.public.key\"\n\n[signing]\nenforce_cosign = true\ncosign_key_path = \"/etc/vaultship/cosign.key\"\n\n[attestation]\nenabled = false\n".to_owned()
}

/// The high-assurance profile's configuration text.
pub fn high_assurance_template() -> (r: String)
    ensures
        r@ == high_assurance_template_text(),
{
    "[profile]\nname = \"high-assurance\"\n\n[project]\nname = \"vaultship-demo\"\n\n[harden]\nread_only = true\ndrop_capabilities = true\nno_new_privileges = true\nseccomp_profile = \"strict\"\nanti_debug = true\n\n[bind]\nenabled = true\nhardware_required = true\nhardware_bind = true\nheartbeat_interval_minutes = 30\npublic_key_path = \"./vaultship.public.key\"\n\n[signing]\nenforce_cosign = true\ncosign_key_path = \"/etc/vaultship/cosign.key\"\n\n[attestation]\nenabled = true\nbackend = \"coco\"\nrequire_attested_key_release = true\n".to_owned()
}

// ---------------------------------------------------------------------------
// Configuration
// ---------------------------------------------------------------------------

/// The `[profile]` table of `vaultship.toml`.
pub struct Profile {
    pub name: String,
}

/// The `[project]` table of `vaultship.toml`.
pub struct Project {
    pub name: String,
}

/// The `[harden]` table of `vaultship.toml`.
pub struct Harden {
    pub read_only: bool,
    pub drop_capabilities: bool,
    pub no_new_privileges: bool,
    pub seccomp_profile: String,
    pub anti_debug: bool,
}

/// The `[license]` table of `vaultship.toml`.
pub struct License {
    pub product: String,
    pub public_key_path: String,
}

/// The `[bind]` table of `vaultship.toml`.
pub struct Bind {
    pub enabled: bool,
    pub hardware_required: bool,
    pub public_key_path: String,
}

/// The whole of `vaultship.toml`.
pub struct VaultShipConfig {
    pub profile: Option<Profile>,
    pub project: Project,
    pub harden: Harden,
    pub bind: Option<Bind>,
    pub license: Option<License>,
}

/// The hardening the `[harden]` table asks for.
pub fn harden_config_from(h: &Harden) -> (r: HardenConfig)
    ensures
        r.read_only == h.read_only,
        r.drop_capabilities == h.drop_capabilities,
        r.no_new_privileges == h.no_new_privileges,
        r.anti_debug == h.anti_debug,
        h.seccomp_profile@ == "strict"@ ==> r.seccomp_profile is Strict,
        h.seccomp_profile@ == "auto"@ ==> r.seccomp_profile is Auto,
        h.seccomp_profile@ != "strict"@ && h.seccomp_profile@ != "auto"@ ==> (r.seccomp_profile is Custom
            && r.seccomp_profile->Custom_0@ == h.seccomp_profile@),
{
    proof {
        reveal_strlit("strict");
        reveal_strlit("auto");
        assert("strict"@.len() == 6 && "auto"@.len() == 4);
    }
    let mode = if str_eq(h.seccomp_profile.as_str(), "strict") {
        SeccompMode::Strict
    } else if str_eq(h.seccomp_profile.as_str(), "auto") {
        SeccompMode::Auto
    } else {
        SeccompMode::Custom(h.seccomp_profile.clone())
    };
    HardenConfig {
        read_only: h.read_only,
        drop_capabilities: h.drop_capabilities,
        no_new_privileges: h.no_new_privileges,
        seccomp_profile: mode,
        anti_debug: h.anti_debug,
    }
}

// ---------------------------------------------------------------------------
// License subcommands
// ---------------------------------------------------------------------------

/// The `license` subcommands.
pub enum LicenseCommands {
    Keygen { name: String },
    Create {
        customer: String,
        product: String,
        expires: Option<String>,
        seats: u32,
        hardware_bind: bool,
        features: Option<Vec<String>>,
        fingerprint: Option<String>,
        key: String,
    },
    Validate { license_file: String, public_key: String },
    Fingerprint,
}

// ---------------------------------------------------------------------------
// Container engine invocation
// ---------------------------------------------------------------------------

/// The hardening flags every protected run passes to the container engine.
pub open spec fn run_flags() -> Seq<Seq<char>> {
    seq![
        "run"@, "--rm"@, "--read-only"@, "--security-opt"@, "no-new-privileges:true"@,
        "--security-opt"@, "seccomp=./seccomp-profile.json"@, "--cap-drop"@, "ALL"@,
        "--cap-add"@, "NET_BIND_SERVICE"@, "--tmpfs"@, "/tmp:noexec,nosuid"@,
    ]
}

fn owned(s: &str) -> (r: String)
    ensures
        r@ == s@,
{
    s.to_owned()
}

/// The engine arguments for a protected run of `image`: the hardening flags, then the
/// caller's extra arguments, then the image.
pub fn docker_run_args(image: &str, extra_args: &Vec<String>) -> (r: Vec<String>)
    ensures
        string_views(r@) == run_flags() + string_views(extra_args@) + seq![image@],
{
    let flags: [&str; 13] = [
        "run", "--rm", "--read-only", "--security-opt", "no-new-privileges:true",
        "--security-opt", "seccomp=./seccomp-profile.json", "--cap-drop", "ALL", "--cap-add",
        "NET_BIND_SERVICE", "--tmpfs", "/tmp:noexec,nosuid",
    ];
    let mut r: Vec<String> = Vec::new();
    let mut i: usize = 0;
    while i < 13
        invariant
            i <= 13,
            r@.len() == i,
            forall|j: int| 0 <= j < i ==> #[trigger] r@[j]@ == flags@[j]@,
        decreases 13 - i,
    {
        r.push(owned(flags[i]));
        i = i + 1;
    }
    let mut k: usize = 0;
    while k < extra_args.len()
        invariant
            k <= extra_args@.len(),
            r@.len() == 13 + k,
            forall|j: int| 0 <= j < 13 ==> #[trigger] r@[j]@ == flags@[j]@,
            forall|j: int| 0 <= j < k ==> #[trigger] r@[13 + j]@ == extra_args@[j]@,
        decreases extra_args@.len() - k,
    {
        r.push(extra_args[k].clone());
        k = k + 1;
    }
    r.push(owned(image));
    assert(flags@.map_values(|s: &str| s@) =~= run_flags());
    assert forall|j: int| 0 <= j < r@.len() implies #[trigger] string_views(r@)[j] == (run_flags()
        + string_views(extra_args@) + seq![image@])[j] by {
        if j < 13 {
            assert(flags@.map_values(|s: &str| s@)[j] == flags@[j]@);
        } else if j < 13 + extra_args@.len() {
            assert(r@[13 + (j - 13)]@ == extra_args@[j - 13]@);
        }
    }
    assert(string_views(r@) =~= run_flags() + string_views(extra_args@) + seq![image@]);
    r
}

/// The items joined with `sep` between them.
pub open spec fn join_with(items: Seq<Seq<char>>, sep: Seq<char>) -> Seq<char>
    decreases items.len(),
{
    if items.len() == 0 {
        Seq::empty()
    } else if items.len() == 1 {
        items[0]
    } else {
        join_with(items.drop_last(), sep) + sep + items.last()
    }
}

/// `items` joined with single spaces.
pub fn join_spaced(items: &Vec<String>) -> (r: String)
    ensures
        r@ == join_with(string_views(items@), " "@),
{
    let mut r = String::new();
    let mut i: usize = 0;
    while i < items.len()
        invariant
            i <= items@.len(),
            r@ == join_with(string_views(items@).take(i as int), " "@),
        decreases items@.len() - i,
    {
        if i > 0 {
            r.append(" ");
        }
        r.append(items[i].as_str());
        assert(string_views(items@).take(i + 1).drop_last() =~= string_views(items@).take(i as int));
        i = i + 1;
    }
    assert(string_views(items@).take(items@.len() as int) =~= string_views(items@));
    r
}

/// The line printed for a dry run: `Dry-run {engine} command: {engine} {args}`.
pub fn dry_run_message(engine: &str, args: &Vec<String>) -> (r: String)
    ensures
        r@ == "Dry-run "@ + engine@ + " command: "@ + engine@ + " "@ + join_with(
            string_views(args@),
            " "@,
        ),
{
    let mut r = "Dry-run ".to_owned();
    r.append(engine);
    r.append(" command: ");
    r.append(engine);
    r.append(" ");
    let joined = join_spaced(args);
    r.append(joined.as_str());
    r
}

// ---------------------------------------------------------------------------
// Artifact names
// ---------------------------------------------------------------------------

/// `s` with every occurrence of `from` replaced by `to`, left to right (as `str::replace`).
pub open spec fn replace_all(s: Seq<char>, from: Seq<char>, to: Seq<char>) -> Seq<char>
    decreases s.len(),
{
    if from.len() == 0 {
        s
    } else {
        match crate::text::find_first(s, from) {
            Some(i) => if i + from.len() <= s.len() && i >= 0 {
                s.take(i) + to + replace_all(s.skip(i + from.len()), from, to)
            } else {
                s
            },
            None => s,
        }
    }
}

/// Every occurrence of `from` in `s` replaced by `to`.
pub fn replace_str(s: &str, from: &str, to: &str) -> (r: String)
    ensures
        r@ == replace_all(s@, from@, to@),
{
    let from_chars = chars_of(from);
    let chars = chars_of(s);
    if from_chars.len() == 0 {
        return s.to_owned();
    }
    let mut r = String::new();
    let mut rest = chars;
    while rest.len() > 0
        invariant
            from_chars@ == from@,
            from@.len() > 0,
            r@ + replace_all(rest@, from@, to@) == replace_all(s@, from@, to@),
        decreases rest@.len(),
    {
        match crate::text::find(&rest, &from_chars) {
            Some(i) => {
                proof {
                    crate::text::lemma_find_first(rest@, from@);
                }
                assert(i + from_chars.len() <= rest.len());
                let head = slice(&rest, 0, i);
                let tail = slice(&rest, i + from_chars.len(), rest.len());
                assert(head@ =~= rest@.take(i as int));
                assert(tail@ =~= rest@.skip(i + from@.len()));
                r.append(string_of(&head).as_str());
                r.append(to);
                rest = tail;
            },
            None => {
                r.append(string_of(&rest).as_str());
                rest = Vec::new();
                assert(replace_all(rest@, from@, to@) =~= Seq::<char>::empty());
            },
        }
    }
    assert(replace_all(rest@, from@, to@) == rest@);
    assert(r@ =~= replace_all(s@, from@, to@));
    r
}

/// `s` with `/` and `:` replaced by `-` (an artifact file name for a service).
pub open spec fn artifact_name_spec(s: Seq<char>) -> Seq<char> {
    s.map_values(|c: char| if c == '/' || c == ':' { '-' } else { c })
}

/// The artifact name for `service_name`: `/` and `:` become `-`.
pub fn artifact_name(service_name: &str) -> (r: String)
    ensures
        r@ == artifact_name_spec(service_name@),
{
    let chars = chars_of(service_name);
    let mut out: Vec<char> = Vec::new();
    let mut i: usize = 0;
    while i < chars.len()
        invariant
            i <= chars@.len(),
            out@ == artifact_name_spec(chars@.take(i as int)),
        decreases chars@.len() - i,
    {
        let c = chars[i];
        out.push(if c == '/' || c == ':' { '-' } else { c });
        assert(artifact_name_spec(chars@.take(i + 1)) =~= artifact_name_spec(chars@.take(i as int)).push(
            if c == '/' || c == ':' { '-' } else { c },
        ));
        i = i + 1;
    }
    assert(chars@.take(chars@.len() as int) =~= chars@);
    string_of(&out)
}

/// The signing key used when building: the bind section's public key path with
/// `public` replaced by `private`, or `vaultship.private.key`.
pub fn build_private_key_path(bind: &Option<Bind>) -> (r: String)
    ensures
        r@ == match *bind {
            Some(b) => replace_all(b.public_key_path@, "public"@, "private"@),
            None => "vaultship.private.key"@,
        },
{
    match bind {
        Some(b) => replace_str(b.public_key_path.as_str(), "public", "private"),
        None => owned("vaultship.private.key"),
    }
}

/// Whether a pull names a remote registry reference (it holds a `/`).
pub fn is_remote_image(image: &str) -> (r: bool)
    ensures
        r == contains_seq(image@, seq!['/']),
{
    let slash = vec!['/'];
    assert(slash@ =~= seq!['/']);
    contains(&chars_of(image), &slash)
}

/// The short name of a pulled image: after the last `/`, before the first `:`.
pub open spec fn pulled_image_name(image: Seq<char>) -> Seq<char> {
    let last = match rfind_char(image, '/') {
        Some(i) => image.skip(i + 1),
        None => image,
    };
    match crate::text::find_first(last, seq![':']) {
        Some(j) => last.take(j),
        None => last,
    }
}

/// The short name under which a pulled image's key and output are kept.
pub fn pulled_name(image: &str) -> (r: String)
    ensures
        r@ == pulled_image_name(image@),
{
    let chars = chars_of(image);
    let last = match rfind(&chars, '/') {
        Some(i) => {
            proof {
                crate::text::lemma_rfind_char(chars@, '/');
            }
            assert(i < chars.len());
            let t = slice(&chars, i + 1, chars.len());
            assert(t@ =~= chars@.skip(i + 1));
            t
        },
        None => chars,
    };
    let colon = vec![':'];
    assert(colon@ =~= seq![':']);
    match crate::text::find(&last, &colon) {
        Some(j) => {
            proof {
                crate::text::lemma_find_first(last@, colon@);
            }
            let h = slice(&last, 0, j);
            assert(h@ =~= last@.take(j as int));
            string_of(&h)
        },
        None => string_of(&last),
    }
}

/// `s` with every trailing repetition of `p` taken off (as `str::trim_end_matches`).
pub open spec fn strip_suffix_all(s: Seq<char>, p: Seq<char>) -> Seq<char>
    decreases s.len(),
{
    if p.len() > 0 && crate::text::has_suffix(s, p) {
        strip_suffix_all(s.take(s.len() - p.len()), p)
    } else {
        s
    }
}

pub fn strip_suffix_all_exec(s: &Vec<char>, p: &Vec<char>) -> (r: Vec<char>)
    ensures
        r@ == strip_suffix_all(s@, p@),
{
    let mut cur = slice(s, 0, s.len());
    assert(cur@ =~= s@);
    while p.len() > 0 && crate::text::ends_with(&cur, p)
        invariant
            strip_suffix_all(cur@, p@) == strip_suffix_all(s@, p@),
        decreases cur@.len(),
    {
        cur = slice(&cur, 0, cur.len() - p.len());
    }
    cur
}

/// The registry reference an encrypted artifact file is pushed under:
/// `{registry without trailing /}/{service}:latest`, for files named
/// `{service}.layer.enc.json`.
pub open spec fn push_reference_spec(registry: Seq<char>, file_name: Seq<char>) -> Option<Seq<char>> {
    if !has_suffix(file_name, ".layer.enc.json"@) {
        None
    } else {
        Some(
            strip_suffix_all(registry, seq!['/']) + "/"@ + strip_suffix_all(
                file_name,
                ".layer.enc.json"@,
            ) + ":latest"@,
        )
    }
}

/// The reference to push the artifact file `file_name` to under `registry`, if it is an
/// encrypted layer artifact.
pub fn push_reference(registry: &str, file_name: &str) -> (r: Option<String>)
    ensures
        match push_reference_spec(registry@, file_name@) {
            Some(t) => r is Some && r->0@ == t,
            None => r is None,
        },
{
    let name = chars_of(file_name);
    let suffix = chars_of(".layer.enc.json");
    if !crate::text::ends_with(&name, &suffix) {
        return None;
    }
    let slash = vec!['/'];
    assert(slash@ =~= seq!['/']);
    let reg = strip_suffix_all_exec(&chars_of(registry), &slash);
    let service = strip_suffix_all_exec(&name, &suffix);
    let mut r = string_of(&reg);
    r.append("/");
    r.append(string_of(&service).as_str());
    r.append(":latest");
    Some(r)
}

/// Every failure maps to one of the documented failure codes (never to `0`, success).
pub proof fn lemma_exit_code_documented(message: Seq<char>)
    ensures
        ({
            let c = exit_code_spec(message);
            c == 1 || c == 21 || c == 22 || c == 23 || c == 24 || c == 25
        }),
{
}

/// A protected run asks the engine for `run --rm`, a read-only root filesystem,
/// `no-new-privileges`, the generated seccomp profile, all capabilities dropped but
/// `NET_BIND_SERVICE`, and a non-executable `/tmp`, in that order; then the caller's
/// arguments unchanged; the image last.
pub proof fn lemma_run_args_harden(image: Seq<char>, extra: Seq<Seq<char>>, args: Seq<Seq<char>>)
    requires
        args == run_flags() + extra + seq![image],
    ensures
        args.len() == 14 + extra.len(),
        args[0] == "run"@,
        args[1] == "--rm"@,
        args[2] == "--read-only"@,
        args[3] == "--security-opt"@,
        args[4] == "no-new-privileges:true"@,
        args[5] == "--security-opt"@,
        args[6] == "seccomp=./seccomp-profile.json"@,
        args[7] == "--cap-drop"@,
        args[8] == "ALL"@,
        args[9] == "--cap-add"@,
        args[10] == "NET_BIND_SERVICE"@,
        args[11] == "--tmpfs"@,
        args[12] == "/tmp:noexec,nosuid"@,
        forall|k: int| 0 <= k < extra.len() ==> args[13 + k] == extra[k],
        args[args.len() - 1] == image,
        args.subrange(0, 13).contains("--read-only"@),
{
    assert(args[2] == "--read-only"@);
    assert(args.subrange(0, 13)[2] == "--read-only"@);
}

/// The documented exit codes on a lowercased failure message, by what it tells: a
/// fingerprint mismatch, a bound key or a license not valid for this hardware gives 21; a
/// signature or verification failure 22; a registry, manifest or blob failure 23; a compose
/// or hardening failure 24; a failed `docker run`, podman or nerdctl 25; anything else 1;
/// where several apply, the first in that order.
pub proof fn lemma_exit_code_categories(m: Seq<char>)
    ensures
        (contains_seq(m, "fingerprint mismatch"@) || contains_seq(m, "bound key"@) || contains_seq(m, "not valid for this hardware"@)) ==> exit_code_for(m) == 21,
        !(contains_seq(m, "fingerprint mismatch"@) || contains_seq(m, "bound key"@) || contains_seq(m, "not valid for this hardware"@)) && (contains_seq(m, "signature"@) || contains_seq(m, "verify"@) || contains_seq(m, "verification"@)) ==> exit_code_for(m) == 22,
        !(contains_seq(m, "fingerprint mismatch"@) || contains_seq(m, "bound key"@) || contains_seq(m, "not valid for this hardware"@)) && !(contains_seq(m, "signature"@) || contains_seq(m, "verify"@) || contains_seq(m, "verification"@)) && (contains_seq(m, "registry"@) || contains_seq(m, "manifest"@) || contains_seq(m, "blob"@)) ==> exit_code_for(m) == 23,
        !(contains_seq(m, "fingerprint mismatch"@) || contains_seq(m, "bound key"@) || contains_seq(m, "not valid for this hardware"@)) && !(contains_seq(m, "signature"@) || contains_seq(m, "verify"@) || contains_seq(m, "verification"@)) && !(contains_seq(m, "registry"@) || contains_seq(m, "manifest"@) || contains_seq(m, "blob"@)) && (contains_seq(m, "compose"@) || contains_seq(m, "harden"@)) ==> exit_code_for(m) == 24,
        !(contains_seq(m, "fingerprint mismatch"@) || contains_seq(m, "bound key"@) || contains_seq(m, "not valid for this hardware"@)) && !(contains_seq(m, "signature"@) || contains_seq(m, "verify"@) || contains_seq(m, "verification"@)) && !(contains_seq(m, "registry"@) || contains_seq(m, "manifest"@) || contains_seq(m, "blob"@)) && !(contains_seq(m, "compose"@) || contains_seq(m, "harden"@)) && (contains_seq(m, "docker run failed"@) || contains_seq(m, "podman"@) || contains_seq(m, "nerdctl"@)) ==> exit_code_for(m) == 25,
        !(contains_seq(m, "fingerprint mismatch"@) || contains_seq(m, "bound key"@) || contains_seq(m, "not valid for this hardware"@)) && !(contains_seq(m, "signature"@) || contains_seq(m, "verify"@) || contains_seq(m, "verification"@)) && !(contains_seq(m, "registry"@) || contains_seq(m, "manifest"@) || contains_seq(m, "blob"@)) && !(contains_seq(m, "compose"@) || contains_seq(m, "harden"@)) && !(contains_seq(m, "docker run failed"@) || contains_seq(m, "podman"@) || contains_seq(m, "nerdctl"@)) ==> exit_code_for(m) == 1,
{
}

/// The artifact name of a service has no `/` or `:`, is as long as the service name, and
/// keeps every other character in place (`/` and `:` become `-`).
pub proof fn lemma_artifact_name_shape(s: Seq<char>)
    ensures
        artifact_name_spec(s).len() == s.len(),
        forall|i: int|
            0 <= i < s.len() ==> #[trigger] artifact_name_spec(s)[i] != '/' && artifact_name_spec(s)[i]
                != ':',
        forall|i: int|
            0 <= i < s.len() && s[i] != '/' && s[i] != ':' ==> #[trigger] artifact_name_spec(s)[i]
                == s[i],
        forall|i: int|
            0 <= i < s.len() && (s[i] == '/' || s[i] == ':') ==> #[trigger] artifact_name_spec(s)[i]
                == '-',
{
}

/// The short name of a pulled image has no `/` and no `:`, and is a piece of the image
/// reference: the text after its last `/`, up to the first `:` there.
pub proof fn lemma_pulled_name_shape(image: Seq<char>)
    ensures
        forall|i: int|
            0 <= i < pulled_image_name(image).len() ==> #[trigger] pulled_image_name(image)[i] != '/'
                && pulled_image_name(image)[i] != ':',
        pulled_image_name(image).len() <= image.len(),
{
    crate::text::lemma_rfind_char(image, '/');
    let last = match rfind_char(image, '/') {
        Some(i) => image.skip(i + 1),
        None => image,
    };
    assert forall|i: int| 0 <= i < last.len() implies last[i] != '/' by {
        match rfind_char(image, '/') {
            Some(k) => {
                assert(last[i] == image[k + 1 + i]);
            },
            None => {},
        }
    }
    crate::text::lemma_find_first(last, seq![':']);
    match crate::text::find_first(last, seq![':']) {
        Some(j) => {
            assert forall|i: int| 0 <= i < j implies last[i] != ':' by {
                if last[i] == ':' {
                    assert(last.subrange(i, i + 1) =~= seq![':']);
                    assert(crate::text::occurs_at(last, seq![':'], i));
                }
            }
            assert(last.take(j).len() == j);
        },
        None => {
            assert forall|i: int| 0 <= i < last.len() implies last[i] != ':' by {
                if last[i] == ':' {
                    assert(last.subrange(i, i + 1) =~= seq![':']);
                    assert(crate::text::occurs_at(last, seq![':'], i));
                }
            }
        },
    }
}

/// The baseline profile's configuration has the protection-profile guide's settings: the
/// profile name, the hardening table, hardware binding, heartbeat interval, cosign
/// enforcement and attestation.
pub proof fn lemma_baseline_template_settings()
    ensures
        contains_seq(baseline_template_text(), "[profile]\nname = \"baseline\"\n"@),
        contains_seq(baseline_template_text(), "[harden]\nread_only = true\ndrop_capabilities = true\nno_new_privileges = true\nseccomp_profile = \"auto\"\nanti_debug = true\n"@),
        contains_seq(baseline_template_text(), "hardware_bind = false\n"@),
        contains_seq(baseline_template_text(), "heartbeat_interval_minutes = 240\n"@),
        contains_seq(baseline_template_text(), "[signing]\nenforce_cosign = false\n"@),
        contains_seq(baseline_template_text(), "[attestation]\nenabled = false\n"@),
{
    reveal_strlit("[profile]\nname = \"baseline\"\n\n[project]\nname = \"vaultship-demo\"\n\n[harden]\nread_only = true\ndrop_capabilities = true\nno_new_privileges = true\nseccomp_profile = \"auto\"\nanti_debug = true\n\n[bind]\nenabled = true\nhardware_required = false\nhardware_bind = false\nheartbeat_interval_minutes = 240\npublic_key_path = \"./vaultship.public.key\"\n\n[signing]\nenforce_cosign = false\n\n[attestation]\nenabled = false\n");
    reveal_strlit("[profile]\nname = \"baseline\"\n");
    assert(baseline_template_text().subrange(0, 28) =~= "[profile]\nname = \"baseline\"\n"@);
    assert(crate::text::occurs_at(baseline_template_text(), "[profile]\nname = \"baseline\"\n"@, 0));
    reveal_strlit("[harden]\nread_only = true\ndrop_capabilities = true\nno_new_privileges = true\nseccomp_profile = \"auto\"\nanti_debug = true\n");
    assert(baseline_template_text().subrange(64, 183) =~= "[harden]\nread_only = true\ndrop_capabilities = true\nno_new_privileges = true\nseccomp_profile = \"auto\"\nanti_debug = true\n"@);
    assert(crate::text::occurs_at(baseline_template_text(), "[harden]\nread_only = true\ndrop_capabilities = true\nno_new_privileges = true\nseccomp_profile = \"auto\"\nanti_debug = true\n"@, 64));
    reveal_strlit("hardware_bind = false\n");
    assert(baseline_template_text().subrange(232, 254) =~= "hardware_bind = false\n"@);
    assert(crate::text::occurs_at(baseline_template_text(), "hardware_bind = false\n"@, 232));
    reveal_strlit("heartbeat_interval_minutes = 240\n");
    assert(baseline_template_text().subrange(254, 287) =~= "heartbeat_interval_minutes = 240\n"@);
    assert(crate::text::occurs_at(baseline_template_text(), "heartbeat_interval_minutes = 240\n"@, 254));
    reveal_strlit("[signing]\nenforce_cosign = false\n");
    assert(baseline_template_text().subrange(331, 364) =~= "[signing]\nenforce_cosign = false\n"@);
    assert(crate::text::occurs_at(baseline_template_text(), "[signing]\nenforce_cosign = false\n"@, 331));
    reveal_strlit("[attestation]\nenabled = false\n");
    assert(baseline_template_text().subrange(365, 395) =~= "[attestation]\nenabled = false\n"@);
    assert(crate::text::occurs_at(baseline_template_text(), "[attestation]\nenabled = false\n"@, 365));
}

/// The strict profile's configuration has the protection-profile guide's settings: the
/// profile name, the hardening table, hardware binding, heartbeat interval, cosign
/// enforcement and attestation.
pub proof fn lemma_strict_template_settings()
    ensures
        contains_seq(strict_template_text(), "[profile]\nname = \"strict\"\n"@),
        contains_seq(strict_template_text(), "[harden]\nread_only = true\ndrop_capabilities = true\nno_new_privileges = true\nseccomp_profile = \"strict\"\nanti_debug = true\n"@),
        contains_seq(strict_template_text(), "hardware_bind = true\n"@),
        contains_seq(strict_template_text(), "heartbeat_interval_minutes = 60\n"@),
        contains_seq(strict_template_text(), "[signing]\nenforce_cosign = true\n"@),
        contains_seq(strict_template_text(), "[attestation]\nenabled = false\n"@),
{
    reveal_strlit("[profile]\nname = \"strict\"\n\n[project]\nname = \"vaultship-demo\"\n\n[harden]\nread_only = true\ndrop_capabilities = true\nno_new_privileges = true\nseccomp_profile = \"strict\"\nanti_debug = true\n\n[bind]\nenabled = true\nhardware_required = true\nhardware_bind = true\nheartbeat_interval_minutes = 60\npublic_key_path = \"./vaultship.public.key\"\n\n[signing]\nenforce_cosign = true\ncosign_key_path = \"/etc/vaultship/cosign.key\"\n\n[attestation]\nenabled = false\n");
    reveal_strlit("[profile]\nname = \"strict\"\n");
    assert(strict_template_text().subrange(0, 26) =~= "[profile]\nname = \"strict\"\n"@);
    assert(crate::text::occurs_at(strict_template_text(), "[profile]\nname = \"strict\"\n"@, 0));
    reveal_strlit("[harden]\nread_only = true\ndrop_capabilities = true\nno_new_privileges = true\nseccomp_profile = \"strict\"\nanti_debug = true\n");
    assert(strict_template_text().subrange(62, 183) =~= "[harden]\nread_only = true\ndrop_capabilities = true\nno_new_privileges = true\nseccomp_profile = \"strict\"\nanti_debug = true\n"@);
    assert(crate::text::occurs_at(strict_template_text(), "[harden]\nread_only = true\ndrop_capabilities = true\nno_new_privileges = true\nseccomp_profile = \"strict\"\nanti_debug = true\n"@, 62));
    reveal_strlit("hardware_bind = true\n");
    assert(strict_template_text().subrange(231, 252) =~= "hardware_bind = true\n"@);
    assert(crate::text::occurs_at(strict_template_text(), "hardware_bind = true\n"@, 231));
    reveal_strlit("heartbeat_interval_minutes = 60\n");
    assert(strict_template_text().subrange(252, 284) =~= "heartbeat_interval_minutes = 60\n"@);
    assert(crate::text::occurs_at(strict_template_text(), "heartbeat_interval_minutes = 60\n"@, 252));
    reveal_strlit("[signing]\nenforce_cosign = true\n");
    assert(strict_template_text().subrange(328, 360) =~= "[signing]\nenforce_cosign = true\n"@);
    assert(crate::text::occurs_at(strict_template_text(), "[signing]\nenforce_cosign = true\n"@, 328));
    reveal_strlit("[attestation]\nenabled = false\n");
    assert(strict_template_text().subrange(407, 437) =~= "[attestation]\nenabled = false\n"@);
    assert(crate::text::occurs_at(strict_template_text(), "[attestation]\nenabled = false\n"@, 407));
}

/// The high-assurance profile's configuration has the protection-profile guide's settings: the
/// profile name, the hardening table, hardware binding, heartbeat interval, cosign
/// enforcement and attestation.
pub proof fn lemma_high_assurance_template_settings()
    ensures
        contains_seq(high_assurance_template_text(), "[profile]\nname = \"high-assurance\"\n"@),
        contains_seq(high_assurance_template_text(), "[harden]\nread_only = true\ndrop_capabilities = true\nno_new_privileges = true\nseccomp_profile = \"strict\"\nanti_debug = true\n"@),
        contains_seq(high_assurance_template_text(), "hardware_bind = true\n"@),
        contains_seq(high_assurance_template_text(), "heartbeat_interval_minutes = 30\n"@),
        contains_seq(high_assurance_template_text(), "[signing]\nenforce_cosign = true\n"@),
        contains_seq(high_assurance_template_text(), "[attestation]\nenabled = true\n"@),
{
    reveal_strlit("[profile]\nname = \"high-assurance\"\n\n[project]\nname = \"vaultship-demo\"\n\n[harden]\nread_only = true\ndrop_capabilities = true\nno_new_privileges = true\nseccomp_profile = \"strict\"\nanti_debug = true\n\n[bind]\nenabled = true\nhardware_required = true\nhardware_bind = true\nheartbeat_interval_minutes = 30\npublic_key_path = \"./vaultship.public.key\"\n\n[signing]\nenforce_cosign = true\ncosign_key_path = \"/etc/vaultship/cosign.key\"\n\n[attestation]\nenabled = true\nbackend = \"coco\"\nrequire_attested_key_release = true\n");
    reveal_strlit("[profile]\nname = \"high-assurance\"\n");
    assert(high_assurance_template_text().subrange(0, 34) =~= "[profile]\nname = \"high-assurance\"\n"@);
    assert(crate::text::occurs_at(high_assurance_template_text(), "[profile]\nname = \"high-assurance\"\n"@, 0));
    reveal_strlit("[harden]\nread_only = true\ndrop_capabilities = true\nno_new_privileges = true\nseccomp_profile = \"strict\"\nanti_debug = true\n");
    assert(high_assurance_template_text().subrange(70, 191) =~= "[harden]\nread_only = true\ndrop_capabilities = true\nno_new_privileges = true\nseccomp_profile = \"strict\"\nanti_debug = true\n"@);
    assert(crate::text::occurs_at(high_assurance_template_text(), "[harden]\nread_only = true\ndrop_capabilities = true\nno_new_privileges = true\nseccomp_profile = \"strict\"\nanti_debug = true\n"@, 70));
    reveal_strlit("hardware_bind = true\n");
    assert(high_assurance_template_text().subrange(239, 260) =~= "hardware_bind = true\n"@);
    assert(crate::text::occurs_at(high_assurance_template_text(), "hardware_bind = true\n"@, 239));
    reveal_strlit("heartbeat_interval_minutes = 30\n");
    assert(high_assurance_template_text().subrange(260, 292) =~= "heartbeat_interval_minutes = 30\n"@);
    assert(crate::text::occurs_at(high_assurance_template_text(), "heartbeat_interval_minutes = 30\n"@, 260));
    reveal_strlit("[signing]\nenforce_cosign = true\n");
    assert(high_assurance_template_text().subrange(336, 368) =~= "[signing]\nenforce_cosign = true\n"@);
    assert(crate::text::occurs_at(high_assurance_template_text(), "[signing]\nenforce_cosign = true\n"@, 336));
    reveal_strlit("[attestation]\nenabled = true\n");
    assert(high_assurance_template_text().subrange(415, 444) =~= "[attestation]\nenabled = true\n"@);
    assert(crate::text::occurs_at(high_assurance_template_text(), "[attestation]\nenabled = true\n"@, 415));
}

} // verus!
