use vaultship::cli::{
    artifact_name, baseline_template, build_private_key_path, docker_run_args, dry_run_message,
    exit_code_of_lowercase, harden_config_from, high_assurance_template, is_remote_image, map_exit_code, pulled_name,
    push_reference, select_profile, strict_template, Bind, Harden, InitError,
    ProtectionProfile,
};
use vaultship::harden::SeccompMode;

#[test]
fn exit_codes_follow_the_documented_contract() {
    assert_eq!(map_exit_code("Hardware fingerprint mismatch for bound key"), 21);
    assert_eq!(map_exit_code("Invalid bound key signature"), 21);
    assert_eq!(map_exit_code("Signature verification failed for `x`"), 22);
    assert_eq!(map_exit_code("could not VERIFY"), 22);
    assert_eq!(map_exit_code("Failed fetching manifest: nope"), 23);
    assert_eq!(map_exit_code("Invalid registry reference: x"), 23);
    assert_eq!(map_exit_code("Compose file not found: x"), 24);
    assert_eq!(map_exit_code("docker run failed with status 1"), 25);
    assert_eq!(map_exit_code("podman run failed with status 2"), 25);
    assert_eq!(map_exit_code("something else"), 1);
    assert_eq!(map_exit_code("Cosign verification failed: exit status 1"), 22);
    assert_eq!(map_exit_code("License not valid for this hardware"), 21);
    assert_eq!(map_exit_code("Invalid license signature"), 22);
    assert_eq!(map_exit_code("nerdctl run failed with status 3"), 25);
}

#[test]
fn profiles_are_selected_by_name() {
    assert_eq!(select_profile("baseline"), Ok(ProtectionProfile::Baseline));
    assert_eq!(select_profile("strict"), Ok(ProtectionProfile::Strict));
    assert_eq!(select_profile("high-assurance"), Ok(ProtectionProfile::HighAssurance));
    assert_eq!(select_profile("paranoid"), Err(InitError::UnknownProfile));
    assert!(strict_template().contains("seccomp_profile = \"strict\""));
    assert!(high_assurance_template().contains("[attestation]"));
    assert!(strict_template().contains("[attestation]\nenabled = false"));
}

fn table<'a>(v: &'a toml::Value, name: &str) -> &'a toml::Value {
    v.get(name).unwrap_or_else(|| panic!("missing table {name}"))
}

fn check_profile(text: &str, name: &str, seccomp: &str, hw: bool, heartbeat: i64, cosign: bool, attest: bool) {
    let t: toml::Value = toml::from_str(text).expect("toml");
    assert_eq!(table(&t, "profile")["name"].as_str(), Some(name));
    assert!(table(&t, "project")["name"].as_str().is_some());
    let h = table(&t, "harden");
    assert_eq!(h["seccomp_profile"].as_str(), Some(seccomp));
    for k in ["read_only", "drop_capabilities", "no_new_privileges", "anti_debug"] {
        assert_eq!(h[k].as_bool(), Some(true));
    }
    let b = table(&t, "bind");
    assert_eq!(b["hardware_bind"].as_bool(), Some(hw));
    assert_eq!(b["hardware_required"].as_bool(), Some(hw));
    assert_eq!(b["enabled"].as_bool(), Some(true));
    assert_eq!(b["heartbeat_interval_minutes"].as_integer(), Some(heartbeat));
    assert!(b["public_key_path"].as_str().is_some());
    assert_eq!(table(&t, "signing")["enforce_cosign"].as_bool(), Some(cosign));
    if cosign {
        assert_eq!(table(&t, "signing")["cosign_key_path"].as_str(), Some("/etc/vaultship/cosign.key"));
    }
    assert_eq!(table(&t, "attestation")["enabled"].as_bool(), Some(attest));
    if attest {
        assert_eq!(table(&t, "attestation")["backend"].as_str(), Some("coco"));
        assert_eq!(table(&t, "attestation")["require_attested_key_release"].as_bool(), Some(true));
    }
}

#[test]
fn profile_templates_carry_the_documented_tables() {
    check_profile(&baseline_template(), "baseline", "auto", false, 240, false, false);
    check_profile(&strict_template(), "strict", "strict", true, 60, true, false);
    check_profile(&high_assurance_template(), "high-assurance", "strict", true, 30, true, true);
}

#[test]
fn harden_settings_select_seccomp_mode() {
    let mut h = Harden {
        read_only: true,
        drop_capabilities: false,
        no_new_privileges: true,
        seccomp_profile: "strict".to_string(),
        anti_debug: false,
    };
    assert!(matches!(harden_config_from(&h).seccomp_profile, SeccompMode::Strict));
    h.seccomp_profile = "auto".to_string();
    assert!(matches!(harden_config_from(&h).seccomp_profile, SeccompMode::Auto));
    h.seccomp_profile = "/p.json".to_string();
    let cfg = harden_config_from(&h);
    assert!(matches!(cfg.seccomp_profile, SeccompMode::Custom(ref p) if p == "/p.json"));
    assert!(cfg.read_only && !cfg.drop_capabilities && cfg.no_new_privileges && !cfg.anti_debug);
}

#[test]
fn run_arguments_and_dry_run_line() {
    let args = docker_run_args("api", &vec!["-p".to_string(), "80:80".to_string()]);
    assert_eq!(args.len(), 16);
    assert_eq!(args[0], "run");
    assert_eq!(args[6], "seccomp=./seccomp-profile.json");
    assert_eq!(args[13], "-p");
    assert_eq!(args[15], "api");
    let line = dry_run_message("podman", &vec!["run".to_string(), "img".to_string()]);
    assert_eq!(line, "Dry-run podman command: podman run img");
}

#[test]
fn artifact_and_key_names() {
    assert_eq!(artifact_name("team/app:v1"), "team-app-v1");
    let bind = Some(Bind {
        enabled: true,
        hardware_required: true,
        public_key_path: "./public/vaultship.public.key".to_string(),
    });
    assert_eq!(build_private_key_path(&bind), "./private/vaultship.private.key");
    assert_eq!(build_private_key_path(&None), "vaultship.private.key");
}

#[test]
fn pull_and_push_names() {
    assert!(is_remote_image("http://localhost:5001/vaultship/api:latest"));
    assert!(!is_remote_image("api"));
    assert_eq!(pulled_name("http://localhost:5001/vaultship/api:latest"), "api");
    assert_eq!(pulled_name("api"), "api");
    assert_eq!(
        push_reference("http://localhost:5001/vaultship//", "api.layer.enc.json"),
        Some("http://localhost:5001/vaultship/api:latest".to_string())
    );
    assert_eq!(push_reference("reg", "api.config.json"), None);
}

#[test]
fn lowercase_keyword_match() {
    assert_eq!(exit_code_of_lowercase("hardware fingerprint mismatch for bound key"), 21);
    assert_eq!(exit_code_of_lowercase("signature verification failed"), 22);
    assert_eq!(exit_code_of_lowercase("failed pushing manifest: x"), 23);
    assert_eq!(exit_code_of_lowercase("harden failed"), 24);
    assert_eq!(exit_code_of_lowercase("docker run failed with status 1"), 25);
    assert_eq!(exit_code_of_lowercase("VERIFY"), 1);
    assert_eq!(exit_code_of_lowercase(""), 1);
    assert_eq!(exit_code_of_lowercase("could not read fingerprint file"), 1);
    assert_eq!(exit_code_of_lowercase("cosign sign failed"), 1);
    assert_eq!(exit_code_of_lowercase("containerd run failed"), 1);
    assert_eq!(exit_code_of_lowercase("registry rejected hardware tag"), 23);
}
