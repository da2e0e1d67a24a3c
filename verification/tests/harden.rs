use vaultship::harden::{
    generate_hardened_compose, harden_compose_document, HardenConfig, HardenError, SeccompMode,
};
use vaultship::seccomp::generate_anti_extraction_profile;

fn default_config() -> HardenConfig {
    HardenConfig {
        read_only: true,
        drop_capabilities: true,
        no_new_privileges: true,
        seccomp_profile: SeccompMode::Auto,
        anti_debug: true,
    }
}

fn harden_text(source: &str, cfg: &HardenConfig) -> Result<String, HardenError> {
    harden_compose_document(source, cfg)
}

#[test]
fn generates_expected_hardening_fields() {
    let cfg = default_config();
    let out = generate_hardened_compose("api", &cfg).expect("compose");
    assert!(out.contains("read_only: true"));
    assert!(out.contains("cap_drop:"));
    assert!(out.contains("no-new-privileges:true"));
    assert!(out.contains("seccomp:./seccomp-profile.json"));
}

#[test]
fn hardens_full_compose_document() {
    let source = "services:\n  api:\n    image: demo:latest\n";
    let cfg = default_config();
    let out = harden_text(source, &cfg).expect("harden compose");
    assert!(out.contains("read_only: true"));
    assert!(out.contains("security_opt"));
}

#[test]
fn generates_read_only_flag() {
    let out = generate_hardened_compose("api", &default_config()).expect("generate");
    assert!(out.contains("read_only: true"));
}

#[test]
fn generates_cap_drop_all() {
    let out = generate_hardened_compose("api", &default_config()).expect("generate");
    assert!(out.contains("cap_drop:"));
    assert!(out.contains("- ALL"));
}

#[test]
fn generates_no_new_privileges() {
    let out = generate_hardened_compose("api", &default_config()).expect("generate");
    assert!(out.contains("no-new-privileges:true"));
}

#[test]
fn generates_seccomp_path() {
    let out = generate_hardened_compose("api", &default_config()).expect("generate");
    assert!(out.contains("seccomp:./seccomp-profile.json"));
}

#[test]
fn harden_document_preserves_image() {
    let source = "services:\n  api:\n    image: myapp:v1\n";
    let out = harden_text(source, &default_config()).expect("harden");
    assert!(out.contains("myapp:v1"));
    assert!(out.contains("read_only: true"));
    assert!(out.contains("security_opt"));
}

#[test]
fn custom_seccomp_path_is_used() {
    let cfg = HardenConfig {
        seccomp_profile: SeccompMode::Custom("/custom/profile.json".to_string()),
        ..default_config()
    };
    let out = generate_hardened_compose("web", &cfg).expect("generate");
    assert!(out.contains("seccomp:/custom/profile.json"));
}

#[test]
fn drop_capabilities_disabled() {
    let cfg = HardenConfig { drop_capabilities: false, ..default_config() };
    let out = generate_hardened_compose("api", &cfg).expect("generate");
    assert!(!out.contains("cap_drop:"));
    assert!(!out.contains("cap_add:"));
}

#[test]
fn seccomp_profile_anti_extraction_syscall_count() {
    let profile = generate_anti_extraction_profile();
    assert!(profile.syscalls.len() >= 2);
    let allow_rule = profile.syscalls.iter().find(|r| r.action == "SCMP_ACT_ALLOW");
    let deny_rule = profile.syscalls.iter().find(|r| r.action == "SCMP_ACT_ERRNO");
    assert!(allow_rule.is_some(), "must have an ALLOW rule");
    assert!(deny_rule.is_some(), "must have a DENY rule");
    let deny_names: Vec<&str> = deny_rule.unwrap().names.iter().map(String::as_str).collect();
    assert!(deny_names.contains(&"ptrace"), "ptrace must be in deny list");
}

#[test]
fn hardened_compose_exact_text() {
    let out = generate_hardened_compose("api", &default_config()).expect("generate");
    assert_eq!(
        out,
        "services:\n  api:\n    read_only: true\n    cap_drop:\n      - ALL\n    cap_add:\n      - NET_BIND_SERVICE\n    security_opt:\n      - no-new-privileges:true\n      - seccomp:./seccomp-profile.json\n    tmpfs:\n      - /tmp:noexec,nosuid\n"
    );
    let minimal = HardenConfig {
        read_only: false,
        drop_capabilities: false,
        no_new_privileges: false,
        seccomp_profile: SeccompMode::Strict,
        anti_debug: false,
    };
    let out = generate_hardened_compose("db", &minimal).expect("generate");
    assert_eq!(
        out,
        "services:\n  db:\n    read_only: false\n    security_opt:\n      - seccomp:./seccomp-profile.json\n    tmpfs:\n      - /tmp:noexec,nosuid\n"
    );
}

#[test]
fn document_without_services_is_rejected() {
    assert_eq!(harden_text("version: '3'\n", &default_config()), Err(HardenError::NoServicesSection));
    assert_eq!(harden_text("- a\n- b\n", &default_config()), Err(HardenError::NoServicesSection));
    assert_eq!(harden_text("services: 3\n", &default_config()), Err(HardenError::NoServicesSection));
}

#[test]
fn hardening_replaces_existing_keys_and_hardens_every_service() {
    let source = "version: '3'\nservices:\n  api:\n    image: a\n    read_only: false\n  worker: null\n";
    let out = harden_text(source, &default_config()).expect("harden");
    let doc: serde_yaml::Value = serde_yaml::from_str(&out).expect("reparse");
    let services = &doc["services"];
    assert_eq!(services["api"]["read_only"], serde_yaml::Value::Bool(true));
    assert_eq!(services["api"]["image"], serde_yaml::Value::String("a".to_string()));
    assert_eq!(services["worker"]["read_only"], serde_yaml::Value::Bool(true));
    assert_eq!(
        services["worker"]["security_opt"][0],
        serde_yaml::Value::String("seccomp:./seccomp-profile.json".to_string())
    );
    assert_eq!(
        services["worker"]["security_opt"][1],
        serde_yaml::Value::String("no-new-privileges:true".to_string())
    );
    assert_eq!(doc["version"], serde_yaml::Value::String("3".to_string()));
}

#[test]
fn seccomp_profile_exact_contents() {
    let profile = generate_anti_extraction_profile();
    assert_eq!(profile.default_action, "SCMP_ACT_ERRNO");
    assert_eq!(profile.architectures, vec!["SCMP_ARCH_X86_64", "SCMP_ARCH_AARCH64"]);
    assert_eq!(profile.syscalls.len(), 2);
    assert_eq!(profile.syscalls[0].names.len(), 22);
    assert_eq!(profile.syscalls[1].names.len(), 13);
    assert_eq!(profile.syscalls[1].names[12], "sethostname");
    assert!(!profile.syscalls[0].names.iter().any(|n| n == "ptrace"));
}

#[test]
fn hardening_a_hardened_document_changes_nothing() {
    let source = "services:\n  api:\n    image: myapp:v1\n    read_only: false\n  worker: {}\nversion: '3'\n";
    for cfg in [
        default_config(),
        HardenConfig {
            read_only: false,
            drop_capabilities: false,
            no_new_privileges: false,
            seccomp_profile: SeccompMode::Custom("/p.json".to_string()),
            anti_debug: false,
        },
    ] {
        let once = harden_text(source, &cfg).expect("harden once");
        let twice = harden_text(&once, &cfg).expect("harden twice");
        assert_eq!(once, twice);
        assert!(once.contains("image: myapp:v1"));
    }
}

#[test]
fn compose_text_errors_and_uninspected_scalars() {
    assert_eq!(harden_compose_document("a: [unclosed", &default_config()), Err(HardenError::InvalidYaml));
    let source = "services:\n  api:\n    image: x\n    ports: [8080, 1.5]\n    labels: !custom {a: 1}\nversion: 3\n";
    let out = harden_compose_document(source, &default_config()).expect("harden");
    let v: serde_yaml::Value = serde_yaml::from_str(&out).expect("yaml");
    let src: serde_yaml::Value = serde_yaml::from_str(source).expect("yaml");
    assert_eq!(v["services"]["api"]["ports"], src["services"]["api"]["ports"]);
    assert_eq!(v["services"]["api"]["labels"], src["services"]["api"]["labels"]);
    assert_eq!(v["version"], src["version"]);
    assert_eq!(v["services"]["api"]["read_only"], serde_yaml::Value::Bool(true));
}
