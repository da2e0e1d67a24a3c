use vaultship::registry::{
    authorization_value, blob_url, manifest_url, parse_reference, resolve_auth, sha256_digest,
    upload_finish_url, upload_start_url, ReferenceError, RegistryAuth, RegistryEnv,
};

fn empty_env() -> RegistryEnv {
    RegistryEnv {
        registry_token: None,
        registry_username: None,
        registry_password: None,
        github_token: None,
        github_actor: None,
        aws_ecr_password: None,
        azure_acr_username: None,
        azure_acr_password: None,
        gitlab_token: None,
    }
}

#[test]
fn parses_registry_reference() {
    let r = parse_reference("http://localhost:5000/team/app:enc").expect("parse");
    assert_eq!(r.scheme, "http");
    assert_eq!(r.registry, "localhost:5000");
    assert_eq!(r.repository, "team/app");
    assert_eq!(r.tag, "enc");
}

#[test]
fn picks_generic_token_auth() {
    let mut env = empty_env();
    env.registry_token = Some("abc123".to_string());
    let r = parse_reference("https://ghcr.io/team/app:latest").expect("parse");
    assert!(resolve_auth(&r, &env).is_some());
}

#[test]
fn reference_defaults_to_https_and_latest() {
    let r = parse_reference("localhost:5000/team/app").expect("parse");
    assert_eq!(r.scheme, "https");
    assert_eq!(r.registry, "localhost:5000");
    assert_eq!(r.repository, "team/app");
    assert_eq!(r.tag, "latest");
}

#[test]
fn reference_tag_splits_at_last_colon() {
    let r = parse_reference("https://reg.example:443/a/b:c:d").expect("parse");
    assert_eq!(r.scheme, "https");
    assert_eq!(r.registry, "reg.example:443");
    assert_eq!(r.repository, "a/b:c");
    assert_eq!(r.tag, "d");
}

#[test]
fn reference_without_repository_is_rejected() {
    assert_eq!(parse_reference("localhost:5000").err(), Some(ReferenceError::InvalidReference));
    assert_eq!(parse_reference("http://localhost:5000/").err(), Some(ReferenceError::InvalidReference));
    assert_eq!(parse_reference("/team/app").err(), Some(ReferenceError::InvalidReference));
}

#[test]
fn blank_token_falls_back_to_basic_credentials() {
    let mut env = empty_env();
    env.registry_token = Some("   ".to_string());
    env.registry_username = Some("alice".to_string());
    env.registry_password = Some("pw".to_string());
    let r = parse_reference("registry.local/team/app").expect("parse");
    match resolve_auth(&r, &env) {
        Some(RegistryAuth::Basic { username, password }) => {
            assert_eq!(username, "alice");
            assert_eq!(password, "pw");
        }
        _ => panic!("expected basic credentials"),
    }
}

#[test]
fn ghcr_uses_github_actor_and_token() {
    let mut env = empty_env();
    env.github_token = Some("ghp".to_string());
    env.github_actor = Some("octo".to_string());
    let r = parse_reference("GHCR.IO/team/app").expect("parse");
    match resolve_auth(&r, &env) {
        Some(RegistryAuth::Basic { username, password }) => {
            assert_eq!(username, "octo");
            assert_eq!(password, "ghp");
        }
        _ => panic!("expected basic credentials"),
    }
}

#[test]
fn ecr_acr_and_gitlab_conventions() {
    let mut env = empty_env();
    env.aws_ecr_password = Some("ecrpw".to_string());
    let r = parse_reference("123.dkr.ecr.us-east-1.amazonaws.com/app").expect("parse");
    match resolve_auth(&r, &env) {
        Some(RegistryAuth::Basic { username, password }) => {
            assert_eq!(username, "AWS");
            assert_eq!(password, "ecrpw");
        }
        _ => panic!("expected ECR credentials"),
    }
    let mut env = empty_env();
    env.azure_acr_username = Some("u".to_string());
    env.azure_acr_password = Some("p".to_string());
    let r = parse_reference("me.azurecr.io/app").expect("parse");
    assert!(matches!(resolve_auth(&r, &env), Some(RegistryAuth::Basic { .. })));
    let mut env = empty_env();
    env.gitlab_token = Some("glt".to_string());
    let r = parse_reference("registry.gitlab.com/group/app").expect("parse");
    match resolve_auth(&r, &env) {
        Some(RegistryAuth::Bearer(token)) => assert_eq!(token, "glt"),
        _ => panic!("expected bearer token"),
    }
    let r = parse_reference("docker.io/library/app").expect("parse");
    assert!(resolve_auth(&r, &empty_env()).is_none());
}

#[test]
fn registry_urls_are_formed() {
    let r = parse_reference("http://localhost:5000/team/app:enc").expect("parse");
    assert_eq!(manifest_url(&r), "http://localhost:5000/v2/team/app/manifests/enc");
    assert_eq!(blob_url(&r, "sha256:ab"), "http://localhost:5000/v2/team/app/blobs/sha256:ab");
    assert_eq!(upload_start_url(&r), "http://localhost:5000/v2/team/app/blobs/uploads/");
    assert_eq!(
        upload_finish_url(&r, "/v2/team/app/blobs/uploads/1", "sha256:ab"),
        "http://localhost:5000/v2/team/app/blobs/uploads/1?digest=sha256:ab"
    );
    assert_eq!(
        upload_finish_url(&r, "https://up.example/u?state=x", "sha256:ab"),
        "https://up.example/u?state=x&digest=sha256:ab"
    );
}

#[test]
fn sha256_digest_of_empty_input() {
    assert_eq!(
        sha256_digest(b""),
        "sha256:e3b0c44298fc1c149afbf4c8996fb92427ae41e4649b934ca495991b7852b855"
    );
}

#[test]
fn authorization_values() {
    let basic = RegistryAuth::Basic { username: "user".to_string(), password: "pass".to_string() };
    assert_eq!(authorization_value(&basic), "Basic dXNlcjpwYXNz");
    let bearer = RegistryAuth::Bearer("tok".to_string());
    assert_eq!(authorization_value(&bearer), "Bearer tok");
}

#[test]
fn composed_reference_parses_back_into_its_parts() {
    for (scheme, registry, repository, tag) in [
        ("http", "localhost:5000", "team/app", "enc"),
        ("https", "ghcr.io", "org/a:b", "v1"),
        ("https", "reg", "x", ""),
    ] {
        let text = format!("{scheme}://{registry}/{repository}:{tag}");
        let r = parse_reference(&text).expect("parse");
        assert_eq!(r.scheme, scheme);
        assert_eq!(r.registry, registry);
        assert_eq!(r.repository, repository);
        assert_eq!(r.tag, tag);
    }
}
