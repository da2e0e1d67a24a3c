use vaultship::oci::{
    annotate_manifest_checked, annotate_manifest_for_encryption, encrypted_layer_manifest_text,
    first_layer_digest, layer_config_bytes, OciError,
    annotate_manifest_node, encrypted_layer_manifest, layer_config, layer_manifest,
    JsonEntry, JsonNode,
};

fn member<'a>(node: &'a JsonNode, key: &str) -> Option<&'a JsonNode> {
    match node {
        JsonNode::Object(members) => members.iter().find(|e| e.key == key).map(|e| &e.value),
        _ => None,
    }
}

fn is_str(node: Option<&JsonNode>, text: &str) -> bool {
    matches!(node, Some(JsonNode::Str(s)) if s == text)
}

fn entry(key: &str, value: JsonNode) -> JsonEntry {
    JsonEntry { key: key.to_string(), value }
}

#[test]
fn annotation_is_added_when_missing() {
    let manifest = JsonNode::Object(vec![
        entry("schemaVersion", JsonNode::Number("2".to_string())),
        entry("mediaType", JsonNode::Str("application/vnd.oci.image.manifest.v1+json".to_string())),
    ]);
    let out = annotate_manifest_node(manifest);
    let annotations = member(&out, "annotations").expect("annotations");
    assert!(is_str(member(annotations, "org.vaultship.encrypted"), "true"));
    assert!(is_str(member(&out, "mediaType"), "application/vnd.oci.image.manifest.v1+json"));
    assert!(matches!(member(&out, "schemaVersion"), Some(JsonNode::Number(t)) if t == "2"));
    match &out {
        JsonNode::Object(members) => assert_eq!(members.len(), 3),
        _ => panic!("not an object"),
    }
}

#[test]
fn existing_annotations_are_kept() {
    let manifest = JsonNode::Object(vec![entry(
        "annotations",
        JsonNode::Object(vec![
            entry("org.opencontainers.image.title", JsonNode::Str("api".to_string())),
            entry("org.vaultship.encrypted", JsonNode::Str("false".to_string())),
        ]),
    )]);
    let out = annotate_manifest_node(manifest);
    let annotations = member(&out, "annotations").expect("annotations");
    assert!(is_str(member(annotations, "org.opencontainers.image.title"), "api"));
    assert!(is_str(member(annotations, "org.vaultship.encrypted"), "true"));
    match annotations {
        JsonNode::Object(members) => assert_eq!(members.len(), 2),
        _ => panic!("not an object"),
    }
}

#[test]
fn null_manifest_and_null_annotations_become_objects() {
    let out = annotate_manifest_node(JsonNode::Null);
    let annotations = member(&out, "annotations").expect("annotations");
    assert!(is_str(member(annotations, "org.vaultship.encrypted"), "true"));

    let manifest = JsonNode::Object(vec![entry("annotations", JsonNode::Null)]);
    let out = annotate_manifest_node(manifest);
    let annotations = member(&out, "annotations").expect("annotations");
    assert!(is_str(member(annotations, "org.vaultship.encrypted"), "true"));
}

#[test]
fn annotating_twice_is_the_same_as_once() {
    let manifest = JsonNode::Object(vec![entry("layers", JsonNode::Array(vec![]))]);
    let once = annotate_manifest_node(manifest);
    let count = |n: &JsonNode| match n {
        JsonNode::Object(m) => m.len(),
        _ => 0,
    };
    let once_len = count(&once);
    let twice = annotate_manifest_node(once);
    assert_eq!(count(&twice), once_len);
    let annotations = member(&twice, "annotations").expect("annotations");
    assert_eq!(count(annotations), 1);
}

fn keys(node: &JsonNode) -> Vec<String> {
    match node {
        JsonNode::Object(m) => m.iter().map(|e| e.key.clone()).collect(),
        _ => vec![],
    }
}

#[test]
fn layer_manifest_describes_config_and_layer() {
    let m = layer_manifest("sha256:aa", 10, "sha256:bb", 20);
    assert_eq!(keys(&m), vec!["schemaVersion", "mediaType", "config", "layers"]);
    assert!(matches!(member(&m, "schemaVersion"), Some(JsonNode::UInt(2))));
    assert!(is_str(member(&m, "mediaType"), "application/vnd.oci.image.manifest.v1+json"));
    let config = member(&m, "config").expect("config");
    assert!(is_str(member(config, "mediaType"), "application/vnd.vaultship.config.v1+json"));
    assert!(is_str(member(config, "digest"), "sha256:aa"));
    assert!(matches!(member(config, "size"), Some(JsonNode::UInt(10))));
    match member(&m, "layers") {
        Some(JsonNode::Array(items)) => {
            assert_eq!(items.len(), 1);
            assert!(is_str(member(&items[0], "mediaType"), "application/vnd.vaultship.layer.v1+json"));
            assert!(is_str(member(&items[0], "digest"), "sha256:bb"));
            assert!(matches!(member(&items[0], "size"), Some(JsonNode::UInt(20))));
        }
        _ => panic!("layers"),
    }
}

#[test]
fn pushed_manifest_is_marked_encrypted() {
    let m = encrypted_layer_manifest("sha256:aa", 10, "sha256:bb", 20);
    assert_eq!(keys(&m), vec!["schemaVersion", "mediaType", "config", "layers", "annotations"]);
    let annotations = member(&m, "annotations").expect("annotations");
    assert_eq!(keys(annotations), vec!["org.vaultship.encrypted"]);
    assert!(is_str(member(annotations, "org.vaultship.encrypted"), "true"));
}

#[test]
fn layer_config_names_creator_and_algorithm() {
    let c = layer_config("AES-256-GCM");
    assert_eq!(keys(&c), vec!["created_by", "algorithm"]);
    assert!(is_str(member(&c, "created_by"), "vaultship"));
    assert!(is_str(member(&c, "algorithm"), "AES-256-GCM"));
}

#[test]
fn manifest_text_is_annotated_and_pretty() {
    let text = r#"{"schemaVersion":2,"mediaType":"m","size":1.5,"annotations":{"a":"b"}}"#;
    let out = annotate_manifest_for_encryption(text).expect("annotate");
    let v: serde_json::Value = serde_json::from_str(&out).expect("json");
    assert_eq!(v["annotations"]["org.vaultship.encrypted"], "true");
    assert_eq!(v["annotations"]["a"], "b");
    assert_eq!(v["schemaVersion"], 2);
    assert_eq!(v["size"], 1.5);
    let mut expected: serde_json::Value = serde_json::from_str(text).unwrap();
    expected["annotations"]["org.vaultship.encrypted"] = serde_json::Value::String("true".to_string());
    assert_eq!(out, serde_json::to_string_pretty(&expected).unwrap());
    assert_eq!(annotate_manifest_for_encryption("{"), Err(OciError::InvalidJson));
}

#[test]
fn unannotatable_manifests_are_refused_by_the_checked_form() {
    assert_eq!(annotate_manifest_checked("[1, 2]"), Err(OciError::NotAnnotatable));
    assert_eq!(annotate_manifest_checked(r#"{"annotations": 3}"#), Err(OciError::NotAnnotatable));
    assert_eq!(annotate_manifest_checked("not json"), Err(OciError::InvalidJson));
    let out = annotate_manifest_checked("null").expect("null manifest");
    assert!(out.contains("org.vaultship.encrypted"));
}

#[test]
fn config_bytes_and_manifest_text() {
    assert_eq!(
        layer_config_bytes("AES-256-GCM"),
        br#"{"algorithm":"AES-256-GCM","created_by":"vaultship"}"#.to_vec()
    );
    let text = encrypted_layer_manifest_text("sha256:aa", 10, "sha256:bb", 20);
    let v: serde_json::Value = serde_json::from_str(&text).expect("json");
    assert_eq!(v["schemaVersion"], 2);
    assert_eq!(v["config"]["size"], 10);
    assert_eq!(v["layers"][0]["digest"], "sha256:bb");
    assert_eq!(v["annotations"]["org.vaultship.encrypted"], "true");
    assert_eq!(text, serde_json::to_string_pretty(&v).unwrap());
}

#[test]
fn first_layer_digest_or_no_layers() {
    assert_eq!(first_layer_digest(&vec![]), Err(OciError::NoLayers));
    assert_eq!(first_layer_digest(&vec!["a".to_string(), "b".to_string()]), Ok("a".to_string()));
}
