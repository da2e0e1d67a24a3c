//! OCI artifacts of encrypted layers: the config blob, the manifest, and the annotation that
//! marks a manifest as carrying encrypted layers.
use vstd::prelude::*;

verus! {

/// A JSON value as manifests are built and annotated. A non-negative integer the library
/// writes stands as `UInt`; a number it reads, which it never inspects, stands as `Number`
/// with its JSON text.
pub enum JsonNode {
    Null,
    Bool(bool),
    UInt(u64),
    Number(String),
    Str(String),
    Array(Vec<JsonNode>),
    Object(Vec<JsonEntry>),
}

/// One member of a JSON object.
pub struct JsonEntry {
    pub key: String,
    pub value: JsonNode,
}

/// The mathematical value of a JSON node; an object is its members in order.
pub enum JsonView {
    Null,
    Bool(bool),
    UInt(u64),
    Number(Seq<char>),
    Str(Seq<char>),
    Array(Seq<JsonView>),
    Object(Seq<(Seq<char>, JsonView)>),
}

impl JsonNode {
    /// The value this node stands for.
    pub open spec fn view_node(self) -> JsonView
        decreases self,
    {
        match self {
            JsonNode::Null => JsonView::Null,
            JsonNode::Bool(b) => JsonView::Bool(b),
            JsonNode::UInt(n) => JsonView::UInt(n),
            JsonNode::Number(t) => JsonView::Number(t@),
            JsonNode::Str(s) => JsonView::Str(s@),
            JsonNode::Array(items) => JsonView::Array(json_nodes_view(items@)),
            JsonNode::Object(members) => JsonView::Object(json_members_view(members@)),
        }
    }
}

/// The values of a sequence of nodes.
pub open spec fn json_nodes_view(s: Seq<JsonNode>) -> Seq<JsonView>
    decreases s,
{
    if s.len() == 0 {
        Seq::empty()
    } else {
        json_nodes_view(s.drop_last()).push(s.last().view_node())
    }
}

/// The key-value pairs of a sequence of members.
pub open spec fn json_members_view(s: Seq<JsonEntry>) -> Seq<(Seq<char>, JsonView)>
    decreases s,
{
    if s.len() == 0 {
        Seq::empty()
    } else {
        json_members_view(s.drop_last()).push((s.last().key@, s.last().value.view_node()))
    }
}

/// The views of members, pair by pair.
pub proof fn lemma_json_members_view(s: Seq<JsonEntry>)
    ensures
        json_members_view(s).len() == s.len(),
        forall|i: int|
            0 <= i < s.len() ==> #[trigger] json_members_view(s)[i] == (
                s[i].key@,
                s[i].value.view_node(),
            ),
    decreases s.len(),
{
    if s.len() > 0 {
        lemma_json_members_view(s.drop_last());
    }
}

/// The values of nodes, one by one.
pub proof fn lemma_json_nodes_view(s: Seq<JsonNode>)
    ensures
        json_nodes_view(s).len() == s.len(),
        forall|i: int| 0 <= i < s.len() ==> #[trigger] json_nodes_view(s)[i] == s[i].view_node(),
    decreases s.len(),
{
    if s.len() > 0 {
        lemma_json_nodes_view(s.drop_last());
    }
}

/// The annotation key that marks a manifest whose layers are encrypted.
pub open spec fn encrypted_key() -> Seq<char> {
    "org.vaultship.encrypted"@
}

/// The first index at or after `i` of the member named `k`.
pub open spec fn find_member_from(m: Seq<(Seq<char>, JsonView)>, k: Seq<char>, i: int) -> Option<int>
    decreases m.len() - i,
{
    if i < 0 || i >= m.len() {
        None
    } else if m[i].0 == k {
        Some(i)
    } else {
        find_member_from(m, k, i + 1)
    }
}

/// The index of the member named `k`.
pub open spec fn find_member(m: Seq<(Seq<char>, JsonView)>, k: Seq<char>) -> Option<int> {
    find_member_from(m, k, 0)
}

/// The value of the member named `k`, if there is one.
pub open spec fn member(m: Seq<(Seq<char>, JsonView)>, k: Seq<char>) -> Option<JsonView> {
    match find_member(m, k) {
        Some(i) => if 0 <= i < m.len() {
            Some(m[i].1)
        } else {
            None
        },
        None => None,
    }
}

/// A found member has the name looked for, and no earlier member has it.
pub proof fn lemma_find_member_from(m: Seq<(Seq<char>, JsonView)>, k: Seq<char>, i: int)
    requires
        0 <= i,
    ensures
        match find_member_from(m, k, i) {
            Some(j) => i <= j < m.len() && m[j].0 == k && forall|l: int| i <= l < j ==> m[l].0 != k,
            None => forall|l: int| i <= l < m.len() ==> m[l].0 != k,
        },
    decreases m.len() - i,
{
    if i < m.len() && m[i].0 != k {
        lemma_find_member_from(m, k, i + 1);
    }
}

/// A member named `k`, with none named `k` before it, is the one found.
pub proof fn lemma_find_member_at(m: Seq<(Seq<char>, JsonView)>, k: Seq<char>, i: int, from: int)
    requires
        0 <= from <= i < m.len(),
        m[i].0 == k,
        forall|l: int| from <= l < i ==> m[l].0 != k,
    ensures
        find_member_from(m, k, from) == Some(i),
    decreases i - from,
{
    if from < i {
        lemma_find_member_at(m, k, i, from + 1);
    }
}

/// With no member named `k` from `from` on, none is found.
pub proof fn lemma_find_member_absent(m: Seq<(Seq<char>, JsonView)>, k: Seq<char>, from: int)
    requires
        0 <= from,
        forall|l: int| from <= l < m.len() ==> m[l].0 != k,
    ensures
        find_member_from(m, k, from) is None,
    decreases m.len() - from,
{
    if from < m.len() {
        lemma_find_member_absent(m, k, from + 1);
    }
}

/// Setting member `k` of an object to `v`: an existing member takes the new value in its
/// place, a new one goes at the end.
pub open spec fn object_set(m: Seq<(Seq<char>, JsonView)>, k: Seq<char>, v: JsonView) -> Seq<(Seq<char>, JsonView)> {
    match find_member(m, k) {
        Some(i) => m.update(i, (k, v)),
        None => m.push((k, v)),
    }
}

/// After setting member `k` to `v`, `k` is found and holds `v`; every other member keeps
/// its place and value.
pub proof fn lemma_object_set(m: Seq<(Seq<char>, JsonView)>, k: Seq<char>, v: JsonView)
    ensures
        ({
            let r = object_set(m, k, v);
            &&& find_member(r, k) matches Some(j) && 0 <= j < r.len() && r[j] == (k, v)
            &&& m.len() <= r.len()
            &&& forall|l: int| 0 <= l < m.len() && m[l].0 != k ==> r[l] == m[l]
        }),
{
    lemma_find_member_from(m, k, 0);
    match find_member(m, k) {
        Some(i) => {
            lemma_find_member_at(m.update(i, (k, v)), k, i, 0);
        },
        None => {
            lemma_find_member_at(m.push((k, v)), k, m.len() as int, 0);
        },
    }
}

/// Setting a member to the value it already holds changes nothing.
pub proof fn lemma_object_set_same(m: Seq<(Seq<char>, JsonView)>, k: Seq<char>, v: JsonView)
    requires
        find_member(m, k) matches Some(j) && m[j].1 == v,
    ensures
        object_set(m, k, v) == m,
{
    lemma_find_member_from(m, k, 0);
    let j = find_member(m, k)->0;
    assert(object_set(m, k, v) =~= m);
}

/// Whether `v` can take a member by name: an object, or `null`, which becomes an empty
/// object first.
pub open spec fn takes_members(v: JsonView) -> bool {
    v is Null || v is Object
}

/// The members of `v` as an object: its own if it is one, none if it is `null`.
pub open spec fn members_of(v: JsonView) -> Seq<(Seq<char>, JsonView)> {
    match v {
        JsonView::Object(m) => m,
        _ => Seq::empty(),
    }
}

/// Whether a manifest can be annotated: it and its `annotations` member, if there is one,
/// take members.
pub open spec fn annotatable(doc: JsonView) -> bool {
    &&& takes_members(doc)
    &&& match find_member(members_of(doc), "annotations"@) {
        Some(i) => takes_members(members_of(doc)[i].1),
        None => true,
    }
}

/// The manifest with `annotations` (created when missing) holding the encrypted marker
/// `"true"`; everything else is kept.
pub open spec fn annotated(doc: JsonView) -> JsonView {
    let top = members_of(doc);
    let annotations = match find_member(top, "annotations"@) {
        Some(i) => members_of(top[i].1),
        None => Seq::empty(),
    };
    JsonView::Object(
        object_set(
            top,
            "annotations"@,
            JsonView::Object(object_set(annotations, encrypted_key(), JsonView::Str("true"@))),
        ),
    )
}

/// Annotated, a manifest carries the encrypted marker in its `annotations` object, and
/// every other top-level member and every other annotation keeps its value.
pub proof fn lemma_annotated_marks(doc: JsonView)
    ensures
        ({
            let r = members_of(annotated(doc));
            let top = members_of(doc);
            &&& annotated(doc) is Object
            &&& member(r, "annotations"@) matches Some(a) && a is Object
            &&& member(r, "annotations"@) matches Some(a) && member(members_of(a), encrypted_key())
                == Some(JsonView::Str("true"@))
            &&& forall|l: int|
                0 <= l < top.len() && top[l].0 != "annotations"@ ==> #[trigger] r[l] == top[l]
        }),
{
    let top = members_of(doc);
    let annotations = match find_member(top, "annotations"@) {
        Some(i) => members_of(top[i].1),
        None => Seq::empty(),
    };
    let a2 = object_set(annotations, encrypted_key(), JsonView::Str("true"@));
    lemma_object_set(annotations, encrypted_key(), JsonView::Str("true"@));
    lemma_object_set(top, "annotations"@, JsonView::Object(a2));
}

/// Annotating an annotated manifest changes nothing more.
pub proof fn lemma_annotate_idempotent(doc: JsonView)
    requires
        annotatable(doc),
    ensures
        annotatable(annotated(doc)),
        annotated(annotated(doc)) == annotated(doc),
{
    let top = members_of(doc);
    let annotations = match find_member(top, "annotations"@) {
        Some(i) => members_of(top[i].1),
        None => Seq::empty(),
    };
    let a2 = object_set(annotations, encrypted_key(), JsonView::Str("true"@));
    let t2 = object_set(top, "annotations"@, JsonView::Object(a2));
    lemma_object_set(annotations, encrypted_key(), JsonView::Str("true"@));
    lemma_object_set(top, "annotations"@, JsonView::Object(a2));
    let j = find_member(t2, "annotations"@)->0;
    assert(members_of(t2[j].1) == a2);
    lemma_object_set_same(a2, encrypted_key(), JsonView::Str("true"@));
    lemma_object_set_same(t2, "annotations"@, JsonView::Object(a2));
}

fn find_member_exec(m: &Vec<JsonEntry>, k: &str) -> (r: Option<usize>)
    ensures
        r matches Some(i) ==> find_member(json_members_view(m@), k@) == Some(i as int) && i
            < m@.len(),
        r is None ==> find_member(json_members_view(m@), k@) is None,
{
    proof {
        lemma_json_members_view(m@);
    }
    let mut i: usize = 0;
    while i < m.len()
        invariant
            i <= m@.len(),
            json_members_view(m@).len() == m@.len(),
            forall|j: int|
                0 <= j < m@.len() ==> #[trigger] json_members_view(m@)[j] == (
                    m@[j].key@,
                    m@[j].value.view_node(),
                ),
            find_member(json_members_view(m@), k@) == find_member_from(
                json_members_view(m@),
                k@,
                i as int,
            ),
        decreases m@.len() - i,
    {
        if crate::text::str_eq(m[i].key.as_str(), k) {
            return Some(i);
        }
        i = i + 1;
    }
    None
}

/// Sets member `key` of the object `m` to `value`.
fn set_member(m: &mut Vec<JsonEntry>, key: &str, value: JsonNode)
    ensures
        json_members_view(final(m)@) == object_set(
            json_members_view(old(m)@),
            key@,
            value.view_node(),
        ),
{
    proof {
        lemma_json_members_view(m@);
    }
    match find_member_exec(m, key) {
        Some(i) => {
            m.remove(i);
            m.insert(i, JsonEntry { key: key.to_owned(), value });
            proof {
                lemma_json_members_view(m@);
                assert(json_members_view(m@) =~= json_members_view(old(m)@).update(
                    i as int,
                    (key@, value.view_node()),
                ));
            }
        },
        None => {
            m.push(JsonEntry { key: key.to_owned(), value });
            proof {
                lemma_json_members_view(m@);
                assert(json_members_view(m@) =~= json_members_view(old(m)@).push(
                    (key@, value.view_node()),
                ));
            }
        },
    }
}

/// The members of a node that takes members.
fn into_members(v: JsonNode) -> (r: Vec<JsonEntry>)
    requires
        takes_members(v.view_node()),
    ensures
        json_members_view(r@) == members_of(v.view_node()),
{
    match v {
        JsonNode::Object(m) => m,
        _ => {
            let r: Vec<JsonEntry> = Vec::new();
            assert(json_members_view(r@) =~= Seq::<(Seq<char>, JsonView)>::empty());
            r
        },
    }
}

/// Marks a parsed manifest as one whose layers are encrypted: its `annotations` object
/// (created when missing) gets `"org.vaultship.encrypted": "true"`; everything else is
/// kept.
pub fn annotate_manifest_node(manifest: JsonNode) -> (r: JsonNode)
    requires
        annotatable(manifest.view_node()),
    ensures
        r.view_node() == annotated(manifest.view_node()),
{
    let ghost doc = manifest.view_node();
    let mut top = into_members(manifest);
    let ghost top0 = top@;
    proof {
        lemma_json_members_view(top0);
    }
    match find_member_exec(&top, "annotations") {
        Some(i) => {
            let entry = top.remove(i);
            proof {
                lemma_find_member_from(json_members_view(top0), "annotations"@, 0);
            }
            assert(json_members_view(top0)[i as int] == (entry.key@, entry.value.view_node()));
            let mut annotations = into_members(entry.value);
            set_member(&mut annotations, "org.vaultship.encrypted", JsonNode::Str("true".to_owned()));
            top.insert(i, JsonEntry { key: entry.key, value: JsonNode::Object(annotations) });
            proof {
                lemma_json_members_view(top@);
                let tv = json_members_view(top0);
                assert(json_members_view(top@) =~= tv.update(
                    i as int,
                    ("annotations"@, JsonView::Object(json_members_view(annotations@))),
                ));
            }
        },
        None => {
            let mut annotations: Vec<JsonEntry> = Vec::new();
            assert(json_members_view(annotations@) =~= Seq::<(Seq<char>, JsonView)>::empty());
            set_member(&mut annotations, "org.vaultship.encrypted", JsonNode::Str("true".to_owned()));
            set_member(&mut top, "annotations", JsonNode::Object(annotations));
        },
    }
    JsonNode::Object(top)
}

/// An OCI content descriptor: media type, digest and size.
pub open spec fn descriptor(media_type: Seq<char>, digest: Seq<char>, size: u64) -> JsonView {
    JsonView::Object(
        seq![
            ("mediaType"@, JsonView::Str(media_type)),
            ("digest"@, JsonView::Str(digest)),
            ("size"@, JsonView::UInt(size)),
        ],
    )
}

/// The media type of an OCI image manifest.
pub open spec fn manifest_media_type() -> Seq<char> {
    "application/vnd.oci.image.manifest.v1+json"@
}

/// The manifest of an encrypted layer artifact: schema version 2, the config blob and the
/// one layer blob, each with its media type, digest and size.
pub open spec fn layer_manifest_spec(
    config_digest: Seq<char>,
    config_size: u64,
    layer_digest: Seq<char>,
    layer_size: u64,
) -> JsonView {
    JsonView::Object(
        seq![
            ("schemaVersion"@, JsonView::UInt(2)),
            ("mediaType"@, JsonView::Str(manifest_media_type())),
            (
                "config"@,
                descriptor("application/vnd.vaultship.config.v1+json"@, config_digest, config_size),
            ),
            (
                "layers"@,
                JsonView::Array(
                    seq![
                        descriptor(
                            "application/vnd.vaultship.layer.v1+json"@,
                            layer_digest,
                            layer_size,
                        ),
                    ],
                ),
            ),
        ],
    )
}

/// The config blob of an encrypted layer artifact: who made it and the cipher's name.
pub open spec fn layer_config_spec(algorithm: Seq<char>) -> JsonView {
    JsonView::Object(
        seq![("created_by"@, JsonView::Str("vaultship"@)), ("algorithm"@, JsonView::Str(algorithm))],
    )
}

fn str_node(s: &str) -> (r: JsonNode)
    ensures
        r.view_node() == JsonView::Str(s@),
{
    JsonNode::Str(s.to_owned())
}

fn member_entry(key: &str, value: JsonNode) -> (r: JsonEntry)
    ensures
        r.key@ == key@,
        r.value == value,
{
    JsonEntry { key: key.to_owned(), value }
}

fn descriptor_node(media_type: &str, digest: &str, size: u64) -> (r: JsonNode)
    ensures
        r.view_node() == descriptor(media_type@, digest@, size),
{
    let mut m: Vec<JsonEntry> = Vec::new();
    m.push(member_entry("mediaType", str_node(media_type)));
    m.push(member_entry("digest", str_node(digest)));
    m.push(member_entry("size", JsonNode::UInt(size)));
    proof {
        lemma_json_members_view(m@);
        assert(json_members_view(m@) =~= seq![
            ("mediaType"@, JsonView::Str(media_type@)),
            ("digest"@, JsonView::Str(digest@)),
            ("size"@, JsonView::UInt(size)),
        ]);
    }
    JsonNode::Object(m)
}

/// The OCI manifest pushed for an encrypted layer, given the digests and sizes of the
/// config and layer blobs.
pub fn layer_manifest(config_digest: &str, config_size: u64, layer_digest: &str, layer_size: u64) -> (r:
    JsonNode)
    ensures
        r.view_node() == layer_manifest_spec(config_digest@, config_size, layer_digest@, layer_size),
{
    let mut layers: Vec<JsonNode> = Vec::new();
    layers.push(descriptor_node("application/vnd.vaultship.layer.v1+json", layer_digest, layer_size));
    proof {
        lemma_json_nodes_view(layers@);
        assert(json_nodes_view(layers@) =~= seq![
            descriptor("application/vnd.vaultship.layer.v1+json"@, layer_digest@, layer_size),
        ]);
    }
    let mut m: Vec<JsonEntry> = Vec::new();
    m.push(member_entry("schemaVersion", JsonNode::UInt(2)));
    m.push(member_entry("mediaType", str_node("application/vnd.oci.image.manifest.v1+json")));
    m.push(
        member_entry(
            "config",
            descriptor_node("application/vnd.vaultship.config.v1+json", config_digest, config_size),
        ),
    );
    m.push(member_entry("layers", JsonNode::Array(layers)));
    proof {
        lemma_json_members_view(m@);
        assert(json_members_view(m@) =~= seq![
            ("schemaVersion"@, JsonView::UInt(2)),
            ("mediaType"@, JsonView::Str(manifest_media_type())),
            (
                "config"@,
                descriptor("application/vnd.vaultship.config.v1+json"@, config_digest@, config_size),
            ),
            (
                "layers"@,
                JsonView::Array(
                    seq![
                        descriptor(
                            "application/vnd.vaultship.layer.v1+json"@,
                            layer_digest@,
                            layer_size,
                        ),
                    ],
                ),
            ),
        ]);
    }
    JsonNode::Object(m)
}

/// The config blob pushed beside an encrypted layer sealed with `algorithm`.
pub fn layer_config(algorithm: &str) -> (r: JsonNode)
    ensures
        r.view_node() == layer_config_spec(algorithm@),
{
    let mut m: Vec<JsonEntry> = Vec::new();
    m.push(member_entry("created_by", str_node("vaultship")));
    m.push(member_entry("algorithm", str_node(algorithm)));
    proof {
        lemma_json_members_view(m@);
        assert(json_members_view(m@) =~= seq![
            ("created_by"@, JsonView::Str("vaultship"@)),
            ("algorithm"@, JsonView::Str(algorithm@)),
        ]);
    }
    JsonNode::Object(m)
}

/// A layer manifest has no `annotations` member yet, so it can be annotated.
pub proof fn lemma_layer_manifest_annotatable(
    config_digest: Seq<char>,
    config_size: u64,
    layer_digest: Seq<char>,
    layer_size: u64,
)
    ensures
        annotatable(layer_manifest_spec(config_digest, config_size, layer_digest, layer_size)),
        find_member(
            members_of(layer_manifest_spec(config_digest, config_size, layer_digest, layer_size)),
            "annotations"@,
        ) is None,
{
    reveal_strlit("annotations");
    reveal_strlit("schemaVersion");
    reveal_strlit("mediaType");
    reveal_strlit("config");
    reveal_strlit("layers");
    let m = members_of(layer_manifest_spec(config_digest, config_size, layer_digest, layer_size));
    assert forall|l: int| 0 <= l < m.len() implies m[l].0 != "annotations"@ by {
        assert(m[l].0.len() != "annotations"@.len());
    }
    lemma_find_member_absent(m, "annotations"@, 0);
}

/// The manifest pushed for an encrypted layer: the layer manifest with the encrypted
/// marker among its annotations.
pub fn encrypted_layer_manifest(
    config_digest: &str,
    config_size: u64,
    layer_digest: &str,
    layer_size: u64,
) -> (r: JsonNode)
    ensures
        r.view_node() == annotated(
            layer_manifest_spec(config_digest@, config_size, layer_digest@, layer_size),
        ),
{
    proof {
        lemma_layer_manifest_annotatable(config_digest@, config_size, layer_digest@, layer_size);
    }
    annotate_manifest_node(layer_manifest(config_digest, config_size, layer_digest, layer_size))
}

// ---------------------------------------------------------------------------
// JSON text
// ---------------------------------------------------------------------------

/// Why a manifest text could not be handled.
#[derive(Debug, Clone, Copy, PartialEq, Eq)]
pub enum OciError {
    /// The text is not a JSON document.
    InvalidJson,
    /// The manifest, or its `annotations` member, cannot take members (an array, string,
    /// number or boolean).
    NotAnnotatable,
    /// The document could not be written out as JSON.
    RenderFailed,
    /// The manifest lists no layer.
    NoLayers,
}

/// The document that `serde_json::from_str` reads from `text` (`None` where it reports an
/// error); numbers stand as their JSON text.
pub uninterp spec fn manifest_json(text: Seq<char>) -> Option<JsonView>;

/// The text that `serde_json::to_string_pretty` writes for a document (`None` where the
/// text of a number does not read back).
pub uninterp spec fn json_pretty(doc: JsonView) -> Option<Seq<char>>;

/// The bytes that `serde_json::to_vec` writes for a document (`None` where the text of a
/// number does not read back).
pub uninterp spec fn json_bytes(doc: JsonView) -> Option<Seq<u8>>;

/// A document with no number read from text: only nulls, booleans, integers the library
/// writes, strings, and arrays and objects of such.
pub open spec fn plain_json(v: JsonView) -> bool
    decreases v,
{
    match v {
        JsonView::Number(_) => false,
        JsonView::Array(items) => forall|i: int| 0 <= i < items.len() ==> plain_json(#[trigger] items[i]),
        JsonView::Object(m) => forall|i: int| 0 <= i < m.len() ==> plain_json(#[trigger] m[i].1),
        _ => true,
    }
}

/// The JSON value type of `serde_json`.
#[verifier::external_type_specification]
#[verifier::external_body]
pub struct ExJsonValue(serde_json::Value);

/// Converts a `serde_json::Value` to a node, variant by variant; a number becomes its text.
#[verifier::external_body]
fn json_node_of(v: serde_json::Value) -> JsonNode {
    match v {
        serde_json::Value::Null => JsonNode::Null,
        serde_json::Value::Bool(b) => JsonNode::Bool(b),
        serde_json::Value::Number(n) => JsonNode::Number(n.to_string()),
        serde_json::Value::String(t) => JsonNode::Str(t),
        serde_json::Value::Array(items) => JsonNode::Array(items.into_iter().map(json_node_of).collect()),
        serde_json::Value::Object(m) => JsonNode::Object(
            m.into_iter().map(|(key, v)| JsonEntry { key, value: json_node_of(v) }).collect(),
        ),
    }
}

/// Converts a node back to a `serde_json::Value`, variant by variant; a number's text is
/// read back with `serde_json::from_str` (`None` if it does not read).
#[verifier::external_body]
fn json_value_of(n: JsonNode) -> Option<serde_json::Value> {
    Some(match n {
        JsonNode::Null => serde_json::Value::Null,
        JsonNode::Bool(b) => serde_json::Value::Bool(b),
        JsonNode::UInt(u) => serde_json::Value::from(u),
        JsonNode::Number(t) => serde_json::Value::Number(serde_json::from_str(&t).ok()?),
        JsonNode::Str(t) => serde_json::Value::String(t),
        JsonNode::Array(items) => serde_json::Value::Array(items.into_iter().map(json_value_of).collect::<Option<_>>()?),
        JsonNode::Object(es) => serde_json::Value::Object(
            es.into_iter().map(|e| Some((e.key, json_value_of(e.value)?))).collect::<Option<_>>()?,
        ),
    })
}

/// `serde_json::from_str::<serde_json::Value>`: the document in `text` as a node, named
/// by [`manifest_json`]; `None` on a parse error.
#[verifier::external_body]
fn parse_json(text: &str) -> (r: Option<JsonNode>)
    ensures
        r is Some <==> manifest_json(text@) is Some,
        r matches Some(n) ==> manifest_json(text@) == Some(n.view_node()),
{
    serde_json::from_str::<serde_json::Value>(text).ok().map(json_node_of)
}

/// `serde_json::to_string_pretty` of `doc`, named by [`json_pretty`]. Serializing a JSON
/// value with string keys cannot fail, so a document with no number text renders.
#[verifier::external_body]
fn render_json_pretty(doc: JsonNode) -> (r: Option<String>)
    ensures
        r is Some <==> json_pretty(doc.view_node()) is Some,
        r matches Some(t) ==> json_pretty(doc.view_node()) == Some(t@),
        plain_json(doc.view_node()) ==> r is Some,
{
    serde_json::to_string_pretty(&json_value_of(doc)?).ok()
}

/// `serde_json::to_vec` of `doc`, named by [`json_bytes`]. Serializing a JSON value with
/// string keys cannot fail, so a document with no number text renders.
#[verifier::external_body]
fn render_json_bytes(doc: JsonNode) -> (r: Option<Vec<u8>>)
    ensures
        r is Some <==> json_bytes(doc.view_node()) is Some,
        r matches Some(b) ==> json_bytes(doc.view_node()) == Some(b@),
        plain_json(doc.view_node()) ==> r is Some,
{
    serde_json::to_vec(&json_value_of(doc)?).ok()
}

fn takes_members_exec(n: &JsonNode) -> (r: bool)
    ensures
        r == takes_members(n.view_node()),
{
    match n {
        JsonNode::Null => true,
        JsonNode::Object(_) => true,
        _ => false,
    }
}

fn annotatable_exec(n: &JsonNode) -> (r: bool)
    ensures
        r == annotatable(n.view_node()),
{
    if !takes_members_exec(n) {
        return false;
    }
    match n {
        JsonNode::Object(m) => {
            proof {
                lemma_json_members_view(m@);
            }
            match find_member_exec(m, "annotations") {
                Some(i) => takes_members_exec(&m[i].value),
                None => true,
            }
        },
        _ => {
            assert(members_of(n.view_node()) =~= Seq::<(Seq<char>, JsonView)>::empty());
            true
        },
    }
}

/// Marks the manifest in `manifest_json` as one whose layers are encrypted (see
/// [`annotate_manifest_node`]) and writes it out as pretty JSON. A manifest, or an
/// `annotations` member, that cannot take members is left out: there
/// `serde_json`'s index assignment panics.
pub fn annotate_manifest_for_encryption(manifest_json_text: &str) -> (r: Result<String, OciError>)
    requires
        manifest_json(manifest_json_text@) matches Some(d) ==> annotatable(d),
    ensures
        match manifest_json(manifest_json_text@) {
            None => r == Err::<String, OciError>(OciError::InvalidJson),
            Some(d) => match json_pretty(annotated(d)) {
                Some(t) => r is Ok && r->Ok_0@ == t,
                None => r == Err::<String, OciError>(OciError::RenderFailed),
            },
        },
{
    let doc = match parse_json(manifest_json_text) {
        Some(d) => d,
        None => return Err(OciError::InvalidJson),
    };
    match render_json_pretty(annotate_manifest_node(doc)) {
        Some(t) => Ok(t),
        None => Err(OciError::RenderFailed),
    }
}

/// [`annotate_manifest_for_encryption`], with a manifest that cannot be annotated refused
/// as `NotAnnotatable` instead of left out.
pub fn annotate_manifest_checked(manifest_json_text: &str) -> (r: Result<String, OciError>)
    ensures
        match manifest_json(manifest_json_text@) {
            None => r == Err::<String, OciError>(OciError::InvalidJson),
            Some(d) => if !annotatable(d) {
                r == Err::<String, OciError>(OciError::NotAnnotatable)
            } else {
                match json_pretty(annotated(d)) {
                    Some(t) => r is Ok && r->Ok_0@ == t,
                    None => r == Err::<String, OciError>(OciError::RenderFailed),
                }
            },
        },
{
    match parse_json(manifest_json_text) {
        None => Err(OciError::InvalidJson),
        Some(d) => if annotatable_exec(&d) {
            annotate_manifest_for_encryption(manifest_json_text)
        } else {
            Err(OciError::NotAnnotatable)
        },
    }
}

/// A layer manifest, annotated, holds no number read from text.
proof fn lemma_encrypted_manifest_plain(
    config_digest: Seq<char>,
    config_size: u64,
    layer_digest: Seq<char>,
    layer_size: u64,
)
    ensures
        plain_json(annotated(layer_manifest_spec(config_digest, config_size, layer_digest, layer_size))),
{
    let doc = layer_manifest_spec(config_digest, config_size, layer_digest, layer_size);
    lemma_layer_manifest_annotatable(config_digest, config_size, layer_digest, layer_size);
    let top = members_of(doc);
    let marks = object_set(Seq::empty(), encrypted_key(), JsonView::Str("true"@));
    lemma_find_member_absent(Seq::<(Seq<char>, JsonView)>::empty(), encrypted_key(), 0);
    assert(marks =~= seq![(encrypted_key(), JsonView::Str("true"@))]);
    let r = object_set(top, "annotations"@, JsonView::Object(marks));
    assert(r =~= top.push(("annotations"@, JsonView::Object(marks))));
    let cfg = descriptor("application/vnd.vaultship.config.v1+json"@, config_digest, config_size);
    let lay = descriptor("application/vnd.vaultship.layer.v1+json"@, layer_digest, layer_size);
    assert(plain_json(cfg)) by {
        let m = members_of(cfg);
        assert forall|i: int| 0 <= i < m.len() implies plain_json(#[trigger] m[i].1) by {}
    }
    assert(plain_json(lay)) by {
        let m = members_of(lay);
        assert forall|i: int| 0 <= i < m.len() implies plain_json(#[trigger] m[i].1) by {}
    }
    assert(plain_json(JsonView::Array(seq![lay]))) by {
        let items = seq![lay];
        assert forall|i: int| 0 <= i < items.len() implies plain_json(#[trigger] items[i]) by {}
    }
    assert(plain_json(JsonView::Object(marks))) by {
        assert forall|i: int| 0 <= i < marks.len() implies plain_json(#[trigger] marks[i].1) by {}
    }
    assert forall|i: int| 0 <= i < r.len() implies plain_json(#[trigger] r[i].1) by {
        if i == 0 {
        } else if i == 1 {
        } else if i == 2 {
            assert(r[i].1 == cfg);
        } else if i == 3 {
            assert(r[i].1 == JsonView::Array(seq![lay]));
        } else {
            assert(r[i].1 == JsonView::Object(marks));
        }
    }
}

/// The manifest pushed for an encrypted layer (see [`encrypted_layer_manifest`]) as pretty
/// JSON text.
pub fn encrypted_layer_manifest_text(
    config_digest: &str,
    config_size: u64,
    layer_digest: &str,
    layer_size: u64,
) -> (r: String)
    ensures
        json_pretty(
            annotated(layer_manifest_spec(config_digest@, config_size, layer_digest@, layer_size)),
        ) == Some(r@),
{
    proof {
        lemma_encrypted_manifest_plain(config_digest@, config_size, layer_digest@, layer_size);
    }
    match render_json_pretty(encrypted_layer_manifest(config_digest, config_size, layer_digest, layer_size)) {
        Some(t) => t,
        None => {
            assert(false);
            String::new()
        },
    }
}

/// The config blob pushed beside an encrypted layer sealed with `algorithm` (see
/// [`layer_config`]) as compact JSON bytes.
pub fn layer_config_bytes(algorithm: &str) -> (r: Vec<u8>)
    ensures
        json_bytes(layer_config_spec(algorithm@)) == Some(r@),
{
    proof {
        let m = members_of(layer_config_spec(algorithm@));
        assert forall|i: int| 0 <= i < m.len() implies plain_json(#[trigger] m[i].1) by {}
    }
    match render_json_bytes(layer_config(algorithm)) {
        Some(b) => b,
        None => {
            assert(false);
            Vec::new()
        },
    }
}

/// The digest of the first layer a pulled manifest lists.
pub fn first_layer_digest(layer_digests: &Vec<String>) -> (r: Result<String, OciError>)
    ensures
        layer_digests@.len() == 0 ==> r == Err::<String, OciError>(OciError::NoLayers),
        layer_digests@.len() > 0 ==> r is Ok && r->Ok_0@ == layer_digests@[0]@,
{
    if layer_digests.len() == 0 {
        Err(OciError::NoLayers)
    } else {
        Ok(layer_digests[0].clone())
    }
}

/// The manifest pushed for an encrypted layer is an OCI image manifest (schema version 2,
/// its media type) whose config is the vaultship config blob and whose one layer is the
/// vaultship layer blob, each with the digest and size given; the config blob names
/// `vaultship` as its creator and the cipher's name as its algorithm.
pub proof fn lemma_layer_manifest_members(
    config_digest: Seq<char>,
    config_size: u64,
    layer_digest: Seq<char>,
    layer_size: u64,
    algorithm: Seq<char>,
)
    ensures
        ({
            let m = members_of(layer_manifest_spec(config_digest, config_size, layer_digest, layer_size));
            let c = members_of(layer_config_spec(algorithm));
            &&& member(m, "schemaVersion"@) == Some(JsonView::UInt(2))
            &&& member(m, "mediaType"@) == Some(
                JsonView::Str("application/vnd.oci.image.manifest.v1+json"@),
            )
            &&& member(m, "config"@) matches Some(cfg) && member(members_of(cfg), "mediaType"@)
                == Some(JsonView::Str("application/vnd.vaultship.config.v1+json"@)) && member(
                members_of(cfg),
                "digest"@,
            ) == Some(JsonView::Str(config_digest)) && member(members_of(cfg), "size"@) == Some(
                JsonView::UInt(config_size),
            )
            &&& member(m, "layers"@) matches Some(JsonView::Array(ls)) && ls.len() == 1 && member(
                members_of(ls[0]),
                "mediaType"@,
            ) == Some(JsonView::Str("application/vnd.vaultship.layer.v1+json"@)) && member(
                members_of(ls[0]),
                "digest"@,
            ) == Some(JsonView::Str(layer_digest)) && member(members_of(ls[0]), "size"@) == Some(
                JsonView::UInt(layer_size),
            )
            &&& member(c, "created_by"@) == Some(JsonView::Str("vaultship"@))
            &&& member(c, "algorithm"@) == Some(JsonView::Str(algorithm))
        }),
{
    reveal_strlit("schemaVersion");
    reveal_strlit("mediaType");
    reveal_strlit("config");
    reveal_strlit("layers");
    reveal_strlit("digest");
    reveal_strlit("size");
    reveal_strlit("created_by");
    reveal_strlit("algorithm");
    let m = members_of(layer_manifest_spec(config_digest, config_size, layer_digest, layer_size));
    assert("schemaVersion"@.len() != "mediaType"@.len());
    assert("schemaVersion"@.len() != "config"@.len() && "mediaType"@.len() != "config"@.len());
    assert("schemaVersion"@.len() != "layers"@.len() && "mediaType"@.len() != "layers"@.len());
    assert("config"@[0] != "layers"@[0]);
    assert(m[0].0 == "schemaVersion"@ && m[1].0 == "mediaType"@ && m[2].0 == "config"@);
    lemma_find_member_at(m, "schemaVersion"@, 0, 0);
    lemma_find_member_at(m, "mediaType"@, 1, 0);
    lemma_find_member_at(m, "config"@, 2, 0);
    lemma_find_member_at(m, "layers"@, 3, 0);
    let cfg = descriptor("application/vnd.vaultship.config.v1+json"@, config_digest, config_size);
    let lay = descriptor("application/vnd.vaultship.layer.v1+json"@, layer_digest, layer_size);
    let dc = members_of(cfg);
    let dl = members_of(lay);
    assert("size"@.len() != "mediaType"@.len() && "size"@.len() != "digest"@.len());
    assert("digest"@.len() != "mediaType"@.len());
    assert("created_by"@.len() != "algorithm"@.len());
    lemma_find_member_at(dc, "mediaType"@, 0, 0);
    lemma_find_member_at(dc, "digest"@, 1, 0);
    lemma_find_member_at(dc, "size"@, 2, 0);
    lemma_find_member_at(dl, "mediaType"@, 0, 0);
    lemma_find_member_at(dl, "digest"@, 1, 0);
    lemma_find_member_at(dl, "size"@, 2, 0);
    let c = members_of(layer_config_spec(algorithm));
    lemma_find_member_at(c, "created_by"@, 0, 0);
    lemma_find_member_at(c, "algorithm"@, 1, 0);
}

} // verus!
