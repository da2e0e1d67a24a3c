//! Hardening of Docker Compose services: the generated compose fragment, and the
//! rewrite of every service of a parsed compose document.
use vstd::prelude::*;

verus! {

/// How the seccomp profile of a hardened service is chosen.
pub enum SeccompMode {
    Auto,
    Strict,
    Custom(String),
}

/// The hardening applied to a compose service.
pub struct HardenConfig {
    pub read_only: bool,
    pub drop_capabilities: bool,
    pub no_new_privileges: bool,
    pub seccomp_profile: SeccompMode,
    pub anti_debug: bool,
}

/// Why a compose document could not be hardened.
#[derive(Debug, Clone, Copy, PartialEq, Eq)]
pub enum HardenError {
    /// The text is not a YAML document.
    InvalidYaml,
    /// The document is not a mapping with a mapping under `services`.
    NoServicesSection,
    /// The hardened document could not be written out as YAML.
    RenderFailed,
}

/// A YAML value as the hardening reads it. Scalars it never inspects (numbers, tagged
/// values) stand as `Other`, with their YAML text.
pub enum YamlNode {
    Null,
    Bool(bool),
    Str(String),
    Sequence(Vec<YamlNode>),
    Mapping(Vec<YamlEntry>),
    Other(String),
}

/// One key-value pair of a YAML mapping.
pub struct YamlEntry {
    pub key: YamlNode,
    pub value: YamlNode,
}

/// The text `true` or `false` (what `{}` prints for a `bool`).
pub open spec fn bool_text(b: bool) -> Seq<char> {
    if b {
        "true"@
    } else {
        "false"@
    }
}

/// The seccomp profile path for a mode: the generated profile unless a custom path is given.
pub open spec fn seccomp_path(mode: SeccompMode) -> Seq<char> {
    match mode {
        SeccompMode::Custom(path) => path@,
        _ => "./seccomp-profile.json"@,
    }
}

/// The lines of the hardened compose fragment for one service.
pub open spec fn hardened_compose_lines(service_name: Seq<char>, config: HardenConfig) -> Seq<Seq<char>> {
    seq!["services:"@, "  "@ + service_name + ":"@, "    read_only: "@ + bool_text(config.read_only)]
        + (if config.drop_capabilities {
        seq!["    cap_drop:"@, "      - ALL"@, "    cap_add:"@, "      - NET_BIND_SERVICE"@]
    } else {
        Seq::empty()
    }) + seq!["    security_opt:"@] + (if config.no_new_privileges {
        seq!["      - no-new-privileges:true"@]
    } else {
        Seq::empty()
    }) + seq![
        "      - seccomp:"@ + seccomp_path(config.seccomp_profile),
        "    tmpfs:"@,
        "      - /tmp:noexec,nosuid"@,
    ]
}

/// Each line followed by a newline.
pub open spec fn lines_text(lines: Seq<Seq<char>>) -> Seq<char>
    decreases lines.len(),
{
    if lines.len() == 0 {
        Seq::empty()
    } else {
        lines_text(lines.drop_last()) + lines.last() + "\n"@
    }
}

/// The views of a vector of strings.
pub open spec fn string_views(v: Seq<String>) -> Seq<Seq<char>> {
    v.map_values(|s: String| s@)
}

fn push_str(s: &mut String, t: &str)
    ensures
        final(s)@ == old(s)@ + t@,
{
    s.append(t);
}

fn joined_lines(lines: &Vec<String>) -> (r: String)
    ensures
        r@ == lines_text(string_views(lines@)),
{
    let mut r = String::new();
    let mut i: usize = 0;
    while i < lines.len()
        invariant
            i <= lines@.len(),
            r@ == lines_text(string_views(lines@).take(i as int)),
        decreases lines@.len() - i,
    {
        push_str(&mut r, lines[i].as_str());
        push_str(&mut r, "\n");
        assert(string_views(lines@).take(i + 1).drop_last() =~= string_views(lines@).take(i as int));
        i = i + 1;
    }
    assert(string_views(lines@).take(lines@.len() as int) =~= string_views(lines@));
    r
}

fn seccomp_path_exec(mode: &SeccompMode) -> (r: String)
    ensures
        r@ == seccomp_path(*mode),
{
    match mode {
        SeccompMode::Custom(path) => path.clone(),
        _ => "./seccomp-profile.json".to_owned(),
    }
}

fn owned(s: &str) -> (r: String)
    ensures
        r@ == s@,
{
    s.to_owned()
}

/// The hardened compose fragment for `service_name`: read-only root, dropped capabilities
/// (keeping `NET_BIND_SERVICE`), `no-new-privileges`, the seccomp profile and a
/// non-executable `/tmp`, as configured.
pub fn generate_hardened_compose(service_name: &str, config: &HardenConfig) -> (r: Result<String, HardenError>)
    ensures
        r is Ok,
        r->Ok_0@ == lines_text(hardened_compose_lines(service_name@, *config)),
{
    let mut lines: Vec<String> = Vec::new();
    lines.push(owned("services:"));
    let mut name_line = owned("  ");
    push_str(&mut name_line, service_name);
    push_str(&mut name_line, ":");
    lines.push(name_line);
    let mut ro_line = owned("    read_only: ");
    push_str(&mut ro_line, if config.read_only { "true" } else { "false" });
    lines.push(ro_line);
    if config.drop_capabilities {
        lines.push(owned("    cap_drop:"));
        lines.push(owned("      - ALL"));
        lines.push(owned("    cap_add:"));
        lines.push(owned("      - NET_BIND_SERVICE"));
    }
    let seccomp = seccomp_path_exec(&config.seccomp_profile);
    lines.push(owned("    security_opt:"));
    if config.no_new_privileges {
        lines.push(owned("      - no-new-privileges:true"));
    }
    let mut seccomp_line = owned("      - seccomp:");
    push_str(&mut seccomp_line, seccomp.as_str());
    lines.push(seccomp_line);
    lines.push(owned("    tmpfs:"));
    lines.push(owned("      - /tmp:noexec,nosuid"));
    assert(string_views(lines@) =~= hardened_compose_lines(service_name@, *config));
    Ok(joined_lines(&lines))
}

/// The mathematical value of a YAML node.
pub enum YamlView {
    Null,
    Bool(bool),
    Str(Seq<char>),
    Sequence(Seq<YamlView>),
    Mapping(Seq<(YamlView, YamlView)>),
    Other(Seq<char>),
}

impl YamlNode {
    /// The value this node stands for.
    pub open spec fn view_node(self) -> YamlView
        decreases self,
    {
        match self {
            YamlNode::Null => YamlView::Null,
            YamlNode::Bool(b) => YamlView::Bool(b),
            YamlNode::Str(s) => YamlView::Str(s@),
            YamlNode::Sequence(items) => YamlView::Sequence(nodes_view(items@)),
            YamlNode::Mapping(entries) => YamlView::Mapping(entries_view(entries@)),
            YamlNode::Other(t) => YamlView::Other(t@),
        }
    }
}

/// The values of a sequence of nodes.
pub open spec fn nodes_view(s: Seq<YamlNode>) -> Seq<YamlView>
    decreases s,
{
    if s.len() == 0 {
        Seq::empty()
    } else {
        nodes_view(s.drop_last()).push(s.last().view_node())
    }
}

/// The key-value pairs of a sequence of entries.
pub open spec fn entries_view(s: Seq<YamlEntry>) -> Seq<(YamlView, YamlView)>
    decreases s,
{
    if s.len() == 0 {
        Seq::empty()
    } else {
        entries_view(s.drop_last()).push((s.last().key.view_node(), s.last().value.view_node()))
    }
}

/// The views of entries, pair by pair.
pub proof fn lemma_entries_view(s: Seq<YamlEntry>)
    ensures
        entries_view(s).len() == s.len(),
        forall|i: int|
            0 <= i < s.len() ==> #[trigger] entries_view(s)[i] == (
                s[i].key.view_node(),
                s[i].value.view_node(),
            ),
    decreases s.len(),
{
    if s.len() > 0 {
        lemma_entries_view(s.drop_last());
    }
}

/// The values of nodes, one by one.
pub proof fn lemma_nodes_view(s: Seq<YamlNode>)
    ensures
        nodes_view(s).len() == s.len(),
        forall|i: int| 0 <= i < s.len() ==> #[trigger] nodes_view(s)[i] == s[i].view_node(),
    decreases s.len(),
{
    if s.len() > 0 {
        lemma_nodes_view(s.drop_last());
    }
}

/// Whether a key is the string `k`.
pub open spec fn key_is(key: YamlView, k: Seq<char>) -> bool {
    key matches YamlView::Str(s) && s == k
}

/// The first index at or after `i` whose key is the string `k`.
pub open spec fn find_key_from(m: Seq<(YamlView, YamlView)>, k: Seq<char>, i: int) -> Option<int>
    decreases m.len() - i,
{
    if i < 0 || i >= m.len() {
        None
    } else if key_is(m[i].0, k) {
        Some(i)
    } else {
        find_key_from(m, k, i + 1)
    }
}

/// The index of the key `k` in a mapping.
pub open spec fn find_key(m: Seq<(YamlView, YamlView)>, k: Seq<char>) -> Option<int> {
    find_key_from(m, k, 0)
}

/// Inserting into a mapping: an existing key keeps its place and takes the new value; a new
/// key goes at the end (the insertion order of `serde_yaml::Mapping`).
pub open spec fn mapping_insert(m: Seq<(YamlView, YamlView)>, k: Seq<char>, v: YamlView) -> Seq<(YamlView, YamlView)> {
    match find_key(m, k) {
        Some(i) => m.update(i, (m[i].0, v)),
        None => m.push((YamlView::Str(k), v)),
    }
}

/// A sequence of strings.
pub open spec fn str_list(items: Seq<Seq<char>>) -> YamlView {
    YamlView::Sequence(items.map_values(|t: Seq<char>| YamlView::Str(t)))
}

/// The `security_opt` entries written into a hardened service.
pub open spec fn security_options(config: HardenConfig) -> Seq<Seq<char>> {
    seq!["seccomp:"@ + seccomp_path(config.seccomp_profile)] + if config.no_new_privileges {
        seq!["no-new-privileges:true"@]
    } else {
        Seq::empty()
    }
}

/// A service after hardening: its mapping (empty if it was not one) with `read_only`,
/// the capability lists when capabilities are dropped, `security_opt` and `tmpfs` set.
pub open spec fn hardened_service(service: YamlView, config: HardenConfig) -> YamlView {
    let base = match service {
        YamlView::Mapping(m) => m,
        _ => Seq::empty(),
    };
    let m1 = mapping_insert(base, "read_only"@, YamlView::Bool(config.read_only));
    let m2 = if config.drop_capabilities {
        mapping_insert(
            mapping_insert(m1, "cap_drop"@, str_list(seq!["ALL"@])),
            "cap_add"@,
            str_list(seq!["NET_BIND_SERVICE"@]),
        )
    } else {
        m1
    };
    let m3 = mapping_insert(m2, "security_opt"@, str_list(security_options(config)));
    YamlView::Mapping(mapping_insert(m3, "tmpfs"@, str_list(seq!["/tmp:noexec,nosuid"@])))
}

/// The services of a mapping, each hardened, keys and order kept.
pub open spec fn hardened_services(services: Seq<(YamlView, YamlView)>, config: HardenConfig) -> Seq<(YamlView, YamlView)> {
    services.map_values(|e: (YamlView, YamlView)| (e.0, hardened_service(e.1, config)))
}

/// The hardened document, or `None` when the document has no `services` mapping.
pub open spec fn harden_document_spec(doc: YamlView, config: HardenConfig) -> Option<YamlView> {
    match doc {
        YamlView::Mapping(top) => match find_key(top, "services"@) {
            Some(i) => match top[i].1 {
                YamlView::Mapping(services) => Some(
                    YamlView::Mapping(
                        top.update(i, (top[i].0, YamlView::Mapping(hardened_services(services, config)))),
                    ),
                ),
                _ => None,
            },
            None => None,
        },
        _ => None,
    }
}

fn key_matches(key: &YamlNode, k: &str) -> (r: bool)
    ensures
        r == key_is(key.view_node(), k@),
{
    match key {
        YamlNode::Str(s) => crate::text::str_eq(s.as_str(), k),
        _ => false,
    }
}

fn find_key_exec(m: &Vec<YamlEntry>, k: &str) -> (r: Option<usize>)
    ensures
        r matches Some(i) ==> find_key(entries_view(m@), k@) == Some(i as int) && i < m@.len(),
        r is None ==> find_key(entries_view(m@), k@) is None,
{
    proof {
        lemma_entries_view(m@);
    }
    let mut i: usize = 0;
    while i < m.len()
        invariant
            i <= m@.len(),
            entries_view(m@).len() == m@.len(),
            forall|j: int|
                0 <= j < m@.len() ==> #[trigger] entries_view(m@)[j] == (
                    m@[j].key.view_node(),
                    m@[j].value.view_node(),
                ),
            find_key(entries_view(m@), k@) == find_key_from(entries_view(m@), k@, i as int),
        decreases m@.len() - i,
    {
        if key_matches(&m[i].key, k) {
            return Some(i);
        }
        i = i + 1;
    }
    None
}

fn str_node(s: &str) -> (r: YamlNode)
    ensures
        r.view_node() == YamlView::Str(s@),
{
    YamlNode::Str(s.to_owned())
}

fn str_list_node(items: Vec<String>) -> (r: YamlNode)
    ensures
        r.view_node() == str_list(string_views(items@)),
{
    let mut nodes: Vec<YamlNode> = Vec::new();
    let mut rest = items;
    let ghost all = items@;
    while rest.len() > 0
        invariant
            nodes@.len() + rest@.len() == all.len(),
            rest@ == all.skip(nodes@.len() as int),
            forall|j: int| 0 <= j < nodes@.len() ==> #[trigger] nodes@[j].view_node() == YamlView::Str(all[j]@),
        decreases rest@.len(),
    {
        let s = rest.remove(0);
        assert(all.skip(nodes@.len() as int)[0] == s);
        nodes.push(YamlNode::Str(s));
        assert(all.skip(nodes@.len() - 1).remove(0) =~= all.skip(nodes@.len() as int));
    }
    proof {
        lemma_nodes_view(nodes@);
        assert(nodes_view(nodes@) =~= string_views(all).map_values(|t: Seq<char>| YamlView::Str(t)));
    }
    YamlNode::Sequence(nodes)
}

/// Inserts `key: value` into the mapping `m` as `serde_yaml::Mapping::insert` does.
fn insert_entry(m: &mut Vec<YamlEntry>, key: &str, value: YamlNode)
    ensures
        entries_view(final(m)@) == mapping_insert(entries_view(old(m)@), key@, value.view_node()),
{
    proof {
        lemma_entries_view(m@);
    }
    match find_key_exec(m, key) {
        Some(i) => {
            let old_entry = m.remove(i);
            m.insert(i, YamlEntry { key: old_entry.key, value });
            proof {
                lemma_entries_view(m@);
                assert(entries_view(m@) =~= entries_view(old(m)@).update(
                    i as int,
                    (entries_view(old(m)@)[i as int].0, value.view_node()),
                ));
            }
        },
        None => {
            m.push(YamlEntry { key: str_node(key), value });
            proof {
                lemma_entries_view(m@);
                assert(entries_view(m@) =~= entries_view(old(m)@).push(
                    (YamlView::Str(key@), value.view_node()),
                ));
            }
        },
    }
}

fn one_string(s: &str) -> (r: Vec<String>)
    ensures
        string_views(r@) == seq![s@],
{
    let mut v: Vec<String> = Vec::new();
    v.push(s.to_owned());
    assert(string_views(v@) =~= seq![s@]);
    v
}

/// Hardens one service node.
fn harden_service(service: YamlNode, config: &HardenConfig) -> (r: YamlNode)
    ensures
        r.view_node() == hardened_service(service.view_node(), *config),
{
    let mut m: Vec<YamlEntry> = match service {
        YamlNode::Mapping(entries) => entries,
        _ => Vec::new(),
    };
    assert(entries_view(m@) == match service.view_node() {
        YamlView::Mapping(mm) => mm,
        _ => Seq::<(YamlView, YamlView)>::empty(),
    });
    insert_entry(&mut m, "read_only", YamlNode::Bool(config.read_only));
    if config.drop_capabilities {
        insert_entry(&mut m, "cap_drop", str_list_node(one_string("ALL")));
        insert_entry(&mut m, "cap_add", str_list_node(one_string("NET_BIND_SERVICE")));
    }
    let mut seccomp = "seccomp:".to_owned();
    let path = seccomp_path_exec(&config.seccomp_profile);
    push_str(&mut seccomp, path.as_str());
    let mut security: Vec<String> = Vec::new();
    security.push(seccomp);
    if config.no_new_privileges {
        security.push(owned("no-new-privileges:true"));
    }
    assert(string_views(security@) =~= security_options(*config));
    insert_entry(&mut m, "security_opt", str_list_node(security));
    insert_entry(&mut m, "tmpfs", str_list_node(one_string("/tmp:noexec,nosuid")));
    YamlNode::Mapping(m)
}

fn harden_all(services: Vec<YamlEntry>, config: &HardenConfig) -> (r: Vec<YamlEntry>)
    ensures
        entries_view(r@) == hardened_services(entries_view(services@), *config),
{
    let ghost all = services@;
    let mut out: Vec<YamlEntry> = Vec::new();
    let mut rest = services;
    while rest.len() > 0
        invariant
            out@.len() + rest@.len() == all.len(),
            rest@ == all.skip(out@.len() as int),
            forall|j: int|
                0 <= j < out@.len() ==> #[trigger] out@[j].key.view_node() == all[j].key.view_node()
                    && out@[j].value.view_node() == hardened_service(
                    all[j].value.view_node(),
                    *config,
                ),
        decreases rest@.len(),
    {
        let e = rest.remove(0);
        assert(all.skip(out@.len() as int)[0] == e);
        out.push(YamlEntry { key: e.key, value: harden_service(e.value, config) });
        assert(all.skip(out@.len() - 1).remove(0) =~= all.skip(out@.len() as int));
    }
    proof {
        lemma_entries_view(out@);
        lemma_entries_view(all);
        assert(entries_view(out@) =~= hardened_services(entries_view(all), *config));
    }
    out
}

/// Hardens every service of a parsed compose document: each service under `services`
/// gets `read_only`, dropped capabilities (as configured), `security_opt` with the seccomp
/// profile and `no-new-privileges`, and a non-executable `/tmp`. Everything else is kept.
pub fn harden_document_node(doc: YamlNode, config: &HardenConfig) -> (r: Result<YamlNode, HardenError>)
    ensures
        match harden_document_spec(doc.view_node(), *config) {
            Some(v) => r is Ok && r->Ok_0.view_node() == v,
            None => r == Err::<YamlNode, HardenError>(HardenError::NoServicesSection),
        },
{
    let mut top = match doc {
        YamlNode::Mapping(entries) => entries,
        _ => return Err(HardenError::NoServicesSection),
    };
    proof {
        lemma_entries_view(top@);
    }
    let i = match find_key_exec(&top, "services") {
        Some(i) => i,
        None => return Err(HardenError::NoServicesSection),
    };
    let ghost old_top = top@;
    let entry = top.remove(i);
    let services = match entry.value {
        YamlNode::Mapping(services) => services,
        other => {
            assert(entries_view(old_top)[i as int].1 == other.view_node());
            return Err(HardenError::NoServicesSection);
        },
    };
    let hardened = harden_all(services, config);
    top.insert(i, YamlEntry { key: entry.key, value: YamlNode::Mapping(hardened) });
    proof {
        lemma_entries_view(top@);
        let tv = entries_view(old_top);
        assert(entries_view(top@) =~= tv.update(
            i as int,
            (tv[i as int].0, YamlView::Mapping(hardened_services(entries_view(services@), *config))),
        ));
    }
    Ok(YamlNode::Mapping(top))
}

// ---------------------------------------------------------------------------
// Compose text
// ---------------------------------------------------------------------------

/// The YAML document that `serde_yaml::from_str` reads from compose text, as a tree
/// (`None` where it reports an error); scalars hardening never inspects stand as their YAML
/// text.
pub uninterp spec fn compose_yaml(text: Seq<char>) -> Option<YamlView>;

/// The text that `serde_yaml::to_string` writes for a YAML document (`None` where it
/// reports an error, or where the text of an uninspected scalar does not read back).
pub uninterp spec fn yaml_text(doc: YamlView) -> Option<Seq<char>>;

/// The YAML value type of `serde_yaml`.
#[verifier::external_type_specification]
#[verifier::external_body]
pub struct ExYamlValue(serde_yaml::Value);

/// Converts a `serde_yaml::Value` to a node, variant by variant; numbers and tagged values
/// become their `serde_yaml::to_string` text.
#[verifier::external_body]
fn yaml_node_of(v: serde_yaml::Value) -> YamlNode {
    match v {
        serde_yaml::Value::Null => YamlNode::Null,
        serde_yaml::Value::Bool(b) => YamlNode::Bool(b),
        serde_yaml::Value::String(s) => YamlNode::Str(s),
        serde_yaml::Value::Sequence(items) => YamlNode::Sequence(items.into_iter().map(yaml_node_of).collect()),
        serde_yaml::Value::Mapping(m) => YamlNode::Mapping(
            m.into_iter().map(|(k, v)| YamlEntry { key: yaml_node_of(k), value: yaml_node_of(v) }).collect(),
        ),
        other => YamlNode::Other(serde_yaml::to_string(&other).unwrap_or_default()),
    }
}

/// Converts a node back to a `serde_yaml::Value`, variant by variant; the text of an
/// uninspected scalar is read back with `serde_yaml::from_str` (`None` if it does not read).
#[verifier::external_body]
fn yaml_value_of(n: YamlNode) -> Option<serde_yaml::Value> {
    Some(match n {
        YamlNode::Null => serde_yaml::Value::Null,
        YamlNode::Bool(b) => serde_yaml::Value::Bool(b),
        YamlNode::Str(s) => serde_yaml::Value::String(s),
        YamlNode::Sequence(items) => serde_yaml::Value::Sequence(items.into_iter().map(yaml_value_of).collect::<Option<_>>()?),
        YamlNode::Mapping(es) => serde_yaml::Value::Mapping(
            es.into_iter().map(|e| Some((yaml_value_of(e.key)?, yaml_value_of(e.value)?))).collect::<Option<_>>()?,
        ),
        YamlNode::Other(t) => serde_yaml::from_str(&t).ok()?,
    })
}

/// `serde_yaml::from_str::<serde_yaml::Value>`: the document in `text` as a node, named by
/// [`compose_yaml`]; `None` on a parse error.
#[verifier::external_body]
fn parse_compose_yaml(text: &str) -> (r: Option<YamlNode>)
    ensures
        r is Some <==> compose_yaml(text@) is Some,
        r matches Some(n) ==> compose_yaml(text@) == Some(n.view_node()),
{
    serde_yaml::from_str::<serde_yaml::Value>(text).ok().map(yaml_node_of)
}

/// `serde_yaml::to_string` of the document `doc`: its YAML text, named by [`yaml_text`].
#[verifier::external_body]
fn render_compose_yaml(doc: YamlNode) -> (r: Option<String>)
    ensures
        r is Some <==> yaml_text(doc.view_node()) is Some,
        r matches Some(t) ==> yaml_text(doc.view_node()) == Some(t@),
{
    serde_yaml::to_string(&yaml_value_of(doc)?).ok()
}

/// Hardens every service of the compose document in `compose_content` (see
/// [`harden_document_node`]) and writes the document out as YAML again.
pub fn harden_compose_document(compose_content: &str, config: &HardenConfig) -> (r: Result<
    String,
    HardenError,
>)
    ensures
        match compose_yaml(compose_content@) {
            None => r == Err::<String, HardenError>(HardenError::InvalidYaml),
            Some(d) => match harden_document_spec(d, *config) {
                None => r == Err::<String, HardenError>(HardenError::NoServicesSection),
                Some(v) => match yaml_text(v) {
                    Some(t) => r is Ok && r->Ok_0@ == t,
                    None => r == Err::<String, HardenError>(HardenError::RenderFailed),
                },
            },
        },
{
    let doc = match parse_compose_yaml(compose_content) {
        Some(d) => d,
        None => return Err(HardenError::InvalidYaml),
    };
    let hardened = harden_document_node(doc, config)?;
    match render_compose_yaml(hardened) {
        Some(t) => Ok(t),
        None => Err(HardenError::RenderFailed),
    }
}

/// The value under the key `k` in a mapping, if the key is there.
pub open spec fn lookup(m: Seq<(YamlView, YamlView)>, k: Seq<char>) -> Option<YamlView> {
    match find_key(m, k) {
        Some(i) => if 0 <= i < m.len() {
            Some(m[i].1)
        } else {
            None
        },
        None => None,
    }
}

/// A found key is the string looked for, and no earlier key is.
pub proof fn lemma_find_key_from(m: Seq<(YamlView, YamlView)>, k: Seq<char>, i: int)
    requires
        0 <= i,
    ensures
        match find_key_from(m, k, i) {
            Some(j) => i <= j < m.len() && key_is(m[j].0, k) && forall|l: int|
                i <= l < j ==> !key_is(#[trigger] m[l].0, k),
            None => forall|l: int| i <= l < m.len() ==> !key_is(#[trigger] m[l].0, k),
        },
    decreases m.len() - i,
{
    if i < m.len() && !key_is(m[i].0, k) {
        lemma_find_key_from(m, k, i + 1);
    }
}

/// Looking a key up reads the keys only, and a pair appended under another key is not seen.
pub proof fn lemma_find_key_from_keys(
    m1: Seq<(YamlView, YamlView)>,
    m2: Seq<(YamlView, YamlView)>,
    k: Seq<char>,
    i: int,
)
    requires
        0 <= i,
        m1.len() <= m2.len(),
        forall|l: int| 0 <= l < m1.len() ==> (#[trigger] m1[l]).0 == m2[l].0,
        forall|l: int| m1.len() <= l < m2.len() ==> !key_is((#[trigger] m2[l]).0, k),
    ensures
        find_key_from(m1, k, i) == find_key_from(m2, k, i),
    decreases m2.len() - i,
{
    if i < m2.len() {
        lemma_find_key_from_keys(m1, m2, k, i + 1);
    }
}

/// After inserting `v` under `k`, `k` holds `v` and every other key keeps its value.
pub proof fn lemma_mapping_insert(m: Seq<(YamlView, YamlView)>, k: Seq<char>, v: YamlView)
    ensures
        lookup(mapping_insert(m, k, v), k) == Some(v),
        forall|k2: Seq<char>| k2 != k ==> #[trigger] lookup(mapping_insert(m, k, v), k2) == lookup(m, k2),
{
    lemma_find_key_from(m, k, 0);
    let r = mapping_insert(m, k, v);
    match find_key(m, k) {
        Some(i) => {
            lemma_find_key_from_keys(m, r, k, 0);
            assert forall|k2: Seq<char>| k2 != k implies #[trigger] lookup(r, k2) == lookup(m, k2) by {
                lemma_find_key_from_keys(m, r, k2, 0);
                lemma_find_key_from(m, k2, 0);
            }
        },
        None => {
            let j = m.len() as int;
            assert(key_is(r[j].0, k));
            assert forall|l: int| 0 <= l < j implies !key_is(#[trigger] r[l].0, k) by {}
            lemma_find_key_at(r, k, j, 0);
            assert forall|k2: Seq<char>| k2 != k implies #[trigger] lookup(r, k2) == lookup(m, k2) by {
                lemma_find_key_from_keys(m, r, k2, 0);
                lemma_find_key_from(m, k2, 0);
            }
        },
    }
}

/// A key `k`, with none equal to `k` before it, is the one found.
pub proof fn lemma_find_key_at(m: Seq<(YamlView, YamlView)>, k: Seq<char>, i: int, from: int)
    requires
        0 <= from <= i < m.len(),
        key_is(m[i].0, k),
        forall|l: int| from <= l < i ==> !key_is(#[trigger] m[l].0, k),
    ensures
        find_key_from(m, k, from) == Some(i),
    decreases i - from,
{
    if from < i {
        lemma_find_key_at(m, k, i, from + 1);
    }
}

/// Inserting the value a key already holds changes nothing.
pub proof fn lemma_mapping_insert_same(m: Seq<(YamlView, YamlView)>, k: Seq<char>, v: YamlView)
    requires
        lookup(m, k) == Some(v),
    ensures
        mapping_insert(m, k, v) == m,
{
    lemma_find_key_from(m, k, 0);
    let i = find_key(m, k)->0;
    assert(mapping_insert(m, k, v) =~= m);
}

/// The keys hardening writes into a service.
pub open spec fn hardening_key(k: Seq<char>) -> bool {
    k == "read_only"@ || k == "cap_drop"@ || k == "cap_add"@ || k == "security_opt"@ || k
        == "tmpfs"@
}

/// The mapping of a service (none when it is not a mapping).
pub open spec fn service_mapping(service: YamlView) -> Seq<(YamlView, YamlView)> {
    match service {
        YamlView::Mapping(m) => m,
        _ => Seq::empty(),
    }
}

/// The keys hardening writes are five different keys.
proof fn lemma_hardening_keys_distinct()
    ensures
        "read_only"@ != "cap_drop"@,
        "read_only"@ != "cap_add"@,
        "read_only"@ != "security_opt"@,
        "read_only"@ != "tmpfs"@,
        "cap_drop"@ != "cap_add"@,
        "cap_drop"@ != "security_opt"@,
        "cap_drop"@ != "tmpfs"@,
        "cap_add"@ != "security_opt"@,
        "cap_add"@ != "tmpfs"@,
        "security_opt"@ != "tmpfs"@,
{
    reveal_strlit("read_only");
    reveal_strlit("cap_drop");
    reveal_strlit("cap_add");
    reveal_strlit("security_opt");
    reveal_strlit("tmpfs");
    assert("read_only"@.len() == 9);
    assert("cap_drop"@.len() == 8);
    assert("cap_add"@.len() == 7);
    assert("security_opt"@.len() == 12);
    assert("tmpfs"@.len() == 5);
}

/// A hardened service has a read-only root as configured, the capability lists when
/// capabilities are dropped, the security options and a non-executable `/tmp`; every key
/// hardening does not write keeps its value (the `image`, for one).
pub proof fn lemma_hardened_service(service: YamlView, config: HardenConfig)
    ensures
        ({
            let r = service_mapping(hardened_service(service, config));
            &&& hardened_service(service, config) is Mapping
            &&& lookup(r, "read_only"@) == Some(YamlView::Bool(config.read_only))
            &&& config.drop_capabilities ==> lookup(r, "cap_drop"@) == Some(str_list(seq!["ALL"@]))
                && lookup(r, "cap_add"@) == Some(str_list(seq!["NET_BIND_SERVICE"@]))
            &&& lookup(r, "security_opt"@) == Some(str_list(security_options(config)))
            &&& lookup(r, "tmpfs"@) == Some(str_list(seq!["/tmp:noexec,nosuid"@]))
            &&& forall|k: Seq<char>|
                !hardening_key(k) ==> #[trigger] lookup(r, k) == lookup(service_mapping(service), k)
        }),
{
    let base = service_mapping(service);
    let m1 = mapping_insert(base, "read_only"@, YamlView::Bool(config.read_only));
    lemma_mapping_insert(base, "read_only"@, YamlView::Bool(config.read_only));
    let c1 = mapping_insert(m1, "cap_drop"@, str_list(seq!["ALL"@]));
    let c2 = mapping_insert(c1, "cap_add"@, str_list(seq!["NET_BIND_SERVICE"@]));
    lemma_mapping_insert(m1, "cap_drop"@, str_list(seq!["ALL"@]));
    lemma_mapping_insert(c1, "cap_add"@, str_list(seq!["NET_BIND_SERVICE"@]));
    lemma_hardening_keys_distinct();
    assert(lookup(c1, "read_only"@) == lookup(m1, "read_only"@));
    assert(lookup(c2, "read_only"@) == lookup(c1, "read_only"@));
    assert(lookup(c2, "cap_drop"@) == lookup(c1, "cap_drop"@));
    assert forall|k: Seq<char>| !hardening_key(k) implies #[trigger] lookup(c2, k) == lookup(base, k) by {
        assert(lookup(c2, k) == lookup(c1, k));
        assert(lookup(c1, k) == lookup(m1, k));
        assert(lookup(m1, k) == lookup(base, k));
    }
    let m2 = if config.drop_capabilities {
        c2
    } else {
        m1
    };
    let m3 = mapping_insert(m2, "security_opt"@, str_list(security_options(config)));
    let m4 = mapping_insert(m3, "tmpfs"@, str_list(seq!["/tmp:noexec,nosuid"@]));
    lemma_mapping_insert(m2, "security_opt"@, str_list(security_options(config)));
    lemma_mapping_insert(m3, "tmpfs"@, str_list(seq!["/tmp:noexec,nosuid"@]));
    assert(lookup(m2, "read_only"@) == Some(YamlView::Bool(config.read_only)));
    assert(lookup(m3, "read_only"@) == lookup(m2, "read_only"@));
    assert(lookup(m4, "read_only"@) == lookup(m3, "read_only"@));
    assert(lookup(m4, "security_opt"@) == lookup(m3, "security_opt"@));
    if config.drop_capabilities {
        assert(lookup(m3, "cap_drop"@) == lookup(m2, "cap_drop"@));
        assert(lookup(m4, "cap_drop"@) == lookup(m3, "cap_drop"@));
        assert(lookup(m3, "cap_add"@) == lookup(m2, "cap_add"@));
        assert(lookup(m4, "cap_add"@) == lookup(m3, "cap_add"@));
    }
    assert forall|k: Seq<char>| !hardening_key(k) implies #[trigger] lookup(m4, k) == lookup(base, k) by {
        assert(lookup(m4, k) == lookup(m3, k));
        assert(lookup(m3, k) == lookup(m2, k));
        assert(lookup(m2, k) == lookup(base, k));
    }
}

/// Hardening a hardened service changes nothing more.
pub proof fn lemma_harden_service_idempotent(service: YamlView, config: HardenConfig)
    ensures
        hardened_service(hardened_service(service, config), config) == hardened_service(
            service,
            config,
        ),
{
    lemma_hardened_service(service, config);
    let r = service_mapping(hardened_service(service, config));
    lemma_mapping_insert_same(r, "read_only"@, YamlView::Bool(config.read_only));
    if config.drop_capabilities {
        lemma_mapping_insert_same(r, "cap_drop"@, str_list(seq!["ALL"@]));
        lemma_mapping_insert_same(r, "cap_add"@, str_list(seq!["NET_BIND_SERVICE"@]));
    }
    lemma_mapping_insert_same(r, "security_opt"@, str_list(security_options(config)));
    lemma_mapping_insert_same(r, "tmpfs"@, str_list(seq!["/tmp:noexec,nosuid"@]));
}

/// Hardening a hardened document changes nothing more.
pub proof fn lemma_harden_document_idempotent(doc: YamlView, config: HardenConfig)
    requires
        harden_document_spec(doc, config) is Some,
    ensures
        harden_document_spec(harden_document_spec(doc, config)->0, config) == harden_document_spec(
            doc,
            config,
        ),
{
    let top = service_mapping(doc);
    lemma_find_key_from(top, "services"@, 0);
    let i = find_key(top, "services"@)->0;
    let services = service_mapping(top[i].1);
    let hs = hardened_services(services, config);
    let top2 = top.update(i, (top[i].0, YamlView::Mapping(hs)));
    lemma_find_key_from_keys(top, top2, "services"@, 0);
    assert forall|l: int| 0 <= l < hs.len() implies #[trigger] hardened_services(hs, config)[l] == hs[l] by {
        lemma_harden_service_idempotent(services[l].1, config);
    }
    assert(hardened_services(hs, config) =~= hs);
    assert(top2.update(i, (top2[i].0, YamlView::Mapping(hs))) =~= top2);
}

/// In a hardened document, every service under `services` has, stated on the
/// configuration itself: `read_only` as configured; when capabilities are dropped,
/// `cap_drop: [ALL]` and `cap_add: [NET_BIND_SERVICE]`; `security_opt` whose first entry
/// is `seccomp:` followed by the custom profile path when one is configured and
/// `./seccomp-profile.json` otherwise, then `no-new-privileges:true` when configured; and
/// `tmpfs: [/tmp:noexec,nosuid]`.
pub proof fn lemma_hardened_document_settings(doc: YamlView, config: HardenConfig, v: YamlView)
    requires
        harden_document_spec(doc, config) == Some(v),
    ensures
        lookup(service_mapping(v), "services"@) matches Some(YamlView::Mapping(hs)) && forall|j: int|
            0 <= j < hs.len() ==> {
                let m = #[trigger] service_mapping(hs[j].1);
                &&& hs[j].1 is Mapping
                &&& lookup(m, "read_only"@) == Some(YamlView::Bool(config.read_only))
                &&& config.drop_capabilities ==> lookup(m, "cap_drop"@) == Some(
                    YamlView::Sequence(seq![YamlView::Str("ALL"@)]),
                ) && lookup(m, "cap_add"@) == Some(
                    YamlView::Sequence(seq![YamlView::Str("NET_BIND_SERVICE"@)]),
                )
                &&& lookup(m, "security_opt"@) == Some(
                    YamlView::Sequence(
                        seq![
                            YamlView::Str(
                                "seccomp:"@ + match config.seccomp_profile {
                                    SeccompMode::Custom(path) => path@,
                                    _ => "./seccomp-profile.json"@,
                                },
                            ),
                        ] + if config.no_new_privileges {
                            seq![YamlView::Str("no-new-privileges:true"@)]
                        } else {
                            Seq::<YamlView>::empty()
                        },
                    ),
                )
                &&& lookup(m, "tmpfs"@) == Some(
                    YamlView::Sequence(seq![YamlView::Str("/tmp:noexec,nosuid"@)]),
                )
            },
{
    let top = service_mapping(doc);
    lemma_find_key_from(top, "services"@, 0);
    let i = find_key(top, "services"@)->0;
    let services = service_mapping(top[i].1);
    let hs = hardened_services(services, config);
    let top2 = top.update(i, (top[i].0, YamlView::Mapping(hs)));
    lemma_find_key_from_keys(top, top2, "services"@, 0);
    assert(service_mapping(v) == top2);
    assert(lookup(top2, "services"@) == Some(YamlView::Mapping(hs)));
    let path = match config.seccomp_profile {
        SeccompMode::Custom(p) => p@,
        _ => "./seccomp-profile.json"@,
    };
    let opts = seq![YamlView::Str("seccomp:"@ + path)] + if config.no_new_privileges {
        seq![YamlView::Str("no-new-privileges:true"@)]
    } else {
        Seq::<YamlView>::empty()
    };
    assert(str_list(security_options(config)) == YamlView::Sequence(opts)) by {
        assert(seccomp_path(config.seccomp_profile) == path);
        assert(security_options(config).map_values(|t: Seq<char>| YamlView::Str(t)) =~= opts);
    }
    assert(str_list(seq!["ALL"@]) == YamlView::Sequence(seq![YamlView::Str("ALL"@)])) by {
        assert(seq!["ALL"@].map_values(|t: Seq<char>| YamlView::Str(t)) =~= seq![YamlView::Str("ALL"@)]);
    }
    assert(str_list(seq!["NET_BIND_SERVICE"@]) == YamlView::Sequence(
        seq![YamlView::Str("NET_BIND_SERVICE"@)],
    )) by {
        assert(seq!["NET_BIND_SERVICE"@].map_values(|t: Seq<char>| YamlView::Str(t)) =~= seq![
            YamlView::Str("NET_BIND_SERVICE"@),
        ]);
    }
    assert(str_list(seq!["/tmp:noexec,nosuid"@]) == YamlView::Sequence(
        seq![YamlView::Str("/tmp:noexec,nosuid"@)],
    )) by {
        assert(seq!["/tmp:noexec,nosuid"@].map_values(|t: Seq<char>| YamlView::Str(t)) =~= seq![
            YamlView::Str("/tmp:noexec,nosuid"@),
        ]);
    }
    assert forall|j: int| 0 <= j < hs.len() implies {
        let m = #[trigger] service_mapping(hs[j].1);
        &&& hs[j].1 is Mapping
        &&& lookup(m, "read_only"@) == Some(YamlView::Bool(config.read_only))
        &&& config.drop_capabilities ==> lookup(m, "cap_drop"@) == Some(
            YamlView::Sequence(seq![YamlView::Str("ALL"@)]),
        ) && lookup(m, "cap_add"@) == Some(
            YamlView::Sequence(seq![YamlView::Str("NET_BIND_SERVICE"@)]),
        )
        &&& lookup(m, "security_opt"@) == Some(YamlView::Sequence(opts))
        &&& lookup(m, "tmpfs"@) == Some(YamlView::Sequence(seq![YamlView::Str("/tmp:noexec,nosuid"@)]))
    } by {
        assert(hs[j].1 == hardened_service(services[j].1, config));
        lemma_hardened_service(services[j].1, config);
    }
}

/// The generated compose fragment opens with `services:` and the service's line, then
/// `read_only` as configured; after those, it has the `cap_drop: [ALL]` and
/// `cap_add: [NET_BIND_SERVICE]` lines exactly when capabilities are dropped, the
/// `no-new-privileges:true` entry exactly when configured, the seccomp entry with the custom
/// profile path when one is configured and `./seccomp-profile.json` otherwise, and the
/// non-executable `/tmp`.
pub proof fn lemma_compose_fragment(service_name: Seq<char>, config: HardenConfig)
    ensures
        ({
            let lines = hardened_compose_lines(service_name, config);
            let body = lines.subrange(2, lines.len() as int);
            let path = match config.seccomp_profile {
                SeccompMode::Custom(p) => p@,
                _ => "./seccomp-profile.json"@,
            };
            &&& lines.len() >= 2
            &&& lines[0] == "services:"@
            &&& lines[1] == "  "@ + service_name + ":"@
            &&& lines[2] == "    read_only: "@ + if config.read_only {
                "true"@
            } else {
                "false"@
            }
            &&& body.contains("    cap_drop:"@) == config.drop_capabilities
            &&& body.contains("      - ALL"@) == config.drop_capabilities
            &&& body.contains("    cap_add:"@) == config.drop_capabilities
            &&& body.contains("      - NET_BIND_SERVICE"@) == config.drop_capabilities
            &&& body.contains("      - no-new-privileges:true"@) == config.no_new_privileges
            &&& body.contains("      - seccomp:"@ + path)
            &&& body.contains("    tmpfs:"@)
            &&& body.contains("      - /tmp:noexec,nosuid"@)
        }),
{
    reveal_strlit("services:");
    reveal_strlit("  ");
    reveal_strlit(":");
    reveal_strlit("    read_only: ");
    reveal_strlit("true");
    reveal_strlit("false");
    reveal_strlit("    cap_drop:");
    reveal_strlit("      - ALL");
    reveal_strlit("    cap_add:");
    reveal_strlit("      - NET_BIND_SERVICE");
    reveal_strlit("    security_opt:");
    reveal_strlit("      - no-new-privileges:true");
    reveal_strlit("      - seccomp:");
    reveal_strlit("./seccomp-profile.json");
    reveal_strlit("    tmpfs:");
    reveal_strlit("      - /tmp:noexec,nosuid");
    let lines = hardened_compose_lines(service_name, config);
    let body = lines.subrange(2, lines.len() as int);
    let path = match config.seccomp_profile {
        SeccompMode::Custom(p) => p@,
        _ => "./seccomp-profile.json"@,
    };
    assert(seccomp_path(config.seccomp_profile) == path);
    let sec = "      - seccomp:"@ + path;
    let ro = "    read_only: "@ + bool_text(config.read_only);
    let caps = if config.drop_capabilities {
        seq!["    cap_drop:"@, "      - ALL"@, "    cap_add:"@, "      - NET_BIND_SERVICE"@]
    } else {
        Seq::<Seq<char>>::empty()
    };
    let nnp = if config.no_new_privileges {
        seq!["      - no-new-privileges:true"@]
    } else {
        Seq::<Seq<char>>::empty()
    };
    let tail = seq![sec, "    tmpfs:"@, "      - /tmp:noexec,nosuid"@];
    assert(body =~= seq![ro] + caps + seq!["    security_opt:"@] + nnp + tail);
    assert(sec[8] == 's');
    assert(ro[4] == 'r');
    let idx_sec: int = (1 + caps.len() + 1 + nnp.len()) as int;
    assert(body[idx_sec] == sec);
    assert(body[idx_sec + 1] == "    tmpfs:"@);
    assert(body[idx_sec + 2] == "      - /tmp:noexec,nosuid"@);
    if config.drop_capabilities {
        assert(body[1] == "    cap_drop:"@);
        assert(body[2] == "      - ALL"@);
        assert(body[3] == "    cap_add:"@);
        assert(body[4] == "      - NET_BIND_SERVICE"@);
    } else {
        assert forall|j: int| 0 <= j < body.len() implies body[j] != "    cap_drop:"@ && body[j]
            != "      - ALL"@ && body[j] != "    cap_add:"@ && body[j] != "      - NET_BIND_SERVICE"@ by {
            if j == 0 {
                assert(body[j] == ro);
                assert(ro[4] == 'r');
            } else if j == 1 + caps.len() {
                assert(body[j] == "    security_opt:"@);
            } else if j < 1 + caps.len() {
                assert(body[j] == caps[j - 1]);
            } else if j < idx_sec {
                assert(body[j] == "      - no-new-privileges:true"@);
            } else if j == idx_sec {
                assert(body[j] == sec);
                assert(sec[8] == 's');
            } else if j == idx_sec + 1 {
                assert(body[j] == "    tmpfs:"@);
            } else {
                assert(body[j] == "      - /tmp:noexec,nosuid"@);
            }
        }
    }
    if config.no_new_privileges {
        assert(body[(1 + caps.len() + 1) as int] == "      - no-new-privileges:true"@);
    } else {
        assert forall|j: int| 0 <= j < body.len() implies body[j] != "      - no-new-privileges:true"@ by {
            if j == 0 {
                assert(body[j] == ro);
                assert(ro[4] == 'r');
            } else if j == 1 + caps.len() {
                assert(body[j] == "    security_opt:"@);
            } else if j < 1 + caps.len() {
                assert(body[j] == caps[j - 1]);
            } else if j == idx_sec {
                assert(body[j] == sec);
                assert(sec[8] == 's');
            } else if j == idx_sec + 1 {
                assert(body[j] == "    tmpfs:"@);
            } else {
                assert(body[j] == "      - /tmp:noexec,nosuid"@);
            }
        }
    }
}

} // verus!
