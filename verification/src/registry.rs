//! OCI registry references, credentials chosen from the environment, and the URLs and
//! digests of the registry HTTP API.
use vstd::prelude::*;
use crate::crypto::{sha256, sha256_bytes};
use crate::encoding::{b64_encode, base64_encode, hex_lower, to_hex_lower};
use crate::text::{
    chars_of, contains, contains_seq, find, find_first, has_prefix, is_blank, lemma_find_first,
    lemma_rfind_char, lowercase, occurs_at, rfind_char, rsplit_once_char, rsplit_once_exec, slice,
    starts_with, string_of,
    to_lowercase, trim,
};

verus! {

/// A parsed registry reference `[scheme://]registry/repository[:tag]`.
pub struct RegistryReference {
    pub registry: String,
    pub repository: String,
    pub tag: String,
    pub scheme: String,
}

/// Why a reference could not be parsed.
#[derive(Debug, Clone, Copy, PartialEq, Eq)]
pub enum ReferenceError {
    /// The registry host or the repository part is empty.
    InvalidReference,
}

/// Credentials for the registry.
pub enum RegistryAuth {
    Basic { username: String, password: String },
    Bearer(String),
}

/// The environment variables that credentials are chosen from; `None` where a variable is
/// unset or not valid Unicode.
pub struct RegistryEnv {
    pub registry_token: Option<String>,
    pub registry_username: Option<String>,
    pub registry_password: Option<String>,
    pub github_token: Option<String>,
    pub github_actor: Option<String>,
    pub aws_ecr_password: Option<String>,
    pub azure_acr_username: Option<String>,
    pub azure_acr_password: Option<String>,
    pub gitlab_token: Option<String>,
}

/// The scheme and the rest of a reference: an explicit `http://` or `https://` prefix is
/// taken off, and `https` is the default.
pub open spec fn scheme_and_rest(r: Seq<char>) -> (Seq<char>, Seq<char>) {
    if has_prefix(r, "http://"@) {
        ("http"@, r.skip("http://"@.len() as int))
    } else if has_prefix(r, "https://"@) {
        ("https"@, r.skip("https://"@.len() as int))
    } else {
        ("https"@, r)
    }
}

/// The text before the first `/` and the text after it (empty when there is no `/`).
pub open spec fn split_host(rest: Seq<char>) -> (Seq<char>, Seq<char>) {
    match find_first(rest, seq!['/']) {
        Some(i) => (rest.take(i), rest.skip(i + 1)),
        None => (rest, Seq::empty()),
    }
}

/// Repository and tag: split at the last `:`, the tag `latest` when there is none.
pub open spec fn split_tag(repo_with_tag: Seq<char>) -> (Seq<char>, Seq<char>) {
    match rsplit_once_char(repo_with_tag, ':') {
        Some(parts) => parts,
        None => (repo_with_tag, "latest"@),
    }
}

/// The parsed parts `(scheme, registry, repository, tag)` of a reference, or `None` when the
/// registry or the repository part is empty.
pub open spec fn parse_reference_spec(r: Seq<char>) -> Option<(Seq<char>, Seq<char>, Seq<char>, Seq<char>)> {
    let (scheme, rest) = scheme_and_rest(r);
    let (registry, repo_with_tag) = split_host(rest);
    if registry.len() == 0 || repo_with_tag.len() == 0 {
        None
    } else {
        let (repository, tag) = split_tag(repo_with_tag);
        Some((scheme, registry, repository, tag))
    }
}

/// Parses `[http://|https://]registry/repository[:tag]`.
pub fn parse_reference(reference: &str) -> (r: Result<RegistryReference, ReferenceError>)
    ensures
        match parse_reference_spec(reference@) {
            Some(parts) => r is Ok && r->Ok_0.scheme@ == parts.0 && r->Ok_0.registry@ == parts.1
                && r->Ok_0.repository@ == parts.2 && r->Ok_0.tag@ == parts.3,
            None => r == Err::<RegistryReference, ReferenceError>(ReferenceError::InvalidReference),
        },
{
    let chars = chars_of(reference);
    let http = chars_of("http://");
    let https = chars_of("https://");
    let (scheme, rest) = if starts_with(&chars, &http) {
        ("http".to_owned(), slice(&chars, http.len(), chars.len()))
    } else if starts_with(&chars, &https) {
        ("https".to_owned(), slice(&chars, https.len(), chars.len()))
    } else {
        ("https".to_owned(), slice(&chars, 0, chars.len()))
    };
    assert(rest@ =~= scheme_and_rest(reference@).1);
    let slash = vec!['/'];
    let (registry, repo_with_tag) = match find(&rest, &slash) {
        Some(i) => {
            proof {
                lemma_find_first(rest@, slash@);
            }
            assert(occurs_at(rest@, slash@, i as int));
            (slice(&rest, 0, i), slice(&rest, i + 1, rest.len()))
        },
        None => (slice(&rest, 0, rest.len()), Vec::new()),
    };
    assert(slash@ =~= seq!['/']);
    assert(registry@ =~= split_host(rest@).0);
    assert(repo_with_tag@ =~= split_host(rest@).1);
    if registry.len() == 0 || repo_with_tag.len() == 0 {
        return Err(ReferenceError::InvalidReference);
    }
    let (repository, tag) = match rsplit_once_exec(&repo_with_tag, ':') {
        Some(parts) => (string_of(&parts.0), string_of(&parts.1)),
        None => (string_of(&repo_with_tag), "latest".to_owned()),
    };
    Ok(RegistryReference { registry: string_of(&registry), repository, tag, scheme })
}

/// Whether an environment value is unusable as a name or token: blank once trimmed.
pub open spec fn blank(s: Seq<char>) -> bool {
    trim(s).len() == 0
}

/// The credentials chosen for a registry host from the environment, in order of precedence:
/// a generic bearer token, generic basic credentials, then the GHCR, ECR, ACR and GitLab
/// conventions matched on the lowercased host.
pub open spec fn resolve_auth_spec(registry: Seq<char>, env: RegistryEnv) -> Option<(bool, Seq<char>, Seq<char>)> {
    let reg = lowercase(registry);
    if env.registry_token is Some && !blank(env.registry_token->0@) {
        Some((false, Seq::empty(), env.registry_token->0@))
    } else if env.registry_username is Some && env.registry_password is Some && !blank(
        env.registry_username->0@,
    ) {
        Some((true, env.registry_username->0@, env.registry_password->0@))
    } else if contains_seq(reg, "ghcr.io"@) && env.github_token is Some && env.github_actor is Some {
        Some((true, env.github_actor->0@, env.github_token->0@))
    } else if contains_seq(reg, ".amazonaws.com"@) && env.aws_ecr_password is Some {
        Some((true, "AWS"@, env.aws_ecr_password->0@))
    } else if contains_seq(reg, "azurecr.io"@) && env.azure_acr_username is Some
        && env.azure_acr_password is Some {
        Some((true, env.azure_acr_username->0@, env.azure_acr_password->0@))
    } else if (contains_seq(reg, "gitlab"@) || contains_seq(reg, "registry.gitlab.com"@))
        && env.gitlab_token is Some {
        Some((false, Seq::empty(), env.gitlab_token->0@))
    } else {
        None
    }
}

/// The view of chosen credentials: `(is_basic, username, secret)`, where the secret is the
/// password of basic credentials and the token of bearer ones.
pub open spec fn auth_view(a: Option<RegistryAuth>) -> Option<(bool, Seq<char>, Seq<char>)> {
    match a {
        Some(RegistryAuth::Basic { username, password }) => Some((true, username@, password@)),
        Some(RegistryAuth::Bearer(token)) => Some((false, Seq::empty(), token@)),
        None => None,
    }
}

fn clone_string(s: &String) -> (r: String)
    ensures
        r@ == s@,
{
    s.clone()
}

/// Chooses registry credentials for `parsed` from the environment values in `env`.
pub fn resolve_auth(parsed: &RegistryReference, env: &RegistryEnv) -> (r: Option<RegistryAuth>)
    ensures
        auth_view(r) == resolve_auth_spec(parsed.registry@, *env),
{
    if let Some(token) = &env.registry_token {
        if !is_blank(&chars_of(token.as_str())) {
            return Some(RegistryAuth::Bearer(clone_string(token)));
        }
    }
    if let (Some(username), Some(password)) = (&env.registry_username, &env.registry_password) {
        if !is_blank(&chars_of(username.as_str())) {
            return Some(
                RegistryAuth::Basic {
                    username: clone_string(username),
                    password: clone_string(password),
                },
            );
        }
    }
    let reg = chars_of(to_lowercase(parsed.registry.as_str()).as_str());
    if contains(&reg, &chars_of("ghcr.io")) {
        if let (Some(token), Some(username)) = (&env.github_token, &env.github_actor) {
            return Some(
                RegistryAuth::Basic { username: clone_string(username), password: clone_string(token) },
            );
        }
    }
    if contains(&reg, &chars_of(".amazonaws.com")) {
        if let Some(password) = &env.aws_ecr_password {
            return Some(
                RegistryAuth::Basic { username: "AWS".to_owned(), password: clone_string(password) },
            );
        }
    }
    if contains(&reg, &chars_of("azurecr.io")) {
        if let (Some(username), Some(password)) = (&env.azure_acr_username, &env.azure_acr_password) {
            return Some(
                RegistryAuth::Basic {
                    username: clone_string(username),
                    password: clone_string(password),
                },
            );
        }
    }
    if contains(&reg, &chars_of("gitlab")) || contains(&reg, &chars_of("registry.gitlab.com")) {
        if let Some(token) = &env.gitlab_token {
            return Some(RegistryAuth::Bearer(clone_string(token)));
        }
    }
    None
}

/// `{scheme}://{registry}/v2/{repository}/manifests/{tag}`.
pub open spec fn manifest_url_spec(p: RegistryReference) -> Seq<char> {
    p.scheme@ + "://"@ + p.registry@ + "/v2/"@ + p.repository@ + "/manifests/"@ + p.tag@
}

/// `{scheme}://{registry}/v2/{repository}/blobs/{digest}`.
pub open spec fn blob_url_spec(p: RegistryReference, digest: Seq<char>) -> Seq<char> {
    p.scheme@ + "://"@ + p.registry@ + "/v2/"@ + p.repository@ + "/blobs/"@ + digest
}

/// `{scheme}://{registry}/v2/{repository}/blobs/uploads/`.
pub open spec fn upload_start_url_spec(p: RegistryReference) -> Seq<char> {
    p.scheme@ + "://"@ + p.registry@ + "/v2/"@ + p.repository@ + "/blobs/uploads/"@
}

/// Where an upload is finished: the `Location` the registry returned (made absolute against
/// the registry when it is a path), with the digest as a query parameter.
pub open spec fn upload_finish_url_spec(p: RegistryReference, location: Seq<char>, digest: Seq<char>) -> Seq<char> {
    let base = if has_prefix(location, "http://"@) || has_prefix(location, "https://"@) {
        location
    } else {
        p.scheme@ + "://"@ + p.registry@ + location
    };
    if contains_seq(base, seq!['?']) {
        base + "&digest="@ + digest
    } else {
        base + "?digest="@ + digest
    }
}

fn push_str(s: &mut String, t: &str)
    ensures
        final(s)@ == old(s)@ + t@,
{
    s.append(t);
}

fn registry_prefix(parsed: &RegistryReference) -> (r: String)
    ensures
        r@ == parsed.scheme@ + "://"@ + parsed.registry@,
{
    let mut r = parsed.scheme.as_str().to_owned();
    push_str(&mut r, "://");
    push_str(&mut r, parsed.registry.as_str());
    r
}

fn repository_prefix(parsed: &RegistryReference) -> (r: String)
    ensures
        r@ == parsed.scheme@ + "://"@ + parsed.registry@ + "/v2/"@ + parsed.repository@,
{
    let mut r = registry_prefix(parsed);
    push_str(&mut r, "/v2/");
    push_str(&mut r, parsed.repository.as_str());
    r
}

/// The URL of the manifest for `parsed`.
pub fn manifest_url(parsed: &RegistryReference) -> (r: String)
    ensures
        r@ == manifest_url_spec(*parsed),
{
    let mut r = repository_prefix(parsed);
    push_str(&mut r, "/manifests/");
    push_str(&mut r, parsed.tag.as_str());
    r
}

/// The URL of the blob `digest` in the repository of `parsed`.
pub fn blob_url(parsed: &RegistryReference, digest: &str) -> (r: String)
    ensures
        r@ == blob_url_spec(*parsed, digest@),
{
    let mut r = repository_prefix(parsed);
    push_str(&mut r, "/blobs/");
    push_str(&mut r, digest);
    r
}

/// The URL that starts a blob upload in the repository of `parsed`.
pub fn upload_start_url(parsed: &RegistryReference) -> (r: String)
    ensures
        r@ == upload_start_url_spec(*parsed),
{
    let mut r = repository_prefix(parsed);
    push_str(&mut r, "/blobs/uploads/");
    r
}

/// The URL that completes a blob upload at `location` with `digest`.
pub fn upload_finish_url(parsed: &RegistryReference, location: &str, digest: &str) -> (r: String)
    ensures
        r@ == upload_finish_url_spec(*parsed, location@, digest@),
{
    let loc = chars_of(location);
    let mut base = if starts_with(&loc, &chars_of("http://")) || starts_with(&loc, &chars_of("https://")) {
        location.to_owned()
    } else {
        let mut b = registry_prefix(parsed);
        push_str(&mut b, location);
        b
    };
    let question = vec!['?'];
    assert(question@ =~= seq!['?']);
    if contains(&chars_of(base.as_str()), &question) {
        push_str(&mut base, "&digest=");
    } else {
        push_str(&mut base, "?digest=");
    }
    push_str(&mut base, digest);
    base
}

/// `sha256:` followed by the lowercase hex SHA-256 of `bytes` (an OCI content digest).
pub fn sha256_digest(bytes: &[u8]) -> (r: String)
    ensures
        r@ == "sha256:"@ + hex_lower(sha256(bytes@)),
{
    let mut r = "sha256:".to_owned();
    let hex = to_hex_lower(&sha256_bytes(bytes));
    push_str(&mut r, hex.as_str());
    r
}

/// The `Authorization` header value for `auth`: `Basic` with the base64 of
/// `username:password`, or `Bearer` with the token.
pub fn authorization_value(auth: &RegistryAuth) -> (r: String)
    requires
        auth matches RegistryAuth::Basic { username, password } ==> vstd::utf8::encode_utf8(
            username@ + ":"@ + password@,
        ).len() <= usize::MAX / 2,
    ensures
        match *auth {
            RegistryAuth::Basic { username, password } => r@ == "Basic "@ + base64_encode(
                vstd::utf8::encode_utf8(username@ + ":"@ + password@),
            ),
            RegistryAuth::Bearer(token) => r@ == "Bearer "@ + token@,
        },
{
    match auth {
        RegistryAuth::Basic { username, password } => {
            let mut pair = username.as_str().to_owned();
            push_str(&mut pair, ":");
            push_str(&mut pair, password.as_str());
            let token = b64_encode(pair.as_str().as_bytes());
            let mut r = "Basic ".to_owned();
            push_str(&mut r, token.as_str());
            r
        },
        RegistryAuth::Bearer(token) => {
            let mut r = "Bearer ".to_owned();
            push_str(&mut r, token.as_str());
            r
        },
    }
}

/// A reference written as `scheme://registry/repository:tag`, with a scheme of `http` or
/// `https`, a registry host without `/`, a repository and a tag without `:`, parses back
/// into those four parts.
pub proof fn lemma_reference_roundtrip(
    scheme: Seq<char>,
    registry: Seq<char>,
    repository: Seq<char>,
    tag: Seq<char>,
)
    requires
        scheme == "http"@ || scheme == "https"@,
        registry.len() > 0,
        forall|j: int| 0 <= j < registry.len() ==> registry[j] != '/',
        repository.len() > 0,
        forall|j: int| 0 <= j < tag.len() ==> tag[j] != ':',
    ensures
        parse_reference_spec(scheme + "://"@ + registry + "/"@ + repository + ":"@ + tag) == Some(
            (scheme, registry, repository, tag),
        ),
{
    reveal_strlit("http");
    reveal_strlit("https");
    reveal_strlit("://");
    reveal_strlit("http://");
    reveal_strlit("https://");
    reveal_strlit("/");
    reveal_strlit(":");
    let y = repository + ":"@ + tag;
    let x = registry + "/"@ + y;
    let full = scheme + "://"@ + registry + "/"@ + repository + ":"@ + tag;
    assert(full =~= scheme + "://"@ + x);
    if scheme == "http"@ {
        assert(full.subrange(0, 7) =~= "http://"@);
        assert(full.skip(7) =~= x);
    } else {
        assert(full[4] != "http://"@[4]);
        assert(!has_prefix(full, "http://"@));
        assert(full.subrange(0, 8) =~= "https://"@);
        assert(full.skip(8) =~= x);
    }
    assert(scheme_and_rest(full) == (scheme, x));
    let slash = seq!['/'];
    lemma_find_first(x, slash);
    let n = registry.len() as int;
    assert(x.subrange(n, n + 1) =~= slash);
    assert(occurs_at(x, slash, n));
    let k = find_first(x, slash)->0;
    if k < n {
        assert(x.subrange(k, k + 1)[0] == registry[k]);
    }
    assert(k == n);
    assert(x.take(n) =~= registry);
    assert(x.skip(n + 1) =~= y);
    lemma_rfind_char(y, ':');
    let m = repository.len() as int;
    assert(y[m] == ':');
    let r = rfind_char(y, ':')->0;
    if r > m {
        assert(y[r] == tag[r - m - 1]);
    }
    assert(r == m);
    assert(y.take(m) =~= repository);
    assert(y.skip(m + 1) =~= tag);
}

/// Which credentials a registry gets, stated on the environment's own fields: a
/// non-blank generic token is sent as a bearer token; otherwise non-blank generic user
/// name with a password as basic credentials; otherwise, by the lowercased host, GHCR's
/// actor and token, ECR's `AWS` user with its password, ACR's user name and password, or
/// GitLab's token as a bearer token; otherwise none.
pub proof fn lemma_resolve_auth_fields(registry: Seq<char>, env: RegistryEnv, r: Option<RegistryAuth>)
    requires
        auth_view(r) == resolve_auth_spec(registry, env),
    ensures
        ({
            let reg = lowercase(registry);
            let generic_token = env.registry_token is Some && !blank(env.registry_token->0@);
            let generic_basic = env.registry_username is Some && env.registry_password is Some
                && !blank(env.registry_username->0@);
            let ghcr = contains_seq(reg, "ghcr.io"@) && env.github_token is Some
                && env.github_actor is Some;
            let ecr = contains_seq(reg, ".amazonaws.com"@) && env.aws_ecr_password is Some;
            let acr = contains_seq(reg, "azurecr.io"@) && env.azure_acr_username is Some
                && env.azure_acr_password is Some;
            let gitlab = (contains_seq(reg, "gitlab"@) || contains_seq(reg, "registry.gitlab.com"@))
                && env.gitlab_token is Some;
            &&& generic_token ==> (r matches Some(RegistryAuth::Bearer(t)) && t@
                == env.registry_token->0@)
            &&& !generic_token && generic_basic ==> (r matches Some(
                RegistryAuth::Basic { username, password },
            ) && username@ == env.registry_username->0@ && password@ == env.registry_password->0@)
            &&& !generic_token && !generic_basic && ghcr ==> (r matches Some(
                RegistryAuth::Basic { username, password },
            ) && username@ == env.github_actor->0@ && password@ == env.github_token->0@)
            &&& !generic_token && !generic_basic && !ghcr && ecr ==> (r matches Some(
                RegistryAuth::Basic { username, password },
            ) && username@ == "AWS"@ && password@ == env.aws_ecr_password->0@)
            &&& !generic_token && !generic_basic && !ghcr && !ecr && acr ==> (r matches Some(
                RegistryAuth::Basic { username, password },
            ) && username@ == env.azure_acr_username->0@ && password@
                == env.azure_acr_password->0@)
            &&& !generic_token && !generic_basic && !ghcr && !ecr && !acr && gitlab ==> (r matches Some(
                RegistryAuth::Bearer(t),
            ) && t@ == env.gitlab_token->0@)
            &&& !generic_token && !generic_basic && !ghcr && !ecr && !acr && !gitlab ==> r is None
        }),
{
    match r {
        Some(RegistryAuth::Basic { username, password }) => {},
        Some(RegistryAuth::Bearer(t)) => {},
        None => {},
    }
}

/// A reference without a scheme and without a tag, `registry/repository`, is an HTTPS
/// reference to the `latest` tag: for a registry host without `/` that does not itself start
/// with `http://` or `https://`, and a repository without `:`.
pub proof fn lemma_reference_defaults(registry: Seq<char>, repository: Seq<char>)
    requires
        registry.len() > 0,
        forall|j: int| 0 <= j < registry.len() ==> registry[j] != '/',
        repository.len() > 0,
        forall|j: int| 0 <= j < repository.len() ==> repository[j] != ':',
        !has_prefix(registry + "/"@ + repository, "http://"@),
        !has_prefix(registry + "/"@ + repository, "https://"@),
    ensures
        parse_reference_spec(registry + "/"@ + repository) == Some(
            ("https"@, registry, repository, "latest"@),
        ),
{
    reveal_strlit("/");
    let x = registry + "/"@ + repository;
    assert(scheme_and_rest(x) == ("https"@, x));
    let slash = seq!['/'];
    lemma_find_first(x, slash);
    let n = registry.len() as int;
    assert(x.subrange(n, n + 1) =~= slash);
    assert(occurs_at(x, slash, n));
    let k = find_first(x, slash)->0;
    if k < n {
        assert(x.subrange(k, k + 1)[0] == registry[k]);
    }
    assert(k == n);
    assert(x.take(n) =~= registry);
    assert(x.skip(n + 1) =~= repository);
    lemma_rfind_char(repository, ':');
    assert(rfind_char(repository, ':') is None);
}

/// The registry API URLs of a reference share `scheme://registry/v2/repository`: the
/// manifest is under `/manifests/{tag}`, a blob under `/blobs/{digest}`, and an upload starts
/// at `/blobs/uploads/`. An upload finishes at the returned location (against
/// `scheme://registry` when it is a path) with `digest={digest}` as the last query
/// parameter.
pub proof fn lemma_registry_urls(p: RegistryReference, location: Seq<char>, digest: Seq<char>)
    ensures
        manifest_url_spec(p) == p.scheme@ + "://"@ + p.registry@ + "/v2/"@ + p.repository@
            + "/manifests/"@ + p.tag@,
        blob_url_spec(p, digest) == p.scheme@ + "://"@ + p.registry@ + "/v2/"@ + p.repository@
            + "/blobs/"@ + digest,
        upload_start_url_spec(p) == p.scheme@ + "://"@ + p.registry@ + "/v2/"@ + p.repository@
            + "/blobs/uploads/"@,
        blob_url_spec(p, "uploads/"@) == upload_start_url_spec(p),
        crate::text::has_suffix(upload_finish_url_spec(p, location, digest), "digest="@ + digest),
        (has_prefix(location, "http://"@) || has_prefix(location, "https://"@)) ==> has_prefix(
            upload_finish_url_spec(p, location, digest),
            location,
        ),
        !(has_prefix(location, "http://"@) || has_prefix(location, "https://"@)) ==> has_prefix(
            upload_finish_url_spec(p, location, digest),
            p.scheme@ + "://"@ + p.registry@ + location,
        ),
{
    reveal_strlit("/blobs/");
    reveal_strlit("/blobs/uploads/");
    reveal_strlit("uploads/");
    assert("/blobs/"@ + "uploads/"@ =~= "/blobs/uploads/"@);
    let pre = p.scheme@ + "://"@ + p.registry@ + "/v2/"@ + p.repository@;
    assert(blob_url_spec(p, "uploads/"@) =~= pre + ("/blobs/"@ + "uploads/"@));
    assert(upload_start_url_spec(p) =~= pre + "/blobs/uploads/"@);
    let base = if has_prefix(location, "http://"@) || has_prefix(location, "https://"@) {
        location
    } else {
        p.scheme@ + "://"@ + p.registry@ + location
    };
    let u = upload_finish_url_spec(p, location, digest);
    let tail = "digest="@ + digest;
    reveal_strlit("&digest=");
    reveal_strlit("?digest=");
    reveal_strlit("digest=");
    if contains_seq(base, seq!['?']) {
        assert(u =~= base + seq!['&'] + tail);
    } else {
        assert(u =~= base + seq!['?'] + tail);
    }
    assert(u.subrange(u.len() - tail.len(), u.len() as int) =~= tail);
    assert(u.subrange(0, base.len() as int) =~= base);
}

} // verus!
