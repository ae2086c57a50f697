//! Planning a record's first attempt: the typed refusals of a record that
//! cannot be planned, the deterministic keys that name its attempts, and the
//! checks between a record's binding, its engine and its placement.
use vstd::prelude::*;
use crate::digest::{hex_lower_spec, sha256_hex, sha256_spec};
use crate::json::{group_json_view, view_obj, jstr, Json, JsonV};
use crate::registry::RuntimeServiceIdentity;
use crate::text::{
    append_chars, chars_of, decimal, decimal_spec, is_alnum, is_alnum_char, str_eq, string_of,
    string_of_range, utf8_bytes, utf8_encode,
};

verus! {

// ---------------------------------------------------------------------------
// Digests of keyed text

/// Parts joined by NUL characters.
pub open spec fn nul_joined(a: Seq<char>, b: Seq<char>, c: Seq<char>) -> Seq<char> {
    a + seq!['\0'] + b + seq!['\0'] + c
}

/// The lowercase hexadecimal SHA-256 of a text's UTF-8 bytes.
pub open spec fn text_digest(text: Seq<char>) -> Seq<char> {
    hex_lower_spec(sha256_spec(utf8_encode(text)))
}

fn push_nul_joined(out: &mut Vec<char>, a: &str, b: &str, c: &str)
    ensures
        final(out)@ == old(out)@ + nul_joined(a@, b@, c@),
{
    append_chars(out, &chars_of(a));
    out.push('\0');
    append_chars(out, &chars_of(b));
    out.push('\0');
    append_chars(out, &chars_of(c));
    assert(out@ =~= old(out)@ + nul_joined(a@, b@, c@));
}

fn digest_of_text(text: &Vec<char>) -> (r: String)
    ensures
        r@ == text_digest(text@),
        r@.len() == 64,
{
    let bytes = utf8_bytes(text);
    sha256_hex(bytes.as_slice())
}

// ---------------------------------------------------------------------------
// A record that cannot be planned

/// The deterministic attempt id of a record that could not be planned for a
/// reason `code`.
pub open spec fn unattempted_id_spec(run_id: Seq<char>, catalog: Seq<char>, slug: Seq<char>, code: Seq<char>) -> Seq<
    char,
> {
    "unattempted-"@ + text_digest(nul_joined(run_id, catalog, slug) + seq!['\0'] + code).take(16)
}

pub fn unattempted_id(run_id: &str, catalog: &str, slug: &str, code: &str) -> (r: String)
    ensures
        r@ == unattempted_id_spec(run_id@, catalog@, slug@, code@),
{
    let mut text: Vec<char> = Vec::new();
    push_nul_joined(&mut text, run_id, catalog, slug);
    text.push('\0');
    append_chars(&mut text, &chars_of(code));
    assert(text@ =~= nul_joined(run_id@, catalog@, slug@) + seq!['\0'] + code@);
    let digest = chars_of(digest_of_text(&text).as_str());
    let mut id = chars_of("unattempted-");
    let head = crate::text::slice_chars(&digest, 0, 16);
    append_chars(&mut id, &head);
    assert(head@ =~= digest@.take(16));
    string_of(&id)
}

/// One explicit typed attempt entry for a record that cannot be planned: it
/// keeps a deterministic attempt id and a retryable diagnostic, so the record
/// stays in the run instead of disappearing from it.
pub open spec fn unavailable_record_spec(
    run_id: Seq<char>,
    catalog: Seq<char>,
    slug: Seq<char>,
    code: Seq<char>,
    message: Seq<char>,
    detail: JsonV,
) -> JsonV {
    JsonV::Object(
        seq![
            ("record"@, JsonV::Str(slug)),
            ("state"@, JsonV::Str("unavailable"@)),
            ("attempt"@, JsonV::UInt(1)),
            ("attempt_id"@, JsonV::Str(unattempted_id_spec(run_id, catalog, slug, code))),
            ("manifest"@, JsonV::Null),
            ("command"@, JsonV::Null),
            ("stado_job_id"@, JsonV::Null),
            ("artifact_uri"@, JsonV::Null),
            ("output_uri"@, JsonV::Null),
            ("submission_receipt"@, JsonV::Null),
            ("preflight"@, JsonV::Null),
            ("diagnostic"@, JsonV::Object(seq![
                ("code"@, JsonV::Str(code)),
                ("retryable"@, JsonV::Bool(true)),
                ("message"@, JsonV::Str(message)),
                ("detail"@, detail),
            ])),
            ("attempts"@, JsonV::Array(Seq::empty())),
        ],
    )
}

pub fn unavailable_record(
    run_id: &str,
    catalog: &str,
    slug: &str,
    code: &str,
    message: String,
    detail: Json,
) -> (r: Json)
    ensures
        r@ == unavailable_record_spec(run_id@, catalog@, slug@, code@, message@, detail@),
{
    broadcast use group_json_view;

    let attempt_id = unattempted_id(run_id, catalog, slug, code);
    let ghost message_v = message@;
    let ghost detail_v = detail@;
    let mut diagnostic: Vec<(String, Json)> = Vec::new();
    diagnostic.push((String::from_str("code"), jstr(code)));
    diagnostic.push((String::from_str("retryable"), Json::Bool(true)));
    diagnostic.push((String::from_str("message"), Json::Str(message)));
    diagnostic.push((String::from_str("detail"), detail));
    let ghost dv = view_obj(diagnostic@);
    assert(dv =~= seq![
        ("code"@, JsonV::Str(code@)),
        ("retryable"@, JsonV::Bool(true)),
        ("message"@, JsonV::Str(message_v)),
        ("detail"@, detail_v),
    ]);
    let nothing: Vec<Json> = Vec::new();
    assert(crate::json::view_arr(nothing@) =~= Seq::empty());
    let mut fields: Vec<(String, Json)> = Vec::new();
    fields.push((String::from_str("record"), jstr(slug)));
    fields.push((String::from_str("state"), jstr("unavailable")));
    fields.push((String::from_str("attempt"), Json::UInt(1)));
    fields.push((String::from_str("attempt_id"), Json::Str(attempt_id)));
    fields.push((String::from_str("manifest"), Json::Null));
    fields.push((String::from_str("command"), Json::Null));
    fields.push((String::from_str("stado_job_id"), Json::Null));
    fields.push((String::from_str("artifact_uri"), Json::Null));
    fields.push((String::from_str("output_uri"), Json::Null));
    fields.push((String::from_str("submission_receipt"), Json::Null));
    fields.push((String::from_str("preflight"), Json::Null));
    fields.push((String::from_str("diagnostic"), Json::Object(diagnostic)));
    fields.push((String::from_str("attempts"), Json::Array(nothing)));
    let r = Json::Object(fields);
    assert(view_obj(fields@) =~= unavailable_record_spec(
        run_id@,
        catalog@,
        slug@,
        code@,
        message_v,
        detail_v,
    )->Object_0);
    r
}

// ---------------------------------------------------------------------------
// The keys that name a record's attempts

/// The deterministic names of a planned attempt.
pub struct ManifestKeys {
    /// The digest of the attempt's typed inputs.
    pub source_input_sha256: String,
    pub catalog_key: String,
    pub record_key: String,
    pub attempt_id: String,
    pub correlation_id: String,
    pub stado_run_id: String,
}

pub open spec fn catalog_key_spec(source_revision: Seq<char>, run_id: Seq<char>, catalog: Seq<char>) -> Seq<char> {
    text_digest(nul_joined(source_revision, run_id, catalog))
}

pub open spec fn record_key_spec(catalog_key: Seq<char>, record: Seq<char>, input_sha256: Seq<char>) -> Seq<char> {
    text_digest(nul_joined(catalog_key, record, input_sha256))
}

pub open spec fn attempt_id_spec(record_key: Seq<char>, attempt: u32, host: Seq<char>) -> Seq<char> {
    "attempt-"@ + decimal_spec(attempt as nat) + "-"@ + text_digest(
        nul_joined(record_key, decimal_spec(attempt as nat), host),
    ).take(16)
}

pub open spec fn correlation_id_spec(record_key: Seq<char>, attempt: u32) -> Seq<char> {
    "spis-"@ + record_key.take(24) + "-"@ + decimal_spec(attempt as nat)
}

/// The keys of an attempt, from the run's revision and names, the bytes of
/// its typed input identity, its number and the host it executes on (empty
/// when it has no execution identity yet).
pub open spec fn manifest_keys_spec(
    source_revision: Seq<char>,
    run_id: Seq<char>,
    catalog: Seq<char>,
    record: Seq<char>,
    input_identity: Seq<u8>,
    attempt: u32,
    host: Seq<char>,
) -> (Seq<char>, Seq<char>, Seq<char>, Seq<char>, Seq<char>, Seq<char>) {
    let input = hex_lower_spec(sha256_spec(input_identity));
    let catalog_key = catalog_key_spec(source_revision, run_id, catalog);
    let record_key = record_key_spec(catalog_key, record, input);
    let attempt_id = attempt_id_spec(record_key, attempt, host);
    let correlation = correlation_id_spec(record_key, attempt);
    (input, catalog_key, record_key, attempt_id, correlation, correlation + "-"@ + attempt_id)
}

pub open spec fn keys_view(k: ManifestKeys) -> (Seq<char>, Seq<char>, Seq<char>, Seq<char>, Seq<char>, Seq<char>) {
    (k.source_input_sha256@, k.catalog_key@, k.record_key@, k.attempt_id@, k.correlation_id@, k.stado_run_id@)
}

/// An attempt's number and host name only the attempt: two attempts of a
/// record with the same typed inputs share the input digest, the catalog
/// key, the record key and the correlation id's record part; the Stado run
/// id is the correlation id, `-` and the attempt id; and the attempt id and
/// correlation id begin `attempt-N-` and `spis-`.
pub proof fn law_attempt_keys(
    source_revision: Seq<char>,
    run_id: Seq<char>,
    catalog: Seq<char>,
    record: Seq<char>,
    input_identity: Seq<u8>,
    attempt: u32,
    host: Seq<char>,
    other_attempt: u32,
    other_host: Seq<char>,
)
    ensures
        ({
            let a = manifest_keys_spec(source_revision, run_id, catalog, record, input_identity, attempt, host);
            let b = manifest_keys_spec(
                source_revision,
                run_id,
                catalog,
                record,
                input_identity,
                other_attempt,
                other_host,
            );
            &&& a.0 == b.0 && a.1 == b.1 && a.2 == b.2
            &&& a.5 == a.4 + "-"@ + a.3
            &&& a.3.take(8) == "attempt-"@ && a.3.subrange(8, 8 + decimal_spec(attempt as nat).len() as int)
                == decimal_spec(attempt as nat)
            &&& a.4 == "spis-"@ + a.2.take(24) + "-"@ + decimal_spec(attempt as nat)
            &&& attempt == other_attempt ==> a.4 == b.4
        }),
{
    let a = manifest_keys_spec(source_revision, run_id, catalog, record, input_identity, attempt, host);
    reveal_strlit("attempt-");
    let d = decimal_spec(attempt as nat);
    assert(a.3.take(8) =~= "attempt-"@);
    assert(a.3.subrange(8, 8 + d.len() as int) =~= d);
}

/// Name an attempt: the digest of its inputs, its catalog and record keys,
/// its attempt id, and the ids it is correlated by in Stado.
pub fn manifest_keys(
    source_revision: &str,
    run_id: &str,
    catalog: &str,
    record: &str,
    input_identity: &[u8],
    attempt: u32,
    host: &str,
) -> (r: ManifestKeys)
    ensures
        keys_view(r) == manifest_keys_spec(
            source_revision@,
            run_id@,
            catalog@,
            record@,
            input_identity@,
            attempt,
            host@,
        ),
{
    let input = sha256_hex(input_identity);
    let mut catalog_text: Vec<char> = Vec::new();
    push_nul_joined(&mut catalog_text, source_revision, run_id, catalog);
    let catalog_key = digest_of_text(&catalog_text);
    let mut record_text: Vec<char> = Vec::new();
    push_nul_joined(&mut record_text, catalog_key.as_str(), record, input.as_str());
    let record_key = digest_of_text(&record_text);
    let number = decimal(attempt as u64);
    proof {
        reveal_strlit("-");
    }
    let mut attempt_text: Vec<char> = Vec::new();
    push_nul_joined(&mut attempt_text, record_key.as_str(), number.as_str(), host);
    assert(attempt_text@ =~= nul_joined(record_key@, decimal_spec(attempt as nat), host@));
    let attempt_digest = chars_of(digest_of_text(&attempt_text).as_str());
    let mut attempt_id = chars_of("attempt-");
    append_chars(&mut attempt_id, &chars_of(number.as_str()));
    attempt_id.push('-');
    let head = crate::text::slice_chars(&attempt_digest, 0, 16);
    append_chars(&mut attempt_id, &head);
    assert(attempt_id@ =~= attempt_id_spec(record_key@, attempt, host@));
    let key_chars = chars_of(record_key.as_str());
    let mut correlation = chars_of("spis-");
    append_chars(&mut correlation, &crate::text::slice_chars(&key_chars, 0, 24));
    correlation.push('-');
    append_chars(&mut correlation, &chars_of(number.as_str()));
    assert(correlation@ =~= correlation_id_spec(record_key@, attempt));
    let mut run = correlation.clone();
    run.push('-');
    append_chars(&mut run, &attempt_id);
    assert(run@ =~= correlation@ + "-"@ + attempt_id@);
    ManifestKeys {
        source_input_sha256: input,
        catalog_key,
        record_key,
        attempt_id: string_of(&attempt_id),
        correlation_id: string_of(&correlation),
        stado_run_id: string_of(&run),
    }
}

// ---------------------------------------------------------------------------
// Binding, engine and placement

/// Why a record cannot be planned on its placement, as (code, message,
/// detail): a binding whose headless constraint disagrees with the engine, a
/// web record without the admission service on its host, or a non-web record
/// that carries one.
pub open spec fn placement_refusal_spec(
    catalog: Seq<char>,
    slug: Seq<char>,
    engine: Seq<char>,
    host: Seq<char>,
    headless: bool,
    service_host: Option<Seq<char>>,
) -> Option<(Seq<char>, Seq<char>, JsonV)> {
    if headless != (engine == "web"@) {
        Some(
            (
                "runtime_constraint_mismatch"@,
                catalog + "/"@ + slug + ": headless constraint does not match engine "@ + engine,
                JsonV::Object(seq![("headless"@, JsonV::Bool(headless)), ("engine"@, JsonV::Str(engine))]),
            ),
        )
    } else if engine == "web"@ {
        if service_host == Some(host) {
            None
        } else {
            Some(
                (
                    "weles_service_identity_unbound"@,
                    "authorized weles-admission/browser-evidence/generic_browser_task placement is unavailable"@,
                    JsonV::Object(seq![("host"@, JsonV::Str(host))]),
                ),
            )
        }
    } else if service_host is Some {
        Some(
            (
                "unexpected_service_identity"@,
                "non-web execution cannot carry a Weles service identity"@,
                JsonV::Object(seq![("engine"@, JsonV::Str(engine))]),
            ),
        )
    } else {
        None
    }
}

/// A record can be planned on its placement exactly when its binding is
/// headless for the web engine and only for it, a web record has the
/// admission service on its own host, and a non-web record carries no
/// service; each refusal names its cause: a headless mismatch first, then
/// an unbound web placement, then a non-web record with a service.
pub proof fn law_placement_refusals(
    catalog: Seq<char>,
    slug: Seq<char>,
    engine: Seq<char>,
    host: Seq<char>,
    headless: bool,
    service_host: Option<Seq<char>>,
)
    ensures
        ({
            let r = placement_refusal_spec(catalog, slug, engine, host, headless, service_host);
            let web = engine == "web"@;
            &&& r is None <==> (headless == web && (web ==> service_host == Some(host)) && (!web
                ==> service_host is None))
            &&& headless != web ==> (r matches Some((code, _, _)) && code == "runtime_constraint_mismatch"@)
            &&& headless && web && service_host != Some(host) ==> (r matches Some((code, _, _)) && code
                == "weles_service_identity_unbound"@)
            &&& !headless && !web && service_host is Some ==> (r matches Some((code, _, _)) && code
                == "unexpected_service_identity"@)
        }),
{
}

pub fn placement_refusal(
    catalog: &str,
    slug: &str,
    engine: &str,
    host: &str,
    headless: bool,
    service: Option<&RuntimeServiceIdentity>,
) -> (r: Option<(String, String, Json)>)
    ensures
        match placement_refusal_spec(
            catalog@,
            slug@,
            engine@,
            host@,
            headless,
            match service {
                Some(s) => Some(s.active_host@),
                None => None,
            },
        ) {
            Some((code, message, detail)) => r matches Some((c, m, d)) && c@ == code && m@ == message
                && d@ == detail,
            None => r is None,
        },
{
    broadcast use group_json_view;

    proof {
        reveal_strlit("/");
    }
    let web = str_eq(engine, "web");
    if headless != web {
        let mut message = chars_of(catalog);
        message.push('/');
        append_chars(&mut message, &chars_of(slug));
        append_chars(&mut message, &chars_of(": headless constraint does not match engine "));
        append_chars(&mut message, &chars_of(engine));
        assert(message@ =~= catalog@ + "/"@ + slug@ + ": headless constraint does not match engine "@
            + engine@);
        let mut detail: Vec<(String, Json)> = Vec::new();
        detail.push((String::from_str("headless"), Json::Bool(headless)));
        detail.push((String::from_str("engine"), jstr(engine)));
        assert(view_obj(detail@) =~= seq![("headless"@, JsonV::Bool(headless)), ("engine"@, JsonV::Str(engine@))]);
        return Some(
            (String::from_str("runtime_constraint_mismatch"), string_of(&message), Json::Object(detail)),
        );
    }
    if web {
        let bound = match service {
            Some(s) => str_eq(s.active_host.as_str(), host),
            None => false,
        };
        if bound {
            return None;
        }
        let mut detail: Vec<(String, Json)> = Vec::new();
        detail.push((String::from_str("host"), jstr(host)));
        assert(view_obj(detail@) =~= seq![("host"@, JsonV::Str(host@))]);
        return Some(
            (
                String::from_str("weles_service_identity_unbound"),
                String::from_str(
                    "authorized weles-admission/browser-evidence/generic_browser_task placement is unavailable",
                ),
                Json::Object(detail),
            ),
        );
    }
    match service {
        Some(_) => {
            let mut detail: Vec<(String, Json)> = Vec::new();
            detail.push((String::from_str("engine"), jstr(engine)));
            assert(view_obj(detail@) =~= seq![("engine"@, JsonV::Str(engine@))]);
            Some(
                (
                    String::from_str("unexpected_service_identity"),
                    String::from_str("non-web execution cannot carry a Weles service identity"),
                    Json::Object(detail),
                ),
            )
        },
        None => None,
    }
}

/// Engines whose records hold the host exclusively while they run: devices,
/// and the terminal surfaces that share the host's tmux namespace.
pub open spec fn resource_lease_spec(engine: Seq<char>, host: Seq<char>) -> Option<Seq<char>> {
    if engine == "desktop"@ || engine == "mobile"@ || engine == "cli"@ || engine == "tui"@ {
        Some("stado-exclusive://"@ + host + "/"@ + engine)
    } else {
        None
    }
}

/// Records of the host-bound engines, `desktop`, `mobile`, `cli` and `tui`,
/// hold an exclusive lease on their host, named by the host and the engine:
/// `stado-exclusive://HOST/ENGINE`; records of any other engine hold none.
pub proof fn law_exclusive_lease(engine: Seq<char>, host: Seq<char>)
    ensures
        engine == "desktop"@ || engine == "mobile"@ || engine == "cli"@ || engine == "tui"@
            ==> resource_lease_spec(engine, host) == Some("stado-exclusive://"@ + host + "/"@ + engine),
        !(engine == "desktop"@ || engine == "mobile"@ || engine == "cli"@ || engine == "tui"@)
            ==> resource_lease_spec(engine, host) is None,
        resource_lease_spec(engine, host) matches Some(l) ==> l.len() == 18 + host.len() + 1 + engine.len()
            && l.subrange(18, 18 + host.len() as int) == host && l.skip(18 + host.len() as int + 1) == engine,
{
    reveal_strlit("stado-exclusive://");
    reveal_strlit("/");
    if let Some(l) = resource_lease_spec(engine, host) {
        assert(l.subrange(18, 18 + host.len() as int) =~= host);
        assert(l.skip(18 + host.len() as int + 1) =~= engine);
    }
}

pub fn resource_lease(engine: &str, host: &str) -> (r: Option<String>)
    ensures
        match r {
            Some(l) => resource_lease_spec(engine@, host@) == Some(l@),
            None => resource_lease_spec(engine@, host@) is None,
        },
{
    if str_eq(engine, "desktop") || str_eq(engine, "mobile") || str_eq(engine, "cli") || str_eq(engine, "tui") {
        proof {
            reveal_strlit("/");
        }
        let mut lease = chars_of("stado-exclusive://");
        append_chars(&mut lease, &chars_of(host));
        lease.push('/');
        append_chars(&mut lease, &chars_of(engine));
        assert(lease@ =~= "stado-exclusive://"@ + host@ + "/"@ + engine@);
        Some(string_of(&lease))
    } else {
        None
    }
}

// ---------------------------------------------------------------------------
// Identities safe to put in a host query

/// A display name, bundle id or binary name that is safe to embed verbatim in
/// a Spotlight predicate or an argv element: 1 to 128 ASCII letters, digits,
/// spaces, dots, underscores and hyphens, not starting or ending with a space.
pub open spec fn host_query_literal_spec(v: Seq<char>) -> bool {
    &&& 0 < v.len() <= 128
    &&& forall|i: int|
        0 <= i < v.len() ==> (is_alnum_char(#[trigger] v[i]) || v[i] == ' ' || v[i] == '.' || v[i]
            == '_' || v[i] == '-')
    &&& v[0] != ' '
    &&& v[v.len() - 1] != ' '
}

pub fn is_host_query_literal(value: &str) -> (r: bool)
    ensures
        r == host_query_literal_spec(value@),
{
    let v = chars_of(value);
    if v.len() == 0 || v.len() > 128 {
        return false;
    }
    let mut i: usize = 0;
    while i < v.len()
        invariant
            i <= v@.len(),
            v@ == value@,
            forall|j: int|
                0 <= j < i ==> (is_alnum_char(#[trigger] v@[j]) || v@[j] == ' ' || v@[j] == '.'
                    || v@[j] == '_' || v@[j] == '-'),
        decreases v.len() - i,
    {
        let c = v[i];
        if !(is_alnum(c) || c == ' ' || c == '.' || c == '_' || c == '-') {
            return false;
        }
        i = i + 1;
    }
    v[0] != ' ' && v[v.len() - 1] != ' '
}

// ---------------------------------------------------------------------------
// The exact source revision a run is planned from

/// Why a run cannot be bound to one exact source revision.
#[derive(Debug)]
pub enum RevisionError {
    /// The binary was built from a dirty source tree.
    DirtyBuild,
    /// The binary carries no 40-digit hexadecimal revision.
    Unidentified,
    /// The binary's revision differs from the checkout's: (embedded, current).
    Stale(String, String),
    /// The checkout has uncommitted or untracked changes.
    DirtySnapshot,
}

/// A 40-digit hexadecimal revision, in either case.
pub open spec fn hex_revision(v: Seq<char>) -> bool {
    v.len() == 40 && forall|i: int| 0 <= i < 40 ==> crate::text::is_hex_char(#[trigger] v[i])
}

/// The revision a binary was built from, refused when the tree was dirty or
/// the revision is not a full hexadecimal one.
pub fn build_revision(revision: &str, dirty: &str) -> (r: Result<String, RevisionError>)
    ensures
        dirty@ != "false"@ ==> r matches Err(RevisionError::DirtyBuild),
        dirty@ == "false"@ && !hex_revision(revision@) ==> r matches Err(RevisionError::Unidentified),
        dirty@ == "false"@ && hex_revision(revision@) ==> (r matches Ok(x) && x@ == revision@),
{
    if !str_eq(dirty, "false") {
        return Err(RevisionError::DirtyBuild);
    }
    let v = chars_of(revision);
    if v.len() != 40 {
        return Err(RevisionError::Unidentified);
    }
    let mut i: usize = 0;
    while i < 40
        invariant
            i <= 40,
            v@ == revision@,
            v@.len() == 40,
            dirty@ == "false"@,
            forall|j: int| 0 <= j < i ==> crate::text::is_hex_char(#[trigger] v@[j]),
        decreases 40 - i,
    {
        let c = v[i];
        if !(('0' <= c && c <= '9') || ('a' <= c && c <= 'f') || ('A' <= c && c <= 'F')) {
            assert(!crate::text::is_hex_char(v@[i as int]));
            return Err(RevisionError::Unidentified);
        }
        i = i + 1;
    }
    Ok(String::from_str(revision))
}

/// The checkout's revision, required to be the binary's own and clean:
/// `head_output` is what `git rev-parse HEAD` printed, `status_output` what
/// `git status --porcelain` printed.
pub fn snapshot_revision(embedded: &str, head_output: &str, status_output: &[u8]) -> (r: Result<
    String,
    RevisionError,
>)
    ensures
        crate::text::trim(head_output@) != embedded@ ==> (r matches Err(RevisionError::Stale(e, c))
            && e@ == embedded@ && c@ == crate::text::trim(head_output@)),
        crate::text::trim(head_output@) == embedded@ && status_output@.len() > 0 ==> r matches Err(
            RevisionError::DirtySnapshot,
        ),
        crate::text::trim(head_output@) == embedded@ && status_output@.len() == 0 ==> (r matches Ok(x)
            && x@ == embedded@),
{
    let runtime = crate::text::trim_str(head_output);
    if !str_eq(runtime.as_str(), embedded) {
        return Err(RevisionError::Stale(String::from_str(embedded), runtime));
    }
    if status_output.len() > 0 {
        return Err(RevisionError::DirtySnapshot);
    }
    Ok(runtime)
}

// ---------------------------------------------------------------------------
// The planned record

/// The manifest of a record's first attempt, planned on `host` before any
/// execution identity: its names, the attempt keys `keys` (as
/// `manifest_keys` gives them for attempt 1 on no host), the attempt's base
/// URI `base_uri`, the digests `digests` of its reference, bindings file
/// and normalized binding, the bindings' source and URI `bindings`, its
/// runtime product, account, constraints, delivery, prepared proof and
/// service identity `parts`, and the docs structure digest `docs`.
pub open spec fn planned_manifest_spec(
    run_id: Seq<char>,
    source_revision: Seq<char>,
    catalog: Seq<char>,
    engine: Seq<char>,
    slug: Seq<char>,
    host: Seq<char>,
    keys: (Seq<char>, Seq<char>, Seq<char>, Seq<char>, Seq<char>, Seq<char>),
    base_uri: Seq<char>,
    digests: (Seq<char>, Seq<char>, Seq<char>),
    bindings: (Seq<char>, Seq<char>),
    parts: (JsonV, JsonV, JsonV, JsonV, JsonV, JsonV),
    docs: Option<Seq<char>>,
) -> JsonV {
    JsonV::Object(
        seq![
            ("schema"@, JsonV::Str(crate::manifest::RUNTIME_MANIFEST_SCHEMA@)),
            ("run_id"@, JsonV::Str(run_id)),
            ("catalog"@, JsonV::Str(catalog)),
            ("attempt"@, JsonV::UInt(1)),
            ("attempt_id"@, JsonV::Str(keys.3)),
            ("record"@, JsonV::Str(slug)),
            ("engine"@, JsonV::Str(engine)),
            ("source_revision"@, JsonV::Str(source_revision)),
            ("source_input_sha256"@, JsonV::Str(keys.0)),
            ("reference_sha256"@, JsonV::Str(digests.0)),
            ("catalog_key"@, JsonV::Str(keys.1)),
            ("record_key"@, JsonV::Str(keys.2)),
            ("correlation_id"@, JsonV::Str(keys.4)),
            ("stado_run_id"@, JsonV::Str(keys.5)),
            ("artifact_uri"@, JsonV::Str(base_uri + "/artifacts.tar.gz"@)),
            ("output_uri"@, JsonV::Str(base_uri + "/worker-output.log"@)),
            ("runtime_product"@, parts.0),
            ("account"@, parts.1),
            ("constraints"@, parts.2),
            ("docs_structure_sha256"@, crate::json::opt_str_v(docs)),
            ("bindings_file_sha256"@, JsonV::Str(digests.1)),
            ("bindings_source"@, JsonV::Str(bindings.0)),
            ("bindings_sha256"@, JsonV::Str(digests.2)),
            ("bindings_uri"@, JsonV::Str(bindings.1)),
            ("delivery"@, parts.3),
            ("prepared_proof"@, parts.4),
            ("execution_identity"@, JsonV::Null),
            ("resource_lease"@, crate::json::opt_str_v(resource_lease_spec(engine, host))),
            ("service_identity"@, parts.5),
        ],
    )
}

/// The typed inputs whose digest names a planned attempt, before any
/// execution identity.
pub open spec fn planned_input_identity_spec(
    engine: Seq<char>,
    host: Seq<char>,
    digests: (Seq<char>, Seq<char>, Seq<char>),
    parts: (JsonV, JsonV, JsonV, JsonV, JsonV, JsonV),
    docs: Option<Seq<char>>,
) -> JsonV {
    JsonV::Object(
        seq![
            ("reference_sha256"@, JsonV::Str(digests.0)),
            ("runtime_product"@, parts.0),
            ("account"@, parts.1),
            ("constraints"@, parts.2),
            ("delivery"@, parts.3),
            ("bindings_sha256"@, JsonV::Str(digests.2)),
            ("bindings_file_sha256"@, JsonV::Str(digests.1)),
            ("prepared_proof"@, parts.4),
            ("execution_identity"@, JsonV::Null),
            ("resource_lease"@, crate::json::opt_str_v(resource_lease_spec(engine, host))),
            ("docs_structure_sha256"@, crate::json::opt_str_v(docs)),
            ("service_identity"@, parts.5),
        ],
    )
}

/// The record a run plans: its manifest, with nothing submitted yet.
pub open spec fn planned_entry_spec(slug: Seq<char>, manifest: JsonV, base_uri: Seq<char>) -> JsonV {
    JsonV::Object(
        seq![
            ("record"@, JsonV::Str(slug)),
            ("state"@, JsonV::Str("planned"@)),
            ("manifest"@, manifest),
            ("command"@, JsonV::Null),
            ("stado_job_id"@, JsonV::Null),
            ("artifact_uri"@, JsonV::Str(base_uri + "/artifacts.tar.gz"@)),
            ("output_uri"@, JsonV::Str(base_uri + "/worker-output.log"@)),
            ("submission_receipt"@, JsonV::Null),
            ("preflight"@, JsonV::Null),
            ("diagnostic"@, JsonV::Null),
        ],
    )
}

/// The runtime pieces of a planned record: its product, account,
/// constraints, delivery, prepared proof and service identity.
pub struct PlannedParts {
    pub product: Json,
    pub account: Json,
    pub constraints: Json,
    pub delivery: Json,
    pub prepared_proof: Json,
    pub service_identity: Json,
}

pub open spec fn parts_view(p: PlannedParts) -> (JsonV, JsonV, JsonV, JsonV, JsonV, JsonV) {
    (p.product@, p.account@, p.constraints@, p.delivery@, p.prepared_proof@, p.service_identity@)
}

fn opt_text(s: Option<&str>) -> (r: Json)
    ensures
        r@ == crate::json::opt_str_v(
            match s {
                Some(t) => Some(t@),
                None => None,
            },
        ),
{
    match s {
        Some(t) => jstr(t),
        None => Json::Null,
    }
}

fn suffixed(base: &str, suffix: &str) -> (r: String)
    ensures
        r@ == base@ + suffix@,
{
    let mut v = chars_of(base);
    append_chars(&mut v, &chars_of(suffix));
    string_of(&v)
}

/// The typed inputs whose digest names a planned attempt; its serialized
/// bytes are what `manifest_keys` is given.
pub fn planned_input_identity(
    engine: &str,
    host: &str,
    reference_sha256: &str,
    bindings_file_sha256: &str,
    bindings_sha256: &str,
    parts: &PlannedParts,
    docs: Option<&str>,
) -> (r: Json)
    ensures
        r@ == planned_input_identity_spec(
            engine@,
            host@,
            (reference_sha256@, bindings_file_sha256@, bindings_sha256@),
            parts_view(*parts),
            match docs {
                Some(d) => Some(d@),
                None => None,
            },
        ),
{
    broadcast use group_json_view;

    let lease = match resource_lease(engine, host) {
        Some(l) => Json::Str(l),
        None => Json::Null,
    };
    let mut f: Vec<(String, Json)> = Vec::new();
    crate::json::push_field(&mut f, "reference_sha256", jstr(reference_sha256));
    crate::json::push_field(&mut f, "runtime_product", parts.product.duplicate());
    crate::json::push_field(&mut f, "account", parts.account.duplicate());
    crate::json::push_field(&mut f, "constraints", parts.constraints.duplicate());
    crate::json::push_field(&mut f, "delivery", parts.delivery.duplicate());
    crate::json::push_field(&mut f, "bindings_sha256", jstr(bindings_sha256));
    crate::json::push_field(&mut f, "bindings_file_sha256", jstr(bindings_file_sha256));
    crate::json::push_field(&mut f, "prepared_proof", parts.prepared_proof.duplicate());
    crate::json::push_field(&mut f, "execution_identity", Json::Null);
    crate::json::push_field(&mut f, "resource_lease", lease);
    crate::json::push_field(&mut f, "docs_structure_sha256", opt_text(docs));
    crate::json::push_field(&mut f, "service_identity", parts.service_identity.duplicate());
    assert(view_obj(f@) =~= planned_input_identity_spec(
        engine@,
        host@,
        (reference_sha256@, bindings_file_sha256@, bindings_sha256@),
        parts_view(*parts),
        match docs {
            Some(d) => Some(d@),
            None => None,
        },
    )->Object_0);
    Json::Object(f)
}

/// The manifest of a record's first attempt, assembled from its names,
/// keys, attempt base URI, digests and runtime pieces.
#[verifier::rlimit(40)]
pub fn planned_manifest(
    run_id: &str,
    source_revision: &str,
    catalog: &str,
    engine: &str,
    slug: &str,
    host: &str,
    keys: &ManifestKeys,
    base_uri: &str,
    reference_sha256: &str,
    bindings_file_sha256: &str,
    bindings_sha256: &str,
    bindings_source: &str,
    bindings_uri: &str,
    parts: PlannedParts,
    docs: Option<&str>,
) -> (r: Json)
    ensures
        r@ == planned_manifest_spec(
            run_id@,
            source_revision@,
            catalog@,
            engine@,
            slug@,
            host@,
            keys_view(*keys),
            base_uri@,
            (reference_sha256@, bindings_file_sha256@, bindings_sha256@),
            (bindings_source@, bindings_uri@),
            parts_view(parts),
            match docs {
                Some(d) => Some(d@),
                None => None,
            },
        ),
{
    broadcast use group_json_view;

    let ghost pv = parts_view(parts);
    let lease = match resource_lease(engine, host) {
        Some(l) => Json::Str(l),
        None => Json::Null,
    };
    let mut f: Vec<(String, Json)> = Vec::new();
    crate::json::push_field(&mut f, "schema", jstr(crate::manifest::RUNTIME_MANIFEST_SCHEMA));
    crate::json::push_field(&mut f, "run_id", jstr(run_id));
    crate::json::push_field(&mut f, "catalog", jstr(catalog));
    crate::json::push_field(&mut f, "attempt", Json::UInt(1));
    crate::json::push_field(&mut f, "attempt_id", jstr(keys.attempt_id.as_str()));
    crate::json::push_field(&mut f, "record", jstr(slug));
    crate::json::push_field(&mut f, "engine", jstr(engine));
    crate::json::push_field(&mut f, "source_revision", jstr(source_revision));
    crate::json::push_field(&mut f, "source_input_sha256", jstr(keys.source_input_sha256.as_str()));
    crate::json::push_field(&mut f, "reference_sha256", jstr(reference_sha256));
    crate::json::push_field(&mut f, "catalog_key", jstr(keys.catalog_key.as_str()));
    crate::json::push_field(&mut f, "record_key", jstr(keys.record_key.as_str()));
    crate::json::push_field(&mut f, "correlation_id", jstr(keys.correlation_id.as_str()));
    crate::json::push_field(&mut f, "stado_run_id", jstr(keys.stado_run_id.as_str()));
    crate::json::push_field(&mut f, "artifact_uri", Json::Str(suffixed(base_uri, "/artifacts.tar.gz")));
    crate::json::push_field(&mut f, "output_uri", Json::Str(suffixed(base_uri, "/worker-output.log")));
    crate::json::push_field(&mut f, "runtime_product", parts.product);
    crate::json::push_field(&mut f, "account", parts.account);
    crate::json::push_field(&mut f, "constraints", parts.constraints);
    crate::json::push_field(&mut f, "docs_structure_sha256", opt_text(docs));
    crate::json::push_field(&mut f, "bindings_file_sha256", jstr(bindings_file_sha256));
    crate::json::push_field(&mut f, "bindings_source", jstr(bindings_source));
    crate::json::push_field(&mut f, "bindings_sha256", jstr(bindings_sha256));
    crate::json::push_field(&mut f, "bindings_uri", jstr(bindings_uri));
    crate::json::push_field(&mut f, "delivery", parts.delivery);
    crate::json::push_field(&mut f, "prepared_proof", parts.prepared_proof);
    crate::json::push_field(&mut f, "execution_identity", Json::Null);
    crate::json::push_field(&mut f, "resource_lease", lease);
    crate::json::push_field(&mut f, "service_identity", parts.service_identity);
    assert(view_obj(f@) =~= planned_manifest_spec(
        run_id@,
        source_revision@,
        catalog@,
        engine@,
        slug@,
        host@,
        keys_view(*keys),
        base_uri@,
        (reference_sha256@, bindings_file_sha256@, bindings_sha256@),
        (bindings_source@, bindings_uri@),
        pv,
        match docs {
            Some(d) => Some(d@),
            None => None,
        },
    )->Object_0);
    Json::Object(f)
}

/// The record a run plans around its manifest.
pub fn planned_entry(slug: &str, manifest: Json, base_uri: &str) -> (r: Json)
    ensures
        r@ == planned_entry_spec(slug@, manifest@, base_uri@),
{
    broadcast use group_json_view;

    let ghost mv = manifest@;
    let mut f: Vec<(String, Json)> = Vec::new();
    crate::json::push_field(&mut f, "record", jstr(slug));
    crate::json::push_field(&mut f, "state", jstr("planned"));
    crate::json::push_field(&mut f, "manifest", manifest);
    crate::json::push_field(&mut f, "command", Json::Null);
    crate::json::push_field(&mut f, "stado_job_id", Json::Null);
    crate::json::push_field(&mut f, "artifact_uri", Json::Str(suffixed(base_uri, "/artifacts.tar.gz")));
    crate::json::push_field(&mut f, "output_uri", Json::Str(suffixed(base_uri, "/worker-output.log")));
    crate::json::push_field(&mut f, "submission_receipt", Json::Null);
    crate::json::push_field(&mut f, "preflight", Json::Null);
    crate::json::push_field(&mut f, "diagnostic", Json::Null);
    assert(view_obj(f@) =~= planned_entry_spec(slug@, mv, base_uri@)->Object_0);
    Json::Object(f)
}

} // verus!
