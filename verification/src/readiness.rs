//! A record's own preflight on its host: whether it may be resolved at all,
//! the probe that confirms its exact runtime product, and the record
//! preflight document that results.
use vstd::prelude::*;
use crate::json::{push_field, get_bool_v, group_json_view, view_arr, view_obj, jstr, Json, JsonV};
use crate::registry::{parsed_url, url_parts};
use crate::text::{
    append_chars, chars_of, first_word, replace_all, replace_exec, str_eq, string_of,
};

verus! {

pub open spec fn words_of(v: Seq<String>) -> Seq<Seq<char>> {
    v.map_values(|w: String| w@)
}

fn word(out: &mut Vec<String>, w: &str)
    ensures
        words_of(final(out)@) == words_of(old(out)@).push(w@),
{
    out.push(String::from_str(w));
    assert(words_of(out@) =~= words_of(old(out)@).push(w@));
}

fn empty_array() -> (r: Json)
    ensures
        r@ == JsonV::Array(Seq::empty()),
{
    broadcast use group_json_view;

    let items: Vec<Json> = Vec::new();
    assert(view_arr(items@) =~= Seq::empty());
    Json::Array(items)
}

// ---------------------------------------------------------------------------
// Whether a record may be resolved

/// A record preflight that did not pass, with its reason.
pub open spec fn unready_spec(record: Seq<char>, code: Seq<char>, message: Seq<char>) -> JsonV {
    JsonV::Object(
        seq![
            ("schema"@, JsonV::Str("wisent.crawl-record-preflight.v2"@)),
            ("record"@, JsonV::Str(record)),
            ("ready"@, JsonV::Bool(false)),
            ("diagnostic"@, JsonV::Object(seq![
                ("code"@, JsonV::Str(code)),
                ("message"@, JsonV::Str(message)),
            ])),
            ("checks"@, JsonV::Array(Seq::empty())),
        ],
    )
}

fn unready(record: &str, code: &str, message: &str) -> (r: Json)
    ensures
        r@ == unready_spec(record@, code@, message@),
{
    broadcast use group_json_view;

    let mut diagnostic: Vec<(String, Json)> = Vec::new();
    assert(view_obj(diagnostic@) =~= Seq::empty());
    push_field(&mut diagnostic, "code", jstr(code));
    push_field(&mut diagnostic, "message", jstr(message));
    assert(view_obj(diagnostic@) =~= seq![("code"@, JsonV::Str(code@)), ("message"@, JsonV::Str(message@))]);
    let mut fields: Vec<(String, Json)> = Vec::new();
    assert(view_obj(fields@) =~= Seq::empty());
    push_field(&mut fields, "schema", jstr("wisent.crawl-record-preflight.v2"));
    push_field(&mut fields, "record", jstr(record));
    push_field(&mut fields, "ready", Json::Bool(false));
    push_field(&mut fields, "diagnostic", Json::Object(diagnostic));
    push_field(&mut fields, "checks", empty_array());
    assert(view_obj(fields@) =~= unready_spec(record@, code@, message@)->Object_0);
    Json::Object(fields)
}

/// The preflight a record gets without being resolved: none when its host
/// passed its own preflight and a web record has its admission service.
pub open spec fn record_gate_spec(record: Seq<char>, host_report: JsonV, engine: Seq<char>, service_bound: bool) -> Option<
    JsonV,
> {
    if get_bool_v(host_report, "ready"@) != Some(true) {
        Some(unready_spec(record, "host_unavailable"@, "host capability preflight failed"@))
    } else if engine == "web"@ && !service_bound {
        Some(
            unready_spec(
                record,
                "weles_service_identity_unbound"@,
                "web execution is unavailable until the exact authorized Weles service directory generation, active host, endpoint, consumer capability and action are bound"@,
            ),
        )
    } else {
        None
    }
}

/// A record is gated before resolution exactly when its host's preflight
/// is not ready, or it is a web record without its admission service: the
/// gate is then a preflight of that record that is not ready, coded
/// `host_unavailable` for the host (checked first) and
/// `weles_service_identity_unbound` for the service, with no checks run.
pub proof fn law_record_gate(record: Seq<char>, host_report: JsonV, engine: Seq<char>, service_bound: bool)
    ensures
        ({
            let r = record_gate_spec(record, host_report, engine, service_bound);
            let host_ready = get_bool_v(host_report, "ready"@) == Some(true);
            let code = |u: JsonV| u->Object_0[3].1->Object_0[0];
            &&& r is None <==> host_ready && (engine == "web"@ ==> service_bound)
            &&& r matches Some(u) ==> u->Object_0[1] == ("record"@, JsonV::Str(record)) && u->Object_0[2] == (
                "ready"@,
                JsonV::Bool(false),
            ) && u->Object_0[4] == ("checks"@, JsonV::Array(Seq::empty()))
            &&& !host_ready ==> (r matches Some(u) && code(u) == ("code"@, JsonV::Str("host_unavailable"@)))
            &&& host_ready && engine == "web"@ && !service_bound ==> (r matches Some(u) && code(u) == (
                "code"@,
                JsonV::Str("weles_service_identity_unbound"@),
            ))
        }),
{
}

pub fn record_gate(record: &str, host_report: &Json, engine: &str, service_bound: bool) -> (r: Option<Json>)
    ensures
        match record_gate_spec(record@, host_report@, engine@, service_bound) {
            Some(d) => r matches Some(x) && x@ == d,
            None => r is None,
        },
{
    if host_report.get_bool("ready") != Some(true) {
        return Some(unready(record, "host_unavailable", "host capability preflight failed"));
    }
    if str_eq(engine, "web") && !service_bound {
        return Some(
            unready(
                record,
                "weles_service_identity_unbound",
                "web execution is unavailable until the exact authorized Weles service directory generation, active host, endpoint, consumer capability and action are bound",
            ),
        );
    }
    None
}

// ---------------------------------------------------------------------------
// The product check

/// How a record's exact runtime product is confirmed on its host: a probe
/// to run, or, for a URL, the declared URL itself as the observed output.
pub enum ProductCheck {
    Probe(Vec<String>),
    Declared(Json),
}

/// Why a product cannot be confirmed.
#[derive(Debug, PartialEq, Eq, Structural)]
pub enum ProductCheckError {
    /// A device-bound product has no resolved device.
    NoDevice,
    /// A terminal product has no resolved executable.
    NoExecutable,
    /// A URL product is not an exact credential-free HTTPS URL.
    InvalidUrl,
    /// The product's kind has no check.
    UnsupportedKind,
}

/// Whether a URL parses as HTTPS with a host and without credentials.
pub open spec fn https_identity_spec(product: Seq<char>) -> bool {
    match parsed_url(product) {
        Some((scheme, username, password, host, _origin, _path, _query, _fragment, _serialization)) => scheme
            == "https"@ && username.len() == 0 && password is None && host is Some,
        None => false,
    }
}

pub fn is_https_identity(product: &str) -> (r: bool)
    ensures
        r == https_identity_spec(product@),
{
    match url_parts(product) {
        Some(p) => str_eq(p.scheme.as_str(), "https") && p.username.as_str().unicode_len() == 0
            && p.password.is_none() && p.host.is_some(),
        None => false,
    }
}

/// The Spotlight query for an installed bundle identifier.
pub open spec fn bundle_query_spec(product: Seq<char>) -> Seq<char> {
    "kMDItemCFBundleIdentifier == '"@ + replace_all(product, "'"@, "\\'"@) + "'"@
}

/// What a URL product reports as its own check.
pub open spec fn declared_url_spec(product: Seq<char>, engine: Seq<char>) -> JsonV {
    JsonV::Object(
        seq![
            ("command"@, JsonV::Array(Seq::empty())),
            ("ready"@, JsonV::Bool(true)),
            ("stdout"@, JsonV::Str(product)),
            ("network_policy_owner"@, JsonV::Str(engine)),
            ("declared_url"@, JsonV::Str(product)),
        ],
    )
}

pub open spec fn opt_str(o: Option<&str>) -> Option<Seq<char>> {
    match o {
        Some(s) => Some(s@),
        None => None,
    }
}

/// The check of a resolved product: its installed iOS container, its
/// Android package path, its desktop bundle by identifier, its terminal
/// executable's digest, or its declared HTTPS URL.
pub open spec fn product_check_ok(
    kind: Seq<char>,
    product: Seq<char>,
    engine: Seq<char>,
    device: Option<Seq<char>>,
    executable: Option<Seq<char>>,
    check: ProductCheck,
) -> bool {
    if kind == "ios-bundle"@ {
        device matches Some(d) && check matches ProductCheck::Probe(a) && words_of(a@) == seq![
            "xcrun"@,
            "simctl"@,
            "get_app_container"@,
            d,
            product,
            "app"@,
        ]
    } else if kind == "android-package"@ {
        device matches Some(d) && check matches ProductCheck::Probe(a) && words_of(a@) == seq![
            "adb"@,
            "-s"@,
            d,
            "shell"@,
            "pm"@,
            "path"@,
            product,
        ]
    } else if kind == "desktop-bundle"@ {
        check matches ProductCheck::Probe(a) && words_of(a@) == seq!["mdfind"@, bundle_query_spec(product)]
    } else if kind == "cli-binary"@ || kind == "tui-binary"@ {
        executable matches Some(p) && check matches ProductCheck::Probe(a) && words_of(a@) == seq![
            "shasum"@,
            "-a"@,
            "256"@,
            p,
        ]
    } else {
        check matches ProductCheck::Declared(d) && d@ == declared_url_spec(product, engine)
    }
}

pub open spec fn product_check_error(
    kind: Seq<char>,
    product: Seq<char>,
    device: Option<Seq<char>>,
    executable: Option<Seq<char>>,
) -> Option<ProductCheckError> {
    if kind == "ios-bundle"@ || kind == "android-package"@ {
        if device is None {
            Some(ProductCheckError::NoDevice)
        } else {
            None
        }
    } else if kind == "desktop-bundle"@ {
        None
    } else if kind == "cli-binary"@ || kind == "tui-binary"@ {
        if executable is None {
            Some(ProductCheckError::NoExecutable)
        } else {
            None
        }
    } else if kind == "url"@ {
        if https_identity_spec(product) {
            None
        } else {
            Some(ProductCheckError::InvalidUrl)
        }
    } else {
        Some(ProductCheckError::UnsupportedKind)
    }
}

pub fn product_check(
    kind: &str,
    product: &str,
    engine: &str,
    device: Option<&str>,
    executable: Option<&str>,
) -> (r: Result<ProductCheck, ProductCheckError>)
    ensures
        match product_check_error(kind@, product@, opt_str(device), opt_str(executable)) {
            Some(e) => r == Err::<ProductCheck, ProductCheckError>(e),
            None => r matches Ok(c) && product_check_ok(
                kind@,
                product@,
                engine@,
                opt_str(device),
                opt_str(executable),
                c,
            ),
        },
{
    broadcast use group_json_view;

    if str_eq(kind, "ios-bundle") {
        return match device {
            Some(d) => {
                let mut a: Vec<String> = Vec::new();
                assert(words_of(a@) =~= Seq::empty());
                word(&mut a, "xcrun");
                word(&mut a, "simctl");
                word(&mut a, "get_app_container");
                word(&mut a, d);
                word(&mut a, product);
                word(&mut a, "app");
                assert(words_of(a@) =~= seq!["xcrun"@, "simctl"@, "get_app_container"@, d@, product@, "app"@]);
                Ok(ProductCheck::Probe(a))
            },
            None => Err(ProductCheckError::NoDevice),
        };
    }
    if str_eq(kind, "android-package") {
        return match device {
            Some(d) => {
                let mut a: Vec<String> = Vec::new();
                assert(words_of(a@) =~= Seq::empty());
                word(&mut a, "adb");
                word(&mut a, "-s");
                word(&mut a, d);
                word(&mut a, "shell");
                word(&mut a, "pm");
                word(&mut a, "path");
                word(&mut a, product);
                assert(words_of(a@) =~= seq!["adb"@, "-s"@, d@, "shell"@, "pm"@, "path"@, product@]);
                Ok(ProductCheck::Probe(a))
            },
            None => Err(ProductCheckError::NoDevice),
        };
    }
    if str_eq(kind, "desktop-bundle") {
        proof {
            reveal_strlit("'");
        }
        let escaped = replace_exec(&chars_of(product), &chars_of("'"), &chars_of("\\'"));
        let mut query = chars_of("kMDItemCFBundleIdentifier == '");
        append_chars(&mut query, &escaped);
        append_chars(&mut query, &chars_of("'"));
        assert(query@ =~= bundle_query_spec(product@));
        let mut a: Vec<String> = Vec::new();
        assert(words_of(a@) =~= Seq::empty());
        word(&mut a, "mdfind");
        let q = string_of(&query);
        let ghost before = a@;
        a.push(q);
        assert(words_of(a@) =~= words_of(before).push(query@));
        assert(words_of(a@) =~= seq!["mdfind"@, bundle_query_spec(product@)]);
        return Ok(ProductCheck::Probe(a));
    }
    if str_eq(kind, "cli-binary") || str_eq(kind, "tui-binary") {
        return match executable {
            Some(p) => {
                let mut a: Vec<String> = Vec::new();
                assert(words_of(a@) =~= Seq::empty());
                word(&mut a, "shasum");
                word(&mut a, "-a");
                word(&mut a, "256");
                word(&mut a, p);
                assert(words_of(a@) =~= seq!["shasum"@, "-a"@, "256"@, p@]);
                Ok(ProductCheck::Probe(a))
            },
            None => Err(ProductCheckError::NoExecutable),
        };
    }
    if str_eq(kind, "url") {
        if !is_https_identity(product) {
            return Err(ProductCheckError::InvalidUrl);
        }
        let mut fields: Vec<(String, Json)> = Vec::new();
        assert(view_obj(fields@) =~= Seq::empty());
        push_field(&mut fields, "command", empty_array());
        push_field(&mut fields, "ready", Json::Bool(true));
        push_field(&mut fields, "stdout", jstr(product));
        push_field(&mut fields, "network_policy_owner", jstr(engine));
        push_field(&mut fields, "declared_url", jstr(product));
        assert(view_obj(fields@) =~= declared_url_spec(product@, engine@)->Object_0);
        return Ok(ProductCheck::Declared(Json::Object(fields)));
    }
    Err(ProductCheckError::UnsupportedKind)
}

/// Whether a terminal executable still hashes to the digest resolved for
/// it: the first word of the check's output.
pub open spec fn digest_unchanged_spec(output: Seq<char>, resolved: Option<Seq<char>>) -> bool {
    resolved == Some(
        match first_word(output) {
            Some(w) => w,
            None => Seq::empty(),
        },
    )
}

pub fn digest_unchanged(output: &str, resolved: Option<&str>) -> (r: bool)
    ensures
        r == digest_unchanged_spec(output@, opt_str(resolved)),
{
    let w = match crate::text::first_word_exec(&chars_of(output)) {
        Some(w) => w,
        None => Vec::new(),
    };
    match resolved {
        Some(x) => crate::text::seq_eq(&chars_of(x), &w),
        None => false,
    }
}

/// The exclusive lease of a resolved record: its host and its device, or
/// its product where it has no device.
pub open spec fn device_lease_spec(host: Seq<char>, device: Option<Seq<char>>, product: Seq<char>) -> Seq<char> {
    "stado-exclusive://"@ + host + "/"@ + match device {
        Some(d) => d,
        None => product,
    }
}

pub fn device_lease(host: &str, device: Option<&str>, product: &str) -> (r: String)
    ensures
        r@ == device_lease_spec(host@, opt_str(device), product@),
{
    proof {
        reveal_strlit("/");
    }
    let mut lease = chars_of("stado-exclusive://");
    append_chars(&mut lease, &chars_of(host));
    lease.push('/');
    let tail = match device {
        Some(d) => d,
        None => product,
    };
    append_chars(&mut lease, &chars_of(tail));
    assert(lease@ =~= device_lease_spec(host@, opt_str(device), product@));
    string_of(&lease)
}

// ---------------------------------------------------------------------------
// The record preflight document

/// A record that resolved: its product, account, execution identity, lease,
/// prepared-runtime proof and every retained check.
pub open spec fn ready_record_spec(
    record: Seq<char>,
    runtime_product: JsonV,
    account: JsonV,
    execution_identity: JsonV,
    resource_lease: JsonV,
    prepared_proof: JsonV,
    checks: Seq<JsonV>,
) -> JsonV {
    JsonV::Object(
        seq![
            ("schema"@, JsonV::Str("wisent.crawl-record-preflight.v2"@)),
            ("record"@, JsonV::Str(record)),
            ("ready"@, JsonV::Bool(true)),
            ("runtime_product"@, runtime_product),
            ("account"@, account),
            ("execution_identity"@, execution_identity),
            ("resource_lease"@, resource_lease),
            ("prepared_runtime_proof"@, prepared_proof),
            ("checks"@, JsonV::Array(checks)),
        ],
    )
}

pub fn ready_record(
    record: &str,
    runtime_product: Json,
    account: Json,
    execution_identity: Json,
    resource_lease: Json,
    prepared_proof: Json,
    checks: Vec<Json>,
) -> (r: Json)
    ensures
        r@ == ready_record_spec(
            record@,
            runtime_product@,
            account@,
            execution_identity@,
            resource_lease@,
            prepared_proof@,
            view_arr(checks@),
        ),
{
    broadcast use group_json_view;

    let ghost views = (runtime_product@, account@, execution_identity@, resource_lease@, prepared_proof@, view_arr(checks@));
    let mut fields: Vec<(String, Json)> = Vec::new();
    assert(view_obj(fields@) =~= Seq::empty());
    push_field(&mut fields, "schema", jstr("wisent.crawl-record-preflight.v2"));
    push_field(&mut fields, "record", jstr(record));
    push_field(&mut fields, "ready", Json::Bool(true));
    push_field(&mut fields, "runtime_product", runtime_product);
    push_field(&mut fields, "account", account);
    push_field(&mut fields, "execution_identity", execution_identity);
    push_field(&mut fields, "resource_lease", resource_lease);
    push_field(&mut fields, "prepared_runtime_proof", prepared_proof);
    push_field(&mut fields, "checks", Json::Array(checks));
    assert(view_obj(fields@) =~= ready_record_spec(
        record@,
        views.0,
        views.1,
        views.2,
        views.3,
        views.4,
        views.5,
    )->Object_0);
    Json::Object(fields)
}

/// A record whose identity or readiness could not be resolved.
pub open spec fn unresolved_record_spec(record: Seq<char>, runtime_product: JsonV, account: JsonV, message: Seq<char>) -> JsonV {
    JsonV::Object(
        seq![
            ("schema"@, JsonV::Str("wisent.crawl-record-preflight.v2"@)),
            ("record"@, JsonV::Str(record)),
            ("ready"@, JsonV::Bool(false)),
            ("runtime_product"@, runtime_product),
            ("account"@, account),
            ("diagnostic"@, JsonV::Object(seq![
                ("code"@, JsonV::Str("runtime_identity_or_readiness_unavailable"@)),
                ("message"@, JsonV::Str(message)),
            ])),
            ("checks"@, JsonV::Array(Seq::empty())),
        ],
    )
}

pub fn unresolved_record(record: &str, runtime_product: Json, account: Json, message: &str) -> (r: Json)
    ensures
        r@ == unresolved_record_spec(record@, runtime_product@, account@, message@),
{
    broadcast use group_json_view;

    let ghost pv = runtime_product@;
    let ghost av = account@;
    let mut diagnostic: Vec<(String, Json)> = Vec::new();
    assert(view_obj(diagnostic@) =~= Seq::empty());
    push_field(&mut diagnostic, "code", jstr("runtime_identity_or_readiness_unavailable"));
    push_field(&mut diagnostic, "message", jstr(message));
    assert(view_obj(diagnostic@) =~= seq![
        ("code"@, JsonV::Str("runtime_identity_or_readiness_unavailable"@)),
        ("message"@, JsonV::Str(message@)),
    ]);
    let mut fields: Vec<(String, Json)> = Vec::new();
    assert(view_obj(fields@) =~= Seq::empty());
    push_field(&mut fields, "schema", jstr("wisent.crawl-record-preflight.v2"));
    push_field(&mut fields, "record", jstr(record));
    push_field(&mut fields, "ready", Json::Bool(false));
    push_field(&mut fields, "runtime_product", runtime_product);
    push_field(&mut fields, "account", account);
    push_field(&mut fields, "diagnostic", Json::Object(diagnostic));
    push_field(&mut fields, "checks", empty_array());
    assert(view_obj(fields@) =~= unresolved_record_spec(record@, pv, av, message@)->Object_0);
    Json::Object(fields)
}

// ---------------------------------------------------------------------------
// A record preflight's outcome

pub open spec fn text_or_empty(v: JsonV, key: Seq<char>) -> Seq<char> {
    match crate::json::get_str_v(v, key) {
        Some(s) => s,
        None => Seq::empty(),
    }
}

/// The manifest a record keeps after its preflight, and the preflight
/// document: a record that may not be resolved, or whose resolution failed,
/// keeps its manifest exactly as it was; a resolved record keeps the
/// manifest its resolution produced, with the checks it retained.
pub open spec fn preflight_outcome_spec(
    manifest: JsonV,
    host_report: JsonV,
    service_bound: bool,
    resolution: Result<(JsonV, Seq<JsonV>), Seq<char>>,
) -> (JsonV, JsonV) {
    let record = text_or_empty(manifest, "record"@);
    let engine = text_or_empty(manifest, "engine"@);
    match record_gate_spec(record, host_report, engine, service_bound) {
        Some(doc) => (manifest, doc),
        None => match resolution {
            Ok((resolved, checks)) => (
                resolved,
                ready_record_spec(
                    record,
                    crate::report::field_or_null(resolved, "runtime_product"@),
                    crate::report::field_or_null(resolved, "account"@),
                    crate::report::field_or_null(resolved, "execution_identity"@),
                    crate::report::field_or_null(resolved, "resource_lease"@),
                    crate::report::field_or_null(resolved, "prepared_proof"@),
                    checks,
                ),
            ),
            Err(message) => (
                manifest,
                unresolved_record_spec(
                    record,
                    crate::report::field_or_null(manifest, "runtime_product"@),
                    crate::report::field_or_null(manifest, "account"@),
                    message,
                ),
            ),
        },
    }
}

fn field_copy(v: &Json, key: &str) -> (r: Json)
    ensures
        r@ == crate::report::field_or_null(v@, key@),
{
    match v.get(key) {
        Some(x) => x.duplicate(),
        None => Json::Null,
    }
}

/// Settle a record's preflight: `manifest` as it was before resolution, the
/// host's report, whether a web record has its admission service, and the
/// resolution (the resolved manifest with its checks, or why it failed).
pub fn record_preflight_outcome(
    manifest: Json,
    host_report: &Json,
    service_bound: bool,
    resolution: Result<(Json, Vec<Json>), String>,
) -> (r: (Json, Json))
    ensures
        (r.0@, r.1@) == preflight_outcome_spec(
            manifest@,
            host_report@,
            service_bound,
            match resolution {
                Ok((m, c)) => Ok((m@, view_arr(c@))),
                Err(e) => Err(e@),
            },
        ),
{
    proof {
        reveal_strlit("");
    }
    let record = match manifest.get_str("record") {
        Some(s) => String::from_str(s),
        None => String::new(),
    };
    let engine = match manifest.get_str("engine") {
        Some(s) => String::from_str(s),
        None => String::new(),
    };
    if let Some(doc) = record_gate(record.as_str(), host_report, engine.as_str(), service_bound) {
        return (manifest, doc);
    }
    match resolution {
        Ok((resolved, checks)) => {
            let doc = ready_record(
                record.as_str(),
                field_copy(&resolved, "runtime_product"),
                field_copy(&resolved, "account"),
                field_copy(&resolved, "execution_identity"),
                field_copy(&resolved, "resource_lease"),
                field_copy(&resolved, "prepared_proof"),
                checks,
            );
            (resolved, doc)
        },
        Err(message) => {
            let doc = unresolved_record(
                record.as_str(),
                field_copy(&manifest, "runtime_product"),
                field_copy(&manifest, "account"),
                message.as_str(),
            );
            (manifest, doc)
        },
    }
}

/// A record whose host is not ready keeps its manifest untouched, whatever
/// its resolution would have been.
pub proof fn law_unready_host_keeps_manifest(
    manifest: JsonV,
    host_report: JsonV,
    service_bound: bool,
    resolution: Result<(JsonV, Seq<JsonV>), Seq<char>>,
)
    requires
        get_bool_v(host_report, "ready"@) != Some(true),
    ensures
        preflight_outcome_spec(manifest, host_report, service_bound, resolution).0 == manifest,
{
}

} // verus!
