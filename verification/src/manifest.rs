//! The runtime manifest as a worker receives it: base64 of its JSON bytes on
//! the worker's command line.
use vstd::prelude::*;
use base64::Engine;
use crate::json::{get_str_v, get_u64_v, get_v, Json, JsonV};
use crate::text::{chars_of, split_once_exec, split_once_seq, str_eq, string_of};

verus! {

// ---------------------------------------------------------------------------
// Base64

/// A digit of the standard base64 alphabet.
pub open spec fn b64_digit(n: int) -> char {
    if n < 26 {
        ((65 + n) as u8) as char
    } else if n < 52 {
        ((97 + n - 26) as u8) as char
    } else if n < 62 {
        ((48 + n - 52) as u8) as char
    } else if n == 62 {
        '+'
    } else {
        '/'
    }
}

/// Standard base64 with `=` padding (RFC 4648).
pub open spec fn b64_encode(b: Seq<u8>) -> Seq<char>
    decreases b.len(),
{
    if b.len() == 0 {
        Seq::empty()
    } else if b.len() == 1 {
        seq![b64_digit((b[0] / 4) as int), b64_digit((b[0] % 4) * 16), '=', '=']
    } else if b.len() == 2 {
        seq![
            b64_digit((b[0] / 4) as int),
            b64_digit((b[0] % 4) * 16 + b[1] / 16),
            b64_digit((b[1] % 16) * 4),
            '=',
        ]
    } else {
        seq![
            b64_digit((b[0] / 4) as int),
            b64_digit((b[0] % 4) * 16 + b[1] / 16),
            b64_digit((b[1] % 16) * 4 + b[2] / 64),
            b64_digit((b[2] % 64) as int),
        ] + b64_encode(b.skip(3))
    }
}

proof fn lemma_b64_digit(m: int, n: int)
    requires
        0 <= m < 64,
        0 <= n < 64,
    ensures
        b64_digit(n) != '=',
        b64_digit(m) == b64_digit(n) ==> m == n,
{
    let dm = b64_digit(m) as u32;
    let dn = b64_digit(n) as u32;
    assert(n < 26 ==> dn == 65 + n);
    assert(26 <= n < 52 ==> dn == 71 + n);
    assert(52 <= n < 62 ==> dn == n - 4);
    assert(m < 26 ==> dm == 65 + m);
    assert(26 <= m < 52 ==> dm == 71 + m);
    assert(52 <= m < 62 ==> dm == m - 4);
}

proof fn lemma_b64_block(a: Seq<u8>, b: Seq<u8>)
    requires
        a.len() >= 3,
        b.len() >= 3,
        b64_encode(a).take(4) == b64_encode(b).take(4),
    ensures
        a[0] == b[0] && a[1] == b[1] && a[2] == b[2],
{
    let ea = b64_encode(a);
    let eb = b64_encode(b);
    assert(ea[0] == eb[0] && ea[1] == eb[1] && ea[2] == eb[2] && ea[3] == eb[3]) by {
        assert(ea.take(4)[0] == eb.take(4)[0] && ea.take(4)[1] == eb.take(4)[1]);
        assert(ea.take(4)[2] == eb.take(4)[2] && ea.take(4)[3] == eb.take(4)[3]);
    }
    let (a0, a1, a2) = (a[0] as int, a[1] as int, a[2] as int);
    let (b0, b1, b2) = (b[0] as int, b[1] as int, b[2] as int);
    lemma_b64_digit(a0 / 4, b0 / 4);
    lemma_b64_digit((a0 % 4) * 16 + a1 / 16, (b0 % 4) * 16 + b1 / 16);
    lemma_b64_digit((a1 % 16) * 4 + a2 / 64, (b1 % 16) * 4 + b2 / 64);
    lemma_b64_digit(a2 % 64, b2 % 64);
}

/// Decoding undoes encoding: no two byte strings have the same standard
/// base64 text, so the bytes a manifest's command-line form decodes to are
/// exactly the bytes that were encoded.
pub proof fn law_manifest_encoding_round_trip(x: Seq<u8>, v: Seq<u8>)
    ensures
        b64_encode(v) == b64_encode(x) ==> v == x,
    decreases x.len(),
{
    if b64_encode(v) == b64_encode(x) {
        let e = b64_encode(x);
        if x.len() == 0 || v.len() == 0 {
            if x.len() != 0 || v.len() != 0 {
                assert(e.len() == 0);
                assert(b64_encode(x).len() >= 4 || b64_encode(v).len() >= 4);
            }
            assert(x =~= v);
        } else {
            let (x0, v0) = (x[0] as int, v[0] as int);
            lemma_b64_digit(x0 / 4, v0 / 4);
            lemma_b64_digit((x0 % 4) * 16, (v0 % 4) * 16);
            if x.len() >= 2 {
                lemma_b64_digit((x0 % 4) * 16 + x[1] / 16, 0);
                lemma_b64_digit((x[1] % 16) * 4, 0);
                lemma_b64_digit((x0 % 4) * 16 + x[1] / 16, (v0 % 4) * 16);
            }
            if v.len() >= 2 {
                lemma_b64_digit((v0 % 4) * 16 + v[1] / 16, 0);
                lemma_b64_digit((v[1] % 16) * 4, 0);
                lemma_b64_digit((v0 % 4) * 16 + v[1] / 16, (x0 % 4) * 16);
            }
            if x.len() >= 2 && v.len() >= 2 {
                lemma_b64_digit((x0 % 4) * 16 + x[1] / 16, (v0 % 4) * 16 + v[1] / 16);
                lemma_b64_digit((x[1] % 16) * 4, (v[1] % 16) * 4);
            }
            if x.len() >= 3 {
                lemma_b64_digit((x[1] % 16) * 4 + x[2] / 64, 0);
                lemma_b64_digit((x[2] % 64) as int, 0);
            }
            if v.len() >= 3 {
                lemma_b64_digit((v[1] % 16) * 4 + v[2] / 64, 0);
                lemma_b64_digit((v[2] % 64) as int, 0);
            }
            if x.len() >= 3 && v.len() >= 3 {
                assert(b64_encode(x).take(4) =~= b64_encode(v).take(4));
                lemma_b64_block(x, v);
                assert(b64_encode(x).skip(4) =~= b64_encode(x.skip(3)));
                assert(b64_encode(v).skip(4) =~= b64_encode(v.skip(3)));
                law_manifest_encoding_round_trip(x.skip(3), v.skip(3));
                assert(x =~= seq![x[0], x[1], x[2]] + x.skip(3));
                assert(v =~= seq![v[0], v[1], v[2]] + v.skip(3));
            } else if x.len() == 1 && v.len() == 1 {
                assert(x =~= v);
            } else if x.len() == 2 && v.len() == 2 {
                assert(x =~= v);
            } else {
                assert(e[2] == b64_encode(v)[2] && e[3] == b64_encode(v)[3]);
            }
        }
    }
}

/// `base64::engine::general_purpose::STANDARD.encode`: standard base64 with
/// padding.
#[verifier::external_body]
fn base64_encode(bytes: &[u8]) -> (r: String)
    ensures
        r@ == b64_encode(bytes@),
{
    base64::engine::general_purpose::STANDARD.encode(bytes)
}

/// `base64::engine::general_purpose::STANDARD.decode`: the engine requires
/// canonical padding and refuses trailing bits, so what it accepts is exactly
/// the standard encoding of the bytes it returns. Which malformed inputs it
/// refuses, and why, is not restated.
#[verifier::external_body]
fn base64_decode(text: &str) -> (r: Option<Vec<u8>>)
    ensures
        r matches Some(v) ==> b64_encode(v@) == text@,
        (exists|x: Seq<u8>| b64_encode(x) == text@) ==> r is Some,
{
    base64::engine::general_purpose::STANDARD.decode(text).ok()
}

/// The manifest's command-line form: base64 of its JSON bytes.
pub fn encode_manifest(manifest_json: &[u8]) -> (r: String)
    ensures
        r@ == b64_encode(manifest_json@),
{
    base64_encode(manifest_json)
}

/// The manifest's JSON bytes from its command-line form; `None` when it is
/// not standard base64.
pub fn decode_manifest(encoded: &str) -> (r: Option<Vec<u8>>)
    ensures
        r matches Some(v) ==> b64_encode(v@) == encoded@,
        (exists|x: Seq<u8>| b64_encode(x) == encoded@) ==> r is Some,
{
    base64_decode(encoded)
}

// ---------------------------------------------------------------------------
// The worker command

/// Why a worker command cannot be built for a host.
pub enum EngineCommandError {
    /// The manifest binds no execution identity.
    NoExecutionIdentity,
    /// The execution identity is for another host.
    HostDiffers,
    /// The web engine's service placement is not this host.
    WebHostDiffers,
    /// The engine is not a crawl engine.
    UnknownEngine(String),
}

pub enum EngineCommandFailure {
    NoExecutionIdentity,
    HostDiffers,
    WebHostDiffers,
    UnknownEngine(Seq<char>),
}

impl EngineCommandError {
    pub open spec fn failure(&self) -> EngineCommandFailure {
        match self {
            EngineCommandError::NoExecutionIdentity => EngineCommandFailure::NoExecutionIdentity,
            EngineCommandError::HostDiffers => EngineCommandFailure::HostDiffers,
            EngineCommandError::WebHostDiffers => EngineCommandFailure::WebHostDiffers,
            EngineCommandError::UnknownEngine(e) => EngineCommandFailure::UnknownEngine(e@),
        }
    }
}

/// The subcommand that runs an engine's worker, and whether it names the
/// catalog.
pub open spec fn engine_subcommand(engine: Seq<char>) -> Option<(Seq<char>, bool)> {
    if engine == "mobile"@ {
        Some(("crawl-mobile"@, true))
    } else if engine == "desktop"@ {
        Some(("crawl-desktop"@, true))
    } else if engine == "web"@ {
        Some(("crawl-web"@, true))
    } else if engine == "tui"@ {
        Some(("crawl-tui"@, false))
    } else if engine == "cli"@ {
        Some(("crawl-cli"@, false))
    } else if engine == "docs"@ {
        Some(("crawl-docs"@, false))
    } else {
        None
    }
}

/// The worker command line for one record on one host.
pub open spec fn engine_command_spec(
    catalog: Seq<char>,
    engine: Seq<char>,
    record: Seq<char>,
    execution_host: Option<Seq<char>>,
    service_active_host: Option<Seq<char>>,
    host: Seq<char>,
    manifest_json: Seq<u8>,
) -> Result<Seq<Seq<char>>, EngineCommandFailure> {
    match execution_host {
        None => Err(EngineCommandFailure::NoExecutionIdentity),
        Some(h) => if h != host {
            Err(EngineCommandFailure::HostDiffers)
        } else if engine == "web"@ && service_active_host != Some(host) {
            Err(EngineCommandFailure::WebHostDiffers)
        } else {
            match engine_subcommand(engine) {
                None => Err(EngineCommandFailure::UnknownEngine(engine)),
                Some((sub, names_catalog)) => {
                    let head = if names_catalog {
                        seq![sub, catalog, "--host"@, host]
                    } else {
                        seq![sub, "--host"@, host]
                    };
                    Ok(
                        head + seq![
                            "--record"@,
                            record,
                            "--runtime-manifest-base64"@,
                            b64_encode(manifest_json),
                        ],
                    )
                },
            }
        },
    }
}

pub open spec fn opt_str_view(o: Option<&str>) -> Option<Seq<char>> {
    match o {
        Some(s) => Some(s@),
        None => None,
    }
}

/// Build the command that runs a record's worker on `host`.
pub fn engine_command(
    catalog: &str,
    engine: &str,
    record: &str,
    execution_host: Option<&str>,
    service_active_host: Option<&str>,
    host: &str,
    manifest_json: &[u8],
) -> (r: Result<Vec<String>, EngineCommandError>)
    ensures
        match r {
            Ok(args) => engine_command_spec(
                catalog@,
                engine@,
                record@,
                opt_str_view(execution_host),
                opt_str_view(service_active_host),
                host@,
                manifest_json@,
            ) == Ok::<Seq<Seq<char>>, EngineCommandFailure>(crate::text::string_views(args@)),
            Err(e) => engine_command_spec(
                catalog@,
                engine@,
                record@,
                opt_str_view(execution_host),
                opt_str_view(service_active_host),
                host@,
                manifest_json@,
            ) == Err::<Seq<Seq<char>>, EngineCommandFailure>(e.failure()),
        },
{
    let h = match execution_host {
        Some(h) => h,
        None => return Err(EngineCommandError::NoExecutionIdentity),
    };
    if !str_eq(h, host) {
        return Err(EngineCommandError::HostDiffers);
    }
    if str_eq(engine, "web") {
        let placed = match service_active_host {
            Some(a) => str_eq(a, host),
            None => false,
        };
        if !placed {
            return Err(EngineCommandError::WebHostDiffers);
        }
    }
    let (sub, names_catalog): (&str, bool) = if str_eq(engine, "mobile") {
        ("crawl-mobile", true)
    } else if str_eq(engine, "desktop") {
        ("crawl-desktop", true)
    } else if str_eq(engine, "web") {
        ("crawl-web", true)
    } else if str_eq(engine, "tui") {
        ("crawl-tui", false)
    } else if str_eq(engine, "cli") {
        ("crawl-cli", false)
    } else if str_eq(engine, "docs") {
        ("crawl-docs", false)
    } else {
        return Err(EngineCommandError::UnknownEngine(String::from_str(engine)));
    };
    let mut args: Vec<String> = Vec::new();
    args.push(String::from_str(sub));
    if names_catalog {
        args.push(String::from_str(catalog));
    }
    args.push(String::from_str("--host"));
    args.push(String::from_str(host));
    args.push(String::from_str("--record"));
    args.push(String::from_str(record));
    args.push(String::from_str("--runtime-manifest-base64"));
    args.push(encode_manifest(manifest_json));
    assert(crate::text::string_views(args@) =~= match engine_command_spec(
        catalog@,
        engine@,
        record@,
        opt_str_view(execution_host),
        opt_str_view(service_active_host),
        host@,
        manifest_json@,
    ) {
        Ok(a) => a,
        Err(_) => Seq::empty(),
    });
    Ok(args)
}

// ---------------------------------------------------------------------------
// The manifest a worker is handed

pub const RUNTIME_MANIFEST_SCHEMA: &'static str = "wisent.crawl-runtime-manifest.v1";

/// The first rule of a worker's manifest header that a manifest breaks.
pub enum ManifestFault {
    /// Not this worker's catalog, engine, record or source revision.
    Mismatch,
    /// A path component (named) is not one strict component.
    UnsafeComponent(Seq<char>),
    /// A required identity is missing.
    Incomplete,
    /// No immutable execution attempt.
    NoAttempt,
    /// The execution identity lacks its host or observed hostname.
    IdentityIncomplete,
    /// A web manifest has no service identity.
    NoWebService,
    /// A web manifest's service identity is not the admission service on
    /// this host.
    WebServiceInvalid,
    /// A manifest of another engine binds a service identity.
    NonWebService,
}

/// Why a worker refused its manifest.
pub enum ManifestError {
    Mismatch,
    UnsafeComponent(&'static str),
    Incomplete,
    NoAttempt,
    IdentityIncomplete,
    NoWebService,
    WebServiceInvalid,
    NonWebService,
}

impl ManifestError {
    pub open spec fn fault(&self) -> ManifestFault {
        match self {
            ManifestError::Mismatch => ManifestFault::Mismatch,
            ManifestError::UnsafeComponent(label) => ManifestFault::UnsafeComponent(label@),
            ManifestError::Incomplete => ManifestFault::Incomplete,
            ManifestError::NoAttempt => ManifestFault::NoAttempt,
            ManifestError::IdentityIncomplete => ManifestFault::IdentityIncomplete,
            ManifestError::NoWebService => ManifestFault::NoWebService,
            ManifestError::WebServiceInvalid => ManifestFault::WebServiceInvalid,
            ManifestError::NonWebService => ManifestFault::NonWebService,
        }
    }
}

/// A string field, or empty.
pub open spec fn text_of(v: JsonV, key: Seq<char>) -> Seq<char> {
    match get_str_v(v, key) {
        Some(s) => s,
        None => Seq::empty(),
    }
}

/// A field that is present and not `null`.
pub open spec fn present(v: JsonV, key: Seq<char>) -> Option<JsonV> {
    match get_v(v, key) {
        Some(JsonV::Null) => None,
        Some(x) => Some(x),
        None => None,
    }
}

pub open spec fn component_ok(m: JsonV, key: Seq<char>) -> bool {
    match get_str_v(m, key) {
        Some(v) => crate::crawl::safe_component_spec(v),
        None => false,
    }
}

/// The first rule of the manifest header a worker checks before anything
/// else that `m` breaks, if any.
pub open spec fn manifest_header_fault(
    m: JsonV,
    catalog: Seq<char>,
    engine: Seq<char>,
    record: Option<Seq<char>>,
    revision: Seq<char>,
) -> Option<ManifestFault> {
    let exec = present(m, "execution_identity"@);
    let product = match get_v(m, "runtime_product"@) {
        Some(p) => p,
        None => JsonV::Null,
    };
    if get_str_v(m, "schema"@) != Some(RUNTIME_MANIFEST_SCHEMA@) || get_str_v(m, "catalog"@) != Some(
        catalog,
    ) || get_str_v(m, "engine"@) != Some(engine) || (match record {
        Some(r) => get_str_v(m, "record"@) != Some(r),
        None => false,
    }) || get_str_v(m, "source_revision"@) != Some(revision) {
        Some(ManifestFault::Mismatch)
    } else if !component_ok(m, "run_id"@) {
        Some(ManifestFault::UnsafeComponent("run id"@))
    } else if !component_ok(m, "catalog"@) {
        Some(ManifestFault::UnsafeComponent("catalog"@))
    } else if !component_ok(m, "record"@) {
        Some(ManifestFault::UnsafeComponent("record"@))
    } else if !component_ok(m, "attempt_id"@) {
        Some(ManifestFault::UnsafeComponent("attempt id"@))
    } else if text_of(product, "identifier"@).len() == 0 || crate::text::utf8_encode(
        text_of(m, "source_input_sha256"@),
    ).len() != 64 || text_of(m, "correlation_id"@).len() == 0 || text_of(m, "stado_run_id"@).len()
        == 0 || exec is None {
        Some(ManifestFault::Incomplete)
    } else if get_u64_v(m, "attempt"@) == Some(0u64) || get_u64_v(m, "attempt"@) is None || text_of(
        m,
        "attempt_id"@,
    ).len() == 0 {
        Some(ManifestFault::NoAttempt)
    } else {
        let identity = exec.unwrap();
        if text_of(identity, "host"@).len() == 0 || text_of(identity, "observed_hostname"@).len()
            == 0 {
            Some(ManifestFault::IdentityIncomplete)
        } else if engine == "web"@ {
            match present(m, "service_identity"@) {
                None => Some(ManifestFault::NoWebService),
                Some(service) => if get_str_v(service, "name"@) != Some("weles-admission"@)
                    || get_str_v(service, "consumer"@) != Some("spis"@) || get_str_v(
                    service,
                    "capability"@,
                ) != Some("browser-evidence"@) || get_str_v(service, "action"@) != Some(
                    "generic_browser_task"@,
                ) || get_str_v(service, "active_host"@) != Some(text_of(identity, "host"@)) {
                    Some(ManifestFault::WebServiceInvalid)
                } else {
                    None
                },
            }
        } else if present(m, "service_identity"@) is Some {
            Some(ManifestFault::NonWebService)
        } else {
            None
        }
    }
}

fn field_is(v: &Json, key: &str, expected: &str) -> (r: bool)
    ensures
        r == (get_str_v(v@, key@) == Some(expected@)),
{
    match v.get_str(key) {
        Some(s) => str_eq(s, expected),
        None => false,
    }
}

fn text_len(v: &Json, key: &str) -> (r: usize)
    ensures
        r == text_of(v@, key@).len(),
{
    match v.get_str(key) {
        Some(s) => chars_of(s).len(),
        None => 0,
    }
}

fn present_field<'a>(v: &'a Json, key: &str) -> (r: Option<&'a Json>)
    ensures
        match r {
            Some(x) => present(v@, key@) == Some(x@),
            None => present(v@, key@) is None,
        },
{
    match v.get(key) {
        Some(Json::Null) => None,
        Some(x) => Some(x),
        None => None,
    }
}

fn component(m: &Json, key: &str) -> (r: bool)
    ensures
        r == component_ok(m@, key@),
{
    match m.get_str(key) {
        Some(v) => crate::crawl::safe_component(v),
        None => false,
    }
}

/// Check the header of the manifest a worker was handed: it is this worker's
/// catalog, engine, record and source revision, its names are strict path
/// components, its identities are complete, and only a web manifest binds the
/// admission service, on the execution host.
pub fn check_manifest_header(
    m: &Json,
    catalog: &str,
    engine: &str,
    record: Option<&str>,
    revision: &str,
) -> (r: Result<(), ManifestError>)
    ensures
        match manifest_header_fault(m@, catalog@, engine@, opt_str_view(record), revision@) {
            None => r is Ok,
            Some(f) => r matches Err(e) && e.fault() == f,
        },
{
    let record_differs = match record {
        Some(r) => !field_is(m, "record", r),
        None => false,
    };
    if !field_is(m, "schema", RUNTIME_MANIFEST_SCHEMA) || !field_is(m, "catalog", catalog)
        || !field_is(m, "engine", engine) || record_differs || !field_is(
        m,
        "source_revision",
        revision,
    ) {
        return Err(ManifestError::Mismatch);
    }
    if !component(m, "run_id") {
        return Err(ManifestError::UnsafeComponent("run id"));
    }
    if !component(m, "catalog") {
        return Err(ManifestError::UnsafeComponent("catalog"));
    }
    if !component(m, "record") {
        return Err(ManifestError::UnsafeComponent("record"));
    }
    if !component(m, "attempt_id") {
        return Err(ManifestError::UnsafeComponent("attempt id"));
    }
    let identifier_len = match m.get("runtime_product") {
        Some(p) => text_len(p, "identifier"),
        None => 0,
    };
    let digest = match m.get_str("source_input_sha256") {
        Some(s) => crate::text::utf8_bytes(&chars_of(s)).len(),
        None => 0,
    };
    let exec = present_field(m, "execution_identity");
    if identifier_len == 0 || digest != 64 || text_len(m, "correlation_id") == 0 || text_len(
        m,
        "stado_run_id",
    ) == 0 || exec.is_none() {
        proof {
            assert(crate::text::utf8_encode(Seq::<char>::empty()) =~= Seq::<u8>::empty());
        }
        return Err(ManifestError::Incomplete);
    }
    proof {
        assert(crate::text::utf8_encode(Seq::<char>::empty()) =~= Seq::<u8>::empty());
    }
    let attempt_ok = match m.get_u64("attempt") {
        Some(n) => n != 0,
        None => false,
    };
    if !attempt_ok || text_len(m, "attempt_id") == 0 {
        return Err(ManifestError::NoAttempt);
    }
    let identity = exec.unwrap();
    if text_len(identity, "host") == 0 || text_len(identity, "observed_hostname") == 0 {
        return Err(ManifestError::IdentityIncomplete);
    }
    let service = present_field(m, "service_identity");
    if str_eq(engine, "web") {
        let service = match service {
            Some(s) => s,
            None => return Err(ManifestError::NoWebService),
        };
        let host = match identity.get_str("host") {
            Some(h) => h,
            None => "",
        };
        if !field_is(service, "name", "weles-admission") || !field_is(service, "consumer", "spis")
            || !field_is(service, "capability", "browser-evidence") || !field_is(
            service,
            "action",
            "generic_browser_task",
        ) || !field_is(service, "active_host", host) {
            return Err(ManifestError::WebServiceInvalid);
        }
        Ok(())
    } else if service.is_some() {
        Err(ManifestError::NonWebService)
    } else {
        Ok(())
    }
}

// ---------------------------------------------------------------------------
// The committed runtime identity

/// Why a worker's manifest does not carry the runtime identity its
/// committed record and the host's resolution give.
#[derive(Debug, Clone, Copy, PartialEq, Eq, Structural)]
pub enum IdentityFault {
    /// The declared identity, product URL, surface or resolved identifier
    /// differs.
    ProductDiffers,
    /// A resolving engine's declared identity is no safe host query
    /// literal.
    UnsafeDeclaredIdentity,
    /// The product kind differs.
    KindDiffers,
    /// A mobile, web or docs manifest's product is not the canonical one.
    CanonicalDiffers,
    /// The execution identity has no executable path.
    NoExecutablePath,
    /// The execution identity has no product version.
    NoProductVersion,
    /// The execution identity has no executable digest.
    NoExecutableDigest,
    /// A desktop executable lies outside a canonical app bundle.
    OutsideBundle,
    /// A CLI, TUI or desktop product is not the canonical one for the
    /// resolved executable.
    EngineProductInvalid,
    /// The engine is none the crawl knows.
    UnsupportedEngine,
}

/// A field, or `null`.
pub open spec fn field_or_null(v: JsonV, key: Seq<char>) -> JsonV {
    match get_v(v, key) {
        Some(x) => x,
        None => JsonV::Null,
    }
}

/// The engines whose product identity is resolved on the host.
pub open spec fn resolving_engine(engine: Seq<char>) -> bool {
    engine == "desktop"@ || engine == "cli"@ || engine == "tui"@
}

/// The first way the manifest `m` departs from the runtime identity
/// `expected` (the product its committed record yields on the manifest's
/// surface), if any: declared identity, URL, surface and resolved identifier
/// first, then the engine's own rule.
pub open spec fn identity_fault(m: JsonV, expected: JsonV) -> Option<IdentityFault> {
    let product = field_or_null(m, "runtime_product"@);
    let exec = field_or_null(m, "execution_identity"@);
    let engine = text_of(m, "engine"@);
    if text_of(expected, "declared_identifier"@) != text_of(product, "declared_identifier"@) || text_of(
        exec,
        "resolved_product_identifier"@,
    ) != text_of(product, "identifier"@) || text_of(expected, "product_url"@) != text_of(
        product,
        "product_url"@,
    ) || get_v(expected, "surface"@) != get_v(product, "surface"@) {
        Some(IdentityFault::ProductDiffers)
    } else if resolving_engine(engine) && !crate::plan::host_query_literal_spec(
        text_of(product, "declared_identifier"@),
    ) {
        Some(IdentityFault::UnsafeDeclaredIdentity)
    } else if !resolving_engine(engine) && text_of(expected, "kind"@) != text_of(product, "kind"@) {
        Some(IdentityFault::KindDiffers)
    } else if engine == "mobile"@ || engine == "web"@ || engine == "docs"@ {
        if expected != product {
            Some(IdentityFault::CanonicalDiffers)
        } else {
            None
        }
    } else if engine == "cli"@ || engine == "tui"@ {
        match get_str_v(exec, "executable_path"@) {
            None => Some(IdentityFault::NoExecutablePath),
            Some(path) => match get_str_v(exec, "executable_sha256"@) {
                None => Some(IdentityFault::NoExecutableDigest),
                Some(digest) => {
                    let named = if engine == "cli"@ {
                        text_of(expected, "identifier"@) == text_of(product, "identifier"@)
                    } else {
                        get_str_v(exec, "device_name"@) == Some(text_of(expected, "identifier"@))
                    };
                    let kind = if engine == "cli"@ {
                        "cli-binary"@
                    } else {
                        "tui-binary"@
                    };
                    if !named || text_of(product, "kind"@) != kind || text_of(product, "identity_source"@)
                        != crate::device::terminal_source_spec(path, digest) {
                        Some(IdentityFault::EngineProductInvalid)
                    } else {
                        None
                    }
                },
            },
        }
    } else if engine == "desktop"@ {
        match get_str_v(exec, "executable_path"@) {
            None => Some(IdentityFault::NoExecutablePath),
            Some(path) => match get_str_v(exec, "product_version"@) {
                None => Some(IdentityFault::NoProductVersion),
                Some(version) => match get_str_v(exec, "executable_sha256"@) {
                    None => Some(IdentityFault::NoExecutableDigest),
                    Some(digest) => match split_once_seq(path, "/Contents/MacOS/"@) {
                        None => Some(IdentityFault::OutsideBundle),
                        Some((app, _)) => if get_str_v(exec, "device_name"@) != Some(
                            text_of(expected, "identifier"@),
                        ) || text_of(product, "kind"@) != "desktop-bundle"@ || text_of(
                            product,
                            "identity_source"@,
                        ) != crate::device::desktop_source_spec(app, path, version, digest) {
                            Some(IdentityFault::EngineProductInvalid)
                        } else {
                            None
                        },
                    },
                },
            },
        }
    } else {
        Some(IdentityFault::UnsupportedEngine)
    }
}

fn text_field(v: &Json, key: &str) -> (r: String)
    ensures
        r@ == text_of(v@, key@),
{
    match v.get_str(key) {
        Some(s) => String::from_str(s),
        None => String::new(),
    }
}

fn same_field(a: &Json, b: &Json, key: &str) -> (r: bool)
    ensures
        r == (get_v(a@, key@) == get_v(b@, key@)),
{
    match (a.get(key), b.get(key)) {
        (Some(x), Some(y)) => x.same_as(y),
        (None, None) => true,
        _ => false,
    }
}

/// Check that a worker's manifest carries exactly the runtime identity its
/// committed record gives: `expected` is the product the record yields on
/// the manifest's surface.
pub fn check_runtime_identity(m: &Json, expected: &Json) -> (r: Result<(), IdentityFault>)
    ensures
        match identity_fault(m@, expected@) {
            None => r is Ok,
            Some(f) => r == Err::<(), IdentityFault>(f),
        },
{
    let null = Json::Null;
    let product = match m.get("runtime_product") {
        Some(p) => p,
        None => &null,
    };
    let exec = match m.get("execution_identity") {
        Some(e) => e,
        None => &null,
    };
    let engine = text_field(m, "engine");
    let e = engine.as_str();
    if !str_eq(text_field(expected, "declared_identifier").as_str(), text_field(product, "declared_identifier").as_str())
        || !str_eq(text_field(exec, "resolved_product_identifier").as_str(), text_field(product, "identifier").as_str())
        || !str_eq(text_field(expected, "product_url").as_str(), text_field(product, "product_url").as_str())
        || !same_field(expected, product, "surface") {
        return Err(IdentityFault::ProductDiffers);
    }
    let resolving = str_eq(e, "desktop") || str_eq(e, "cli") || str_eq(e, "tui");
    let declared = text_field(product, "declared_identifier");
    if resolving && !crate::plan::is_host_query_literal(declared.as_str()) {
        return Err(IdentityFault::UnsafeDeclaredIdentity);
    }
    let kind = text_field(product, "kind");
    if !resolving && !str_eq(text_field(expected, "kind").as_str(), kind.as_str()) {
        return Err(IdentityFault::KindDiffers);
    }
    let expected_identifier = text_field(expected, "identifier");
    let source = text_field(product, "identity_source");
    if str_eq(e, "mobile") || str_eq(e, "web") || str_eq(e, "docs") {
        if !expected.same_as(product) {
            return Err(IdentityFault::CanonicalDiffers);
        }
        return Ok(());
    }
    if str_eq(e, "cli") || str_eq(e, "tui") {
        let path = match exec.get_str("executable_path") {
            Some(p) => p,
            None => return Err(IdentityFault::NoExecutablePath),
        };
        let digest = match exec.get_str("executable_sha256") {
            Some(d) => d,
            None => return Err(IdentityFault::NoExecutableDigest),
        };
        let cli = str_eq(e, "cli");
        let named = if cli {
            str_eq(expected_identifier.as_str(), text_field(product, "identifier").as_str())
        } else {
            match exec.get_str("device_name") {
                Some(n) => str_eq(n, expected_identifier.as_str()),
                None => false,
            }
        };
        let wanted_kind = if cli {
            "cli-binary"
        } else {
            "tui-binary"
        };
        let canonical = crate::device::terminal_identity_source(path, digest);
        if !named || !str_eq(kind.as_str(), wanted_kind) || !str_eq(source.as_str(), canonical.as_str()) {
            return Err(IdentityFault::EngineProductInvalid);
        }
        return Ok(());
    }
    if str_eq(e, "desktop") {
        let path = match exec.get_str("executable_path") {
            Some(p) => p,
            None => return Err(IdentityFault::NoExecutablePath),
        };
        let version = match exec.get_str("product_version") {
            Some(v) => v,
            None => return Err(IdentityFault::NoProductVersion),
        };
        let digest = match exec.get_str("executable_sha256") {
            Some(d) => d,
            None => return Err(IdentityFault::NoExecutableDigest),
        };
        let app = match split_once_exec(&chars_of(path), &chars_of("/Contents/MacOS/")) {
            Some((a, _)) => string_of(&a),
            None => return Err(IdentityFault::OutsideBundle),
        };
        let named = match exec.get_str("device_name") {
            Some(n) => str_eq(n, expected_identifier.as_str()),
            None => false,
        };
        let canonical = crate::device::desktop_identity_source(app.as_str(), path, version, digest);
        if !named || !str_eq(kind.as_str(), "desktop-bundle") || !str_eq(source.as_str(), canonical.as_str()) {
            return Err(IdentityFault::EngineProductInvalid);
        }
        return Ok(());
    }
    Err(IdentityFault::UnsupportedEngine)
}

// ---------------------------------------------------------------------------
// The committed binding

/// Why a worker's manifest does not carry its committed binding.
#[derive(Debug, Clone, Copy, PartialEq, Eq, Structural)]
pub enum BindingIdentityFault {
    /// The whole bindings file's digest differs.
    FileDigestDiffers,
    /// The record's normalized binding digest differs.
    BindingDigestDiffers,
    /// The account, constraints, delivery, prepared proof or surface differs
    /// from the record's binding.
    BindingDiffers,
    /// The docs crawl definition digest differs from the committed structure.
    DocsStructureDiffers,
}

/// The first way the manifest `m` departs from its committed binding, if
/// any: `file_sha256` is the bindings file's digest, `binding` the record's
/// binding in it and `binding_sha256` that binding's digest, `docs` the
/// digest of the record's committed docs structure (docs records only).
pub open spec fn binding_identity_fault(
    m: JsonV,
    file_sha256: Seq<char>,
    binding: JsonV,
    binding_sha256: Seq<char>,
    docs: Option<Seq<char>>,
) -> Option<BindingIdentityFault> {
    let product = field_or_null(m, "runtime_product"@);
    if text_of(m, "bindings_file_sha256"@) != file_sha256 {
        Some(BindingIdentityFault::FileDigestDiffers)
    } else if text_of(m, "bindings_sha256"@) != binding_sha256 {
        Some(BindingIdentityFault::BindingDigestDiffers)
    } else if get_v(binding, "account"@) != get_v(m, "account"@) || get_v(binding, "constraints"@) != get_v(
        m,
        "constraints"@,
    ) || get_v(binding, "delivery"@) != get_v(m, "delivery"@) || get_v(binding, "prepared_proof"@)
        != get_v(m, "prepared_proof"@) || get_v(binding, "surface"@) != get_v(product, "surface"@) {
        Some(BindingIdentityFault::BindingDiffers)
    } else if get_str_v(m, "docs_structure_sha256"@) != docs {
        Some(BindingIdentityFault::DocsStructureDiffers)
    } else {
        None
    }
}

/// Check that a worker's manifest carries exactly its committed binding.
pub fn check_binding_identity(
    m: &Json,
    file_sha256: &str,
    binding: &Json,
    binding_sha256: &str,
    docs: Option<&str>,
) -> (r: Result<(), BindingIdentityFault>)
    ensures
        match binding_identity_fault(
            m@,
            file_sha256@,
            binding@,
            binding_sha256@,
            match docs {
                Some(d) => Some(d@),
                None => None,
            },
        ) {
            None => r is Ok,
            Some(f) => r == Err::<(), BindingIdentityFault>(f),
        },
{
    let null = Json::Null;
    let product = match m.get("runtime_product") {
        Some(p) => p,
        None => &null,
    };
    if !str_eq(text_field(m, "bindings_file_sha256").as_str(), file_sha256) {
        return Err(BindingIdentityFault::FileDigestDiffers);
    }
    if !str_eq(text_field(m, "bindings_sha256").as_str(), binding_sha256) {
        return Err(BindingIdentityFault::BindingDigestDiffers);
    }
    if !same_field(binding, m, "account") || !same_field(binding, m, "constraints") || !same_field(
        binding,
        m,
        "delivery",
    ) || !same_field(binding, m, "prepared_proof") || !same_field(binding, product, "surface") {
        return Err(BindingIdentityFault::BindingDiffers);
    }
    let same_docs = match (m.get_str("docs_structure_sha256"), docs) {
        (Some(a), Some(b)) => str_eq(a, b),
        (None, None) => true,
        _ => false,
    };
    if !same_docs {
        return Err(BindingIdentityFault::DocsStructureDiffers);
    }
    Ok(())
}

// ---------------------------------------------------------------------------
// The whole manifest a worker checks

/// Why a worker refused the manifest it was handed, in the order it checks.
pub enum WorkerManifestError {
    /// The header is not this worker's, or is incomplete.
    Header(ManifestError),
    /// The Weles service placement changed since planning.
    ServiceMoved,
    /// The manifest does not carry its committed binding.
    Binding(BindingIdentityFault),
    /// The manifest does not carry its committed runtime identity.
    Identity(IdentityFault),
}

/// Whether a worker accepts the manifest `m`: its header, then (for a web
/// manifest) the service placement found now (`current`, `null` when there
/// is none) equal to the one it binds, then its committed binding, then its
/// runtime identity.
pub open spec fn worker_manifest_ok(
    m: JsonV,
    catalog: Seq<char>,
    engine: Seq<char>,
    record: Option<Seq<char>>,
    revision: Seq<char>,
    current: JsonV,
    file_sha256: Seq<char>,
    binding: JsonV,
    binding_sha256: Seq<char>,
    docs: Option<Seq<char>>,
    expected: JsonV,
) -> bool {
    &&& manifest_header_fault(m, catalog, engine, record, revision) is None
    &&& engine == "web"@ ==> current == field_or_null(m, "service_identity"@)
    &&& binding_identity_fault(m, file_sha256, binding, binding_sha256, docs) is None
    &&& identity_fault(m, expected) is None
}

/// Check a worker's manifest whole, failing at the first rule it breaks.
pub fn check_worker_manifest(
    m: &Json,
    catalog: &str,
    engine: &str,
    record: Option<&str>,
    revision: &str,
    current: &Json,
    file_sha256: &str,
    binding: &Json,
    binding_sha256: &str,
    docs: Option<&str>,
    expected: &Json,
) -> (r: Result<(), WorkerManifestError>)
    ensures
        r is Ok <==> worker_manifest_ok(
            m@,
            catalog@,
            engine@,
            opt_str_view(record),
            revision@,
            current@,
            file_sha256@,
            binding@,
            binding_sha256@,
            match docs {
                Some(d) => Some(d@),
                None => None,
            },
            expected@,
        ),
        r matches Err(WorkerManifestError::Header(e)) ==> manifest_header_fault(
            m@,
            catalog@,
            engine@,
            opt_str_view(record),
            revision@,
        ) == Some(e.fault()),
        r matches Err(WorkerManifestError::ServiceMoved) ==> manifest_header_fault(
            m@,
            catalog@,
            engine@,
            opt_str_view(record),
            revision@,
        ) is None && engine@ == "web"@ && current@ != field_or_null(m@, "service_identity"@),
        r matches Err(WorkerManifestError::Binding(f)) ==> binding_identity_fault(
            m@,
            file_sha256@,
            binding@,
            binding_sha256@,
            match docs {
                Some(d) => Some(d@),
                None => None,
            },
        ) == Some(f),
        r matches Err(WorkerManifestError::Identity(f)) ==> identity_fault(m@, expected@) == Some(f),
{
    match check_manifest_header(m, catalog, engine, record, revision) {
        Ok(()) => {},
        Err(e) => return Err(WorkerManifestError::Header(e)),
    }
    if str_eq(engine, "web") {
        let null = Json::Null;
        let bound = match m.get("service_identity") {
            Some(s) => s,
            None => &null,
        };
        if !current.same_as(bound) {
            return Err(WorkerManifestError::ServiceMoved);
        }
    }
    match check_binding_identity(m, file_sha256, binding, binding_sha256, docs) {
        Ok(()) => {},
        Err(f) => return Err(WorkerManifestError::Binding(f)),
    }
    match check_runtime_identity(m, expected) {
        Ok(()) => Ok(()),
        Err(f) => Err(WorkerManifestError::Identity(f)),
    }
}

} // verus!
