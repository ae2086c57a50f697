//! A host's preflight before a catalog's records may be given slots: which
//! probes it asks the host, how the Weles release it reports is confirmed
//! against the service directory, and the report assembled from the answers.
use vstd::prelude::*;
use crate::catalog::{commands_view, engine_preconditions, engine_preconditions_spec};
use crate::host::{preflight_retryable_spec, retryable_check};
use crate::json::{
    get_bool_v, get_str_v, get_v, group_json_view, set_v, str_v, view_arr, view_obj, jstr, Json,
    JsonV,
};
use crate::registry::RuntimeServiceIdentity;
use crate::text::{concat, str_eq, trim, trim_str};

verus! {

/// How long a host probe may run before it is abandoned, in seconds.
pub const HOST_PROBE_TIMEOUT_SECONDS: u64 = 30;

// ---------------------------------------------------------------------------
// Which probes

/// The probes a preflight asks: the host's fully-qualified name and its free
/// space, then what the engine's worker needs.
pub open spec fn preflight_commands_spec(engine: Seq<char>, catalog: Seq<char>) -> Seq<Seq<Seq<char>>> {
    seq![seq!["hostname"@, "-f"@], seq!["df"@, "-h"@]] + engine_preconditions_spec(engine, catalog)
}

pub fn preflight_commands(engine: &str, catalog: &str) -> (r: Vec<Vec<&'static str>>)
    ensures
        commands_view(r@) == preflight_commands_spec(engine@, catalog@),
{
    let mut commands: Vec<Vec<&'static str>> = Vec::new();
    commands.push(vec!["hostname", "-f"]);
    commands.push(vec!["df", "-h"]);
    let mut extra = engine_preconditions(engine, catalog);
    commands.append(&mut extra);
    assert(commands_view(commands@) =~~= preflight_commands_spec(engine@, catalog@));
    commands
}

/// The Cua Driver probes of a desktop preflight, one per place the bundle
/// may keep its executable.
pub open spec fn desktop_driver_probes_spec() -> Seq<Seq<Seq<char>>> {
    seq![
        seq!["/Applications/CuaDriver.app/Contents/MacOS/cua-driver"@, "doctor"@, "--json"@],
        seq!["/Applications/CuaDriver.app/Contents/MacOS/CuaDriver"@, "doctor"@, "--json"@],
    ]
}

pub fn desktop_driver_probes() -> (r: Vec<Vec<&'static str>>)
    ensures
        commands_view(r@) == desktop_driver_probes_spec(),
{
    let mut probes: Vec<Vec<&'static str>> = Vec::new();
    probes.push(vec!["/Applications/CuaDriver.app/Contents/MacOS/cua-driver", "doctor", "--json"]);
    probes.push(vec!["/Applications/CuaDriver.app/Contents/MacOS/CuaDriver", "doctor", "--json"]);
    assert(commands_view(probes@) =~~= desktop_driver_probes_spec());
    probes
}

// ---------------------------------------------------------------------------
// The Weles release

/// The probe of `{endpoint}/version` on the pinned host.
pub open spec fn version_probe_spec(endpoint: Seq<char>) -> Seq<Seq<char>> {
    seq![
        "curl"@,
        "--fail"@,
        "--silent"@,
        "--show-error"@,
        "--max-redirs"@,
        "0"@,
        "--max-time"@,
        "20"@,
        "--header"@,
        "Accept: application/json"@,
        endpoint + "/version"@,
    ]
}

/// The version probe, redirects refused.
pub fn version_probe(service: &RuntimeServiceIdentity) -> (r: Vec<String>)
    ensures
        r@.map_values(|w: String| w@) == version_probe_spec(service.endpoint@),
{
    let words = [
        "curl",
        "--fail",
        "--silent",
        "--show-error",
        "--max-redirs",
        "0",
        "--max-time",
        "20",
        "--header",
        "Accept: application/json",
    ];
    let mut out: Vec<String> = Vec::new();
    let mut i: usize = 0;
    while i < 10
        invariant
            i <= 10,
            out@.len() == i,
            forall|j: int| 0 <= j < i ==> #[trigger] out@[j]@ == words@[j]@,
        decreases 10 - i,
    {
        out.push(String::from_str(words[i]));
        i = i + 1;
    }
    out.push(concat(service.endpoint.as_str(), "/version"));
    assert(out@.map_values(|w: String| w@) =~= version_probe_spec(service.endpoint@));
    out
}

/// The text a ready version probe printed, trimmed, for reading as JSON.
pub open spec fn version_report_text_spec(check: JsonV) -> Option<Seq<char>> {
    match get_str_v(check, "stdout"@) {
        Some(o) => Some(trim(o)),
        None => None,
    }
}

pub fn version_report_text(check: &Json) -> (r: Option<String>)
    ensures
        match r {
            Some(t) => version_report_text_spec(check@) == Some(t@),
            None => version_report_text_spec(check@) is None,
        },
{
    match check.get_str("stdout") {
        Some(o) => Some(trim_str(o)),
        None => None,
    }
}

/// A field of the version report under its snake-case name, else its
/// camel-case one.
pub open spec fn reported_field(doc: JsonV, snake: Seq<char>, camel: Seq<char>) -> Option<Seq<char>> {
    match get_v(doc, snake) {
        Some(x) => str_v(x),
        None => get_str_v(doc, camel),
    }
}

/// Whether the host reports the release and revision the service directory
/// advertises.
pub open spec fn version_agrees(reported: Option<JsonV>, release: Seq<char>, revision: Seq<char>) -> bool {
    match reported {
        Some(d) => reported_field(d, "release_id"@, "releaseId"@) == Some(release) && reported_field(
            d,
            "source_revision"@,
            "sourceRevision"@,
        ) == Some(revision),
        None => false,
    }
}

pub open spec fn version_error(endpoint: Seq<char>, release: Seq<char>, revision: Seq<char>) -> Seq<char> {
    endpoint + "/version"@ + " does not report the service-directory release "@ + release
        + " at revision "@ + revision
}

/// A version probe confirmed against the service directory: a probe that
/// was not ready stays as it is; otherwise it keeps what the host reported
/// under `weles_version`, and a disagreement makes it not ready, with an
/// error.
pub open spec fn version_check_spec(
    check: JsonV,
    reported: Option<JsonV>,
    endpoint: Seq<char>,
    release: Seq<char>,
    revision: Seq<char>,
) -> JsonV {
    if get_bool_v(check, "ready"@) != Some(true) {
        check
    } else {
        let judged = if version_agrees(reported, release, revision) {
            check
        } else {
            set_v(
                set_v(check, "ready"@, JsonV::Bool(false)),
                "error"@,
                JsonV::Str(version_error(endpoint, release, revision)),
            )
        };
        set_v(
            judged,
            "weles_version"@,
            match reported {
                Some(d) => d,
                None => JsonV::Null,
            },
        )
    }
}

fn reported_field_exec<'a>(doc: &'a Json, snake: &str, camel: &str) -> (r: Option<&'a str>)
    ensures
        match r {
            Some(s) => reported_field(doc@, snake@, camel@) == Some(s@),
            None => reported_field(doc@, snake@, camel@) is None,
        },
{
    match doc.get(snake) {
        Some(x) => x.as_str(),
        None => doc.get_str(camel),
    }
}

fn same_text(a: Option<&str>, b: &str) -> (r: bool)
    ensures
        r == (match a {
            Some(x) => x@ == b@,
            None => false,
        }),
{
    match a {
        Some(x) => str_eq(x, b),
        None => false,
    }
}

/// Independently confirm the deployed Weles release on the pinned host from
/// the version probe and the document it printed, if that was JSON.
pub fn version_check_outcome(check: Json, reported: Option<Json>, service: &RuntimeServiceIdentity) -> (r: Json)
    ensures
        r@ == version_check_spec(
            check@,
            match reported {
                Some(d) => Some(d@),
                None => None,
            },
            service.endpoint@,
            service.release_id@,
            service.source_revision@,
        ),
{
    let mut check = check;
    if check.get_bool("ready") != Some(true) {
        return check;
    }
    let agreed = match &reported {
        Some(d) => same_text(reported_field_exec(d, "release_id", "releaseId"), service.release_id.as_str())
            && same_text(
            reported_field_exec(d, "source_revision", "sourceRevision"),
            service.source_revision.as_str(),
        ),
        None => false,
    };
    if !agreed {
        check.set("ready", Json::Bool(false));
        let a = concat(service.endpoint.as_str(), "/version");
        let b = concat(a.as_str(), " does not report the service-directory release ");
        let c = concat(b.as_str(), service.release_id.as_str());
        let d = concat(c.as_str(), " at revision ");
        let e = concat(d.as_str(), service.source_revision.as_str());
        check.set("error", Json::Str(e));
    }
    let kept = match reported {
        Some(d) => d,
        None => Json::Null,
    };
    check.set("weles_version", kept);
    check
}

// ---------------------------------------------------------------------------
// The report

/// The service identity as a document, its fields in declaration order.
pub open spec fn identity_json_spec(id: RuntimeServiceIdentity) -> JsonV {
    JsonV::Object(
        seq![
            ("name"@, JsonV::Str(id.name@)),
            ("generation"@, JsonV::UInt(id.generation)),
            ("consumer"@, JsonV::Str(id.consumer@)),
            ("capability"@, JsonV::Str(id.capability@)),
            ("active_host"@, JsonV::Str(id.active_host@)),
            ("endpoint"@, JsonV::Str(id.endpoint@)),
            ("action"@, JsonV::Str(id.action@)),
            ("release_id"@, JsonV::Str(id.release_id@)),
            ("source_revision"@, JsonV::Str(id.source_revision@)),
        ],
    )
}

pub fn identity_json(id: &RuntimeServiceIdentity) -> (r: Json)
    ensures
        r@ == identity_json_spec(*id),
{
    broadcast use group_json_view;

    let mut fields: Vec<(String, Json)> = Vec::new();
    fields.push((String::from_str("name"), Json::Str(id.name.clone())));
    fields.push((String::from_str("generation"), Json::UInt(id.generation)));
    fields.push((String::from_str("consumer"), Json::Str(id.consumer.clone())));
    fields.push((String::from_str("capability"), Json::Str(id.capability.clone())));
    fields.push((String::from_str("active_host"), Json::Str(id.active_host.clone())));
    fields.push((String::from_str("endpoint"), Json::Str(id.endpoint.clone())));
    fields.push((String::from_str("action"), Json::Str(id.action.clone())));
    fields.push((String::from_str("release_id"), Json::Str(id.release_id.clone())));
    fields.push((String::from_str("source_revision"), Json::Str(id.source_revision.clone())));
    let r = Json::Object(fields);
    assert(view_obj(fields@) =~= seq![
        ("name"@, JsonV::Str(id.name@)),
        ("generation"@, JsonV::UInt(id.generation)),
        ("consumer"@, JsonV::Str(id.consumer@)),
        ("capability"@, JsonV::Str(id.capability@)),
        ("active_host"@, JsonV::Str(id.active_host@)),
        ("endpoint"@, JsonV::Str(id.endpoint@)),
        ("action"@, JsonV::Str(id.action@)),
        ("release_id"@, JsonV::Str(id.release_id@)),
        ("source_revision"@, JsonV::Str(id.source_revision@)),
    ]);
    r
}

pub open spec fn ready_check(c: JsonV) -> bool {
    get_bool_v(c, "ready"@) == Some(true)
}

/// The commands of the checks that timed out, in order.
pub open spec fn timed_out_commands(checks: Seq<JsonV>) -> Seq<JsonV>
    decreases checks.len(),
{
    if checks.len() == 0 {
        Seq::empty()
    } else {
        let before = timed_out_commands(checks.drop_last());
        let c = checks.last();
        if get_str_v(c, "outcome"@) == Some("timed_out"@) {
            match get_v(c, "command"@) {
                Some(command) => before.push(command),
                None => before,
            }
        } else {
            before
        }
    }
}

/// What a retryable preflight says of itself.
pub open spec fn timeout_diagnostic_spec(checks: Seq<JsonV>) -> JsonV {
    JsonV::Object(
        seq![
            ("code"@, JsonV::Str("host_probe_timed_out"@)),
            ("retryable"@, JsonV::Bool(true)),
            ("message"@, JsonV::Str(
                "host did not answer every capability probe before its hard deadline"@,
            )),
            ("timed_out_probes"@, JsonV::Array(timed_out_commands(checks))),
            ("timeout_seconds"@, JsonV::UInt(HOST_PROBE_TIMEOUT_SECONDS)),
        ],
    )
}

/// Whether a preflight is ready: every command probe answered, a desktop
/// host has a Cua Driver that is ready, and a web host's Weles release was
/// confirmed (a web crawl without an admission service is never ready).
pub open spec fn preflight_ready(
    engine: Seq<char>,
    commands: Seq<JsonV>,
    drivers: Seq<JsonV>,
    version: Option<JsonV>,
) -> bool {
    &&& forall|i: int| 0 <= i < commands.len() ==> ready_check(#[trigger] commands[i])
    &&& (engine != "desktop"@ || exists|i: int| 0 <= i < drivers.len() && ready_check(#[trigger] drivers[i]))
    &&& (engine != "web"@ || match version {
        Some(v) => ready_check(v),
        None => false,
    })
}

/// Every retained check of a preflight: the command probes, the driver
/// probes, then the version probe.
pub open spec fn all_checks(commands: Seq<JsonV>, drivers: Seq<JsonV>, version: Option<JsonV>) -> Seq<JsonV> {
    commands + drivers + match version {
        Some(v) => seq![v],
        None => Seq::empty(),
    }
}

/// The preflight report of a host for one catalog.
pub open spec fn preflight_report_spec(
    catalog: Seq<char>,
    engine: Seq<char>,
    host: Seq<char>,
    commands: Seq<JsonV>,
    drivers: Seq<JsonV>,
    version: Option<JsonV>,
    service: Option<JsonV>,
) -> JsonV {
    let checks = all_checks(commands, drivers, version);
    let ready = preflight_ready(engine, commands, drivers, version);
    let retryable = !ready && preflight_retryable_spec(
        JsonV::Object(seq![("checks"@, JsonV::Array(checks))]),
    );
    JsonV::Object(
        seq![
            ("schema"@, JsonV::Str("wisent.crawl-host-preflight.v2"@)),
            ("catalog"@, JsonV::Str(catalog)),
            ("engine"@, JsonV::Str(engine)),
            ("host"@, JsonV::Str(host)),
            ("ready"@, JsonV::Bool(ready)),
            ("retryable"@, JsonV::Bool(retryable)),
            ("diagnostic"@, if retryable {
                timeout_diagnostic_spec(checks)
            } else {
                JsonV::Null
            }),
            ("checks"@, JsonV::Array(checks)),
            ("service_identity"@, match service {
                Some(s) => s,
                None => JsonV::Null,
            }),
        ],
    )
}

fn all_ready(checks: &Vec<Json>) -> (r: bool)
    ensures
        r == forall|i: int| 0 <= i < checks@.len() ==> ready_check(#[trigger] view_arr(checks@)[i]),
{
    broadcast use group_json_view;

    proof {
        crate::json::lemma_view_arr(checks@);
    }
    let ghost v = view_arr(checks@);
    let mut i: usize = 0;
    while i < checks.len()
        invariant
            i <= checks@.len(),
            v == view_arr(checks@),
            v.len() == checks@.len(),
            forall|j: int| 0 <= j < checks@.len() ==> #[trigger] v[j] == checks@[j]@,
            forall|j: int| 0 <= j < i ==> ready_check(#[trigger] v[j]),
        decreases checks.len() - i,
    {
        assert(v[i as int] == checks@[i as int]@);
        if checks[i].get_bool("ready") != Some(true) {
            return false;
        }
        i = i + 1;
    }
    true
}

fn any_ready(checks: &Vec<Json>) -> (r: bool)
    ensures
        r == exists|i: int| 0 <= i < checks@.len() && ready_check(#[trigger] view_arr(checks@)[i]),
{
    broadcast use group_json_view;

    proof {
        crate::json::lemma_view_arr(checks@);
    }
    let ghost v = view_arr(checks@);
    let mut i: usize = 0;
    while i < checks.len()
        invariant
            i <= checks@.len(),
            v == view_arr(checks@),
            v.len() == checks@.len(),
            forall|j: int| 0 <= j < checks@.len() ==> #[trigger] v[j] == checks@[j]@,
            forall|j: int| 0 <= j < i ==> !ready_check(#[trigger] v[j]),
        decreases checks.len() - i,
    {
        assert(v[i as int] == checks@[i as int]@);
        if checks[i].get_bool("ready") == Some(true) {
            return true;
        }
        i = i + 1;
    }
    false
}

fn timed_out_probes(checks: &Vec<Json>) -> (r: Vec<Json>)
    ensures
        view_arr(r@) == timed_out_commands(view_arr(checks@)),
{
    broadcast use group_json_view;

    proof {
        crate::json::lemma_view_arr(checks@);
    }
    let ghost v = view_arr(checks@);
    let mut out: Vec<Json> = Vec::new();
    let mut i: usize = 0;
    while i < checks.len()
        invariant
            i <= checks@.len(),
            v == view_arr(checks@),
            v.len() == checks@.len(),
            forall|j: int| 0 <= j < checks@.len() ==> #[trigger] v[j] == checks@[j]@,
            view_arr(out@) == timed_out_commands(v.take(i as int)),
        decreases checks.len() - i,
    {
        proof {
            assert(v.take(i + 1).drop_last() =~= v.take(i as int));
            assert(v.take(i + 1).last() == checks@[i as int]@);
            crate::json::lemma_view_arr(out@);
        }
        let timed_out = match checks[i].get_str("outcome") {
            Some(o) => str_eq(o, "timed_out"),
            None => false,
        };
        if timed_out {
            match checks[i].get("command") {
                Some(command) => {
                    let ghost before = out@;
                    out.push(command.duplicate());
                    proof {
                        crate::json::lemma_view_arr(out@);
                        assert(view_arr(out@) =~= view_arr(before).push(command@));
                    }
                },
                None => {},
            }
        }
        i = i + 1;
    }
    assert(v.take(checks@.len() as int) =~= v);
    out
}

/// Assemble a host's preflight report from the answers to its probes: the
/// command probes of `preflight_commands`, the Cua Driver probes (a desktop
/// preflight's only), and the confirmed version probe (a web preflight's
/// only, when the registry names an admission service).
pub fn host_preflight_report(
    catalog: &str,
    engine: &str,
    host: &str,
    command_checks: Vec<Json>,
    driver_checks: Vec<Json>,
    version_check: Option<Json>,
    service_identity: Option<&RuntimeServiceIdentity>,
) -> (r: Json)
    ensures
        r@ == preflight_report_spec(
            catalog@,
            engine@,
            host@,
            view_arr(command_checks@),
            view_arr(driver_checks@),
            match version_check {
                Some(v) => Some(v@),
                None => None,
            },
            match service_identity {
                Some(s) => Some(identity_json_spec(*s)),
                None => None,
            },
        ),
{
    broadcast use group_json_view;

    let ghost cv = view_arr(command_checks@);
    let ghost dv = view_arr(driver_checks@);
    let ghost vv = match &version_check {
        Some(v) => Some(v@),
        None => None,
    };
    let commands_ready = all_ready(&command_checks);
    let drivers_ready = if str_eq(engine, "desktop") {
        any_ready(&driver_checks)
    } else {
        true
    };
    let admission = if str_eq(engine, "web") {
        match &version_check {
            Some(v) => v.get_bool("ready") == Some(true),
            None => false,
        }
    } else {
        true
    };
    let ready = commands_ready && drivers_ready && admission;
    let mut checks = command_checks;
    let mut drivers = driver_checks;
    proof {
        crate::json::lemma_view_arr(checks@);
        crate::json::lemma_view_arr(drivers@);
    }
    checks.append(&mut drivers);
    match version_check {
        Some(v) => checks.push(v),
        None => {},
    }
    proof {
        crate::json::lemma_view_arr(checks@);
        assert(view_arr(checks@) =~= all_checks(cv, dv, vv));
    }
    let ghost checks_v = view_arr(checks@);
    let mut wrapper: Vec<(String, Json)> = Vec::new();
    wrapper.push((String::from_str("checks"), Json::Array(checks)));
    let report = Json::Object(wrapper);
    assert(view_obj(wrapper@) =~= seq![("checks"@, JsonV::Array(checks_v))]);
    let retryable = !ready && crate::host::host_preflight_is_retryable(&report);
    let checks = match report {
        Json::Object(mut fields) => {
            let (_, c) = fields.remove(0);
            c
        },
        _ => Json::Array(Vec::new()),
    };
    let diagnostic = if retryable {
        let probes = match &checks {
            Json::Array(items) => timed_out_probes(items),
            _ => Vec::new(),
        };
        let mut d: Vec<(String, Json)> = Vec::new();
        d.push((String::from_str("code"), jstr("host_probe_timed_out")));
        d.push((String::from_str("retryable"), Json::Bool(true)));
        d.push(
            (
                String::from_str("message"),
                jstr("host did not answer every capability probe before its hard deadline"),
            ),
        );
        let ghost pv = view_arr(probes@);
        d.push((String::from_str("timed_out_probes"), Json::Array(probes)));
        d.push((String::from_str("timeout_seconds"), Json::UInt(HOST_PROBE_TIMEOUT_SECONDS)));
        assert(view_obj(d@) =~= seq![
            ("code"@, JsonV::Str("host_probe_timed_out"@)),
            ("retryable"@, JsonV::Bool(true)),
            ("message"@, JsonV::Str(
                "host did not answer every capability probe before its hard deadline"@,
            )),
            ("timed_out_probes"@, JsonV::Array(pv)),
            ("timeout_seconds"@, JsonV::UInt(HOST_PROBE_TIMEOUT_SECONDS)),
        ]);
        Json::Object(d)
    } else {
        Json::Null
    };
    let service = match service_identity {
        Some(s) => identity_json(s),
        None => Json::Null,
    };
    let ghost diag_v = diagnostic@;
    let ghost service_v = service@;
    let mut fields: Vec<(String, Json)> = Vec::new();
    fields.push((String::from_str("schema"), jstr("wisent.crawl-host-preflight.v2")));
    fields.push((String::from_str("catalog"), jstr(catalog)));
    fields.push((String::from_str("engine"), jstr(engine)));
    fields.push((String::from_str("host"), jstr(host)));
    fields.push((String::from_str("ready"), Json::Bool(ready)));
    fields.push((String::from_str("retryable"), Json::Bool(retryable)));
    fields.push((String::from_str("diagnostic"), diagnostic));
    fields.push((String::from_str("checks"), checks));
    fields.push((String::from_str("service_identity"), service));
    let r = Json::Object(fields);
    assert(view_obj(fields@) =~= seq![
        ("schema"@, JsonV::Str("wisent.crawl-host-preflight.v2"@)),
        ("catalog"@, JsonV::Str(catalog@)),
        ("engine"@, JsonV::Str(engine@)),
        ("host"@, JsonV::Str(host@)),
        ("ready"@, JsonV::Bool(ready)),
        ("retryable"@, JsonV::Bool(retryable)),
        ("diagnostic"@, diag_v),
        ("checks"@, JsonV::Array(checks_v)),
        ("service_identity"@, service_v),
    ]);
    let ghost sv = match service_identity {
        Some(s) => Some(identity_json_spec(*s)),
        None => None,
    };
    let ghost sp = preflight_report_spec(catalog@, engine@, host@, cv, dv, vv, sv);
    assert(sp->Object_0 =~= view_obj(fields@));
    r
}

// ---------------------------------------------------------------------------
// The catalog's retained preflight

/// Whether a catalog must preflight its host again: it has no preflight
/// yet, or the one it kept may be retried.
pub open spec fn preflight_needed_spec(existing: JsonV) -> bool {
    existing is Null || preflight_retryable_spec(existing)
}

pub fn preflight_needed(existing: &Json) -> (r: bool)
    ensures
        r == preflight_needed_spec(existing@),
{
    existing.is_null() || crate::host::host_preflight_is_retryable(existing)
}

/// Keep a fresh preflight on a catalog entry unless another process already
/// kept one that is final; says whether it was kept.
pub fn retain_host_preflight(catalog: &mut Json, observed: Json) -> (r: bool)
    requires
        crate::json::settable_v(old(catalog)@),
    ensures
        ({
            let current = crate::report::field_or_null(old(catalog)@, "host_preflight"@);
            if preflight_needed_spec(current) {
                r && final(catalog)@ == set_v(
                    set_v(old(catalog)@, "host_preflight"@, observed@),
                    "state"@,
                    JsonV::Str("preflighting"@),
                )
            } else {
                !r && final(catalog)@ == old(catalog)@
            }
        }),
{
    broadcast use group_json_view;

    let needed = match catalog.get("host_preflight") {
        Some(current) => preflight_needed(current),
        None => true,
    };
    if !needed {
        return false;
    }
    catalog.set("host_preflight", observed);
    catalog.set("state", jstr("preflighting"));
    true
}

} // verus!
