use serde_json::Value;
use spis::json::Json;
use spis::preflight::{
    desktop_driver_probes, host_preflight_report, identity_json, preflight_commands,
    preflight_needed, retain_host_preflight,
    version_check_outcome, version_probe, version_report_text, HOST_PROBE_TIMEOUT_SECONDS,
};
use spis::registry::RuntimeServiceIdentity;

fn j(text: &str) -> Json {
    from_value(&serde_json::from_str(text).expect("test JSON parses"))
}

fn from_value(value: &Value) -> Json {
    match value {
        Value::Null => Json::Null,
        Value::Bool(b) => Json::Bool(*b),
        Value::Number(n) => {
            if let Some(u) = n.as_u64() {
                Json::UInt(u)
            } else if let Some(i) = n.as_i64() {
                Json::NegInt(i)
            } else {
                Json::Float(n.to_string())
            }
        }
        Value::String(s) => Json::Str(s.clone()),
        Value::Array(items) => Json::Array(items.iter().map(from_value).collect()),
        Value::Object(map) => Json::Object(
            map.iter()
                .map(|(k, v)| (k.clone(), from_value(v)))
                .collect(),
        ),
    }
}

fn v(json: &Json) -> Value {
    match json {
        Json::Null => Value::Null,
        Json::Bool(b) => Value::Bool(*b),
        Json::UInt(u) => Value::from(*u),
        Json::NegInt(i) => Value::from(*i),
        Json::Float(text) => serde_json::from_str(text).expect("a decimal number"),
        Json::Str(s) => Value::String(s.clone()),
        Json::Array(items) => Value::Array(items.iter().map(v).collect()),
        Json::Object(fields) => {
            let mut map = serde_json::Map::new();
            for (key, value) in fields {
                map.entry(key.clone()).or_insert_with(|| v(value));
            }
            Value::Object(map)
        }
    }
}

const REVISION: &str = "0123456789abcdef0123456789abcdef01234567";

fn service() -> RuntimeServiceIdentity {
    RuntimeServiceIdentity {
        name: "weles-admission".to_string(),
        generation: 3,
        consumer: "spis".to_string(),
        capability: "browser-evidence".to_string(),
        active_host: "forge".to_string(),
        endpoint: "https://weles.example/api/v1".to_string(),
        action: "generic_browser_task".to_string(),
        release_id: "weles-worker@1.2.3".to_string(),
        source_revision: REVISION.to_string(),
    }
}

fn words(commands: &[Vec<&str>]) -> Vec<String> {
    commands.iter().map(|c| c.join(" ")).collect()
}

#[test]
fn preflight_asks_for_the_host_name_and_space_first() {
    assert_eq!(
        words(&preflight_commands("tui", "tui-examples")),
        vec!["hostname -f", "df -h", "cargo --version", "tmux -V", "git --version"]
    );
    assert_eq!(
        words(&preflight_commands("desktop", "desktop-app-examples")),
        vec!["hostname -f", "df -h", "cargo --version"]
    );
    assert_eq!(
        words(&preflight_commands("mobile", "ios-app-examples")),
        vec![
            "hostname -f",
            "df -h",
            "cargo --version",
            "appium --version",
            "appium driver list --installed",
            "xcrun simctl list devices available",
        ]
    );
    assert_eq!(
        words(&desktop_driver_probes()),
        vec![
            "/Applications/CuaDriver.app/Contents/MacOS/cua-driver doctor --json",
            "/Applications/CuaDriver.app/Contents/MacOS/CuaDriver doctor --json",
        ]
    );
}

#[test]
fn version_probe_refuses_redirects() {
    assert_eq!(
        version_probe(&service()).join(" "),
        "curl --fail --silent --show-error --max-redirs 0 --max-time 20 --header Accept: application/json https://weles.example/api/v1/version"
    );
    assert_eq!(
        version_report_text(&j(r#"{"stdout": "  {\"a\": 1}\n"}"#)),
        Some("{\"a\": 1}".to_string())
    );
    assert_eq!(version_report_text(&j(r#"{"ready": true}"#)), None);
}

#[test]
fn agreeing_release_is_kept() {
    let check = j(r#"{"ready": true, "stdout": "x"}"#);
    let reported = j(&format!(r#"{{"releaseId": "weles-worker@1.2.3", "source_revision": "{REVISION}"}}"#));
    let out = v(&version_check_outcome(check, Some(reported), &service()));
    assert_eq!(out["ready"], Value::Bool(true));
    assert_eq!(out["weles_version"]["releaseId"], Value::from("weles-worker@1.2.3"));
    assert!(out.get("error").is_none());
}

#[test]
fn disagreeing_release_is_refused() {
    let check = j(r#"{"ready": true, "stdout": "x"}"#);
    let reported = j(&format!(r#"{{"release_id": "weles-worker@1.2.4", "source_revision": "{REVISION}"}}"#));
    let out = v(&version_check_outcome(check, Some(reported), &service()));
    assert_eq!(out["ready"], Value::Bool(false));
    assert_eq!(
        out["error"],
        Value::from(format!(
            "https://weles.example/api/v1/version does not report the service-directory release weles-worker@1.2.3 at revision {REVISION}"
        ))
    );
    let out = v(&version_check_outcome(j(r#"{"ready": true}"#), None, &service()));
    assert_eq!(out["ready"], Value::Bool(false));
    assert_eq!(out["weles_version"], Value::Null);
}

#[test]
fn unready_version_probe_is_left_alone() {
    let out = v(&version_check_outcome(j(r#"{"ready": false, "stderr": "boom"}"#), None, &service()));
    assert_eq!(out, serde_json::from_str::<Value>(r#"{"ready": false, "stderr": "boom"}"#).unwrap());
}

#[test]
fn service_identity_document_has_every_field() {
    let doc = v(&identity_json(&service()));
    assert_eq!(doc["name"], Value::from("weles-admission"));
    assert_eq!(doc["generation"], Value::from(3u64));
    assert_eq!(doc["source_revision"], Value::from(REVISION));
    assert_eq!(doc.as_object().unwrap().len(), 9);
}

fn ready(command: &str) -> Json {
    j(&format!(r#"{{"command": ["{command}"], "ready": true}}"#))
}

#[test]
fn ready_preflight_report() {
    let report = v(&host_preflight_report(
        "cli-examples",
        "cli",
        "box",
        vec![ready("hostname"), ready("df")],
        Vec::new(),
        None,
        None,
    ));
    assert_eq!(report["schema"], Value::from("wisent.crawl-host-preflight.v2"));
    assert_eq!(report["catalog"], Value::from("cli-examples"));
    assert_eq!(report["engine"], Value::from("cli"));
    assert_eq!(report["host"], Value::from("box"));
    assert_eq!(report["ready"], Value::Bool(true));
    assert_eq!(report["retryable"], Value::Bool(false));
    assert_eq!(report["diagnostic"], Value::Null);
    assert_eq!(report["checks"].as_array().unwrap().len(), 2);
    assert_eq!(report["service_identity"], Value::Null);
}

#[test]
fn web_preflight_without_admission_service_is_not_ready() {
    let report = v(&host_preflight_report(
        "web-examples",
        "web",
        "forge",
        vec![ready("hostname")],
        Vec::new(),
        None,
        None,
    ));
    assert_eq!(report["ready"], Value::Bool(false));
    assert_eq!(report["retryable"], Value::Bool(false));
    let confirmed = version_check_outcome(
        j(r#"{"ready": true}"#),
        Some(j(&format!(r#"{{"release_id": "weles-worker@1.2.3", "source_revision": "{REVISION}"}}"#))),
        &service(),
    );
    let report = v(&host_preflight_report(
        "web-examples",
        "web",
        "forge",
        vec![ready("hostname")],
        Vec::new(),
        Some(confirmed),
        Some(&service()),
    ));
    assert_eq!(report["ready"], Value::Bool(true));
    assert_eq!(report["checks"].as_array().unwrap().len(), 2);
    assert_eq!(report["service_identity"]["active_host"], Value::from("forge"));
}

#[test]
fn desktop_preflight_needs_one_ready_driver() {
    let unready = j(r#"{"command": ["driver"], "ready": false}"#);
    let report = v(&host_preflight_report(
        "desktop-app-examples",
        "desktop",
        "mac",
        vec![ready("hostname")],
        vec![unready.duplicate(), ready("driver")],
        None,
        None,
    ));
    assert_eq!(report["ready"], Value::Bool(true));
    let report = v(&host_preflight_report(
        "desktop-app-examples",
        "desktop",
        "mac",
        vec![ready("hostname")],
        vec![unready.duplicate(), unready],
        None,
        None,
    ));
    assert_eq!(report["ready"], Value::Bool(false));
    assert_eq!(report["checks"].as_array().unwrap().len(), 3);
}

#[test]
fn timed_out_preflight_is_retryable() {
    let timed_out = j(r#"{"command": ["df", "-h"], "outcome": "timed_out", "ready": false,
        "diagnostic": {"retryable": true}}"#);
    let report = v(&host_preflight_report(
        "cli-examples",
        "cli",
        "box",
        vec![ready("hostname"), timed_out],
        Vec::new(),
        None,
        None,
    ));
    assert_eq!(report["ready"], Value::Bool(false));
    assert_eq!(report["retryable"], Value::Bool(true));
    assert_eq!(report["diagnostic"]["code"], Value::from("host_probe_timed_out"));
    assert_eq!(report["diagnostic"]["timed_out_probes"], serde_json::from_str::<Value>(r#"[["df", "-h"]]"#).unwrap());
    assert_eq!(report["diagnostic"]["timeout_seconds"], Value::from(HOST_PROBE_TIMEOUT_SECONDS));
    assert_eq!(HOST_PROBE_TIMEOUT_SECONDS, 30);
}

#[test]
fn retained_preflight_is_kept_unless_retryable() {
    assert!(preflight_needed(&j("null")));
    assert!(preflight_needed(&j(r#"{"checks": [{"diagnostic": {"retryable": true}}]}"#)));
    assert!(!preflight_needed(&j(r#"{"ready": true, "checks": []}"#)));
    let mut fresh = j(r#"{"catalog": "cli-examples", "host_preflight": null, "state": "planned"}"#);
    assert!(retain_host_preflight(&mut fresh, j(r#"{"ready": true}"#)));
    let fresh = v(&fresh);
    assert_eq!(fresh["state"], Value::from("preflighting"));
    assert_eq!(fresh["host_preflight"]["ready"], Value::Bool(true));
    let mut kept = j(r#"{"host_preflight": {"ready": false, "checks": []}, "state": "unavailable"}"#);
    assert!(!retain_host_preflight(&mut kept, j(r#"{"ready": true}"#)));
    assert_eq!(v(&kept)["state"], Value::from("unavailable"));
}
