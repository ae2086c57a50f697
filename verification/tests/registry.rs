use serde_json::Value;
use spis::json::Json;
use spis::registry::{
    canonical_api_endpoint, host_for, is_git_revision, pointer, registry_placements,
    weles_service_identity, RegistryError,
};

fn j(text: &str) -> Json {
    from_value(&serde_json::from_str(text).expect("test JSON parses"))
}

fn from_value(value: &Value) -> Json {
    match value {
        Value::Null => Json::Null,
        Value::Bool(b) => Json::Bool(*b),
        Value::Number(n) => {
            if let Some(u) = n.as_u64() {
                Json::UInt(u)
            } else if let Some(i) = n.as_i64() {
                Json::NegInt(i)
            } else {
                Json::Float(n.to_string())
            }
        }
        Value::String(s) => Json::Str(s.clone()),
        Value::Array(items) => Json::Array(items.iter().map(from_value).collect()),
        Value::Object(map) => Json::Object(
            map.iter()
                .map(|(k, v)| (k.clone(), from_value(v)))
                .collect(),
        ),
    }
}

const REVISION: &str = "0123456789abcdef0123456789abcdef01234567";

fn registry() -> String {
    format!(
        r#"{{
        "targets": [
            {{"name": "box", "role": "always-on", "weles": {{"enabled": false}}}},
            {{"name": "forge", "role": "always-on", "weles": {{"enabled": true, "actions": ["generic_browser_task"]}}}},
            {{"name": "mac", "mobile_runtime": {{"drivers": ["xcuitest"]}}}},
            {{"name": "pixel", "mobile_runtime": {{"drivers": ["espresso", "uiautomator2"]}}}}
        ],
        "service_directory": {{
            "generation": 7,
            "services": {{
                "weles-admission": {{
                    "active_host": "forge",
                    "consumers": {{"spis": {{"capabilities": ["browser-evidence"]}}}},
                    "endpoints": {{"forge": {{"url": "https://weles.example/api/v1",
                        "release_id": "weles-worker@1.2.3", "source_revision": "{REVISION}"}}}}
                }}
            }}
        }}
    }}"#
    )
}

fn pairs(items: &[(&str, &str)]) -> Vec<(String, String)> {
    items
        .iter()
        .map(|(k, v)| (k.to_string(), v.to_string()))
        .collect()
}

#[test]
fn pointer_walks_objects_and_arrays() {
    let doc = j(r#"{"a": {"b/c": [10, {"~k": true}]}}"#);
    assert!(matches!(pointer(&doc, "/a/b~1c/0"), Some(Json::UInt(10))));
    assert!(matches!(pointer(&doc, "/a/b~1c/1/~0k"), Some(Json::Bool(true))));
    assert!(pointer(&doc, "").is_some());
    assert!(pointer(&doc, "a").is_none());
    assert!(pointer(&doc, "/a/b~1c/01").is_none());
    assert!(pointer(&doc, "/a/b~1c/2").is_none());
    assert!(pointer(&doc, "/missing").is_none());
}

#[test]
fn canonical_endpoints_are_bare_api_bases() {
    assert!(canonical_api_endpoint("https://w.example/api/v1"));
    assert!(canonical_api_endpoint("http://w.example:8080/api/v1"));
    assert!(!canonical_api_endpoint("https://W.example/api/v1"));
    assert!(!canonical_api_endpoint("https://user:pw@w.example/api/v1"));
    assert!(!canonical_api_endpoint("https://w.example/api/v2"));
    assert!(!canonical_api_endpoint("https://w.example/api/v1?x=1"));
    assert!(!canonical_api_endpoint("ftp://w.example/api/v1"));
    assert!(!canonical_api_endpoint("not a url"));
}

#[test]
fn git_revisions_are_forty_lowercase_hex_digits() {
    assert!(is_git_revision(REVISION));
    assert!(!is_git_revision(&REVISION.to_uppercase()));
    assert!(!is_git_revision(&REVISION[1..]));
    assert!(!is_git_revision("g123456789abcdef0123456789abcdef01234567"));
}

#[test]
fn registry_places_every_boundary() {
    let (placements, identity) = registry_placements(&j(&registry())).expect("targets");
    assert_eq!(
        placements,
        pairs(&[
            ("android-app-examples", "pixel"),
            ("cli", "box"),
            ("desktop", "forge"),
            ("docs", "box"),
            ("ios-app-examples", "mac"),
            ("tui", "box"),
            ("web", "forge"),
        ])
    );
    let identity = identity.expect("the admission service");
    assert_eq!(identity.name, "weles-admission");
    assert_eq!(identity.generation, 7);
    assert_eq!(identity.consumer, "spis");
    assert_eq!(identity.capability, "browser-evidence");
    assert_eq!(identity.active_host, "forge");
    assert_eq!(identity.endpoint, "https://weles.example/api/v1");
    assert_eq!(identity.action, "generic_browser_task");
    assert_eq!(identity.release_id, "weles-worker@1.2.3");
    assert_eq!(identity.source_revision, REVISION);
}

#[test]
fn registry_without_targets_is_refused() {
    assert!(matches!(
        registry_placements(&j(r#"{"service_directory": {}}"#)),
        Err(RegistryError::NoTargets)
    ));
    assert!(matches!(
        registry_placements(&j(r#"{"targets": {}}"#)),
        Err(RegistryError::NoTargets)
    ));
    assert_eq!(
        RegistryError::NoTargets.message(),
        "Stado registry has no targets"
    );
}

#[test]
fn empty_registry_places_nothing() {
    let (placements, identity) = registry_placements(&j(r#"{"targets": []}"#)).expect("targets");
    assert!(placements.is_empty());
    assert!(identity.is_none());
}

#[test]
fn service_falls_back_to_its_own_release_and_revision() {
    let text = registry().replace(
        r#""release_id": "weles-worker@1.2.3", "source_revision": "0123456789abcdef0123456789abcdef01234567""#,
        r#""other": 1"#,
    );
    let mut doc: Value = serde_json::from_str(&text).unwrap();
    let service = doc
        .pointer_mut("/service_directory/services/weles-admission")
        .unwrap();
    service["release_id"] = Value::from("weles-worker@9");
    service["source_revision"] = Value::from(REVISION);
    let registry = from_value(&doc);
    let targets = match &registry {
        Json::Object(fields) => match &fields.iter().find(|(k, _)| k == "targets").unwrap().1 {
            Json::Array(items) => items,
            _ => unreachable!(),
        },
        _ => unreachable!(),
    };
    let identity = weles_service_identity(&registry, targets).expect("identity");
    assert_eq!(identity.release_id, "weles-worker@9");
}

#[test]
fn service_without_a_pinned_release_is_not_bound() {
    let text = registry().replace("weles-worker@1.2.3", "weles-worker@");
    let (placements, identity) = registry_placements(&j(&text)).expect("targets");
    assert!(identity.is_none());
    assert!(!placements.iter().any(|(k, _)| k == "web"));
}

#[test]
fn service_on_a_host_without_browser_tasks_is_not_bound() {
    let text = registry().replace(r#""actions": ["generic_browser_task"]"#, r#""actions": []"#);
    let (_, identity) = registry_placements(&j(&text)).expect("targets");
    assert!(identity.is_none());
    let text = registry().replace("https://weles.example/api/v1", "https://weles.example/api/v1/");
    let (_, identity) = registry_placements(&j(&text)).expect("targets");
    assert!(identity.is_none());
}

#[test]
fn explicit_hosts_win_over_discovered_ones() {
    let discovered = pairs(&[("web", "forge"), ("cli", "box")]);
    let explicit = pairs(&[("web", "lab"), ("*", "any")]);
    assert_eq!(host_for("web-examples", "web", &explicit, &discovered), Ok("lab".to_string()));
    let by_catalog = pairs(&[("web-examples", "cat"), ("web", "lab")]);
    assert_eq!(host_for("web-examples", "web", &by_catalog, &discovered), Ok("cat".to_string()));
    assert_eq!(host_for("cli-examples", "cli", &explicit, &discovered), Ok("any".to_string()));
    assert_eq!(host_for("cli-examples", "cli", &Vec::new(), &discovered), Ok("box".to_string()));
    assert_eq!(
        host_for("tui-examples", "tui", &Vec::new(), &discovered),
        Err("no Stado host advertises the tui execution boundary for tui-examples; pass --host tui=TARGET after registering that capability".to_string())
    );
}
