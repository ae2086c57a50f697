use serde_json::Value;
use spis::json::Json;
use spis::readiness::{
    device_lease, digest_unchanged, is_https_identity, product_check, ready_record, record_gate,
    unresolved_record, ProductCheck, ProductCheckError,
};

fn j(text: &str) -> Json {
    from_value(&serde_json::from_str(text).expect("test JSON parses"))
}

fn from_value(value: &Value) -> Json {
    match value {
        Value::Null => Json::Null,
        Value::Bool(b) => Json::Bool(*b),
        Value::Number(n) => {
            if let Some(u) = n.as_u64() {
                Json::UInt(u)
            } else if let Some(i) = n.as_i64() {
                Json::NegInt(i)
            } else {
                Json::Float(n.to_string())
            }
        }
        Value::String(s) => Json::Str(s.clone()),
        Value::Array(items) => Json::Array(items.iter().map(from_value).collect()),
        Value::Object(map) => Json::Object(
            map.iter()
                .map(|(k, v)| (k.clone(), from_value(v)))
                .collect(),
        ),
    }
}

fn v(json: &Json) -> Value {
    match json {
        Json::Null => Value::Null,
        Json::Bool(b) => Value::Bool(*b),
        Json::UInt(u) => Value::from(*u),
        Json::NegInt(i) => Value::from(*i),
        Json::Float(text) => serde_json::from_str(text).expect("a decimal number"),
        Json::Str(s) => Value::String(s.clone()),
        Json::Array(items) => Value::Array(items.iter().map(v).collect()),
        Json::Object(fields) => {
            let mut map = serde_json::Map::new();
            for (key, value) in fields {
                map.entry(key.clone()).or_insert_with(|| v(value));
            }
            Value::Object(map)
        }
    }
}

fn probe_words(check: Result<ProductCheck, ProductCheckError>) -> String {
    match check {
        Ok(ProductCheck::Probe(words)) => words.join(" "),
        Ok(ProductCheck::Declared(_)) => panic!("a probe"),
        Err(e) => panic!("a probe, not {e:?}"),
    }
}

#[test]
fn record_gate_needs_a_ready_host_and_a_bound_service() {
    let unready = v(&record_gate("acme", &j(r#"{"ready": false}"#), "cli", false).expect("refused"));
    assert_eq!(unready["schema"], Value::from("wisent.crawl-record-preflight.v2"));
    assert_eq!(unready["record"], Value::from("acme"));
    assert_eq!(unready["ready"], Value::Bool(false));
    assert_eq!(unready["diagnostic"]["code"], Value::from("host_unavailable"));
    assert_eq!(unready["checks"], Value::Array(vec![]));
    let unbound = v(&record_gate("acme", &j(r#"{"ready": true}"#), "web", false).expect("refused"));
    assert_eq!(unbound["diagnostic"]["code"], Value::from("weles_service_identity_unbound"));
    assert!(record_gate("acme", &j(r#"{"ready": true}"#), "web", true).is_none());
    assert!(record_gate("acme", &j(r#"{"ready": true}"#), "cli", false).is_none());
}

#[test]
fn product_checks_by_kind() {
    assert_eq!(
        probe_words(product_check("ios-bundle", "com.example.app", "mobile", Some("U1"), None)),
        "xcrun simctl get_app_container U1 com.example.app app"
    );
    assert_eq!(
        probe_words(product_check("android-package", "com.example", "mobile", Some("S1"), None)),
        "adb -s S1 shell pm path com.example"
    );
    assert_eq!(
        probe_words(product_check("desktop-bundle", "com.o'neil.app", "desktop", None, None)),
        "mdfind kMDItemCFBundleIdentifier == 'com.o\\'neil.app'"
    );
    assert_eq!(
        probe_words(product_check("tui-binary", "tool", "tui", None, Some("/usr/bin/tool"))),
        "shasum -a 256 /usr/bin/tool"
    );
    assert!(matches!(product_check("ios-bundle", "x", "mobile", None, None), Err(ProductCheckError::NoDevice)));
    assert!(matches!(product_check("cli-binary", "x", "cli", None, None), Err(ProductCheckError::NoExecutable)));
    assert!(matches!(product_check("tui-slug", "x", "tui", None, None), Err(ProductCheckError::UnsupportedKind)));
}

#[test]
fn url_products_declare_themselves() {
    match product_check("url", "https://docs.example.com/guide", "docs", None, None) {
        Ok(ProductCheck::Declared(check)) => {
            let check = v(&check);
            assert_eq!(check["command"], Value::Array(vec![]));
            assert_eq!(check["ready"], Value::Bool(true));
            assert_eq!(check["stdout"], Value::from("https://docs.example.com/guide"));
            assert_eq!(check["network_policy_owner"], Value::from("docs"));
            assert_eq!(check["declared_url"], Value::from("https://docs.example.com/guide"));
        }
        _ => panic!("a declared URL"),
    }
    assert!(matches!(product_check("url", "http://docs.example.com", "docs", None, None), Err(ProductCheckError::InvalidUrl)));
    assert!(matches!(product_check("url", "https://u:p@docs.example.com", "docs", None, None), Err(ProductCheckError::InvalidUrl)));
    assert!(is_https_identity("https://example.com"));
    assert!(!is_https_identity("https://user@example.com"));
    assert!(!is_https_identity("not a url"));
}

#[test]
fn terminal_digest_and_lease() {
    assert!(digest_unchanged("abc  /usr/bin/tool\n", Some("abc")));
    assert!(!digest_unchanged("abd /usr/bin/tool", Some("abc")));
    assert!(!digest_unchanged("abc", None));
    assert_eq!(device_lease("mac", Some("U1"), "com.example"), "stado-exclusive://mac/U1");
    assert_eq!(device_lease("box", None, "tool"), "stado-exclusive://box/tool");
}

#[test]
fn record_preflight_documents() {
    let ready = v(&ready_record(
        "acme",
        j(r#"{"kind": "url"}"#),
        j(r#"{"mode": "anonymous"}"#),
        j(r#"{"host": "box"}"#),
        Json::Null,
        Json::Null,
        vec![j(r#"{"ready": true}"#)],
    ));
    assert_eq!(ready["ready"], Value::Bool(true));
    assert_eq!(ready["runtime_product"]["kind"], Value::from("url"));
    assert_eq!(ready["execution_identity"]["host"], Value::from("box"));
    assert_eq!(ready["checks"].as_array().unwrap().len(), 1);
    let failed = v(&unresolved_record("acme", j(r#"{"kind": "url"}"#), Json::Null, "boom"));
    assert_eq!(failed["ready"], Value::Bool(false));
    assert_eq!(failed["diagnostic"]["code"], Value::from("runtime_identity_or_readiness_unavailable"));
    assert_eq!(failed["diagnostic"]["message"], Value::from("boom"));
}
