use serde_json::Value;
use spis::json::Json;
use spis::record_binding::{runtime_binding, secret_reference_valid, BindingRefusal};

fn j(text: &str) -> Json {
    from_value(&serde_json::from_str(text).expect("test JSON parses"))
}

fn from_value(value: &Value) -> Json {
    match value {
        Value::Null => Json::Null,
        Value::Bool(b) => Json::Bool(*b),
        Value::Number(n) => {
            if let Some(u) = n.as_u64() {
                Json::UInt(u)
            } else if let Some(i) = n.as_i64() {
                Json::NegInt(i)
            } else {
                Json::Float(n.to_string())
            }
        }
        Value::String(s) => Json::Str(s.clone()),
        Value::Array(items) => Json::Array(items.iter().map(from_value).collect()),
        Value::Object(map) => Json::Object(
            map.iter()
                .map(|(k, v)| (k.clone(), from_value(v)))
                .collect(),
        ),
    }
}

fn v(json: &Json) -> Value {
    match json {
        Json::Null => Value::Null,
        Json::Bool(b) => Value::Bool(*b),
        Json::UInt(u) => Value::from(*u),
        Json::NegInt(i) => Value::from(*i),
        Json::Float(text) => serde_json::from_str(text).expect("a decimal number"),
        Json::Str(s) => Value::String(s.clone()),
        Json::Array(items) => Value::Array(items.iter().map(v).collect()),
        Json::Object(fields) => {
            let mut map = serde_json::Map::new();
            for (key, value) in fields {
                map.entry(key.clone()).or_insert_with(|| v(value));
            }
            Value::Object(map)
        }
    }
}

fn expect(text: &str) -> Value {
    serde_json::from_str(text).expect("expected JSON parses")
}

const CONSTRAINTS: &str = r#"{"no_first_run_consent":true,"no_system_permission_prompts":true,
    "no_notifications":true,"no_purchase":true,"no_final_destructive_action":true,"headless":false}"#;

fn document(binding: &str) -> Json {
    j(&format!(r#"{{"schema":"wisent.crawl-runtime-bindings.v1","records":{{"c":{{"r":{binding}}}}}}}"#))
}

fn binding(account: &str, delivery: &str, extra: &str) -> String {
    format!(r#"{{"configured":true,"account":{account},"constraints":{CONSTRAINTS},"delivery":{delivery}{extra}}}"#)
}

const NONE_ACCOUNT: &str = r#"{"mode":"none","account_id":null}"#;

#[test]
fn secret_references_are_exact_item_field_pairs() {
    assert!(secret_reference_valid("vault.item:1#field_2"));
    assert!(!secret_reference_valid("item#fi:eld"));
    assert!(!secret_reference_valid("#field"));
    assert!(!secret_reference_valid("item#"));
    assert!(!secret_reference_valid("no-separator"));
}

#[test]
fn a_web_binding_carries_exactly_the_bearer_and_organization() {
    let web = binding(
        NONE_ACCOUNT,
        r#"{"kind":"weles-service-env","secret_env":{"WELES_TOKEN":"v#t","WISENT_ORGANIZATION_ID":"v#o"}}"#,
        r#","surface":{"family":"web-app","exact_url":"https://a","origin":"https://a","path":"/",
            "allowed_origins":["https://a"],"allowed_actions":["read"],"terminal_outcomes":["completed"],"note":1}"#,
    );
    match runtime_binding(&document(&web), "c", "web", "r") {
        Ok(b) => {
            assert_eq!(v(&b.account[0]), Value::from("none"));
            assert_eq!(v(&b.account[2]), expect("[]"));
            assert_eq!(b.constraints.len(), 6);
            assert!(b.prepared_proof.is_none());
            assert_eq!(b.surface.as_ref().map(|s| s.len()), Some(7));
        }
        Err(_) => panic!("an exact web binding is accepted"),
    }
    let short = binding(NONE_ACCOUNT, r#"{"kind":"weles-service-env","secret_env":{"WELES_TOKEN":"v#t"}}"#, "");
    assert!(matches!(runtime_binding(&document(&short), "c", "web", "r"), Err(BindingRefusal::WebDelivery)));
}

#[test]
fn terminal_and_documentation_bindings_follow_their_engine() {
    let plain = binding(NONE_ACCOUNT, r#"{"kind":"none"}"#, "");
    assert!(runtime_binding(&document(&plain), "c", "cli", "r").is_ok());
    assert!(runtime_binding(&document(&plain), "c", "docs", "r").is_ok());
    assert!(matches!(runtime_binding(&document(&plain), "c", "mobile", "r"), Err(BindingRefusal::NativeDelivery)));
    assert!(matches!(runtime_binding(&document(&plain), "c", "vr", "r"), Err(BindingRefusal::UnsupportedEngine)));
    let secret = binding(NONE_ACCOUNT, r#"{"kind":"stado-secret-env","secret_env":{"TOKEN":"v#t"}}"#, "");
    assert!(matches!(runtime_binding(&document(&secret), "c", "tui", "r"), Err(BindingRefusal::TerminalDelivery)));
    let bad_ref = binding(NONE_ACCOUNT, r#"{"kind":"none","secret_env":{"X":"no-hash"}}"#, "");
    assert!(matches!(runtime_binding(&document(&bad_ref), "c", "cli", "r"), Err(BindingRefusal::SecretEnv)));
    let positional = binding(r#"["none", null]"#, r#"["none"]"#, "");
    assert!(runtime_binding(&document(&positional), "c", "docs", "r").is_ok());
}

#[test]
fn a_native_binding_needs_a_prepared_proof() {
    let proof = r#","prepared_proof":{"schema":"s","product_identifier":"p","device_id":null,"observed_by":"o",
        "product_version":"1","executable_sha256":"e","observed_at":"t","evidence_uri":"u","evidence_sha256":"d",
        "installed":true,"first_run_completed":true,"pending_permission_prompts":0,"pending_notification_prompts":0,
        "notification_delivery_disabled":true,"permission_prompt_invocation_disabled":true,
        "notification_prompt_invocation_disabled":true}"#;
    let native = binding(NONE_ACCOUNT, r#"{"kind":"preauthenticated-device"}"#, proof);
    assert!(matches!(runtime_binding(&document(&native), "c", "desktop", "r"), Ok(b) if b.prepared_proof.is_some()));
    let bad_proof = binding(NONE_ACCOUNT, r#"{"kind":"preauthenticated-device"}"#, r#","prepared_proof":null"#);
    assert!(matches!(
        runtime_binding(&document(&bad_proof), "c", "desktop", "r"),
        Err(BindingRefusal::PreparedProofInvalid)
    ));
}

#[test]
fn a_binding_is_refused_at_its_first_broken_rule() {
    assert!(matches!(runtime_binding(&document("{}"), "c", "cli", "other"), Err(BindingRefusal::NoBinding)));
    let off = r#"{"configured":false,"diagnostic":"not yet bound"}"#;
    assert!(matches!(
        runtime_binding(&document(off), "c", "cli", "r"),
        Err(BindingRefusal::Unconfigured(m)) if m == "not yet bound"
    ));
    assert!(matches!(
        runtime_binding(&document(r#"{"configured":"yes"}"#), "c", "cli", "r"),
        Err(BindingRefusal::Unconfigured(m)) if m == "runtime binding is explicitly unconfigured"
    ));
    assert!(matches!(
        runtime_binding(&document(r#"{"configured":true}"#), "c", "cli", "r"),
        Err(BindingRefusal::NoAccount)
    ));
    let extra_field = binding(r#"{"mode":"none","account_id":null,"role":"admin"}"#, r#"{"kind":"none"}"#, "");
    assert!(matches!(runtime_binding(&document(&extra_field), "c", "cli", "r"), Err(BindingRefusal::AccountInvalid)));
    let claimed = binding(r#"{"mode":"none","account_id":"me"}"#, r#"{"kind":"none"}"#, "");
    assert!(matches!(runtime_binding(&document(&claimed), "c", "cli", "r"), Err(BindingRefusal::NoneAccount)));
    let anonymous = binding(r#"{"mode":"anonymous-read-only-probe","account_id":null}"#, r#"{"kind":"none"}"#, "");
    assert!(matches!(runtime_binding(&document(&anonymous), "c", "cli", "r"), Err(BindingRefusal::AnonymousAccount)));
    let odd = binding(r#"{"mode":"oauth","account_id":null}"#, r#"{"kind":"none"}"#, "");
    assert!(matches!(
        runtime_binding(&document(&odd), "c", "cli", "r"),
        Err(BindingRefusal::UnsupportedMode(m)) if m == "oauth"
    ));
    let loose = binding(NONE_ACCOUNT, r#"{"kind":"none"}"#, "").replace(r#""no_purchase":true"#, r#""no_purchase":false"#);
    assert!(matches!(runtime_binding(&document(&loose), "c", "cli", "r"), Err(BindingRefusal::Prohibited)));
    let bad_surface = binding(NONE_ACCOUNT, r#"{"kind":"none"}"#, r#","surface":{"family":"x"}"#);
    assert!(matches!(runtime_binding(&document(&bad_surface), "c", "cli", "r"), Err(BindingRefusal::SurfaceInvalid)));
}
