use serde_json::Value;
use sha2::{Digest, Sha256};
use spis::json::Json;
use spis::plan::{
    build_revision, is_host_query_literal, manifest_keys, placement_refusal,
    planned_entry, planned_input_identity, planned_manifest, resource_lease, snapshot_revision, unattempted_id,
    unavailable_record, PlannedParts, RevisionError,
};
use spis::registry::RuntimeServiceIdentity;

fn j(text: &str) -> Json {
    from_value(&serde_json::from_str(text).expect("test JSON parses"))
}

fn from_value(value: &Value) -> Json {
    match value {
        Value::Null => Json::Null,
        Value::Bool(b) => Json::Bool(*b),
        Value::Number(n) => {
            if let Some(u) = n.as_u64() {
                Json::UInt(u)
            } else if let Some(i) = n.as_i64() {
                Json::NegInt(i)
            } else {
                Json::Float(n.to_string())
            }
        }
        Value::String(s) => Json::Str(s.clone()),
        Value::Array(items) => Json::Array(items.iter().map(from_value).collect()),
        Value::Object(map) => Json::Object(
            map.iter()
                .map(|(k, v)| (k.clone(), from_value(v)))
                .collect(),
        ),
    }
}

fn v(json: &Json) -> Value {
    match json {
        Json::Null => Value::Null,
        Json::Bool(b) => Value::Bool(*b),
        Json::UInt(u) => Value::from(*u),
        Json::NegInt(i) => Value::from(*i),
        Json::Float(text) => serde_json::from_str(text).expect("a decimal number"),
        Json::Str(s) => Value::String(s.clone()),
        Json::Array(items) => Value::Array(items.iter().map(v).collect()),
        Json::Object(fields) => {
            let mut map = serde_json::Map::new();
            for (key, value) in fields {
                map.entry(key.clone()).or_insert_with(|| v(value));
            }
            Value::Object(map)
        }
    }
}

fn hex_sha(bytes: &[u8]) -> String {
    Sha256::digest(bytes).iter().map(|b| format!("{b:02x}")).collect()
}

fn service(host: &str) -> RuntimeServiceIdentity {
    RuntimeServiceIdentity {
        name: "weles-admission".to_string(),
        generation: 1,
        consumer: "spis".to_string(),
        capability: "browser-evidence".to_string(),
        active_host: host.to_string(),
        endpoint: "https://w.example/api/v1".to_string(),
        action: "generic_browser_task".to_string(),
        release_id: "weles-worker@1".to_string(),
        source_revision: "0123456789abcdef0123456789abcdef01234567".to_string(),
    }
}

#[test]
fn unattempted_ids_digest_the_record_and_reason() {
    let expected = format!("unattempted-{}", &hex_sha(b"run-1\0web-examples\0acme\0reference_invalid")[..16]);
    assert_eq!(unattempted_id("run-1", "web-examples", "acme", "reference_invalid"), expected);
    let record = v(&unavailable_record(
        "run-1",
        "web-examples",
        "acme",
        "reference_invalid",
        "bad json".to_string(),
        j(r#"{"path": "/x"}"#),
    ));
    assert_eq!(record["record"], Value::from("acme"));
    assert_eq!(record["state"], Value::from("unavailable"));
    assert_eq!(record["attempt"], Value::from(1u64));
    assert_eq!(record["attempt_id"], Value::from(expected));
    assert_eq!(record["manifest"], Value::Null);
    assert_eq!(record["diagnostic"]["code"], Value::from("reference_invalid"));
    assert_eq!(record["diagnostic"]["retryable"], Value::Bool(true));
    assert_eq!(record["diagnostic"]["message"], Value::from("bad json"));
    assert_eq!(record["diagnostic"]["detail"]["path"], Value::from("/x"));
    assert_eq!(record["attempts"], Value::Array(vec![]));
}

#[test]
fn manifest_keys_chain_their_digests() {
    let keys = manifest_keys("rev", "run-1", "cli-examples", "tool", b"{}", 2, "box");
    let input = hex_sha(b"{}");
    let catalog_key = hex_sha(b"rev\0run-1\0cli-examples");
    let record_key = hex_sha(format!("{catalog_key}\0tool\0{input}").as_bytes());
    let attempt_id = format!("attempt-2-{}", &hex_sha(format!("{record_key}\x002\0box").as_bytes())[..16]);
    let correlation = format!("spis-{}-2", &record_key[..24]);
    assert_eq!(keys.source_input_sha256, input);
    assert_eq!(keys.catalog_key, catalog_key);
    assert_eq!(keys.record_key, record_key);
    assert_eq!(keys.attempt_id, attempt_id);
    assert_eq!(keys.correlation_id, correlation);
    assert_eq!(keys.stado_run_id, format!("{correlation}-{attempt_id}"));
    let unhosted = manifest_keys("rev", "run-1", "cli-examples", "tool", b"{}", 2, "");
    assert_ne!(unhosted.attempt_id, keys.attempt_id);
    assert_eq!(unhosted.record_key, keys.record_key);
}

#[test]
fn placements_must_match_binding_and_service() {
    assert!(placement_refusal("web-examples", "acme", "web", "forge", true, Some(&service("forge"))).is_none());
    assert!(placement_refusal("cli-examples", "tool", "cli", "box", false, None).is_none());
    let (code, message, detail) =
        placement_refusal("cli-examples", "tool", "cli", "box", true, None).expect("mismatch");
    assert_eq!(code, "runtime_constraint_mismatch");
    assert_eq!(message, "cli-examples/tool: headless constraint does not match engine cli");
    assert_eq!(v(&detail)["headless"], Value::Bool(true));
    assert_eq!(v(&detail)["engine"], Value::from("cli"));
    let (code, message, detail) =
        placement_refusal("web-examples", "acme", "web", "other", true, Some(&service("forge"))).expect("unbound");
    assert_eq!(code, "weles_service_identity_unbound");
    assert_eq!(message, "authorized weles-admission/browser-evidence/generic_browser_task placement is unavailable");
    assert_eq!(v(&detail)["host"], Value::from("other"));
    let (code, _, _) = placement_refusal("web-examples", "acme", "web", "forge", true, None).expect("unbound");
    assert_eq!(code, "weles_service_identity_unbound");
    let (code, message, _) =
        placement_refusal("docs-examples", "d", "docs", "box", false, Some(&service("box"))).expect("unexpected");
    assert_eq!(code, "unexpected_service_identity");
    assert_eq!(message, "non-web execution cannot carry a Weles service identity");
}

#[test]
fn exclusive_engines_lease_their_host() {
    assert_eq!(resource_lease("tui", "box"), Some("stado-exclusive://box/tui".to_string()));
    assert_eq!(resource_lease("mobile", "mac"), Some("stado-exclusive://mac/mobile".to_string()));
    assert_eq!(resource_lease("web", "forge"), None);
    assert_eq!(resource_lease("docs", "box"), None);
}

#[test]
fn host_query_literals_are_plain() {
    assert!(is_host_query_literal("Visual Studio Code"));
    assert!(is_host_query_literal("com.example.app-1_2"));
    assert!(!is_host_query_literal(""));
    assert!(!is_host_query_literal(" lead"));
    assert!(!is_host_query_literal("trail "));
    assert!(!is_host_query_literal("quote'"));
    assert!(!is_host_query_literal(&"a".repeat(129)));
    assert!(is_host_query_literal(&"a".repeat(128)));
}

const REV: &str = "0123456789ABCDEF0123456789abcdef01234567";

#[test]
fn build_revision_must_be_clean_and_hexadecimal() {
    assert!(matches!(build_revision(REV, "false"), Ok(r) if r == REV));
    assert!(matches!(build_revision(REV, "true"), Err(RevisionError::DirtyBuild)));
    assert!(matches!(build_revision(&REV[1..], "false"), Err(RevisionError::Unidentified)));
    assert!(matches!(build_revision("g123456789abcdef0123456789abcdef01234567", "false"), Err(RevisionError::Unidentified)));
}

#[test]
fn snapshot_revision_must_match_the_binary() {
    assert!(matches!(snapshot_revision(REV, &format!("{REV}\n"), b""), Ok(r) if r == REV));
    assert!(matches!(snapshot_revision(REV, &format!("{REV}\n"), b" M src/lib.rs\n"), Err(RevisionError::DirtySnapshot)));
    match snapshot_revision(REV, "feedface\n", b"") {
        Err(RevisionError::Stale(embedded, current)) => {
            assert_eq!(embedded, REV);
            assert_eq!(current, "feedface");
        }
        other => panic!("expected a stale binary, got {other:?}"),
    }
}

fn parts() -> PlannedParts {
    PlannedParts {
        product: j(r#"{"kind":"cli","binary":"tool"}"#),
        account: j(r#"{"mode":"none"}"#),
        constraints: j(r#"{"headless":false}"#),
        delivery: j(r#"{"mode":"artifact"}"#),
        prepared_proof: Json::Null,
        service_identity: Json::Null,
    }
}

#[test]
fn planned_records_assemble_their_first_attempt() {
    let identity = planned_input_identity("cli", "box", "ref", "file", "bind", &parts(), Some("docs"));
    let identity_value = v(&identity);
    assert_eq!(identity_value["reference_sha256"], Value::from("ref"));
    assert_eq!(identity_value["resource_lease"], Value::from("stado-exclusive://box/cli"));
    assert_eq!(identity_value["docs_structure_sha256"], Value::from("docs"));
    assert_eq!(identity_value["execution_identity"], Value::Null);
    assert_eq!(identity_value["runtime_product"]["binary"], Value::from("tool"));
    let bytes = serde_json::to_vec(&identity_value).expect("identity serializes");
    let keys = manifest_keys("rev", "run-1", "cli-examples", "tool", &bytes, 1, "");
    let base = "s3://bucket/runs/run-1/cli-examples/tool/attempt-1";
    let manifest = planned_manifest(
        "run-1", "rev", "cli-examples", "cli", "tool", "box", &keys, base, "ref", "file", "bind", "repo",
        "s3://bucket/bindings.json", parts(), None,
    );
    let m = v(&manifest);
    assert_eq!(m["schema"], Value::from("wisent.crawl-runtime-manifest.v1"));
    assert_eq!(m["attempt"], Value::from(1u64));
    assert_eq!(m["attempt_id"], Value::from(keys.attempt_id.clone()));
    assert_eq!(m["source_input_sha256"], Value::from(hex_sha(&bytes)));
    assert_eq!(m["stado_run_id"], Value::from(keys.stado_run_id.clone()));
    assert_eq!(m["artifact_uri"], Value::from(format!("{base}/artifacts.tar.gz")));
    assert_eq!(m["output_uri"], Value::from(format!("{base}/worker-output.log")));
    assert_eq!(m["docs_structure_sha256"], Value::Null);
    assert_eq!(m["bindings_source"], Value::from("repo"));
    assert_eq!(m["resource_lease"], Value::from("stado-exclusive://box/cli"));
    assert_eq!(m.as_object().expect("an object").len(), 29);
    let entry = v(&planned_entry("tool", manifest, base));
    assert_eq!(entry["state"], Value::from("planned"));
    assert_eq!(entry["record"], Value::from("tool"));
    assert_eq!(entry["manifest"], m);
    assert_eq!(entry["stado_job_id"], Value::Null);
    assert_eq!(entry["output_uri"], Value::from(format!("{base}/worker-output.log")));
    let web = planned_input_identity("web", "forge", "ref", "file", "bind", &parts(), None);
    assert_eq!(v(&web)["resource_lease"], Value::Null);
}
