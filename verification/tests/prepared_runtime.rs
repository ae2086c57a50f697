use serde_json::Value;
use spis::json::Json;
use spis::prepared::{observation_attests, proof_binds, readiness_probe, PreparedProof};

fn j(text: &str) -> Json {
    from_value(&serde_json::from_str(text).expect("test JSON parses"))
}

fn from_value(value: &Value) -> Json {
    match value {
        Value::Null => Json::Null,
        Value::Bool(b) => Json::Bool(*b),
        Value::Number(n) => {
            if let Some(u) = n.as_u64() {
                Json::UInt(u)
            } else if let Some(i) = n.as_i64() {
                Json::NegInt(i)
            } else {
                Json::Float(n.to_string())
            }
        }
        Value::String(s) => Json::Str(s.clone()),
        Value::Array(items) => Json::Array(items.iter().map(from_value).collect()),
        Value::Object(map) => Json::Object(
            map.iter()
                .map(|(k, v)| (k.clone(), from_value(v)))
                .collect(),
        ),
    }
}

const EVIDENCE: &str = "00112233445566778899aabbccddeeff00112233445566778899aabbccddeeff";

fn sample_proof() -> PreparedProof {
    PreparedProof {
        schema: "wisent.runtime-preparation-proof.v1".to_string(),
        product_identifier: "com.example.app".to_string(),
        device_id: Some("U1".to_string()),
        observed_by: "stado-runtime-readiness".to_string(),
        product_version: "2.0".to_string(),
        executable_sha256: "exe".to_string(),
        observed_at: "2024-05-06T07:08:09Z".to_string(),
        evidence_uri: "stado://evidence/1".to_string(),
        evidence_sha256: EVIDENCE.to_string(),
        installed: true,
        first_run_completed: true,
        pending_permission_prompts: 0,
        pending_notification_prompts: 0,
        notification_delivery_disabled: true,
        permission_prompt_invocation_disabled: true,
        notification_prompt_invocation_disabled: true,
    }
}

#[test]
fn proof_must_bind_the_resolved_product() {
    let p = sample_proof();
    assert!(proof_binds(&p, "com.example.app", "U1", Some("2.0"), Some("exe")));
    assert!(!proof_binds(&p, "com.example.other", "U1", Some("2.0"), Some("exe")));
    assert!(!proof_binds(&p, "com.example.app", "", Some("2.0"), Some("exe")));
    assert!(!proof_binds(&p, "com.example.app", "U1", None, Some("exe")));
    assert!(!proof_binds(&p, "com.example.app", "U1", Some("2.0"), Some("other")));
    let mut late = sample_proof();
    late.observed_at = "2024-05-06 07:08:09".to_string();
    assert!(!proof_binds(&late, "com.example.app", "U1", Some("2.0"), Some("exe")));
    let mut prompting = sample_proof();
    prompting.pending_permission_prompts = 1;
    assert!(!proof_binds(&prompting, "com.example.app", "U1", Some("2.0"), Some("exe")));
    let mut deviceless = sample_proof();
    deviceless.device_id = None;
    assert!(proof_binds(&deviceless, "com.example.app", "", Some("2.0"), Some("exe")));
    let mut elsewhere = sample_proof();
    elsewhere.evidence_uri = "https://evidence/1".to_string();
    assert!(!proof_binds(&elsewhere, "com.example.app", "U1", Some("2.0"), Some("exe")));
}

#[test]
fn readiness_probe_carries_the_evidence() {
    assert_eq!(
        readiness_probe("com.example.app", "U1", &sample_proof()).join(" "),
        format!("stado-runtime-readiness verify --json --product com.example.app --device U1 --evidence-uri stado://evidence/1 --evidence-sha256 {EVIDENCE}")
    );
}

#[test]
fn observation_must_attest_the_safe_state() {
    let good = format!(r#"{{"schema": "wisent.runtime-readiness-observation.v1", "ready": true,
        "product_identifier": "com.example.app", "device_id": "U1", "evidence_sha256": "{EVIDENCE}",
        "pending_permission_prompts": 0, "pending_notification_prompts": 0,
        "notification_delivery_disabled": true, "permission_prompt_invocation_disabled": true,
        "notification_prompt_invocation_disabled": true, "product_version": "2.0",
        "executable_sha256": "exe"}}"#);
    assert!(observation_attests(&j(&good), "com.example.app", "U1", EVIDENCE, Some("2.0"), Some("exe")));
    assert!(!observation_attests(&j(&good), "com.example.app", "U1", EVIDENCE, Some("2.1"), Some("exe")));
    assert!(!observation_attests(&j(&good), "com.example.app", "U2", EVIDENCE, Some("2.0"), Some("exe")));
    let prompting = good.replace(r#""pending_notification_prompts": 0"#, r#""pending_notification_prompts": 2"#);
    assert!(!observation_attests(&j(&prompting), "com.example.app", "U1", EVIDENCE, Some("2.0"), Some("exe")));
    let unready = good.replace(r#""ready": true"#, r#""ready": false"#);
    assert!(!observation_attests(&j(&unready), "com.example.app", "U1", EVIDENCE, Some("2.0"), Some("exe")));
}
