use serde_json::Value;
use spis::json::Json;
use spis::resume::{rearm_decision, rearm_record, record_rearm_blocked, Rearm};

fn j(text: &str) -> Json {
    from_value(&serde_json::from_str(text).expect("test JSON parses"))
}

fn from_value(value: &Value) -> Json {
    match value {
        Value::Null => Json::Null,
        Value::Bool(b) => Json::Bool(*b),
        Value::Number(n) => {
            if let Some(u) = n.as_u64() {
                Json::UInt(u)
            } else if let Some(i) = n.as_i64() {
                Json::NegInt(i)
            } else {
                Json::Float(n.to_string())
            }
        }
        Value::String(s) => Json::Str(s.clone()),
        Value::Array(items) => Json::Array(items.iter().map(from_value).collect()),
        Value::Object(map) => Json::Object(
            map.iter()
                .map(|(k, v)| (k.clone(), from_value(v)))
                .collect(),
        ),
    }
}

fn v(json: &Json) -> Value {
    match json {
        Json::Null => Value::Null,
        Json::Bool(b) => Value::Bool(*b),
        Json::UInt(u) => Value::from(*u),
        Json::NegInt(i) => Value::from(*i),
        Json::Float(text) => serde_json::from_str(text).expect("a decimal number"),
        Json::Str(s) => Value::String(s.clone()),
        Json::Array(items) => Value::Array(items.iter().map(v).collect()),
        Json::Object(fields) => {
            let mut map = serde_json::Map::new();
            for (key, value) in fields {
                map.entry(key.clone()).or_insert_with(|| v(value));
            }
            Value::Object(map)
        }
    }
}

fn expect(text: &str) -> Value {
    serde_json::from_str(text).expect("expected JSON parses")
}

#[test]
fn only_terminal_failures_without_a_cancel_intent_are_rearmed() {
    for state in ["failed", "cancelled", "lost", "submission_failed", "preflight_failed"] {
        let entry = j(&format!(r#"{{"state":"{state}"}}"#));
        assert!(matches!(rearm_decision(&entry), Rearm::Proceed(s) if s == state));
    }
    for state in ["queued", "running", "completed", "imported", "planned"] {
        let entry = j(&format!(r#"{{"state":"{state}"}}"#));
        assert!(matches!(rearm_decision(&entry), Rearm::Untouched));
    }
    assert!(matches!(rearm_decision(&j("{}")), Rearm::Untouched));
    let mut blocked = j(r#"{"state":"lost","cancel_intent":{"reason":"x"}}"#);
    assert!(matches!(rearm_decision(&blocked), Rearm::Blocked));
    record_rearm_blocked(&mut blocked);
    assert_eq!(v(&blocked)["diagnostic"]["code"], expect(r#""cancel_intent_blocks_resume""#));
    let odd = j(r#"{"state":"lost","cancel_intent":"x"}"#);
    assert!(matches!(rearm_decision(&odd), Rearm::Proceed(_)));
}

#[test]
fn a_rearmed_record_starts_its_next_attempt_afresh() {
    let mut entry = j(r#"{"record":"a","state":"lost","stado_job_id":"J1","job":{"state":"lost"},
        "import":{"x":1},"cancel":{"y":2},"weles_task_id":"w"}"#);
    let manifest = j(r#"{"attempt":3,"attempt_id":"attempt-3-abc","artifact_uri":"stado://a/artifacts.tar.gz",
        "output_uri":"stado://a/worker-output.log"}"#);
    rearm_record(&mut entry, manifest, "lost", 3);
    let out = v(&entry);
    assert_eq!(out["state"], expect(r#""planned""#));
    assert_eq!(out["attempt"], Value::from(3u64));
    assert_eq!(out["attempt_id"], expect(r#""attempt-3-abc""#));
    assert_eq!(out["artifact_uri"], expect(r#""stado://a/artifacts.tar.gz""#));
    for cleared in ["command", "stado_job_id", "submission_receipt", "submission_transition", "preflight",
        "job", "lookup_error", "cancel", "cancel_result", "error", "import"] {
        assert_eq!(out[cleared], Value::Null, "{cleared} is cleared");
    }
    assert_eq!(out["weles_task_id"], expect(r#""w""#));
    assert_eq!(
        out["diagnostic"],
        expect(r#"{"code":"attempt_rearmed","message":"terminal lost attempt retained in history; attempt 3 planned with fresh identity"}"#)
    );
    assert!(matches!(rearm_decision(&entry), Rearm::Untouched));
}
