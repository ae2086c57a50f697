use serde_json::Value;
use spis::json::Json;
use spis::refresh::LookupOutcome;
use spis::submit::{
    arm_submission, continue_gate, race_step, record_failure, record_host_retry,
    record_race_settled, record_replanned, record_submitted, retained_command,
    retained_command_matches, submission_mismatch, Gate, RaceStep, SubmissionMismatch,
    finalization_failed, record_prepared, record_unprepared, reuses_retained,
    unprepared_diagnostic,
};

fn j(text: &str) -> Json {
    from_value(&serde_json::from_str(text).expect("test JSON parses"))
}

fn from_value(value: &Value) -> Json {
    match value {
        Value::Null => Json::Null,
        Value::Bool(b) => Json::Bool(*b),
        Value::Number(n) => {
            if let Some(u) = n.as_u64() {
                Json::UInt(u)
            } else if let Some(i) = n.as_i64() {
                Json::NegInt(i)
            } else {
                Json::Float(n.to_string())
            }
        }
        Value::String(s) => Json::Str(s.clone()),
        Value::Array(items) => Json::Array(items.iter().map(from_value).collect()),
        Value::Object(map) => Json::Object(
            map.iter()
                .map(|(k, v)| (k.clone(), from_value(v)))
                .collect(),
        ),
    }
}

fn v(json: &Json) -> Value {
    match json {
        Json::Null => Value::Null,
        Json::Bool(b) => Value::Bool(*b),
        Json::UInt(u) => Value::from(*u),
        Json::NegInt(i) => Value::from(*i),
        Json::Float(text) => serde_json::from_str(text).expect("a decimal number"),
        Json::Str(s) => Value::String(s.clone()),
        Json::Array(items) => Value::Array(items.iter().map(v).collect()),
        Json::Object(fields) => {
            let mut map = serde_json::Map::new();
            for (key, value) in fields {
                map.entry(key.clone()).or_insert_with(|| v(value));
            }
            Value::Object(map)
        }
    }
}

fn expect(text: &str) -> Value {
    serde_json::from_str(text).expect("expected JSON parses")
}

fn words(items: &[&str]) -> Vec<String> {
    items.iter().map(|s| s.to_string()).collect()
}

#[test]
fn settled_or_submitted_records_are_left_alone() {
    assert_eq!(continue_gate(&j(r#"{"state":"queued"}"#), false), Gate::Leave);
    assert_eq!(continue_gate(&j("{}"), false), Gate::Leave);
    assert_eq!(continue_gate(&j(r#"{"state":"planned","stado_job_id":"J"}"#), false), Gate::Leave);
    assert_eq!(continue_gate(&j(r#"{"state":"planned","cancel_intent":{}}"#), true), Gate::CancelIntent);
    assert_eq!(continue_gate(&j(r#"{"state":"planned"}"#), true), Gate::HostRetry);
    assert_eq!(continue_gate(&j(r#"{"state":"preflight_passed"}"#), false), Gate::Prepare);
}

#[test]
fn a_cancel_intent_wins_over_every_submission_outcome() {
    let mut refused = j(r#"{"state":"submitting","cancel_intent":{"reason":"x"}}"#);
    record_failure(&mut refused, "submission_failed", "stado_submission_failed", "boom");
    let out = v(&refused);
    assert_eq!(out["state"], expect(r#""cancelled""#));
    assert_eq!(out["diagnostic"]["underlying"], expect(r#"{"code":"stado_submission_failed","message":"boom"}"#));
    let mut plain = j(r#"{"state":"submitting"}"#);
    record_failure(&mut plain, "submission_failed", "stado_submission_failed", "boom");
    assert_eq!(v(&plain)["state"], expect(r#""submission_failed""#));

    let mut raced = j(r#"{"state":"submitting","cancel_intent":{"reason":"x"}}"#);
    record_submitted(&mut raced, j(r#"{"stado_job_id":"J5"}"#), "stado://a", "stado://o");
    let out = v(&raced);
    assert_eq!(out["state"], expect(r#""cancel_pending""#));
    assert_eq!(out["stado_job_id"], expect(r#""J5""#));
    assert_eq!(out["diagnostic"]["code"], expect(r#""cancel_won_submission_race""#));
    let mut accepted = j(r#"{"state":"submitting","diagnostic":{"x":1}}"#);
    record_submitted(&mut accepted, j(r#"{"stado_job_id":"J6"}"#), "stado://a", "stado://o");
    let out = v(&accepted);
    assert_eq!(out["state"], expect(r#""queued""#));
    assert_eq!(out["diagnostic"], Value::Null);
    assert_eq!(out["submission_receipt"]["stado_job_id"], expect(r#""J6""#));

    let mut armed = j(r#"{"state":"preflight_passed"}"#);
    arm_submission(&mut armed, "att-1");
    assert_eq!(v(&armed)["state"], expect(r#""submitting""#));
    assert_eq!(v(&armed)["submission_transition"], expect(r#"{"state":"intent_persisted","attempt_id":"att-1"}"#));
    let mut blocked = j(r#"{"state":"preflight_passed","cancel_intent":{}}"#);
    arm_submission(&mut blocked, "att-1");
    assert_eq!(v(&blocked)["state"], expect(r#""preflight_passed""#));
}

#[test]
fn host_failures_and_transient_refusals_plan_the_record_again() {
    let report = j(r#"{"checks":[{"diagnostic":{"retryable":true}}],"diagnostic":{"code":"slow"}}"#);
    let mut entry = j(r#"{"state":"planned"}"#);
    record_host_retry(&mut entry, &report);
    let out = v(&entry);
    assert_eq!(out["state"], expect(r#""planned""#));
    assert_eq!(out["diagnostic"], expect(r#"{"code":"slow"}"#));
    assert_eq!(out["preflight"]["checks"][0]["diagnostic"]["retryable"], Value::Bool(true));
    let mut bare = j(r#"{"state":"planned"}"#);
    record_host_retry(&mut bare, &j(r#"{"checks":[]}"#));
    let out = v(&bare);
    assert_eq!(out["state"], expect(r#""unavailable""#));
    assert_eq!(out["diagnostic"]["code"], expect(r#""host_probe_timed_out""#));
    let mut again = j(r#"{"state":"submitting"}"#);
    record_replanned(&mut again, j(r#"{"code":"worker_agent_program_unstable"}"#));
    assert_eq!(v(&again)["state"], expect(r#""planned""#));
}

#[test]
fn a_submission_must_bind_its_attempt() {
    let receipt = j(r#"{"stado_receipt":{"source_revision":"rev"},"artifact_uri":"a","output_uri":"o"}"#);
    assert_eq!(submission_mismatch(&receipt, "rev", "a", "o"), None);
    assert_eq!(submission_mismatch(&receipt, "rev2", "a", "o"), Some(SubmissionMismatch::Source));
    assert_eq!(submission_mismatch(&receipt, "rev", "a", "o2"), Some(SubmissionMismatch::Uri));
    let entry = j(r#"{"command":["crawl-cli",3,"--host","m1"]}"#);
    let retained = retained_command(&entry);
    assert_eq!(retained, words(&["crawl-cli", "--host", "m1"]));
    assert!(retained_command_matches(&retained, &words(&["crawl-cli", "--host", "m1"])));
    assert!(!retained_command_matches(&retained, &words(&["crawl-cli", "--host", "m2"])));
    assert!(!retained_command_matches(&vec![], &vec![]));
}

#[test]
fn a_raced_cancellation_is_settled_from_the_job_status() {
    assert_eq!(race_step(&LookupOutcome::Found(j(r#"{"state":"completed"}"#))), RaceStep::NoopTerminal);
    assert_eq!(race_step(&LookupOutcome::Found(j(r#"{"state":"running"}"#))), RaceStep::Dispatch);
    assert_eq!(race_step(&LookupOutcome::Failed(j("{}"))), RaceStep::LookupFailed);
    let mut settled = j(r#"{"state":"cancel_pending","diagnostic":{"x":1}}"#);
    record_race_settled(&mut settled, Ok(j(r#"{"state":"noop_terminal"}"#)));
    let out = v(&settled);
    assert_eq!(out["state"], expect(r#""cancelled""#));
    assert_eq!(out["cancel_result"]["state"], expect(r#""noop_terminal""#));
    assert_eq!(out["diagnostic"], Value::Null);
    let mut pending = j(r#"{"state":"cancel_pending"}"#);
    record_race_settled(&mut pending, Err("refused".to_string()));
    assert_eq!(v(&pending)["diagnostic"], expect(r#"{"code":"cancel_dispatch_failed","message":"refused"}"#));
}

#[test]
fn prepared_records_keep_their_command() {
    assert!(reuses_retained("preflight_passed"));
    assert!(reuses_retained("submitting"));
    assert!(!reuses_retained("planned"));
    let mut entry = j(r#"{"record": "tool", "state": "planned"}"#);
    let command = vec!["cargo".to_string(), "run".to_string()];
    assert!(record_prepared(&mut entry, j(r#"{"attempt": 1}"#), j(r#"{"ready": true}"#), &command));
    let entry = v(&entry);
    assert_eq!(entry["state"], Value::from("preflight_passed"));
    assert_eq!(entry["command"], serde_json::from_str::<Value>(r#"["cargo", "run"]"#).unwrap());
    assert_eq!(entry["manifest"]["attempt"], Value::from(1u64));
    assert_eq!(entry["diagnostic"], Value::Null);
    let mut submitted = j(r#"{"record": "tool", "state": "planned", "stado_job_id": "job-1"}"#);
    assert!(!record_prepared(&mut submitted, Json::Null, Json::Null, &command));
    assert_eq!(v(&submitted)["state"], Value::from("planned"));
    let mut cancelled = j(r#"{"record": "tool", "state": "planned", "cancel_intent": {}}"#);
    assert!(!record_prepared(&mut cancelled, Json::Null, Json::Null, &command));
}

#[test]
fn unprepared_records_become_unavailable() {
    let mut entry = j(r#"{"record": "tool", "state": "planned"}"#);
    let diagnostic = unprepared_diagnostic(&j(r#"{"ready": false}"#), "exact record preflight failed");
    record_unprepared(&mut entry, Json::Null, j(r#"{"ready": false}"#), diagnostic);
    let entry = v(&entry);
    assert_eq!(entry["state"], Value::from("unavailable"));
    assert_eq!(entry["diagnostic"]["code"], Value::from("worker_command_unavailable"));
    assert_eq!(entry["diagnostic"]["message"], Value::from("exact record preflight failed"));
    let own = unprepared_diagnostic(&j(r#"{"diagnostic": {"code": "host_unavailable"}}"#), "x");
    assert_eq!(v(&own)["code"], Value::from("host_unavailable"));
    let failed = v(&finalization_failed("tool", "no reference", "/refs/tool.json"));
    assert_eq!(failed["ready"], Value::Bool(false));
    assert_eq!(failed["diagnostic"]["code"], Value::from("runtime_manifest_finalization_failed"));
    assert_eq!(failed["diagnostic"]["path"], Value::from("/refs/tool.json"));
}
