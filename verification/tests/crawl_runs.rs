use serde_json::Value;
use spis::clock::utc_timestamp;
use spis::crawl::latest_run_id;
use spis::history::{history_ready, staged_run, sync_attempt_history, PersistError};
use spis::json::Json;
use spis::refresh::{
    apply_lookup, migrate_legacy_catalog_jobs, status_outcome, LookupOutcome, StatusReply,
};
use spis::report::operation_document;
use spis::runstate::{aggregate_catalog_entry, run_state, update_run_state};

fn j(text: &str) -> Json {
    from_value(&serde_json::from_str(text).expect("test JSON parses"))
}

fn from_value(value: &Value) -> Json {
    match value {
        Value::Null => Json::Null,
        Value::Bool(b) => Json::Bool(*b),
        Value::Number(n) => {
            if let Some(u) = n.as_u64() {
                Json::UInt(u)
            } else if let Some(i) = n.as_i64() {
                Json::NegInt(i)
            } else {
                Json::Float(n.to_string())
            }
        }
        Value::String(s) => Json::Str(s.clone()),
        Value::Array(items) => Json::Array(items.iter().map(from_value).collect()),
        Value::Object(map) => Json::Object(
            map.iter()
                .map(|(k, v)| (k.clone(), from_value(v)))
                .collect(),
        ),
    }
}

fn v(json: &Json) -> Value {
    match json {
        Json::Null => Value::Null,
        Json::Bool(b) => Value::Bool(*b),
        Json::UInt(u) => Value::from(*u),
        Json::NegInt(i) => Value::from(*i),
        Json::Float(text) => serde_json::from_str(text).expect("a decimal number"),
        Json::Str(s) => Value::String(s.clone()),
        Json::Array(items) => Value::Array(items.iter().map(v).collect()),
        Json::Object(fields) => {
            let mut map = serde_json::Map::new();
            for (key, value) in fields {
                map.entry(key.clone()).or_insert_with(|| v(value));
            }
            Value::Object(map)
        }
    }
}

fn expect(text: &str) -> Value {
    serde_json::from_str(text).expect("expected JSON parses")
}

#[test]
fn run_state_follows_the_most_active_catalog() {
    let states = |items: &[&str]| items.iter().map(|s| s.to_string()).collect::<Vec<String>>();
    assert_eq!(run_state(&states(&["imported", "running", "failed"])), "running");
    assert_eq!(run_state(&states(&["queued", "cancel_pending"])), "cancel_pending");
    assert_eq!(run_state(&states(&["imported", "imported"])), "imported");
    assert_eq!(run_state(&states(&["imported", "uploaded"])), "completed");
    assert_eq!(run_state(&states(&["failed", "uploaded"])), "partial");
    assert_eq!(run_state(&states(&["failed"])), "failed");
    assert_eq!(run_state(&states(&[])), "failed");
}

#[test]
fn update_run_state_writes_state_and_partial_and_is_idempotent() {
    let mut run = j(r#"{"run_id":"r1","catalogs":[{"state":"partial"},{"state":"imported"},{"name":"x"}]}"#);
    update_run_state(&mut run);
    let once = v(&run);
    assert_eq!(once["state"], expect(r#""partial""#));
    assert_eq!(once["partial"], Value::Bool(true));
    update_run_state(&mut run);
    assert_eq!(v(&run), once);
}

#[test]
fn aggregate_counts_failures_and_flags_empty_plans() {
    let mut entry = j(r#"{"records":[{"state":"lost"},{"state":"imported"},{"state":"lost"},{"state":"cancelled"}]}"#);
    aggregate_catalog_entry(&mut entry);
    let out = v(&entry);
    assert_eq!(out["state"], expect(r#""partial""#));
    assert_eq!(out["partial"], Value::Bool(true));
    assert_eq!(out["failure_counts"], expect(r#"{"cancelled":1,"lost":2}"#));
    assert!(out.get("diagnostic").is_none());

    let mut empty = j(r#"{"catalog":"docs-examples"}"#);
    aggregate_catalog_entry(&mut empty);
    let out = v(&empty);
    assert_eq!(out["state"], expect(r#""failed""#));
    assert_eq!(out["partial"], Value::Bool(false));
    assert_eq!(out["diagnostic"]["code"], expect(r#""no_planned_records""#));

    let mut waiting = j(r#"{"records":[{"state":"preflighting"},{"state":"imported"}]}"#);
    aggregate_catalog_entry(&mut waiting);
    assert_eq!(v(&waiting)["state"], expect(r#""planned""#));
}

#[test]
fn attempt_history_is_written_once_per_attempt() {
    let mut run = j(r#"{"catalogs":[{"records":[
        {"record":"a","state":"queued","manifest":{"attempt_id":"att-1"}},
        {"record":"b","state":"queued","stado_job_id":"J9"},
        {"record":"c","state":"planned"}
    ]}]}"#);
    sync_attempt_history(&mut run);
    let once = v(&run);
    let records = &once["catalogs"][0]["records"];
    assert_eq!(records[0]["attempts"].as_array().unwrap().len(), 1);
    assert_eq!(records[0]["attempts"][0]["attempt_id"], expect(r#""att-1""#));
    assert_eq!(records[0]["attempts"][0]["record"], expect(r#""a""#));
    assert_eq!(records[1]["attempts"][0]["attempt_id"], expect(r#""legacy-job-J9""#));
    assert!(records[2].get("attempts").is_none());
    sync_attempt_history(&mut run);
    assert_eq!(v(&run), once);
}

#[test]
fn attempt_history_replaces_the_snapshot_of_the_same_attempt() {
    let mut run = j(r#"{"catalogs":[{"records":[
        {"record":"a","state":"running","attempt_id":"att-2",
         "attempts":[{"attempt_id":"att-1","state":"failed"},{"attempt_id":"att-2","state":"queued"}]}
    ]}]}"#);
    sync_attempt_history(&mut run);
    let attempts = v(&run)["catalogs"][0]["records"][0]["attempts"].clone();
    assert_eq!(attempts.as_array().unwrap().len(), 2);
    assert_eq!(attempts[0]["state"], expect(r#""failed""#));
    assert_eq!(attempts[1]["state"], expect(r#""running""#));
    assert!(attempts[1].get("attempts").is_none());
}

#[test]
fn legacy_catalog_job_becomes_one_record_and_migration_is_idempotent() {
    let mut run = j(r#"{"catalogs":[
        {"catalog":"web-app-examples","job_id":"job/AB c_1","state":"queued","artifact_uri":"s3://a"},
        {"catalog":"cli-examples","job_id":"J2","records":[{"record":"x"}]}
    ]}"#);
    migrate_legacy_catalog_jobs(&mut run);
    let once = v(&run);
    let record = &once["catalogs"][0]["records"][0];
    assert_eq!(record["record"], expect(r#""legacy-job-jobABc_1""#));
    assert_eq!(record["attempt_id"], expect(r#""legacy-attempt-jobABc_1""#));
    assert_eq!(record["stado_job_id"], expect(r#""job/AB c_1""#));
    assert_eq!(record["state"], expect(r#""queued""#));
    assert_eq!(record["artifact_uri"], expect(r#""s3://a""#));
    assert_eq!(record["output_uri"], Value::Null);
    assert_eq!(record["diagnostic"]["code"], expect(r#""legacy_catalog_attempt_migrated""#));
    assert_eq!(once["catalogs"][1]["records"], expect(r#"[{"record":"x"}]"#));
    migrate_legacy_catalog_jobs(&mut run);
    assert_eq!(v(&run), once);
}

#[test]
fn a_found_job_refreshes_the_record() {
    let mut entry = j(r#"{"record":"a","state":"queued","stado_job_id":"J1","diagnostic":{"code":"x"},"error":"e"}"#);
    apply_lookup(&mut entry, "J1", LookupOutcome::Found(j(r#"{"state":"running"}"#)));
    let out = v(&entry);
    assert_eq!(out["state"], expect(r#""running""#));
    assert_eq!(out["job"], expect(r#"{"state":"running"}"#));
    assert_eq!(out["lookup_error"], Value::Null);
    assert_eq!(out["diagnostic"], Value::Null);
    assert_eq!(out["error"], Value::Null);
}

#[test]
fn a_different_reported_revision_fails_the_record() {
    let mut entry = j(r#"{"state":"queued","stado_job_id":"J1","manifest":{"source_revision":"abc"}}"#);
    apply_lookup(
        &mut entry,
        "J1",
        LookupOutcome::Found(j(r#"{"state":"running","repo_ref":"def"}"#)),
    );
    let out = v(&entry);
    assert_eq!(out["state"], expect(r#""failed""#));
    assert_eq!(
        out["diagnostic"],
        expect(r#"{"code":"runtime_revision_mismatch","expected":"abc","observed":"def","stado_job_id":"J1"}"#)
    );
}

#[test]
fn a_missing_job_marks_the_record_lost() {
    let mut entry = j(r#"{"state":"queued","stado_job_id":"J7","job":{"state":"queued"}}"#);
    apply_lookup(&mut entry, "J7", LookupOutcome::NotFound(j(r#"{"code":"NOT_FOUND"}"#)));
    let out = v(&entry);
    assert_eq!(out["state"], expect(r#""lost""#));
    assert_eq!(out["lookup_error"], expect(r#"{"code":"NOT_FOUND"}"#));
    assert_eq!(
        out["diagnostic"]["message"],
        expect(r#""Stado returned semantic NOT_FOUND for job J7""#)
    );
    assert_eq!(
        out["error"],
        expect(r#""current Stado lookup confirmed that job J7 does not exist""#)
    );
    assert_eq!(out["job"], Value::Null);

    let mut other = j(r#"{"state":"queued","stado_job_id":"J7"}"#);
    apply_lookup(&mut other, "J7", LookupOutcome::Failed(j(r#""timeout""#)));
    let out = v(&other);
    assert_eq!(out["state"], expect(r#""queued""#));
    assert_eq!(out["lookup_error"], expect(r#""timeout""#));
}

#[test]
fn operation_document_counts_states_and_narrows_to_a_record() {
    let run = j(r#"{"run_id":"r1","state":"partial","catalogs":[
        {"catalog":"c1","state":"partial","records":[{"record":"c1-alpha","state":"lost"},{"record":"c1-beta","state":"imported"}]},
        {"catalog":"c2","state":"imported","records":[{"record":"c2-beta","state":"imported"}]},
        {"catalog":"c3","records":[]}
    ]}"#);
    let all = v(&operation_document("status", &run, None));
    assert_eq!(all["schema"], expect(r#""wisent.crawl-operation.v1""#));
    assert_eq!(all["operation"], expect(r#""status""#));
    assert_eq!(all["run_id"], expect(r#""r1""#));
    assert_eq!(all["source_revision"], Value::Null);
    assert_eq!(
        all["counts"],
        expect(r#"{"imported":1,"partial":1,"record_imported":2,"record_lost":1,"unknown":1}"#)
    );
    assert_eq!(all["catalogs"].as_array().unwrap().len(), 3);

    let narrowed = v(&operation_document("status", &run, Some("beta")));
    assert_eq!(narrowed["catalogs"].as_array().unwrap().len(), 2);
    assert_eq!(narrowed["catalogs"][0]["records"], expect(r#"[{"record":"c1-beta","state":"imported"}]"#));
    assert_eq!(
        narrowed["counts"],
        expect(r#"{"imported":1,"partial":1,"record_imported":2}"#)
    );
}

#[test]
fn timestamps_are_utc_calendar_times() {
    assert_eq!(utc_timestamp(0), "1970-01-01T00:00:00Z");
    assert_eq!(utc_timestamp(951_782_400), "2000-02-29T00:00:00Z");
    assert_eq!(utc_timestamp(1_700_000_000), "2023-11-14T22:13:20Z");
    assert_eq!(utc_timestamp(4_102_444_799), "2099-12-31T23:59:59Z");
}

#[test]
fn the_latest_run_is_the_greatest_safe_id() {
    let ids = |items: &[&str]| items.iter().map(|s| s.to_string()).collect::<Vec<String>>();
    assert_eq!(
        latest_run_id(&ids(&["run-2024-01", "run-2025-03", "../escape", "run-2025-02"])),
        Some("run-2025-03".to_string())
    );
    assert_eq!(latest_run_id(&ids(&["..", "a b"])), None);
    assert_eq!(latest_run_id(&ids(&[])), None);
}

#[test]
fn a_run_is_staged_one_revision_on_with_its_history() {
    let run = j(r#"{"run_id":"r1","mutation_revision":3,"catalogs":[{"records":[{"record":"a","attempt_id":"x"}]}]}"#);
    assert!(history_ready(&run));
    let on_disk = j(r#"{"run_id":"r1","mutation_revision":3}"#);
    match staged_run(&run, Some(&on_disk), "2026-01-01T00:00:00Z") {
        Ok(staged) => {
            let out = v(&staged);
            assert_eq!(out["mutation_revision"], Value::from(4u64));
            assert_eq!(out["updated_at"], expect(r#""2026-01-01T00:00:00Z""#));
            assert_eq!(out["catalogs"][0]["records"][0]["attempts"][0]["attempt_id"], expect(r#""x""#));
        }
        Err(_) => panic!("an unchanged run is staged"),
    }
    let moved = j(r#"{"run_id":"r1","mutation_revision":5}"#);
    assert!(matches!(
        staged_run(&run, Some(&moved), "t"),
        Err(PersistError::ChangedConcurrently(3, 5))
    ));
    assert!(matches!(staged_run(&run, None, "t"), Err(PersistError::Disappeared(3))));
    let fresh = j(r#"{"run_id":"r2"}"#);
    assert!(matches!(staged_run(&fresh, None, "t"), Ok(staged) if v(&staged)["mutation_revision"] == Value::from(1u64)));
    assert!(!history_ready(&j(r#"{"catalogs":[{"records":[{"attempt_id":"x","attempts":{}}]}]}"#)));
}

#[test]
fn stado_status_answers_are_classified() {
    let found = status_outcome(StatusReply::Answered(
        true,
        Ok(j(r#"{"ok":true,"result":{"job":{"state":"running"}}}"#)),
        String::new(),
    ));
    assert!(matches!(found, LookupOutcome::Found(job) if v(&job) == expect(r#"{"state":"running"}"#)));
    let missing = status_outcome(StatusReply::Answered(
        false,
        Ok(j(r#"{"ok":false,"error":{"code":"job_not_found"}}"#)),
        String::new(),
    ));
    assert!(matches!(missing, LookupOutcome::NotFound(e) if v(&e) == expect(r#"{"code":"job_not_found"}"#)));
    let failed = status_outcome(StatusReply::Answered(false, Ok(j(r#"{"ok":false}"#)), " denied \n".to_string()));
    assert!(matches!(
        failed,
        LookupOutcome::Failed(e) if v(&e) == expect(r#"{"code":"status_failed","retryable":true,"message":"denied"}"#)
    ));
    let unreadable = status_outcome(StatusReply::Answered(true, Err("eof".to_string()), "x".to_string()));
    assert!(matches!(
        unreadable,
        LookupOutcome::Failed(e) if v(&e) == expect(r#"{"code":"invalid_response","retryable":true,"message":"eof","stderr":"x"}"#)
    ));
    let no_job = status_outcome(StatusReply::Answered(true, Ok(j(r#"{"ok":true,"result":{}}"#)), String::new()));
    assert!(matches!(no_job, LookupOutcome::Failed(e) if v(&e)["message"] == expect(r#""Stado status has no result.job""#)));
    let down = status_outcome(StatusReply::Unreachable("no such file".to_string()));
    assert!(matches!(down, LookupOutcome::Failed(e) if v(&e)["code"] == expect(r#""transport_error""#)));
}
