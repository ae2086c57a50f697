use serde_json::Value;
use spis::import::{
    import_candidates, record_import_failed, record_imported, upsert_crawl_run,
    verify_worker_report, ReportError,
};
use spis::json::Json;

fn j(text: &str) -> Json {
    from_value(&serde_json::from_str(text).expect("test JSON parses"))
}

fn from_value(value: &Value) -> Json {
    match value {
        Value::Null => Json::Null,
        Value::Bool(b) => Json::Bool(*b),
        Value::Number(n) => {
            if let Some(u) = n.as_u64() {
                Json::UInt(u)
            } else if let Some(i) = n.as_i64() {
                Json::NegInt(i)
            } else {
                Json::Float(n.to_string())
            }
        }
        Value::String(s) => Json::Str(s.clone()),
        Value::Array(items) => Json::Array(items.iter().map(from_value).collect()),
        Value::Object(map) => Json::Object(
            map.iter()
                .map(|(k, v)| (k.clone(), from_value(v)))
                .collect(),
        ),
    }
}

fn v(json: &Json) -> Value {
    match json {
        Json::Null => Value::Null,
        Json::Bool(b) => Value::Bool(*b),
        Json::UInt(u) => Value::from(*u),
        Json::NegInt(i) => Value::from(*i),
        Json::Float(text) => serde_json::from_str(text).expect("a decimal number"),
        Json::Str(s) => Value::String(s.clone()),
        Json::Array(items) => Value::Array(items.iter().map(v).collect()),
        Json::Object(fields) => {
            let mut map = serde_json::Map::new();
            for (key, value) in fields {
                map.entry(key.clone()).or_insert_with(|| v(value));
            }
            Value::Object(map)
        }
    }
}

fn expect(text: &str) -> Value {
    serde_json::from_str(text).expect("expected JSON parses")
}

const MANIFEST: &str = r#"{"run_id":"r1","catalog":"cli-examples","record":"a","record_key":"k",
    "attempt_id":"att-1","engine":"cli","source_revision":"rev","source_input_sha256":"in",
    "reference_sha256":"ref","bindings_file_sha256":"bf","bindings_sha256":"b","attempt":1,
    "artifact_uri":"stado://x/artifacts.tar.gz","output_uri":"stado://x/worker-output.log"}"#;

const DIGEST: &str = "ba7816bf8f01cfea414140de5dae2223b00361a396177a9cb410ff61f20015ad";

fn report() -> Value {
    let mut report: Value = serde_json::from_str(MANIFEST).unwrap();
    report["state"] = Value::from("artifact_published");
    report["artifact"] = serde_json::from_str(&format!(
        r#"{{"uri":"stado://x/artifacts.tar.gz","sha256":"{DIGEST}","bytes":42}}"#
    ))
    .unwrap();
    report
}

fn check(report: &Value, entry: &str, receipt: &str) -> Result<Json, ReportError> {
    verify_worker_report(
        &j(&report.to_string()),
        &j(MANIFEST),
        &j(entry),
        &j(receipt),
        "artifact_published",
    )
}

const ENTRY: &str = r#"{"stado_job_id":"J1"}"#;
const RECEIPT: &str = r#"{"stado_job_id":"J1","stado_receipt":{"source_revision":"rev",
    "jobs":[{"output_uri":"stado://x/worker-output.log"}]}}"#;

#[test]
fn a_worker_report_bound_to_its_attempt_is_proven() {
    match check(&report(), ENTRY, RECEIPT) {
        Ok(proof) => {
            let out = v(&proof);
            assert_eq!(out["sha256"], Value::from(DIGEST));
            assert_eq!(out["bytes"], Value::from(42u64));
            assert_eq!(out["artifact"]["uri"], Value::from("stado://x/artifacts.tar.gz"));
        }
        Err(_) => panic!("a bound report is proven"),
    }
}

#[test]
fn a_worker_report_that_strays_from_its_attempt_is_refused() {
    let mut other = report();
    other["record_key"] = Value::from("k2");
    assert!(matches!(check(&other, ENTRY, RECEIPT), Err(ReportError::FieldDiffers("record_key"))));
    let mut other = report();
    other["attempt"] = Value::from(2u64);
    assert!(matches!(check(&other, ENTRY, RECEIPT), Err(ReportError::AttemptDiffers)));
    let mut other = report();
    other["state"] = Value::from("failed");
    assert!(matches!(check(&other, ENTRY, RECEIPT), Err(ReportError::StateDiffers)));
    let mut other = report();
    other["artifact"] = Value::from("x");
    assert!(matches!(check(&other, ENTRY, RECEIPT), Err(ReportError::NoArtifact)));
    let mut other = report();
    other["artifact"]["uri"] = Value::from("stado://y");
    assert!(matches!(check(&other, ENTRY, RECEIPT), Err(ReportError::ArtifactUri)));
    let mut other = report();
    other["artifact"]["sha256"] = Value::from(DIGEST.to_uppercase());
    assert!(matches!(check(&other, ENTRY, RECEIPT), Err(ReportError::NoArtifactDigest)));
    let mut other = report();
    other["artifact"]["bytes"] = Value::from(0u64);
    assert!(matches!(check(&other, ENTRY, RECEIPT), Err(ReportError::NoArtifactBytes)));
    assert!(matches!(check(&report(), "{}", RECEIPT), Err(ReportError::NoJobId)));
    assert!(matches!(
        check(&report(), r#"{"stado_job_id":"J2"}"#, RECEIPT),
        Err(ReportError::ReceiptJob)
    ));
    let moved = RECEIPT.replace("\"rev\"", "\"rev2\"");
    assert!(matches!(check(&report(), ENTRY, &moved), Err(ReportError::ReceiptRevision)));
    let elsewhere = RECEIPT.replace("worker-output.log", "other.log");
    assert!(matches!(check(&report(), ENTRY, &elsewhere), Err(ReportError::ReceiptOutput)));
}

#[test]
fn only_completed_or_uploaded_selected_records_are_imported() {
    let run = j(r#"{"catalogs":[
        {"catalog":"c1","engine":"web","records":[
            {"record":"c1-a","state":"completed"},{"record":"c1-b","state":"queued"},{"record":"c1-c","state":"uploaded"}]},
        {"catalog":"c2","engine":"cli","records":[{"record":"c2-a","state":"completed"}]}
    ]}"#);
    let names = |items: &[(&str, &str, &str)]| {
        items.iter().map(|(a, b, c)| (a.to_string(), b.to_string(), c.to_string())).collect::<Vec<_>>()
    };
    assert_eq!(
        import_candidates(&run, None),
        names(&[("c1", "web", "c1-a"), ("c1", "web", "c1-c"), ("c2", "cli", "c2-a")])
    );
    assert_eq!(import_candidates(&run, Some("a")), names(&[("c1", "web", "c1-a"), ("c2", "cli", "c2-a")]));
    assert!(import_candidates(&run, Some("b")).is_empty());
}

#[test]
fn an_import_outcome_is_written_on_the_record() {
    let mut entry = j(r#"{"record":"a","state":"completed","diagnostic":{"code":"x"}}"#);
    record_imported(&mut entry, j(r#"{"state":"imported","weles_task_id":"w9"}"#));
    let out = v(&entry);
    assert_eq!(out["state"], Value::from("imported"));
    assert_eq!(out["weles_task_id"], Value::from("w9"));
    assert_eq!(out["import"]["state"], Value::from("imported"));
    assert_eq!(out["diagnostic"], Value::Null);
    let mut entry = j(r#"{"record":"a","state":"completed"}"#);
    record_import_failed(&mut entry, "digest mismatch");
    let out = v(&entry);
    assert_eq!(out["state"], Value::from("partial"));
    assert_eq!(
        out["diagnostic"],
        expect(r#"{"code":"attempt_import_failed","message":"digest mismatch"}"#)
    );
}

#[test]
fn crawl_runs_are_replaced_by_attempt_and_kept_in_attempt_order() {
    let runs = vec![
        j(r#"{"attempt_id":"a3","attempt":3}"#),
        j(r#"{"attempt_id":"a1","attempt":1}"#),
        j(r#"{"attempt_id":"legacy"}"#),
    ];
    let out = upsert_crawl_run(runs, j(r#"{"attempt_id":"a2","attempt":2}"#), "a2");
    let ids: Vec<Value> = out.iter().map(|r| v(r)["attempt_id"].clone()).collect();
    assert_eq!(ids, vec![Value::from("legacy"), Value::from("a1"), Value::from("a2"), Value::from("a3")]);
    let again = upsert_crawl_run(out, j(r#"{"attempt_id":"a2","attempt":2,"state":"completed"}"#), "a2");
    assert_eq!(again.len(), 4);
    assert_eq!(v(&again[2])["state"], Value::from("completed"));
    let tied = upsert_crawl_run(
        vec![j(r#"{"attempt_id":"x","attempt":1,"n":1}"#), j(r#"{"attempt_id":"y","attempt":1,"n":2}"#)],
        j(r#"{"attempt_id":"z","attempt":1,"n":3}"#),
        "z",
    );
    let order: Vec<Value> = tied.iter().map(|r| v(r)["n"].clone()).collect();
    assert_eq!(order, vec![Value::from(1u64), Value::from(2u64), Value::from(3u64)]);
}
