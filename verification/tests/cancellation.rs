use serde_json::Value;
use spis::cancel::{
    apply_cancel_result, cancel_exchange, cancel_intent, cancel_intent_uri, cancel_result,
    cancel_step, cancel_targets, parse_cancel_arguments, record_cancel_intent, record_position,
    status_document, CancelArgumentError, CancelStep, DispatchOutcome, IntentError, TargetError,
};
use spis::json::Json;
use spis::refresh::LookupOutcome;

fn j(text: &str) -> Json {
    from_value(&serde_json::from_str(text).expect("test JSON parses"))
}

fn from_value(value: &Value) -> Json {
    match value {
        Value::Null => Json::Null,
        Value::Bool(b) => Json::Bool(*b),
        Value::Number(n) => {
            if let Some(u) = n.as_u64() {
                Json::UInt(u)
            } else if let Some(i) = n.as_i64() {
                Json::NegInt(i)
            } else {
                Json::Float(n.to_string())
            }
        }
        Value::String(s) => Json::Str(s.clone()),
        Value::Array(items) => Json::Array(items.iter().map(from_value).collect()),
        Value::Object(map) => Json::Object(
            map.iter()
                .map(|(k, v)| (k.clone(), from_value(v)))
                .collect(),
        ),
    }
}

fn v(json: &Json) -> Value {
    match json {
        Json::Null => Value::Null,
        Json::Bool(b) => Value::Bool(*b),
        Json::UInt(u) => Value::from(*u),
        Json::NegInt(i) => Value::from(*i),
        Json::Float(text) => serde_json::from_str(text).expect("a decimal number"),
        Json::Str(s) => Value::String(s.clone()),
        Json::Array(items) => Value::Array(items.iter().map(v).collect()),
        Json::Object(fields) => {
            let mut map = serde_json::Map::new();
            for (key, value) in fields {
                map.entry(key.clone()).or_insert_with(|| v(value));
            }
            Value::Object(map)
        }
    }
}

fn expect(text: &str) -> Value {
    serde_json::from_str(text).expect("expected JSON parses")
}

fn words(items: &[&str]) -> Vec<String> {
    items.iter().map(|s| s.to_string()).collect()
}

#[test]
fn cancellation_arguments_are_read_or_refused() {
    match parse_cancel_arguments(&words(&["--run", "r1", "--reason", "operator asked", "--record", "a"])) {
        Ok(request) => {
            assert_eq!(request.run_id, "r1");
            assert_eq!(request.record.as_deref(), Some("a"));
            assert_eq!(request.reason, "operator asked");
        }
        Err(_) => panic!("a complete cancellation is read"),
    }
    assert!(matches!(
        parse_cancel_arguments(&words(&["--run"])),
        Err(CancelArgumentError::MissingValue(f)) if f == "--run"
    ));
    assert!(matches!(
        parse_cancel_arguments(&words(&["--force"])),
        Err(CancelArgumentError::Unknown(w)) if w == "--force"
    ));
    assert!(matches!(
        parse_cancel_arguments(&words(&["--reason", "x"])),
        Err(CancelArgumentError::RunRequired)
    ));
    assert!(matches!(
        parse_cancel_arguments(&words(&["--run", "r1", "--reason", "   "])),
        Err(CancelArgumentError::BadReason)
    ));
    let long = "é".repeat(513);
    assert!(matches!(
        parse_cancel_arguments(&words(&["--run", "r1", "--reason", &long])),
        Err(CancelArgumentError::BadReason)
    ));
    assert!(matches!(
        parse_cancel_arguments(&words(&["--run", "r1"])),
        Err(CancelArgumentError::BadReason)
    ));
}

#[test]
fn a_selection_addresses_records_in_run_order() {
    let run = j(r#"{"catalogs":[
        {"catalog":"c1","records":[{"record":"c1-alpha"},{"record":"c1-beta"}]},
        {"catalog":"c2","records":[{"record":"c2-beta"}]}
    ]}"#);
    assert!(matches!(
        cancel_targets(&run, None),
        Ok(t) if t == vec![
            ("c1".to_string(), "c1-alpha".to_string()),
            ("c1".to_string(), "c1-beta".to_string()),
            ("c2".to_string(), "c2-beta".to_string()),
        ]
    ));
    assert!(matches!(
        cancel_targets(&run, Some("alpha")),
        Ok(t) if t == vec![("c1".to_string(), "c1-alpha".to_string())]
    ));
    assert!(matches!(cancel_targets(&run, Some("beta")), Err(TargetError::Ambiguous)));
    assert!(matches!(cancel_targets(&run, Some("gamma")), Err(TargetError::NoMatch)));
    assert_eq!(record_position(&run, "c2", "c2-beta"), Some((1, 0)));
    assert_eq!(record_position(&run, "c2", "c1-beta"), None);
}

#[test]
fn the_intent_names_the_attempt_and_is_never_replaced() {
    let record = j(r#"{"record":"a","state":"planned","stado_job_id":"J1",
        "manifest":{"attempt":2,"attempt_id":"att-2","record_key":"k","stado_run_id":"s",
                    "artifact_uri":"stado://spis/r1/a/att-2/artifacts.tar.gz"}}"#);
    let intent = match cancel_intent("r1", "c1", "a", &record, "stop") {
        Ok(intent) => intent,
        Err(_) => panic!("a record with an attempt can be cancelled"),
    };
    assert_eq!(
        v(&intent),
        expect(r#"{"schema":"wisent.crawl-cancel-intent.v1","run_id":"r1","catalog":"c1","record":"a",
            "record_key":"k","attempt":2,"attempt_id":"att-2","stado_run_id":"s","stado_job_id":"J1","reason":"stop"}"#)
    );
    assert_eq!(
        cancel_intent_uri(&record).as_deref(),
        Some("stado://spis/r1/a/att-2/cancel-intent.json")
    );
    let mut entry = record.duplicate();
    record_cancel_intent(&mut entry, &intent);
    let once = v(&entry);
    assert_eq!(once["state"], expect(r#""cancelled""#));
    assert_eq!(once["diagnostic"]["code"], expect(r#""cancelled_before_submission""#));
    let other = cancel_intent("r1", "c1", "a", &record, "another reason").ok().unwrap();
    record_cancel_intent(&mut entry, &other);
    assert_eq!(v(&entry), once);
    assert!(matches!(cancel_intent("r1", "c1", "a", &j(r#"{"attempt":1}"#), "x"), Err(IntentError::NoAttemptId)));
    assert!(matches!(
        cancel_intent("r1", "c1", "a", &j(r#"{"attempt_id":"x"}"#), "x"),
        Err(IntentError::NoAttemptNumber)
    ));
    assert!(matches!(
        cancel_intent("r1", "c1", "a", &j(r#"{"manifest":{"attempt_id":7},"attempt_id":"x","attempt":1}"#), "x"),
        Err(IntentError::NoAttemptId)
    ));
    assert_eq!(cancel_intent_uri(&j(r#"{"manifest":{}}"#)), None);
}

#[test]
fn stado_is_asked_to_cancel_only_a_live_job() {
    let queued = status_document(Some(LookupOutcome::Found(j(r#"{"state":"queued"}"#))));
    assert_eq!(v(&queued), expect(r#"{"state":"queued","job":{"state":"queued"}}"#));
    assert_eq!(cancel_step(true, &queued), CancelStep::Dispatch);
    let done = status_document(Some(LookupOutcome::Found(j(r#"{"status":"succeeded"}"#))));
    assert_eq!(cancel_step(true, &done), CancelStep::AlreadyTerminal);
    let odd = status_document(Some(LookupOutcome::Found(j(r#"{"state":"paused"}"#))));
    assert_eq!(cancel_step(true, &odd), CancelStep::NotCancellable);
    let never = status_document(None);
    assert_eq!(v(&never), expect(r#"{"state":"not_submitted"}"#));
    assert_eq!(cancel_step(false, &never), CancelStep::BeforeSubmission);
    let lost = status_document(Some(LookupOutcome::NotFound(j(r#"{"code":"NOT_FOUND"}"#))));
    assert_eq!(v(&lost)["state"], expect(r#""not_found""#));
    assert_eq!(cancel_step(true, &lost), CancelStep::NotCancellable);

    let (action, after) = cancel_exchange(
        CancelStep::Dispatch,
        queued.duplicate(),
        Some(DispatchOutcome::Refused(" busy \n".to_string())),
    );
    assert_eq!(v(&action), expect(r#"{"state":"cancel_failed","stderr":"busy"}"#));
    assert_eq!(v(&after), v(&queued));
    let (action, after) = cancel_exchange(
        CancelStep::Dispatch,
        queued.duplicate(),
        Some(DispatchOutcome::Dispatched(LookupOutcome::Found(j(r#"{"state":"cancelled"}"#)))),
    );
    assert_eq!(v(&action), expect(r#"{"state":"cancel_dispatched"}"#));
    assert_eq!(v(&after)["state"], expect(r#""cancelled""#));

    let result = cancel_result("u", "d", "stop", queued.duplicate(), action, after, &j(r#"{"weles_task_id":"w1"}"#));
    let out = v(&result);
    assert_eq!(out["schema"], expect(r#""wisent.crawl-cancel-result.v1""#));
    assert_eq!(out["weles_action"]["weles_task_id"], expect(r#""w1""#));
    let mut entry = j(r#"{"record":"a","state":"queued"}"#);
    apply_cancel_result(&mut entry, result);
    assert_eq!(v(&entry)["state"], expect(r#""cancelled""#));

    let (action, after) = cancel_exchange(CancelStep::AlreadyTerminal, done.duplicate(), None);
    let kept = cancel_result("u", "d", "stop", done.duplicate(), action, after, &j("{}"));
    assert_eq!(v(&kept)["weles_action"], expect(r#"{"state":"no_retained_task_id"}"#));
    let mut entry = j(r#"{"record":"a","state":"completed"}"#);
    apply_cancel_result(&mut entry, kept);
    assert_eq!(v(&entry)["state"], expect(r#""completed""#));
    assert_eq!(v(&entry)["cancel"]["stado_action"]["state"], expect(r#""already_terminal""#));
}
