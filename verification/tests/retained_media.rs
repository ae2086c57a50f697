use serde_json::Value;
use spis::json::Json;
use spis::retained::{
    accessibility_gap, attempt_media, crawl_run_entry, is_accessibility_source, RetainedFile,
};

fn j(text: &str) -> Json {
    from_value(&serde_json::from_str(text).expect("test JSON parses"))
}

fn from_value(value: &Value) -> Json {
    match value {
        Value::Null => Json::Null,
        Value::Bool(b) => Json::Bool(*b),
        Value::Number(n) => {
            if let Some(u) = n.as_u64() {
                Json::UInt(u)
            } else if let Some(i) = n.as_i64() {
                Json::NegInt(i)
            } else {
                Json::Float(n.to_string())
            }
        }
        Value::String(s) => Json::Str(s.clone()),
        Value::Array(items) => Json::Array(items.iter().map(from_value).collect()),
        Value::Object(map) => Json::Object(
            map.iter()
                .map(|(k, v)| (k.clone(), from_value(v)))
                .collect(),
        ),
    }
}

fn v(json: &Json) -> Value {
    match json {
        Json::Null => Value::Null,
        Json::Bool(b) => Value::Bool(*b),
        Json::UInt(u) => Value::from(*u),
        Json::NegInt(i) => Value::from(*i),
        Json::Float(text) => serde_json::from_str(text).expect("a decimal number"),
        Json::Str(s) => Value::String(s.clone()),
        Json::Array(items) => Value::Array(items.iter().map(v).collect()),
        Json::Object(fields) => {
            let mut map = serde_json::Map::new();
            for (key, value) in fields {
                map.entry(key.clone()).or_insert_with(|| v(value));
            }
            Value::Object(map)
        }
    }
}

fn file(relative: Option<&str>, extension: Option<&str>, bytes: u64) -> RetainedFile {
    RetainedFile {
        relative: relative.map(str::to_string),
        extension: extension.map(str::to_string),
        sha256: format!("digest-{bytes}"),
        bytes,
    }
}

#[test]
fn crawl_run_entry_copies_the_manifest_identity() {
    let manifest = j(r#"{"run_id": "run-1", "catalog": "cli-examples", "record": "tool",
        "record_key": "rk", "attempt": 2, "attempt_id": "attempt-2-x", "engine": "cli",
        "source_revision": "rev", "source_input_sha256": "in", "reference_sha256": "ref",
        "bindings_file_sha256": "bf", "bindings_sha256": "b", "stado_run_id": "sr",
        "artifact_uri": "a://x", "output_uri": "o://x"}"#);
    let entry = j(r#"{"stado_job_id": "job-9"}"#);
    let report = j(r#"{"execution_identity": {"host": "box"}}"#);
    let artifact = j(r#"{"sha256": "abc", "bytes": 42}"#);
    let run = v(&crawl_run_entry(&manifest, &entry, &report, &artifact, "crawl/attempt-2-x/worker-report.json", "2024-01-02T03:04:05Z"));
    assert_eq!(run["schema"], Value::from("wisent.crawl-import.v2"));
    assert_eq!(run["run_id"], Value::from("run-1"));
    assert_eq!(run["attempt"], Value::from(2u64));
    assert_eq!(run["state"], Value::from("completed"));
    assert_eq!(run["outcome"], Value::from("completed"));
    assert_eq!(run["stado_job_id"], Value::from("job-9"));
    assert_eq!(run["artifact_sha256"], Value::from("abc"));
    assert_eq!(run["artifact_bytes"], Value::from(42u64));
    assert_eq!(run["worker_report"], Value::from("crawl/attempt-2-x/worker-report.json"));
    assert_eq!(
        run["capture_method"],
        Value::from("Local product run of the real executable in an isolated tmux pseudo-terminal; stdout/stderr, argv and exit status retained")
    );
    assert_eq!(run["imported_at"], Value::from("2024-01-02T03:04:05Z"));
    assert_eq!(run["execution_identity"]["host"], Value::from("box"));
    let bare = v(&crawl_run_entry(&manifest, &j("{}"), &j("{}"), &j("{}"), "r", "t"));
    assert_eq!(bare["stado_job_id"], Value::Null);
    assert_eq!(bare["artifact_bytes"], Value::Null);
    assert!(bare.get("execution_identity").is_none());
}

#[test]
fn accessibility_sources_by_name() {
    assert!(is_accessibility_source(Some("xml"), Some("tree.xml")));
    assert!(is_accessibility_source(Some("json"), Some("axe.json")));
    assert!(!is_accessibility_source(Some("XML"), Some("tree.XML")));
    assert!(!is_accessibility_source(Some("json"), Some("report.json")));
    assert!(!is_accessibility_source(None, None));
}

#[test]
fn accessibility_gap_is_never_measured() {
    let gap = v(&accessibility_gap("desktop", &vec![Some(10), None, Some(5)]));
    assert_eq!(gap["measured"], Value::Bool(false));
    assert_eq!(
        gap["observations"][0],
        Value::from("Retained 3 accessibility or DOM source files totalling 15 bytes from the desktop attempt.")
    );
    assert_eq!(gap["unknowns"].as_array().unwrap().len(), 2);
    let none = v(&accessibility_gap("web", &vec![]));
    assert_eq!(none["observations"], Value::Array(vec![]));
}

#[test]
fn media_point_at_the_first_motion_capture() {
    let files = vec![
        file(Some("crawl/a/notes.txt"), Some("txt"), 1),
        file(Some("crawl/a/shot-1.PNG"), Some("PNG"), 2),
        file(Some("crawl/a/run.mp4"), Some("mp4"), 3),
        file(Some("crawl/a/run.cast"), Some("cast"), 4),
    ];
    let (motion, states) = attempt_media("tui", "https://example.com", &files).expect("inside the record");
    assert_eq!(motion.len(), 2);
    assert_eq!(states.len(), 1);
    let first = v(&motion[0]);
    assert_eq!(first["local_path"], Value::from("crawl/a/run.mp4"));
    assert_eq!(first["media_kind"], Value::from("video-mp4"));
    assert_eq!(first["bytes"], Value::from(3u64));
    assert_eq!(first["source_url"], Value::from("https://example.com"));
    assert_eq!(v(&motion[1])["media_kind"], Value::from("terminal-cast"));
    let state = v(&states[0]);
    assert_eq!(state["name"], Value::from("Observed crawl/a/shot-1.PNG"));
    assert_eq!(state["source_motion_path"], Value::from("crawl/a/run.mp4"));
    assert_eq!(state["sha256"], Value::from("digest-2"));
}

#[test]
fn media_outside_the_record_is_refused() {
    let files = vec![file(None, Some("png"), 1)];
    assert!(attempt_media("web", "u", &files).is_none());
    let only_notes = vec![file(None, Some("txt"), 1)];
    let (motion, states) = attempt_media("web", "u", &only_notes).expect("no media");
    assert!(motion.is_empty() && states.is_empty());
    let stills = vec![file(Some("s.png"), Some("png"), 1)];
    let (_, states) = attempt_media("web", "u", &stills).expect("inside");
    assert_eq!(v(&states[0])["source_motion_path"], Value::Null);
}
