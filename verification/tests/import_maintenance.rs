use serde_json::Value;
use spis::import::{
    import_maintenance, import_step, maintenance_commands, maintenance_failure, ImportAction,
    ImportEvent,
};
use spis::json::Json;

fn from_value(value: &Value) -> Json {
    match value {
        Value::Null => Json::Null,
        Value::Bool(b) => Json::Bool(*b),
        Value::Number(n) => {
            if let Some(u) = n.as_u64() {
                Json::UInt(u)
            } else if let Some(i) = n.as_i64() {
                Json::NegInt(i)
            } else {
                Json::Float(n.to_string())
            }
        }
        Value::String(s) => Json::Str(s.clone()),
        Value::Array(items) => Json::Array(items.iter().map(from_value).collect()),
        Value::Object(map) => Json::Object(map.iter().map(|(k, v)| (k.clone(), from_value(v))).collect()),
    }
}

fn j(text: &str) -> Json {
    from_value(&serde_json::from_str(text).expect("test JSON parses"))
}

fn pairs(items: &[(&str, &str)]) -> Vec<(String, String)> {
    items.iter().map(|(a, b)| (a.to_string(), b.to_string())).collect()
}

#[test]
fn maintenance_follows_the_touched_catalogs() {
    let commands = maintenance_commands(&pairs(&[("cli-examples", "cli"), ("web-app-examples", "web")]));
    let words: Vec<Vec<&str>> = commands.iter().map(|c| c.iter().map(String::as_str).collect()).collect();
    assert_eq!(
        words,
        vec![
            vec!["verify-reference-evidence", "--catalog", "cli-examples", "--apply"],
            vec!["analyze-example-structures", "web-app-examples"],
            vec!["verify-reference-evidence", "--catalog", "web-app-examples", "--apply"],
            vec!["generate-example-catalogs"],
        ]
    );
    assert!(maintenance_commands(&Vec::new()).is_empty());
}

#[test]
fn maintenance_failures_are_recorded() {
    let command = vec!["verify-reference-evidence".to_string(), "--catalog".to_string(), "x".to_string()];
    let failure = maintenance_failure(&command, "exit 2");
    assert_eq!(failure.get_str("command"), Some("verify-reference-evidence --catalog x"));
    assert_eq!(failure.get_str("state"), Some("failed"));
    assert_eq!(failure.get_str("message"), Some("exit 2"));
    let summary = import_maintenance(&pairs(&[("a", "web"), ("b", "cli")]), vec![failure]);
    let names: Vec<Option<&str>> = summary.get_items("catalogs").iter().map(|n| n.as_str()).collect();
    assert_eq!(names, vec![Some("a"), Some("b")]);
    assert_eq!(summary.get_items("failures").len(), 1);
}

#[test]
fn importing_one_record() {
    let record = j(r#"{"record":"a","state":"completed"}"#);
    let (current, action) = import_step(record.duplicate(), ImportEvent::Locked(record.duplicate()));
    assert_eq!(action, ImportAction::Import);
    assert_eq!(current.get_str("state"), Some("completed"));
    let moved_on = j(r#"{"record":"a","state":"imported"}"#);
    let (_, action) = import_step(record.duplicate(), ImportEvent::Locked(moved_on));
    assert_eq!(action, ImportAction::Skip);
    let (same, action) = import_step(record.duplicate(), ImportEvent::Busy);
    assert_eq!(action, ImportAction::Skip);
    assert_eq!(same.get_str("state"), Some("completed"));
    let (done, action) = import_step(record.duplicate(), ImportEvent::Imported(j(r#"{"weles_task_id":"t-1"}"#)));
    assert_eq!(action, ImportAction::PersistImported);
    assert_eq!(done.get_str("state"), Some("imported"));
    assert_eq!(done.get_str("weles_task_id"), Some("t-1"));
    let (failed, action) = import_step(record, ImportEvent::Failed("digest differs".to_string()));
    assert_eq!(action, ImportAction::PersistFailed);
    assert_eq!(failed.get_str("state"), Some("partial"));
}
