use serde_json::Value;
use spis::json::Json;
use spis::runstate::admitted_records;

fn j(text: &str) -> Json {
    from_value(&serde_json::from_str(text).expect("test JSON parses"))
}

fn from_value(value: &Value) -> Json {
    match value {
        Value::Null => Json::Null,
        Value::Bool(b) => Json::Bool(*b),
        Value::Number(n) => {
            if let Some(u) = n.as_u64() {
                Json::UInt(u)
            } else if let Some(i) = n.as_i64() {
                Json::NegInt(i)
            } else {
                Json::Float(n.to_string())
            }
        }
        Value::String(s) => Json::Str(s.clone()),
        Value::Array(items) => Json::Array(items.iter().map(from_value).collect()),
        Value::Object(map) => Json::Object(
            map.iter()
                .map(|(k, v)| (k.clone(), from_value(v)))
                .collect(),
        ),
    }
}

fn records(text: &str) -> Vec<Json> {
    match j(text) {
        Json::Array(items) => items,
        _ => panic!("an array"),
    }
}

#[test]
fn window_admits_new_records_only_while_slots_remain() {
    let list = records(r#"[
        {"record": "a", "state": "planned"},
        {"record": "b", "state": "running"},
        {"record": "c", "state": "planned"},
        {"state": "planned"},
        {"record": "d", "state": "queued"},
        {"record": "e", "state": "planned"}
    ]"#);
    assert_eq!(admitted_records(&list, 3), vec!["a", "b", "d"]);
    assert_eq!(admitted_records(&list, 4), vec!["a", "b", "c", "d"]);
    assert_eq!(admitted_records(&list, 0), vec!["b", "d"]);
    assert_eq!(admitted_records(&list, 10), vec!["a", "b", "c", "d", "e"]);
    assert!(admitted_records(&Vec::new(), 3).is_empty());
}
