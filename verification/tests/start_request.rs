use serde_json::Value;
use spis::json::Json;
use spis::start::{
    default_run_id, map_insert, parse_start_arguments, placed_catalog, placement_problem,
    unplaced_catalog, StartArgumentError,
};

fn v(json: &Json) -> Value {
    match json {
        Json::Null => Value::Null,
        Json::Bool(b) => Value::Bool(*b),
        Json::UInt(u) => Value::from(*u),
        Json::NegInt(i) => Value::from(*i),
        Json::Float(text) => serde_json::from_str(text).expect("a decimal number"),
        Json::Str(s) => Value::String(s.clone()),
        Json::Array(items) => Value::Array(items.iter().map(v).collect()),
        Json::Object(fields) => {
            let mut map = serde_json::Map::new();
            for (key, value) in fields {
                map.entry(key.clone()).or_insert_with(|| v(value));
            }
            Value::Object(map)
        }
    }
}

fn args(items: &[&str]) -> Vec<String> {
    items.iter().map(|s| s.to_string()).collect()
}

#[test]
fn start_arguments_are_parsed_in_order() {
    let request = parse_start_arguments(&args(&[
        "--host", "web=forge", "--catalog", "cli-examples", "--host", "box", "--catalog",
        "tui-examples", "--record", "tool", "--run-id", "crawl-1", "--bindings", "b.json",
        "--host", "web=lab",
    ]))
    .expect("parses");
    assert_eq!(
        request.hosts,
        vec![("*".to_string(), "box".to_string()), ("web".to_string(), "lab".to_string())]
    );
    assert_eq!(request.catalogs, vec!["cli-examples", "tui-examples"]);
    assert_eq!(request.record.as_deref(), Some("tool"));
    assert_eq!(request.run_id.as_deref(), Some("crawl-1"));
    assert_eq!(request.bindings.as_deref(), Some("b.json"));
    let empty = parse_start_arguments(&[]).expect("parses");
    assert!(empty.hosts.is_empty() && empty.catalogs.is_empty() && empty.record.is_none());
}

#[test]
fn start_arguments_are_refused() {
    assert!(matches!(
        parse_start_arguments(&args(&["--catalog"])),
        Err(StartArgumentError::MissingValue(f)) if f == "--catalog"
    ));
    assert!(matches!(
        parse_start_arguments(&args(&["--host", "=box"])),
        Err(StartArgumentError::BadHostMapping)
    ));
    assert!(matches!(
        parse_start_arguments(&args(&["--host", "web="])),
        Err(StartArgumentError::BadHostMapping)
    ));
    assert!(matches!(
        parse_start_arguments(&args(&["--fast"])),
        Err(StartArgumentError::Unknown(a)) if a == "--fast"
    ));
}

#[test]
fn map_insert_keeps_keys_in_order() {
    let mut map: Vec<(String, String)> = Vec::new();
    for (k, v) in [("tui", "a"), ("cli", "b"), ("web", "c"), ("cli", "d"), ("*", "e")] {
        map_insert(&mut map, k.to_string(), v.to_string());
    }
    let keys: Vec<&str> = map.iter().map(|(k, _)| k.as_str()).collect();
    assert_eq!(keys, vec!["*", "cli", "tui", "web"]);
    assert_eq!(map[1].1, "d");
}

#[test]
fn default_run_ids_avoid_colons() {
    assert_eq!(default_run_id("2024-01-02T03:04:05Z"), "crawl-2024-01-02-03-04-05Z");
}

#[test]
fn placement_problems() {
    let none: Result<String, String> = Err("no host".to_string());
    assert_eq!(placement_problem(&none, "cli", false, None), Some("no host".to_string()));
    let host: Result<String, String> = Ok("forge".to_string());
    assert_eq!(placement_problem(&host, "cli", false, None), None);
    assert_eq!(placement_problem(&host, "web", true, None), None);
    assert_eq!(
        placement_problem(&host, "web", false, Some("Stado registry placement discovery failed: x")),
        Some("Stado registry placement discovery failed: x".to_string())
    );
    assert_eq!(
        placement_problem(&host, "web", false, None),
        Some("Stado service directory does not authorize consumer spis for weles-admission browser-evidence on a host advertising generic_browser_task".to_string())
    );
}

#[test]
fn catalog_entries() {
    let unplaced = v(&unplaced_catalog("web-examples", "web", "no host", vec![Json::Null]));
    assert_eq!(unplaced["host"], Value::Null);
    assert_eq!(unplaced["state"], Value::from("unavailable"));
    assert_eq!(unplaced["host_preflight"]["ready"], Value::Bool(false));
    assert_eq!(unplaced["host_preflight"]["diagnostic"]["code"], Value::from("runtime_placement_unavailable"));
    assert_eq!(unplaced["host_preflight"]["diagnostic"]["message"], Value::from("no host"));
    assert_eq!(unplaced["records"].as_array().unwrap().len(), 1);
    let placed = v(&placed_catalog("cli-examples", "cli", "box", vec![]));
    assert_eq!(placed["host"], Value::from("box"));
    assert_eq!(placed["state"], Value::from("planned"));
    assert_eq!(placed["host_preflight"], Value::Null);
}
