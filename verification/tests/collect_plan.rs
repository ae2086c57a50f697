use serde_json::Value;
use spis::collect::{captured_visual, collect_plan, collection_failure, refresh_visual, CollectPlan};
use spis::json::Json;

fn from_value(value: &Value) -> Json {
    match value {
        Value::Null => Json::Null,
        Value::Bool(b) => Json::Bool(*b),
        Value::Number(n) => {
            if let Some(u) = n.as_u64() {
                Json::UInt(u)
            } else if let Some(i) = n.as_i64() {
                Json::NegInt(i)
            } else {
                Json::Float(n.to_string())
            }
        }
        Value::String(s) => Json::Str(s.clone()),
        Value::Array(items) => Json::Array(items.iter().map(from_value).collect()),
        Value::Object(map) => Json::Object(map.iter().map(|(k, v)| (k.clone(), from_value(v))).collect()),
    }
}

fn j(text: &str) -> Json {
    from_value(&serde_json::from_str(text).expect("test JSON parses"))
}

fn urls(plan: CollectPlan) -> Vec<(String, &'static str)> {
    match plan {
        CollectPlan::Capture(urls) => urls,
        CollectPlan::Keep => panic!("a capture was expected"),
    }
}

#[test]
fn entries_with_an_image_are_kept_unless_replacing() {
    let example = j(r#"{"name":"Zed","source_url":"https://zed.dev/","visual":{"local_path":"images/01-zed.png"}}"#);
    assert!(matches!(collect_plan(&example, false), CollectPlan::Keep));
    let replaced = urls(collect_plan(&example, true));
    assert_eq!(replaced[0], ("https://zed.dev/".to_string(), "official-source-image"));
}

#[test]
fn captures_try_the_visual_source_then_a_screenshot() {
    let example = j(r#"{"name":"Zed","source_url":"https://zed.dev/","visual_source_url":"https://zed.dev/shot"}"#);
    assert_eq!(
        urls(collect_plan(&example, false)),
        vec![
            ("https://zed.dev/shot".to_string(), "official-source-image"),
            (
                "https://image.thum.io/get/width/1400/crop/1000/noanimate/https://zed.dev/".to_string(),
                "remote-page-screenshot"
            ),
        ]
    );
    let blank = j(r#"{"name":"Zed","source_url":"https://zed.dev/","visual_source_url":"","visual":null}"#);
    assert_eq!(urls(collect_plan(&blank, false))[0].0, "https://zed.dev/");
}

#[test]
fn kept_and_captured_visuals_record_their_provenance() {
    let mut visual = j(r#"{"local_path":"a.png","source_image_url":"https://private-user-images.githubusercontent.com/1/a.png?jwt=x"}"#);
    assert!(refresh_visual(&mut visual, "https://example.com/page"));
    assert_eq!(visual.get_str("source_page_url"), Some("https://example.com/page"));
    assert_eq!(
        visual.get_str("source_image_url"),
        Some("https://private-user-images.githubusercontent.com/1/a.png")
    );
    let mut bare = j(r#"{"local_path":"a.png"}"#);
    assert!(!refresh_visual(&mut bare, "https://example.com/page"));
    let captured = captured_visual(j(r#"{"capture_kind":"official-source-image","source_page_url":null}"#), "remote-page-screenshot", "https://x/");
    assert_eq!(captured.get_str("capture_kind"), Some("remote-page-screenshot"));
    assert_eq!(captured.get_str("source_page_url"), Some("https://x/"));
    let failure = collection_failure(7, "Zed", "https://zed.dev/", "timeout");
    assert_eq!(failure.get_u64("index"), Some(7));
    assert_eq!(failure.get_str("error"), Some("timeout"));
}
