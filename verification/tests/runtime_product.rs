use serde_json::Value;
use spis::json::Json;
use spis::product::{runtime_product, ProductFault};

fn from_value(value: &Value) -> Json {
    match value {
        Value::Null => Json::Null,
        Value::Bool(b) => Json::Bool(*b),
        Value::Number(n) => {
            if let Some(u) = n.as_u64() {
                Json::UInt(u)
            } else if let Some(i) = n.as_i64() {
                Json::NegInt(i)
            } else {
                Json::Float(n.to_string())
            }
        }
        Value::String(s) => Json::Str(s.clone()),
        Value::Array(items) => Json::Array(items.iter().map(from_value).collect()),
        Value::Object(map) => Json::Object(map.iter().map(|(k, v)| (k.clone(), from_value(v))).collect()),
    }
}

fn j(text: &str) -> Json {
    from_value(&serde_json::from_str(text).expect("test JSON parses"))
}

const SURFACE: &str = r#"{"family":"web-app","exact_url":"https://zed.dev/download","origin":"https://zed.dev",
    "path":"/download","allowed_origins":["https://zed.dev"],"allowed_actions":["generic_browser_task"],
    "terminal_outcomes":["blocked","completed","failed"]}"#;

#[test]
fn a_web_record_names_its_url_and_exact_surface() {
    let record = j(r#"{"name":"Zed","product_url":"https://zed.dev/download"}"#);
    let product = runtime_product("web-app-examples", "web", &record, j(SURFACE), None, "").expect("a product");
    assert_eq!(product.get_str("kind"), Some("url"));
    assert_eq!(product.get_str("identifier"), Some("https://zed.dev/download"));
    assert_eq!(product.get_str("identity_source"), Some("reference.json product_url"));
    assert!(product.get("surface").map(|s| s.is_object()).unwrap_or(false));
    let wide = SURFACE.replace(r#""terminal_outcomes":["blocked","completed","failed"]"#, r#""terminal_outcomes":["maybe"]"#);
    assert_eq!(
        runtime_product("web-app-examples", "web", &record, j(&wide), None, "").err(),
        Some(ProductFault::InexactSurface)
    );
    assert_eq!(
        runtime_product("web-app-examples", "web", &record, Json::Null, None, "").err(),
        Some(ProductFault::NoSurface)
    );
}

#[test]
fn mobile_desktop_and_terminal_records_name_their_identity() {
    let play = j(r#"{"name":"Signal","product_url":"https://play.google.com/store/apps/details?hl=en&id=org.thoughtcrime.securesms"}"#);
    let product = runtime_product("android-app-examples", "mobile", &play, Json::Null, None, "").expect("a package");
    assert_eq!(product.get_str("kind"), Some("android-package"));
    assert_eq!(product.get_str("identifier"), Some("org.thoughtcrime.securesms"));
    let no_id = j(r#"{"name":"Signal","product_url":"https://play.google.com/store/apps/details?hl=en"}"#);
    assert_eq!(
        runtime_product("android-app-examples", "mobile", &no_id, Json::Null, None, "").err(),
        Some(ProductFault::NoPackage)
    );
    let ios = j(r#"{"name":"Things","product_url":"https://apps.apple.com/app/id904237743"}"#);
    assert_eq!(
        runtime_product("ios-app-examples", "mobile", &ios, Json::Null, None, "").err(),
        Some(ProductFault::NoBundle)
    );
    let bundle = runtime_product("ios-app-examples", "mobile", &ios, Json::Null, Some(("com.culturedcode.ThingsiPhone", "lookup")), "")
        .expect("a bundle");
    assert_eq!(bundle.get_str("identifier"), Some("com.culturedcode.ThingsiPhone"));
    let app = j(r#"{"name":"Visual Studio Code","product_url":"https://code.visualstudio.com/"}"#);
    let desktop = runtime_product("desktop-app-examples", "desktop", &app, Json::Null, None, "").expect("a name");
    assert_eq!(desktop.get_str("kind"), Some("desktop-display-name"));
    assert_eq!(desktop.get_str("declared_identifier"), Some("Visual Studio Code"));
    let odd = j(r#"{"name":"Quote's","product_url":"https://x.example/"}"#);
    assert_eq!(
        runtime_product("desktop-app-examples", "desktop", &odd, Json::Null, None, "").err(),
        Some(ProductFault::UnsafeIdentity)
    );
    let cli = runtime_product("cli-examples", "cli", &app, Json::Null, None, "rg").expect("a binary");
    assert_eq!(cli.get_str("kind"), Some("cli-binary"));
    assert_eq!(cli.get_str("identifier"), Some("rg"));
    assert_eq!(
        runtime_product("cli-examples", "fax", &app, Json::Null, None, "rg").err(),
        Some(ProductFault::UnsupportedEngine)
    );
    let bare = j(r#"{"name":"Zed"}"#);
    assert_eq!(
        runtime_product("cli-examples", "cli", &bare, Json::Null, None, "zed").err(),
        Some(ProductFault::NoProductUrl)
    );
}
