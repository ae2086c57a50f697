use serde_json::Value;
use spis::device::{
    android_device, android_package, android_version, authorized_android_devices,
    booted_ios_devices, digest_word, installed_digest, ios_app_bundle, ios_booted_device,
    ios_executable_path, is_executable_name, lines, resolved_executables, terminal_resolution,
    DeviceError, bundle_paths, desktop_identity_source, desktop_paths, display_name_query,
    hardware_uuid, is_bundle_identifier,
};
use spis::json::Json;

fn j(text: &str) -> Json {
    from_value(&serde_json::from_str(text).expect("test JSON parses"))
}

fn from_value(value: &Value) -> Json {
    match value {
        Value::Null => Json::Null,
        Value::Bool(b) => Json::Bool(*b),
        Value::Number(n) => {
            if let Some(u) = n.as_u64() {
                Json::UInt(u)
            } else if let Some(i) = n.as_i64() {
                Json::NegInt(i)
            } else {
                Json::Float(n.to_string())
            }
        }
        Value::String(s) => Json::Str(s.clone()),
        Value::Array(items) => Json::Array(items.iter().map(from_value).collect()),
        Value::Object(map) => Json::Object(
            map.iter()
                .map(|(k, v)| (k.clone(), from_value(v)))
                .collect(),
        ),
    }
}

fn v(json: &Json) -> Value {
    match json {
        Json::Null => Value::Null,
        Json::Bool(b) => Value::Bool(*b),
        Json::UInt(u) => Value::from(*u),
        Json::NegInt(i) => Value::from(*i),
        Json::Float(text) => serde_json::from_str(text).expect("a decimal number"),
        Json::Str(s) => Value::String(s.clone()),
        Json::Array(items) => Value::Array(items.iter().map(v).collect()),
        Json::Object(fields) => {
            let mut map = serde_json::Map::new();
            for (key, value) in fields {
                map.entry(key.clone()).or_insert_with(|| v(value));
            }
            Value::Object(map)
        }
    }
}

fn probe(stdout: &str) -> Json {
    let mut map = serde_json::Map::new();
    map.insert("ready".to_string(), Value::Bool(true));
    map.insert("stdout".to_string(), Value::from(stdout));
    from_value(&Value::Object(map))
}

const DIGEST: &str = "ABCDEF0123456789abcdef0123456789ABCDEF0123456789abcdef0123456789";

fn text_lines(text: &str) -> Vec<String> {
    lines(&text.chars().collect())
        .into_iter()
        .map(|l| l.into_iter().collect())
        .collect()
}

#[test]
fn lines_split_like_str_lines() {
    for text in ["", "a", "a\n", "a\r\nb", "a\n\nb\n", "\n", "a\r", "x\ny\r\n"] {
        let expected: Vec<String> = text.lines().map(str::to_string).collect();
        assert_eq!(text_lines(text), expected, "{text:?}");
    }
}

#[test]
fn one_authorized_android_device() {
    let listing = "List of devices attached\nemulator-5554 device product:sdk model:Pixel\nR58 unauthorized\n";
    assert_eq!(authorized_android_devices(listing), vec!["emulator-5554".to_string()]);
    assert!(matches!(android_device(&probe(listing)), Ok(s) if s == "emulator-5554"));
    let two = "A device\nB device";
    assert!(matches!(android_device(&probe(two)), Err(DeviceError::Count(2))));
    assert!(matches!(android_device(&probe("List of devices attached")), Err(DeviceError::Count(0))));
    assert!(matches!(android_device(&j(r#"{"ready": false}"#)), Err(DeviceError::Probe(_))));
}

#[test]
fn one_booted_ios_simulator() {
    let report = j(r#"{"devices": {
        "iOS-17": [{"state": "Booted", "udid": "U1", "name": "iPhone 15"},
                   {"state": "Shutdown", "udid": "U2"}],
        "iOS-16": [{"state": "Booted", "udid": "U3", "isAvailable": false}]
    }}"#);
    assert_eq!(booted_ios_devices(&report).len(), 1);
    assert!(matches!(
        ios_booted_device(&report),
        Ok((udid, Some(name))) if udid == "U1" && name == "iPhone 15"
    ));
    let none = j(r#"{"devices": {"iOS-17": [{"state": "Shutdown"}]}}"#);
    assert!(matches!(ios_booted_device(&none), Err(DeviceError::Count(0))));
    let nameless = j(r#"{"devices": {"iOS-17": [{"state": "Booted"}]}}"#);
    assert!(matches!(ios_booted_device(&nameless), Err(DeviceError::NoUdid)));
}

#[test]
fn digests_are_sixty_four_hex_digits() {
    assert_eq!(digest_word(&format!("{DIGEST}  /bin/tool")), Some(DIGEST.to_string()));
    assert_eq!(digest_word("abc /bin/tool"), None);
    assert_eq!(digest_word(""), None);
    assert!(matches!(
        installed_digest(&probe(&format!("{DIGEST} /bin/tool"))),
        Ok(d) if d == DIGEST.to_ascii_lowercase()
    ));
    assert!(matches!(installed_digest(&probe("zz")), Err(DeviceError::InvalidDigest)));
}

#[test]
fn ios_bundle_and_executable() {
    assert!(matches!(ios_app_bundle(&probe("/data/App.app\n")), Ok(p) if p == "/data/App.app"));
    assert!(matches!(ios_app_bundle(&probe("/data/App")), Err(DeviceError::NotAppBundle)));
    assert!(matches!(
        ios_executable_path("/data/App.app", &probe("Runner")),
        Ok(p) if p == "/data/App.app/Runner"
    ));
    assert!(matches!(
        ios_executable_path("/data/App.app", &probe("bin/Runner")),
        Err(DeviceError::InvalidExecutableName)
    ));
    assert!(!is_executable_name("a b"));
    assert!(is_executable_name("Runner"));
}

#[test]
fn android_package_and_version() {
    assert!(matches!(
        android_package(&probe("  package:/data/app/base.apk\npackage:/other.apk")),
        Ok(p) if p == "/data/app/base.apk"
    ));
    assert!(matches!(android_package(&probe("nothing")), Err(DeviceError::NoPackagePath)));
    assert!(matches!(
        android_version(&probe("Packages:\n    versionCode=3\n    versionName=2.1.0\n")),
        Ok(v) if v == "2.1.0"
    ));
    assert!(matches!(
        android_version(&probe("versionName=\nversionName=2")),
        Err(DeviceError::NoVersionName)
    ));
}

#[test]
fn terminal_executables_are_collected_once() {
    let checks = vec![
        probe("/usr/bin/tool\n/usr/local/bin/tool\n"),
        probe("  /usr/bin/tool  \nrelative/tool\n/with space/tool"),
        j(r#"{"ready": false, "stdout": "/opt/tool"}"#),
    ];
    assert_eq!(
        resolved_executables(&checks),
        vec!["/usr/bin/tool".to_string(), "/usr/local/bin/tool".to_string()]
    );
    assert!(resolved_executables(&vec![]).is_empty());
}

#[test]
fn terminal_resolution_keeps_the_reported_digest_spelling() {
    let resolved = match terminal_resolution("tui", "/usr/bin/tool", &probe(&format!("{DIGEST}  /usr/bin/tool"))) {
        Ok(r) => r,
        Err(_) => panic!("resolves"),
    };
    assert_eq!(resolved.kind, "tui-binary");
    assert_eq!(resolved.sha256, DIGEST.to_ascii_lowercase());
    assert_eq!(
        resolved.identity_source,
        format!("typed isolated host path resolution: /usr/bin/tool; sha256={DIGEST}")
    );
    let cli = match terminal_resolution("cli", "/bin/x", &probe(DIGEST)) {
        Ok(r) => r,
        Err(_) => panic!("resolves"),
    };
    assert_eq!(cli.kind, "cli-binary");
    assert!(matches!(
        terminal_resolution("cli", "/bin/x", &probe("short")),
        Err(DeviceError::InvalidDigest)
    ));
}

#[test]
fn desktop_bundle_resolution() {
    assert_eq!(
        display_name_query("Bob's App"),
        "kMDItemDisplayName == 'Bob\\'s App' && kMDItemContentType == 'com.apple.application-bundle'"
    );
    assert_eq!(
        bundle_paths("/Applications/A.app\n  /Users/x/B.app  \n/Applications/C.app/Contents\n"),
        vec!["/Applications/A.app".to_string(), "/Users/x/B.app".to_string()]
    );
    assert!(is_bundle_identifier("com.example.app"));
    assert!(!is_bundle_identifier("(null)"));
    assert!(!is_bundle_identifier("com example"));
    assert_eq!(
        desktop_paths("/Applications/A.app", "A"),
        (
            "/Applications/A.app/Contents/Info.plist".to_string(),
            "/Applications/A.app/Contents/MacOS/A".to_string()
        )
    );
    assert_eq!(
        desktop_identity_source("/A.app", "/A.app/Contents/MacOS/A", "1.2", "ab"),
        "typed host display-name resolution: bundle=/A.app; executable=/A.app/Contents/MacOS/A; version=1.2; sha256=ab"
    );
}

#[test]
fn hardware_uuid_from_ioreg() {
    let report = "+-o Mac  <class IOPlatformExpertDevice>\n    \"IOPlatformSerialNumber\" = \"C02\"\n    \"IOPlatformUUID\" = \"1A2B-3C4D\"\n";
    assert_eq!(hardware_uuid(report), Some("1A2B-3C4D".to_string()));
    assert_eq!(hardware_uuid("\"IOPlatformUUID\" = \"bad uuid\""), None);
    assert_eq!(hardware_uuid("\"IOPlatformUUID\""), None);
    assert_eq!(hardware_uuid("nothing here"), None);
}
