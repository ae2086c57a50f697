use serde_json::Value;
use spis::json::Json;
use spis::manifest::{
    check_binding_identity, check_runtime_identity, check_worker_manifest, BindingIdentityFault,
    IdentityFault, WorkerManifestError,
};

fn from_value(value: &Value) -> Json {
    match value {
        Value::Null => Json::Null,
        Value::Bool(b) => Json::Bool(*b),
        Value::Number(n) => {
            if let Some(u) = n.as_u64() {
                Json::UInt(u)
            } else if let Some(i) = n.as_i64() {
                Json::NegInt(i)
            } else {
                Json::Float(n.to_string())
            }
        }
        Value::String(s) => Json::Str(s.clone()),
        Value::Array(items) => Json::Array(items.iter().map(from_value).collect()),
        Value::Object(map) => Json::Object(map.iter().map(|(k, v)| (k.clone(), from_value(v))).collect()),
    }
}

fn j(text: &str) -> Json {
    from_value(&serde_json::from_str(text).expect("test JSON parses"))
}

const CLI_PRODUCT: &str = r#"{"kind":"cli-binary","declared_identifier":"rg","identifier":"rg",
    "product_url":"https://example.com/rg","identity_source":"typed isolated host path resolution: /usr/bin/rg; sha256=abc",
    "surface":null}"#;

fn cli_manifest(product: &str, path: Option<&str>) -> Json {
    let path_field = match path {
        Some(p) => format!(r#","executable_path":"{p}""#),
        None => String::new(),
    };
    j(&format!(
        r#"{{"engine":"cli","runtime_product":{product},"execution_identity":{{"host":"h",
        "observed_hostname":"h.local","resolved_product_identifier":"rg","executable_sha256":"abc"{path_field}}}}}"#
    ))
}

#[test]
fn a_cli_manifest_with_its_resolved_executable_is_accepted() {
    let expected = j(r#"{"kind":"cli-binary","declared_identifier":"rg","identifier":"rg",
        "product_url":"https://example.com/rg","identity_source":"declared","surface":null}"#);
    assert_eq!(check_runtime_identity(&cli_manifest(CLI_PRODUCT, Some("/usr/bin/rg")), &expected), Ok(()));
    assert_eq!(
        check_runtime_identity(&cli_manifest(CLI_PRODUCT, Some("/usr/local/bin/rg")), &expected),
        Err(IdentityFault::EngineProductInvalid)
    );
    assert_eq!(
        check_runtime_identity(&cli_manifest(CLI_PRODUCT, None), &expected),
        Err(IdentityFault::NoExecutablePath)
    );
    let moved = j(r#"{"kind":"cli-binary","declared_identifier":"rg","identifier":"rg",
        "product_url":"https://example.com/other","identity_source":"declared","surface":null}"#);
    assert_eq!(
        check_runtime_identity(&cli_manifest(CLI_PRODUCT, Some("/usr/bin/rg")), &moved),
        Err(IdentityFault::ProductDiffers)
    );
}

#[test]
fn a_web_manifest_must_carry_the_canonical_product() {
    let product = r#"{"kind":"web-page","declared_identifier":"x","identifier":"x",
        "product_url":"https://x.example/","identity_source":"reference","surface":{"family":"web-app"}}"#;
    let manifest = j(&format!(
        r#"{{"engine":"web","runtime_product":{product},"execution_identity":{{"resolved_product_identifier":"x"}}}}"#
    ));
    assert_eq!(check_runtime_identity(&manifest, &j(product)), Ok(()));
    let other = r#"{"kind":"web-page","declared_identifier":"x","identifier":"x",
        "product_url":"https://x.example/","identity_source":"elsewhere","surface":{"family":"web-app"}}"#;
    assert_eq!(check_runtime_identity(&manifest, &j(other)), Err(IdentityFault::CanonicalDiffers));
    let unknown = j(&format!(
        r#"{{"engine":"fax","runtime_product":{product},"execution_identity":{{"resolved_product_identifier":"x"}}}}"#
    ));
    assert_eq!(check_runtime_identity(&unknown, &j(product)), Err(IdentityFault::UnsupportedEngine));
}

#[test]
fn a_manifest_must_carry_its_committed_binding() {
    let manifest = j(r#"{"bindings_file_sha256":"f","bindings_sha256":"b","account":{"mode":"anonymous"},
        "constraints":{"headless":true},"delivery":{"kind":"none"},"prepared_proof":null,
        "runtime_product":{"surface":null},"docs_structure_sha256":null}"#);
    let binding = j(r#"{"account":{"mode":"anonymous"},"constraints":{"headless":true},
        "delivery":{"kind":"none"},"prepared_proof":null,"surface":null}"#);
    assert_eq!(check_binding_identity(&manifest, "f", &binding, "b", None), Ok(()));
    assert_eq!(
        check_binding_identity(&manifest, "g", &binding, "b", None),
        Err(BindingIdentityFault::FileDigestDiffers)
    );
    assert_eq!(
        check_binding_identity(&manifest, "f", &binding, "c", None),
        Err(BindingIdentityFault::BindingDigestDiffers)
    );
    let other = j(r#"{"account":{"mode":"anonymous"},"constraints":{"headless":false},
        "delivery":{"kind":"none"},"prepared_proof":null,"surface":null}"#);
    assert_eq!(
        check_binding_identity(&manifest, "f", &other, "b", None),
        Err(BindingIdentityFault::BindingDiffers)
    );
    assert_eq!(
        check_binding_identity(&manifest, "f", &binding, "b", Some("d")),
        Err(BindingIdentityFault::DocsStructureDiffers)
    );
}

const WEB_MANIFEST: &str = r#"{"schema":"wisent.crawl-runtime-manifest.v1","run_id":"r1","catalog":"web-app-examples",
    "record":"zed","engine":"web","source_revision":"rev","attempt_id":"att-1","attempt":1,
    "source_input_sha256":"0000000000000000000000000000000000000000000000000000000000000000",
    "correlation_id":"spis-1","stado_run_id":"spis-1",
    "runtime_product":{"kind":"web-page","declared_identifier":"zed","identifier":"zed",
        "product_url":"https://zed.dev/","identity_source":"reference","surface":null},
    "execution_identity":{"host":"h1","observed_hostname":"h1.local","resolved_product_identifier":"zed"},
    "service_identity":{"name":"weles-admission","consumer":"spis","capability":"browser-evidence",
        "action":"generic_browser_task","active_host":"h1"},
    "bindings_file_sha256":"f","bindings_sha256":"b","account":null,"constraints":null,"delivery":null,
    "prepared_proof":null,"docs_structure_sha256":null}"#;

#[test]
fn a_worker_checks_its_whole_manifest_in_order() {
    let m = j(WEB_MANIFEST);
    let service = j(r#"{"name":"weles-admission","consumer":"spis","capability":"browser-evidence",
        "action":"generic_browser_task","active_host":"h1"}"#);
    let binding = j(r#"{"account":null,"constraints":null,"delivery":null,"prepared_proof":null,"surface":null}"#);
    let product = j(r#"{"kind":"web-page","declared_identifier":"zed","identifier":"zed",
        "product_url":"https://zed.dev/","identity_source":"reference","surface":null}"#);
    let check = |current: &Json, revision: &str| {
        check_worker_manifest(&m, "web-app-examples", "web", Some("zed"), revision, current, "f", &binding, "b", None, &product)
    };
    assert!(check(&service, "rev").is_ok());
    assert!(matches!(check(&service, "other"), Err(WorkerManifestError::Header(_))));
    let moved = j(r#"{"name":"weles-admission","consumer":"spis","capability":"browser-evidence",
        "action":"generic_browser_task","active_host":"h2"}"#);
    assert!(matches!(check(&moved, "rev"), Err(WorkerManifestError::ServiceMoved)));
    assert!(matches!(check(&Json::Null, "rev"), Err(WorkerManifestError::ServiceMoved)));
}
