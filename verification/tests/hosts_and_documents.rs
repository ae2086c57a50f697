use serde_json::Value;
use spis::catalog::{selected_specs, SelectionError};
use spis::collect::{
    image_relative_path, parse_collect_args, probe_dimensions_ok, source_hint, CollectArgsError,
};
use spis::corpus::{
    check_reference_record, check_totals, configured_root_from_document, data_root,
    index_catalogs, index_digest, local_paths, CatalogError, CorpusError, CorpusOperation,
    LocationError, TotalsError,
};
use spis::crawl::{
    host_home_crawl_token_path, parse_run_and_record, validate_worker_runtime_files,
    ArgumentError, CrawlOperation, RuntimeFileError,
};
use spis::digest::sha256_hex;
use spis::host::{
    active_worker_stado_programs, executable_word_from_host_receipt,
    failed_host_preflight_record_state, host_probe_timeout_report, pinned_host_is, ready_output,
    worker_agent_program_retry_diagnostic, ReadyError, ReceiptError,
};
use spis::html::{candidate_urls, html_unescape};
use spis::json::Json;
use spis::manifest::{check_manifest_header, decode_manifest, encode_manifest, engine_command, EngineCommandError, ManifestError};
use spis::url::hostname_of;

fn j(text: &str) -> Json {
    from_value(&serde_json::from_str(text).expect("test JSON parses"))
}

fn from_value(value: &Value) -> Json {
    match value {
        Value::Null => Json::Null,
        Value::Bool(b) => Json::Bool(*b),
        Value::Number(n) => {
            if let Some(u) = n.as_u64() {
                Json::UInt(u)
            } else if let Some(i) = n.as_i64() {
                Json::NegInt(i)
            } else {
                Json::Float(n.to_string())
            }
        }
        Value::String(s) => Json::Str(s.clone()),
        Value::Array(items) => Json::Array(items.iter().map(from_value).collect()),
        Value::Object(map) => Json::Object(
            map.iter()
                .map(|(k, v)| (k.clone(), from_value(v)))
                .collect(),
        ),
    }
}

fn v(json: &Json) -> Value {
    match json {
        Json::Null => Value::Null,
        Json::Bool(b) => Value::Bool(*b),
        Json::UInt(u) => Value::from(*u),
        Json::NegInt(i) => Value::from(*i),
        Json::Float(text) => serde_json::from_str(text).expect("a decimal number"),
        Json::Str(s) => Value::String(s.clone()),
        Json::Array(items) => Value::Array(items.iter().map(v).collect()),
        Json::Object(fields) => {
            let mut map = serde_json::Map::new();
            for (key, value) in fields {
                map.entry(key.clone()).or_insert_with(|| v(value));
            }
            Value::Object(map)
        }
    }
}

fn words(items: &[&str]) -> Vec<String> {
    items.iter().map(|s| s.to_string()).collect()
}

#[test]
fn pinned_host_matches_itself_its_consumer_spelling_and_any_case() {
    assert!(pinned_host_is("lukasz-macbook", "lukasz-macbook"));
    assert!(pinned_host_is("  lukasz-macbook\n", "lukasz-macbook"));
    assert!(pinned_host_is("local-lukasz-macbook.local", "lukasz-macbook"));
    assert!(pinned_host_is("local-lukasz-macbook.local", "LUKASZ-MacBook"));
    assert!(!pinned_host_is("local-lukasz-macbook", "lukasz-macbook"));
    assert!(!pinned_host_is("other-host", "lukasz-macbook"));
}

#[test]
fn a_home_relative_program_stays_home_relative_and_quoted() {
    let receipt = j(r#"{"target":"charless-mac-mini","resolved_executable":" ~/.cargo/bin/car'go "}"#);
    match executable_word_from_host_receipt("charless-mac-mini", &receipt) {
        Ok(word) => assert_eq!(word, "\"$HOME\"/'.cargo/bin/car'\\''go'"),
        Err(_) => panic!("a selected home-relative program is usable"),
    }
    let receipt = j(r#"{"target":"h","argv":["/opt/homebrew/bin/cargo","--version"]}"#);
    assert!(matches!(
        executable_word_from_host_receipt("h", &receipt),
        Ok(word) if word == "/opt/homebrew/bin/cargo"
    ));
}

#[test]
fn an_unusable_receipt_names_its_fault() {
    let check = |receipt: &str| executable_word_from_host_receipt("h", &j(receipt));
    assert!(matches!(check(r#"{"resolved_executable":"/bin/x"}"#), Err(ReceiptError::NoTarget)));
    assert!(matches!(
        check(r#"{"target":"g","resolved_executable":"/bin/x"}"#),
        Err(ReceiptError::TargetMismatch(t)) if t == "g"
    ));
    assert!(matches!(
        check(r#"{"target":"h","resolved_executable":"  "}"#),
        Err(ReceiptError::NoSelectedExecutable)
    ));
    assert!(matches!(
        check(r#"{"target":"h","resolved_executable":"/bin/a b"}"#),
        Err(ReceiptError::UnsafeExecutable(s)) if s == "/bin/a b"
    ));
    assert!(matches!(
        check(r#"{"target":"h","resolved_executable":"~/"}"#),
        Err(ReceiptError::IncompleteExecutable(s)) if s == "~/"
    ));
    assert!(matches!(
        check(r#"{"target":"h","resolved_executable":"cargo"}"#),
        Err(ReceiptError::NonAbsoluteExecutable(s)) if s == "cargo"
    ));
}

#[test]
fn a_probe_timeout_is_reported_as_retryable() {
    let report = host_probe_timeout_report(&["cargo", "--version"], 30);
    let expected: Value = serde_json::from_str(
        r#"{"command":["cargo","--version"],"outcome":"timed_out","ready":false,
            "diagnostic":{"code":"host_probe_timed_out","retryable":true,
              "message":"host did not answer probe `cargo --version` within 30 seconds",
              "probe":["cargo","--version"],"timeout_seconds":30},
            "error":"host did not answer probe `cargo --version` within 30 seconds"}"#,
    )
    .unwrap();
    assert_eq!(v(&report), expected);
    let preflight = Json::Object(vec![("checks".to_string(), Json::Array(vec![report]))]);
    assert_eq!(failed_host_preflight_record_state(&preflight), "planned");
    assert_eq!(
        failed_host_preflight_record_state(&j(r#"{"checks":[{"ready":false}]}"#)),
        "unavailable"
    );
}

#[test]
fn active_agent_programs_are_read_from_both_declaration_spellings() {
    let services = j(r#"[
        {"host":"m1","state":"active","args":["agent","--target","m1"],"program":"/b/stado"},
        {"host":"m1","state":"active","args":["agent","--auto"],"program":"/a/stado"},
        {"host":"m1","state":"active","args":["agent","--auto"],"program":"/a/stado"},
        {"host":"m1","state":"inactive","args":["agent","--auto"],"program":"/c/stado"},
        {"host":"m2","state":"active","args":["agent","--auto"],"program":"/d/stado"},
        {"host":"m1","state":"active","args":["agent","--target","m2"],"program":"/e/stado"},
        {"host":"m1","state":"active","args":["agent","--auto"],"program":"relative/stado"},
        {"host":"m1","state":"active","args":["agent","--auto"],"program":"/with space"}
    ]"#);
    assert_eq!(active_worker_stado_programs(&services, "m1"), words(&["/a/stado", "/b/stado"]));
    assert!(active_worker_stado_programs(&j(r#"{"x":1}"#), "m1").is_empty());
}

#[test]
fn an_unstable_agent_program_is_a_retryable_diagnostic() {
    let message = "refused: worker_agent_program_unstable: observed_count=2 on m1";
    let diagnostic = worker_agent_program_retry_diagnostic(message).expect("retryable");
    let out = v(&diagnostic);
    assert_eq!(out["code"], Value::from("worker_agent_program_unstable"));
    assert_eq!(out["retryable"], Value::Bool(true));
    assert_eq!(out["observed_count"], Value::from(2u64));
    assert_eq!(out["message"], Value::from(message));
    let unparsed = worker_agent_program_retry_diagnostic("worker_agent_program_unstable: none");
    assert_eq!(v(&unparsed.unwrap())["observed_count"], Value::Null);
    assert!(worker_agent_program_retry_diagnostic("some other failure").is_none());
}

#[test]
fn ready_output_is_trimmed_and_refusals_are_told_apart() {
    assert!(matches!(
        ready_output(&j(r#"{"ready":true,"stdout":"  m1.local\n"}"#)),
        Ok(out) if out == "m1.local"
    ));
    assert!(matches!(ready_output(&j(r#"{"ready":true,"stdout":" "}"#)), Err(ReadyError::Empty)));
    assert!(matches!(
        ready_output(&j(r#"{"ready":false,"stderr":"boom"}"#)),
        Err(ReadyError::NotReady(Some(e))) if e == "boom"
    ));
}

#[test]
fn a_selection_names_each_family_once_in_order() {
    match selected_specs(&words(&["tui-examples", "cli-examples", "tui-examples"])) {
        Ok(specs) => assert_eq!(specs, vec![("tui-examples", "tui"), ("cli-examples", "cli")]),
        Err(_) => panic!("known families are selected"),
    }
    assert_eq!(selected_specs(&[]).ok().map(|all| all.len()), Some(15));
    match selected_specs(&words(&["cli-examples", "nope", "also-nope"])) {
        Err(error) => {
            assert!(matches!(&error, SelectionError::UnknownCatalog(name) if name == "nope"));
            assert_eq!(error.message(), "unknown crawl catalog nope");
        }
        Ok(_) => panic!("an unknown family is refused"),
    }
}

#[test]
fn run_and_record_arguments_are_read_or_refused() {
    assert!(matches!(
        parse_run_and_record(&words(&["--record", "r1", "--run", "a", "--run", "b"]), true),
        Ok((Some(run), Some(record))) if run == "b" && record == "r1"
    ));
    assert!(matches!(
        parse_run_and_record(&words(&["--record"]), false),
        Err(ArgumentError::MissingValue(flag)) if flag == "--record"
    ));
    assert!(matches!(
        parse_run_and_record(&words(&["--bogus"]), false),
        Err(ArgumentError::Unknown(word)) if word == "--bogus"
    ));
    assert!(matches!(parse_run_and_record(&[], true), Err(ArgumentError::RunRequired)));
    assert!(matches!(parse_run_and_record(&[], false), Ok((None, None))));
}

#[test]
fn crawl_and_corpus_commands_are_dispatched() {
    let crawl = spis::crawl::run(&words(&["bindings", "generate", "--out", "x"])).ok().unwrap();
    assert_eq!(crawl.operation, CrawlOperation::GenerateBindings);
    assert_eq!(crawl.arguments_from, 2);
    assert_eq!(
        spis::crawl::run(&words(&["status"])).ok().map(|c| c.operation),
        Some(CrawlOperation::Status)
    );
    assert_eq!(spis::crawl::run(&words(&["bindings"])).err(), Some("bindings".to_string()));
    assert_eq!(spis::corpus::run(&[]), Ok(CorpusOperation::Usage));
    assert_eq!(spis::corpus::run(&words(&["adopt", "x"])), Ok(CorpusOperation::Adopt));
    assert_eq!(spis::corpus::run(&words(&["frob"])), Err("frob".to_string()));
}

#[test]
fn missing_worker_runtime_files_are_named() {
    let token = host_home_crawl_token_path("/Users/m");
    assert_eq!(token, "/Users/m/.stado/spis-crawls-object-api-token");
    assert_eq!(
        host_home_crawl_token_path("/Users/m/"),
        "/Users/m/.stado/spis-crawls-object-api-token"
    );
    match validate_worker_runtime_files("/s/stado", false, &token, false) {
        Err(error) => {
            assert!(matches!(&error, RuntimeFileError::StadoBinaryMissing(p) if p == "/s/stado"));
            assert_eq!(
                error.message(),
                "worker_stado_binary_missing: Stado's declared worker binary is missing at /s/stado"
            );
        }
        Ok(()) => panic!("the missing binary is refused"),
    }
    match validate_worker_runtime_files("/s/stado", true, &token, false) {
        Err(error) => assert!(matches!(&error, RuntimeFileError::CrawlTokenMissing(p) if *p == token)),
        Ok(()) => panic!("the missing token is refused"),
    }
    assert!(validate_worker_runtime_files("/s/stado", true, &token, true).is_ok());
}

#[test]
fn the_manifest_travels_as_standard_base64() {
    assert_eq!(encode_manifest(b"hello"), "aGVsbG8=");
    assert_eq!(decode_manifest("aGVsbG8="), Some(b"hello".to_vec()));
    assert_eq!(decode_manifest("aGVsbG8"), None);
    assert_eq!(decode_manifest("not base64!"), None);
}

#[test]
fn the_worker_command_names_the_record_and_its_manifest() {
    let command = engine_command("cli-examples", "cli", "r1", Some("m1"), None, "m1", b"{}");
    assert!(matches!(
        command,
        Ok(args) if args == words(&["crawl-cli", "--host", "m1", "--record", "r1", "--runtime-manifest-base64", "e30="])
    ));
    let web = engine_command("web-app-examples", "web", "r2", Some("m1"), Some("m1"), "m1", b"{}");
    assert!(matches!(
        web,
        Ok(args) if args[..4] == words(&["crawl-web", "web-app-examples", "--host", "m1"])[..]
    ));
    assert!(matches!(
        engine_command("c", "cli", "r", None, None, "m1", b""),
        Err(EngineCommandError::NoExecutionIdentity)
    ));
    assert!(matches!(
        engine_command("c", "cli", "r", Some("m2"), None, "m1", b""),
        Err(EngineCommandError::HostDiffers)
    ));
    assert!(matches!(
        engine_command("c", "web", "r", Some("m1"), Some("m2"), "m1", b""),
        Err(EngineCommandError::WebHostDiffers)
    ));
    assert!(matches!(
        engine_command("c", "vr", "r", Some("m1"), None, "m1", b""),
        Err(EngineCommandError::UnknownEngine(e)) if e == "vr"
    ));
}

#[test]
fn a_worker_refuses_a_manifest_that_is_not_its_own() {
    let good = r#"{"schema":"wisent.crawl-runtime-manifest.v1","catalog":"cli-examples","engine":"cli",
        "record":"r1","source_revision":"abc","run_id":"run-1","attempt_id":"att-1","attempt":1,
        "runtime_product":{"identifier":"p"},
        "source_input_sha256":"0000000000000000000000000000000000000000000000000000000000000000",
        "correlation_id":"c","stado_run_id":"s",
        "execution_identity":{"host":"m1","observed_hostname":"m1.local"}}"#;
    assert!(check_manifest_header(&j(good), "cli-examples", "cli", Some("r1"), "abc").is_ok());
    assert!(matches!(
        check_manifest_header(&j(good), "cli-examples", "cli", Some("r1"), "def"),
        Err(ManifestError::Mismatch)
    ));
    let unsafe_run = good.replace("\"run-1\"", "\"../x\"");
    assert!(matches!(
        check_manifest_header(&j(&unsafe_run), "cli-examples", "cli", None, "abc"),
        Err(ManifestError::UnsafeComponent("run id"))
    ));
    let no_attempt = good.replace("\"attempt\":1", "\"attempt\":0");
    assert!(matches!(
        check_manifest_header(&j(&no_attempt), "cli-examples", "cli", None, "abc"),
        Err(ManifestError::NoAttempt)
    ));
    let with_service = good.replace("\"correlation_id\"", "\"service_identity\":{\"name\":\"x\"},\"correlation_id\"");
    assert!(matches!(
        check_manifest_header(&j(&with_service), "cli-examples", "cli", None, "abc"),
        Err(ManifestError::NonWebService)
    ));
    let short_digest = good.replace("0000000000000000000000000000000000000000000000000000000000000000", "00");
    assert!(matches!(
        check_manifest_header(&j(&short_digest), "cli-examples", "cli", None, "abc"),
        Err(ManifestError::Incomplete)
    ));
}

#[test]
fn the_corpus_location_and_data_root() {
    assert_eq!(data_root(Some("/corpus".to_string()), "/checkout"), "/corpus");
    assert_eq!(data_root(None, "/checkout"), "/checkout");
    assert!(matches!(
        configured_root_from_document(&j(r#"{"schema":"spis.corpus-location.v1","root":"/c"}"#)),
        Ok(root) if root == "/c"
    ));
    assert!(matches!(
        configured_root_from_document(&j(r#"{"schema":"other","root":"/c"}"#)),
        Err(LocationError::UnsupportedSchema)
    ));
    assert!(matches!(
        configured_root_from_document(&j(r#"{"schema":"spis.corpus-location.v1"}"#)),
        Err(LocationError::NoRoot)
    ));
}

#[test]
fn an_index_is_refused_before_its_catalogs_are_read() {
    assert!(matches!(index_catalogs(&j(r#"{"schema":"x"}"#)), Err(CorpusError::NotCanonicalIndex)));
    assert!(matches!(
        index_catalogs(&j(r#"{"schema":"wisent.example-catalog.v2","catalogs":{}}"#)),
        Err(CorpusError::NoCatalogs)
    ));
    assert!(matches!(
        index_catalogs(&j(r#"{"schema":"wisent.example-catalog.v2","catalogs":[]}"#)),
        Err(CorpusError::EmptyCatalogs)
    ));
    assert!(matches!(
        index_catalogs(&j(r#"{"schema":"wisent.example-catalog.v2","catalogs":[{}]}"#)),
        Ok(items) if items.len() == 1
    ));
    let index = j(r#"{"catalog_count":2,"record_count":5}"#);
    assert!(check_totals(&index, 2, 5).is_ok());
    assert!(matches!(check_totals(&index, 3, 5), Err(TotalsError::CatalogCount)));
    assert!(matches!(check_totals(&index, 2, 4), Err(TotalsError::RecordCount)));
}

#[test]
fn a_reference_record_must_agree_with_its_entry() {
    let entry = j(r#"{"evidence_status":"complete","evidence_gap_count":1}"#);
    let record = j(r#"{"schema":"wisent.full-product-reference.v2","evidence_status":"complete","evidence_gaps":["g"]}"#);
    assert!(check_reference_record(&entry, &record).is_ok());
    assert!(matches!(
        check_reference_record(&entry, &j(r#"{"schema":"x"}"#)),
        Err(CatalogError::NotCanonicalRecord)
    ));
    assert!(matches!(
        check_reference_record(&entry, &j(r#"{"schema":"wisent.full-product-reference.v2"}"#)),
        Err(CatalogError::NoEvidenceStatus)
    ));
    let no_gaps = j(r#"{"schema":"wisent.full-product-reference.v2","evidence_status":"complete"}"#);
    assert!(matches!(check_reference_record(&entry, &no_gaps), Err(CatalogError::NoEvidenceGaps)));
    let other = j(r#"{"schema":"wisent.full-product-reference.v2","evidence_status":"partial","evidence_gaps":["g"]}"#);
    assert!(matches!(check_reference_record(&entry, &other), Err(CatalogError::EntryFacts)));
}

#[test]
fn evidence_paths_are_collected_depth_first() {
    let document = Json::Object(vec![
        (
            "a".to_string(),
            Json::Object(vec![
                ("local_path".to_string(), Json::Str("x.png".to_string())),
                ("b".to_string(), j(r#"[{"motion_path":"m.mp4"}]"#)),
            ]),
        ),
        ("local_path".to_string(), Json::Str("y.png".to_string())),
    ]);
    assert_eq!(local_paths(&document).ok(), Some(words(&["x.png", "m.mp4", "y.png"])));
    assert_eq!(local_paths(&j(r#"{"c":[{"local_path":3}]}"#)).err(), Some("local_path".to_string()));
}

#[test]
fn digests_are_lowercase_sha256() {
    assert_eq!(
        index_digest(b"abc"),
        "ba7816bf8f01cfea414140de5dae2223b00361a396177a9cb410ff61f20015ad"
    );
    assert_eq!(
        sha256_hex(b""),
        "e3b0c44298fc1c149afbf4c8996fb92427ae41e4649b934ca495991b7852b855"
    );
}

#[test]
fn collection_arguments_and_storage_names() {
    match parse_collect_args(&words(&["--replace", "tui-examples"])) {
        Ok(args) => {
            assert!(args.replace);
            assert_eq!(args.catalogs, words(&["tui-examples"]));
        }
        Err(_) => panic!("a known catalog is accepted"),
    }
    match parse_collect_args(&[]) {
        Ok(args) => {
            assert!(!args.replace);
            assert_eq!(args.catalogs.len(), 13);
        }
        Err(_) => panic!("no argument selects every catalog"),
    }
    assert!(matches!(
        parse_collect_args(&words(&["--fast"])),
        Err(CollectArgsError::UnknownArgument(w)) if w == "--fast"
    ));
    assert!(matches!(
        parse_collect_args(&words(&["x", "cli-examples", "y"])),
        Err(CollectArgsError::UnknownCatalogs(u)) if u == words(&["x", "y"])
    ));
    assert!(probe_dimensions_ok(1200, 630));
    assert!(!probe_dimensions_ok(1200, 200));
    assert!(!probe_dimensions_ok(3000, 500));
    assert!(probe_dimensions_ok(2600, 500));
    assert_eq!(image_relative_path(3, "acme", "png"), "images/03-acme.png");
    assert_eq!(image_relative_path(12, "acme", "webp"), "images/12-acme.webp");
    assert_eq!(source_hint("", "meta"), "meta");
    assert_eq!(source_hint("og:image", "meta"), "og:image");
}

#[test]
fn page_text_is_decoded_and_unescaped() {
    assert_eq!(html_unescape("a &amp; b &lt;c&gt; &quot;d&quot; &#39;e&#39;"), "a & b <c> \"d\" 'e'");
    let mut body = b"<html>\xff<img src=\"/shot.png\"></html>".to_vec();
    body.push(0xfe);
    let found = candidate_urls("https://example.com/app/", &body, "text/html");
    assert!(found.iter().any(|c| c.url == "https://example.com/shot.png"));
    assert_eq!(hostname_of("https://User@Example.COM:8080/x"), "example.com");
}

#[test]
fn repeated_record_paths_and_reference_totals() {
    let paths: Vec<String> = ["/c/a.json", "/c/b.json", "/c/a.json", "/c/b.json"].iter().map(|p| p.to_string()).collect();
    assert_eq!(spis::corpus::first_repeated_path(&paths), Some(2));
    assert_eq!(spis::corpus::first_repeated_path(&paths[..2].to_vec()), None);
    assert_eq!(spis::corpus::total_references(&vec![50, 50, 12]), Some(112));
    assert_eq!(spis::corpus::total_references(&vec![u64::MAX, 1]), None);
}

#[test]
fn cleaned_candidates_keep_their_authority() {
    let body = b"<img src=\"//cdn.example/a b.png\"><img src=\"https:///nohost.png\"><img src=\"/x&amp;y.png\">";
    let found = candidate_urls("https://shop.example/p/", body, "text/html");
    let urls: Vec<&str> = found.iter().map(|c| c.url.as_str()).collect();
    assert!(urls.contains(&"https://cdn.example/a%20b.png"));
    assert!(urls.contains(&"https://shop.example/x&y.png"));
    assert!(!urls.iter().any(|u| u.contains("nohost")));
    for url in urls {
        let rest = url.split_once("://").expect("a scheme").1;
        assert!(!rest.is_empty() && !rest.starts_with('/'));
    }
}
