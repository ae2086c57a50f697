use serde_json::Value;
use spis::disk::host_record_window;
use spis::json::Json;

fn from_value(value: &Value) -> Json {
    match value {
        Value::Null => Json::Null,
        Value::Bool(b) => Json::Bool(*b),
        Value::Number(n) => {
            if let Some(u) = n.as_u64() {
                Json::UInt(u)
            } else if let Some(i) = n.as_i64() {
                Json::NegInt(i)
            } else {
                Json::Float(n.to_string())
            }
        }
        Value::String(s) => Json::Str(s.clone()),
        Value::Array(items) => Json::Array(items.iter().map(from_value).collect()),
        Value::Object(map) => Json::Object(map.iter().map(|(k, v)| (k.clone(), from_value(v))).collect()),
    }
}

fn report_with_df(stdout: &str) -> Json {
    let mut checks = Vec::new();
    let mut hostname = serde_json::Map::new();
    hostname.insert("command".into(), Value::Array(vec![Value::from("hostname"), Value::from("-f")]));
    hostname.insert("stdout".into(), Value::from("host.example\n"));
    checks.push(Value::Object(hostname));
    let mut df = serde_json::Map::new();
    df.insert("command".into(), Value::Array(vec![Value::from("df"), Value::from("-h")]));
    df.insert("stdout".into(), Value::from(stdout));
    checks.push(Value::Object(df));
    let mut report = serde_json::Map::new();
    report.insert("checks".into(), Value::Array(checks));
    from_value(&Value::Object(report))
}

fn df_line(available: &str) -> String {
    format!(
        "Filesystem      Size   Used  Avail Capacity iused ifree %iused  Mounted on\n/dev/disk3s1s1  228Gi   10Gi  {available}    5%  356k  4.2G    0%   /\n"
    )
}

#[test]
fn window_follows_free_gibibytes() {
    // floor(free / 4) - 1, clamped to 0..=3.
    assert_eq!(host_record_window(&report_with_df(&df_line("7Gi"))), 0);
    assert_eq!(host_record_window(&report_with_df(&df_line("8Gi"))), 1);
    assert_eq!(host_record_window(&report_with_df(&df_line("11.9Gi"))), 1);
    assert_eq!(host_record_window(&report_with_df(&df_line("12Gi"))), 2);
    assert_eq!(host_record_window(&report_with_df(&df_line("16Gi"))), 3);
    assert_eq!(host_record_window(&report_with_df(&df_line("180Gi"))), 3);
}

#[test]
fn window_reads_every_unit() {
    assert_eq!(host_record_window(&report_with_df(&df_line("1.2Ti"))), 3);
    assert_eq!(host_record_window(&report_with_df(&df_line("0.01T"))), 1);
    assert_eq!(host_record_window(&report_with_df(&df_line("12288M"))), 2);
    assert_eq!(host_record_window(&report_with_df(&df_line("980Mi"))), 0);
    assert_eq!(host_record_window(&report_with_df(&df_line("16777216K"))), 3);
    assert_eq!(host_record_window(&report_with_df(&df_line("8589934592"))), 1);
    assert_eq!(host_record_window(&report_with_df(&df_line("12g"))), 2);
}

#[test]
fn unreadable_or_missing_space_affords_nothing() {
    assert_eq!(host_record_window(&report_with_df(&df_line("lots"))), 0);
    assert_eq!(host_record_window(&report_with_df(&df_line("-12Gi"))), 0);
    assert_eq!(host_record_window(&report_with_df("Filesystem Size Used Avail\n")), 0);
    assert_eq!(host_record_window(&Json::Object(Vec::new())), 0);
    assert_eq!(host_record_window(&Json::Null), 0);
}

#[test]
fn only_the_root_volume_counts() {
    let stdout = "Filesystem Size Used Avail Capacity Mounted on\n\
                  /dev/disk1 500Gi 1Gi 499Gi 1% /Volumes/data\n\
                  /dev/disk3 228Gi 200Gi 9Gi 95% /\n";
    assert_eq!(host_record_window(&report_with_df(stdout)), 1);
    // An unreadable root line is passed over for a later readable one.
    let stdout = "Filesystem Size Used Avail Capacity Mounted on\n\
                  map x y ?? 1% /\n\
                  /dev/disk3 228Gi 200Gi 13Gi 95% /\n";
    assert_eq!(host_record_window(&report_with_df(stdout)), 2);
}

#[test]
fn sizes_read_as_floating_point_numbers() {
    assert_eq!(host_record_window(&report_with_df(&df_line("1.6e1Gi"))), 3);
    assert_eq!(host_record_window(&report_with_df(&df_line("1e1G"))), 1);
    assert_eq!(host_record_window(&report_with_df(&df_line("12E0Gi"))), 2);
    assert_eq!(host_record_window(&report_with_df(&df_line("1200e-2G"))), 2);
    assert_eq!(host_record_window(&report_with_df(&df_line("8e9"))), 0);
    assert_eq!(host_record_window(&report_with_df(&df_line("1e400"))), 3);
    assert_eq!(host_record_window(&report_with_df(&df_line("1e-400G"))), 0);
    assert_eq!(host_record_window(&report_with_df(&df_line("infG"))), 3);
    assert_eq!(host_record_window(&report_with_df(&df_line("Infinity"))), 3);
    assert_eq!(host_record_window(&report_with_df(&df_line("-inf"))), 0);
    assert_eq!(host_record_window(&report_with_df(&df_line("NaNGi"))), 0);
    assert_eq!(host_record_window(&report_with_df(&df_line("1e"))), 0);
}
