use mate::sink::{
    commit_report, equity_file_path, equity_object_key, filesystem_tree, tick_dir, tick_file_path, tick_object_key,
    writes_object_after, SinkStatus, StoreAccess, TickSnapshot, S3,
};

#[test]
fn storage_failure_next_to_file_success_is_reported_not_fatal() {
    assert!(writes_object_after(SinkStatus::Written));
    let r = commit_report(SinkStatus::Written, SinkStatus::Failed);
    assert!(r.processed);
    assert!(r.storage_failed);
    assert!(!r.file_failed);
}

#[test]
fn file_failure_ends_the_unit() {
    assert!(!writes_object_after(SinkStatus::Failed));
    let r = commit_report(SinkStatus::Failed, SinkStatus::Disabled);
    assert!(!r.processed);
    assert!(r.file_failed);
    assert!(!r.storage_failed);
}

#[test]
fn no_sink_configured_still_processes() {
    assert!(writes_object_after(SinkStatus::Disabled));
    let r = commit_report(SinkStatus::Disabled, SinkStatus::Disabled);
    assert!(r.processed && !r.file_failed && !r.storage_failed);
    let r = commit_report(SinkStatus::Written, SinkStatus::Written);
    assert!(r.processed && !r.file_failed && !r.storage_failed);
}

#[test]
fn filesystem_layout() {
    assert_eq!(
        filesystem_tree("/data"),
        vec!["/data", "/data/equity/", "/data/equity/daily", "/data/crypto/", "/data/crypto/tick"]
    );
    assert_eq!(equity_file_path("/data", "MSFT"), "/data/equity/daily/MSFT.json");
    assert_eq!(tick_dir("/data", "XXBTZUSD"), "/data/crypto/tick/XXBTZUSD");
    assert_eq!(tick_file_path("/data", "XXBTZUSD", "20240131"), "/data/crypto/tick/XXBTZUSD/20240131.json");
}

#[test]
fn object_storage_keys() {
    assert_eq!(equity_object_key("MSFT", "20240131"), "/equity-daily-MSFT-20240131.json");
    assert_eq!(tick_object_key("XETHZUSD", "20240131"), "/crypto-tick-XETHZUSD-20240131.json");
}

#[test]
fn bucket_configuration() {
    let d = S3::default();
    assert_eq!(d.bucket_name, "");
    assert_eq!(d.region, "us-east-1");
    assert_eq!(d.endpoint, "");
    assert_eq!(d.access_key, "");
    assert_eq!(d.secret_key, "");
    let access = StoreAccess {
        host: "minio:9000".to_string(),
        access_key: "AKID".to_string(),
        secret_key: "SECRET-REDACTED".to_string(),
    };
    let b = S3::new("prices".to_string(), "https", "eu-west-1".to_string(), &access);
    assert_eq!(b.access_key, "AKID");
    assert_eq!(b.secret_key, "SECRET-REDACTED");
    assert_eq!(b.bucket_name, "prices");
    assert_eq!(b.region, "eu-west-1");
    assert_eq!(b.endpoint, "https://minio:9000");
    assert_eq!(b.object_url("/equity-daily-MSFT-20240131.json"), "https://minio:9000/prices/equity-daily-MSFT-20240131.json");
}

fn texts(s: &TickSnapshot) -> Vec<(String, String)> {
    s.entries().iter().map(|e| (e.key.clone(), e.payload.clone())).collect()
}

#[test]
fn ticks_merge_into_the_day_document() {
    let mut s = TickSnapshot::new();
    assert!(texts(&s).is_empty());
    s.record("100".to_string(), "{\"c\":[\"1\"]}".to_string());
    s.record("200".to_string(), "{\"c\":[\"2\"]}".to_string());
    s.record("100".to_string(), "{\"c\":[\"3\"]}".to_string());
    assert_eq!(
        texts(&s),
        vec![
            ("100".to_string(), "{\"c\":[\"3\"]}".to_string()),
            ("200".to_string(), "{\"c\":[\"2\"]}".to_string()),
        ]
    );
}
