use worker_dsp::store::{
    generate_key, object_url, parse_s3_url, split_path, webhook_url, LocationError,
};

#[test]
fn test_parse_s3_url() {
    let (bucket, key) = parse_s3_url("http://localhost:9000/audio/tracks/test.wav").unwrap();
    assert_eq!(bucket, "audio");
    assert_eq!(key, "tracks/test.wav");

    let (bucket, key) = parse_s3_url("s3://audio/tracks/test.wav").unwrap();
    assert_eq!(bucket, "audio");
    assert_eq!(key, "tracks/test.wav");
}

#[test]
fn s3_url_without_key_is_refused() {
    assert_eq!(parse_s3_url("s3://audio"), Err(LocationError::Unrecognized));
}

#[test]
fn https_url_with_nested_key() {
    let (bucket, key) = parse_s3_url("https://minio:9000/masters/a/b/c.wav").unwrap();
    assert_eq!(bucket, "masters");
    assert_eq!(key, "a/b/c.wav");
}

#[test]
fn http_url_with_query_uses_path_only() {
    let (bucket, key) = parse_s3_url("http://host/bucket/key.wav?x=1").unwrap();
    assert_eq!(bucket, "bucket");
    assert_eq!(key, "key.wav");
}

#[test]
fn http_url_without_key_is_refused() {
    assert_eq!(parse_s3_url("http://host/bucket"), Err(LocationError::Unrecognized));
}

#[test]
fn unparsable_http_url_is_invalid() {
    assert_eq!(parse_s3_url("http://"), Err(LocationError::InvalidUrl));
}

#[test]
fn other_scheme_is_refused() {
    assert_eq!(parse_s3_url("ftp://host/bucket/key"), Err(LocationError::Unrecognized));
}

#[test]
fn split_path_drops_leading_slashes() {
    assert_eq!(
        split_path("//audio/x/y.wav"),
        Some(("audio".to_string(), "x/y.wav".to_string()))
    );
    assert_eq!(split_path("/audio"), None);
}

#[test]
fn key_layout() {
    assert_eq!(
        generate_key("reports", "t1", 1700000000123, "analysis.json"),
        "reports/t1/1700000000123-analysis.json"
    );
    assert_eq!(generate_key("fixed", "t", 0, "fixed.wav"), "fixed/t/0-fixed.wav");
}

#[test]
fn object_and_webhook_urls() {
    assert_eq!(
        object_url("http://localhost:9000", "audio", "masters/t/1-master.mp3"),
        "http://localhost:9000/audio/masters/t/1-master.mp3"
    );
    assert_eq!(
        webhook_url("http://api:4000", "job-7", "progress"),
        "http://api:4000/webhooks/jobs/job-7/progress"
    );
}
