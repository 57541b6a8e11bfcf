use s3cli::commands::{format_size, guess_content_type, parse_duration, pull_target};
use s3cli::config::settings::config_value;
use s3cli::{Config, FileEntry, FileMetadata, ListResult, Provider};

#[test]
fn test_format_size() {
    assert_eq!(format_size(500), "500B");
    assert_eq!(format_size(1024), "1.0K");
    assert_eq!(format_size(1536), "1.5K");
    assert_eq!(format_size(1048576), "1.0M");
    assert_eq!(format_size(1073741824), "1.0G");
}

#[test]
fn push_test_parse_duration() {
    assert_eq!(parse_duration("30s").unwrap().as_secs(), 30);
    assert_eq!(parse_duration("5m").unwrap().as_secs(), 300);
    assert_eq!(parse_duration("2h").unwrap().as_secs(), 7200);
    assert_eq!(parse_duration("1d").unwrap().as_secs(), 86400);
    assert_eq!(parse_duration("1w").unwrap().as_secs(), 604800);
}

#[test]
fn push_test_parse_duration_invalid() {
    assert!(parse_duration("").is_err());
    assert!(parse_duration("xyz").is_err());
    assert!(parse_duration("10x").is_err());
}

#[test]
fn test_guess_content_type() {
    assert_eq!(guess_content_type("test.png"), Some("image/png".to_string()));
    assert_eq!(guess_content_type("test.JPEG"), Some("image/jpeg".to_string()));
    assert_eq!(guess_content_type("test.mp4"), Some("video/mp4".to_string()));
    assert_eq!(guess_content_type("test.unknown"), Some("application/octet-stream".to_string()));
}

#[test]
fn share_test_parse_duration() {
    assert_eq!(parse_duration("30s").unwrap().as_secs(), 30);
    assert_eq!(parse_duration("5m").unwrap().as_secs(), 300);
    assert_eq!(parse_duration("2h").unwrap().as_secs(), 7200);
    assert_eq!(parse_duration("1d").unwrap().as_secs(), 86400);
}

#[test]
fn share_test_parse_duration_invalid() {
    assert!(parse_duration("").is_err());
    assert!(parse_duration("xyz").is_err());
}

#[test]
fn test_default_config() {
    let config = Config::default();
    assert_eq!(config.provider, Provider::S3);
    assert_eq!(config.region, "us-east-1");
}

#[test]
fn test_provider_from_str() {
    assert_eq!("s3".parse::<Provider>().unwrap(), Provider::S3);
    assert_eq!("r2".parse::<Provider>().unwrap(), Provider::R2);
    assert_eq!("minio".parse::<Provider>().unwrap(), Provider::MinIO);
    assert_eq!("local".parse::<Provider>().unwrap(), Provider::Local);
}

#[test]
fn test_config_validate_missing_bucket() {
    let config = Config::default();
    let result = config.validate();
    assert!(result.is_err());
}

#[test]
fn test_config_validate_r2_requires_endpoint() {
    let mut config = Config::default();
    config.provider = Provider::R2;
    config.bucket = "test".to_string();
    let result = config.validate();
    assert!(result.is_err());
}

#[test]
fn test_config_validate_local_no_credentials() {
    let mut config = Config::default();
    config.provider = Provider::Local;
    config.bucket = "test".to_string();
    let result = config.validate();
    assert!(result.is_ok());
}

#[test]
fn test_file_entry_new() {
    let entry = FileEntry::new(
        "abc123".to_string(),
        "uploads/test.mp4".to_string(),
        1024,
        "video/mp4".to_string(),
    );

    assert_eq!(entry.id, "abc123");
    assert_eq!(entry.key, "uploads/test.mp4");
    assert_eq!(entry.size, 1024);
    assert_eq!(entry.content_type, "video/mp4");
}

#[test]
fn test_file_metadata_default() {
    let metadata = FileMetadata::default();
    assert!(metadata.original_name.is_empty());
    assert!(!metadata.is_public);
}

#[test]
fn test_list_result() {
    let result = ListResult {
        entries: vec![],
        next_continuation_token: None,
    };

    assert!(result.entries.is_empty());
}

#[test]
fn test_output_path_from_id() {
    let id = "uploads/test.png";
    let output = None;

    let (output_path, _) = pull_target(id, output);

    assert_eq!(output_path, "test.png");
}

#[test]
fn test_output_path_with_explicit() {
    let id = "uploads/test.png";
    let output = Some("custom/path/file.png");

    let (output_path, _) = pull_target(id, output);

    assert_eq!(output_path, "custom/path/file.png");
}

#[test]
fn test_config_key_validation() {
    // Test that invalid keys return error
    let result = config_value(Some(Config::default()), "invalid_key");
    assert!(result.is_err());
}
