use mailflow::constants::{MESSAGE_ID_PREFIX, SOURCE_NAME};
use mailflow::services::attachments::AttachmentConfig;
use mailflow::utils::logging::{redact_email, redact_subject};

#[test]
fn test_metric_dimensions() {
    let dimensions = vec![("app", "app1"), ("status", "success"), ("error_type", "validation")];

    for (key, value) in dimensions {
        assert!(!key.is_empty());
        assert!(!value.is_empty());

        assert!(!key.contains('='));
        assert!(!value.contains('='));
    }
}

#[test]
fn test_log_levels() {
    let levels = vec!["ERROR", "WARN", "INFO", "DEBUG", "TRACE"];

    for level in levels {
        assert!(!level.is_empty());
        assert!(level.chars().all(|c| c.is_ascii_uppercase()));
    }
}

#[test]
fn test_error_metrics() {
    fn categorize_error(error: &str) -> &'static str {
        if error.contains("validation") {
            "ValidationError"
        } else if error.contains("parsing") {
            "ParsingError"
        } else if error.contains("s3") || error.contains("S3") {
            "S3Error"
        } else if error.contains("sqs") || error.contains("Queue") {
            "QueueError"
        } else if error.contains("ses") || error.contains("SES") {
            "SESError"
        } else {
            "UnknownError"
        }
    }

    assert_eq!(categorize_error("validation failed"), "ValidationError");
    assert_eq!(categorize_error("S3 download failed"), "S3Error");
    assert_eq!(categorize_error("Queue send error"), "QueueError");
    assert_eq!(categorize_error("SES throttled"), "SESError");
}

#[test]
fn test_metric_aggregation() {
    let values = [100.0, 200.0, 150.0, 300.0, 250.0];

    let count = values.len() as f64;
    let sum: f64 = values.iter().sum();
    let avg = sum / count;
    let min = values.iter().cloned().fold(f64::INFINITY, f64::min);
    let max = values.iter().cloned().fold(f64::NEG_INFINITY, f64::max);

    assert_eq!(count, 5.0);
    assert_eq!(sum, 1000.0);
    assert_eq!(avg, 200.0);
    assert_eq!(min, 100.0);
    assert_eq!(max, 300.0);
}

#[test]
fn int_029_log_correlation() {
    let message_id = format!("{}-{}", MESSAGE_ID_PREFIX, "0f8fad5b-d9cb-469f-a165-70867728950e");
    let source = SOURCE_NAME;
    let email_from = redact_email("user@example.com");
    let email_subject = redact_subject("Test Subject");

    assert!(message_id.starts_with(MESSAGE_ID_PREFIX));
    assert_eq!(source, SOURCE_NAME);

    assert!(email_from.contains("***@"));
    assert!(!email_from.contains("user"));
    assert_eq!(email_subject, "Tes...[12 chars]");
}

#[test]
fn test_attachment_config_from_env() {
    let config = AttachmentConfig::from_values(
        Some("test-bucket".to_string()),
        None,
        Some("3600".to_string()),
        Some("10485760".to_string()),
        None,
        None,
    )
    .unwrap();

    assert_eq!(config.bucket, "test-bucket");
    assert_eq!(config.presigned_url_expiration, 3600);
    assert_eq!(config.max_size, 10485760);
}

#[test]
fn attachment_settings_fall_back_to_their_defaults() {
    let config = AttachmentConfig::from_values(
        None,
        Some("raw".to_string()),
        Some("soon".to_string()),
        Some("-1".to_string()),
        Some(" image/ , application/pdf".to_string()),
        Some("".to_string()),
    )
    .unwrap();
    assert_eq!(config.bucket, "raw");
    assert_eq!(config.presigned_url_expiration, 7 * 24 * 60 * 60);
    assert_eq!(config.max_size, 35 * 1024 * 1024);
    assert_eq!(config.allowed_types, vec!["image/", "application/pdf"]);
    assert_eq!(config.blocked_types, vec![""]);

    let bare = AttachmentConfig::from_values(None, None, Some("+60".to_string()), None, None, None).unwrap();
    assert_eq!(bare.bucket, "");
    assert_eq!(bare.presigned_url_expiration, 60);
    assert_eq!(bare.allowed_types, vec!["*"]);
    assert_eq!(
        bare.blocked_types,
        vec!["application/x-executable", "application/x-msdownload"]
    );
}

#[test]
fn decimal_numbers_are_read_strictly() {
    let read = mailflow::text::parse_decimal;
    assert_eq!(read("0"), Some(0));
    assert_eq!(read("007"), Some(7));
    assert_eq!(read("+15"), Some(15));
    assert_eq!(read("18446744073709551615"), Some(u64::MAX));
    assert_eq!(read("18446744073709551616"), None);
    assert_eq!(read("99999999999999999999999"), None);
    assert_eq!(read(""), None);
    assert_eq!(read("+"), None);
    assert_eq!(read("-1"), None);
    assert_eq!(read("1 "), None);
    assert_eq!(read("1_000"), None);
    assert_eq!(read("\u{663}"), None);
}
