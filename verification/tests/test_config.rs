use mailflow::models::{
    AppRouting, AttachmentConfig, EmailBody, MailflowConfig, RetentionConfig, RoutingTable,
    SecurityConfig,
};
use mailflow::services::config::{parse_domain_list, ConfigProvider, EnvConfigProvider};
use mailflow::services::metrics::{MetricUnit, Metrics};
use mailflow::text::{decimal_string, hex_string, split_on};

fn valid() -> MailflowConfig {
    let mut routing = RoutingTable::new();
    routing.insert(
        "app1".to_string(),
        AppRouting {
            queue_url: "https://sqs.us-east-1.amazonaws.com/123/mailflow-app1".to_string(),
            enabled: true,
            aliases: vec![],
        },
    );
    MailflowConfig {
        version: "1.0".to_string(),
        domains: vec!["acme.com".to_string()],
        routing,
        default_queue: "https://sqs.us-east-1.amazonaws.com/123/mailflow-default".to_string(),
        unknown_queue: "https://sqs.us-east-1.amazonaws.com/123/mailflow-unknown".to_string(),
        attachments: AttachmentConfig {
            bucket: "mailflow-raw-emails".to_string(),
            presigned_url_expiration: 604800,
            max_size: 36700160,
            allowed_types: vec![],
            blocked_types: vec![],
            scan_for_malware: false,
        },
        security: SecurityConfig {
            require_spf: false,
            require_dkim: false,
            require_dmarc: false,
            max_emails_per_sender_per_hour: 100,
            allowed_sender_domains: vec![],
        },
        retention: RetentionConfig { raw_emails: 7, attachments: 30, logs: 30 },
    }
}

#[test]
fn test_config_deserialization() {
    let config = valid();
    assert_eq!(config.version, "1.0");
    assert_eq!(config.domains.len(), 1);
    assert!(config.routing.contains_key("app1"));
    assert!(config.validate().is_ok());
}

#[test]
fn validation_names_the_first_broken_rule() {
    let check = |change: &dyn Fn(&mut MailflowConfig)| -> String {
        let mut c = valid();
        change(&mut c);
        c.validate().unwrap_err()
    };
    assert_eq!(check(&|c| c.domains.clear()), "No domains configured");
    assert_eq!(
        check(&|c| c.default_queue = "http://sqs.x".to_string()),
        "Invalid default queue URL: http://sqs.x"
    );
    assert_eq!(
        check(&|c| {
            c.routing.insert(
                "b".to_string(),
                AppRouting { queue_url: "q://b".to_string(), enabled: false, aliases: vec![] },
            );
            c.routing.insert(
                "c".to_string(),
                AppRouting { queue_url: "q://c".to_string(), enabled: true, aliases: vec![] },
            );
        }),
        "Invalid queue URL for app b: q://b"
    );
    assert_eq!(check(&|c| c.attachments.bucket.clear()), "Attachments bucket not configured");
    assert_eq!(check(&|c| c.attachments.max_size = 0), "Attachments max_size must be > 0");
    assert_eq!(
        check(&|c| c.security.max_emails_per_sender_per_hour = 0),
        "Max emails per sender per hour must be > 0"
    );
    assert_eq!(
        check(&|c| {
            c.domains.clear();
            c.attachments.max_size = 0;
        }),
        "No domains configured"
    );
    let mut empty_default = valid();
    empty_default.default_queue.clear();
    assert!(empty_default.validate().is_ok());
}

#[test]
fn test_config_provider_trait() {
    let provider = EnvConfigProvider::from_values(
        Some(Ok(vec![("app1".to_string(), "https://sqs.example.com/app1".to_string())])),
        Some("acme.com,example.com".to_string()),
        Some("https://sqs.us-east-1.amazonaws.com/123/default".to_string()),
        Some("test-bucket".to_string()),
    )
    .unwrap();
    let config = provider.get_config().unwrap();

    assert_eq!(config.version, "1.0");
    assert_eq!(config.domains.len(), 2);
    assert!(config.routing.contains_key("app1"));
    assert!(config.default_queue.starts_with("https://sqs."));
}

#[test]
fn test_env_config_missing_vars() {
    let result = EnvConfigProvider::from_values(None, None, None, None);
    assert!(result.is_err());
}

#[test]
fn environment_values_make_the_configuration() {
    let routes = || {
        Some(Ok(vec![
            ("a".to_string(), "https://sqs.x/a".to_string()),
            ("b".to_string(), "https://sqs.x/b".to_string()),
            ("a".to_string(), "https://sqs.x/a2".to_string()),
        ]))
    };
    let mut provider = EnvConfigProvider::from_values(
        routes(),
        Some(" acme.com , ,example.com,".to_string()),
        None,
        Some("raw".to_string()),
    )
    .unwrap();
    assert!(provider.refresh().is_ok());
    let config = provider.get_config().unwrap();
    assert_eq!(config.domains, vec!["acme.com".to_string(), "example.com".to_string()]);
    assert_eq!(config.routing.len(), 2);
    assert_eq!(config.routing.get("a").unwrap().queue_url, "https://sqs.x/a2");
    assert!(config.routing.get("b").unwrap().enabled);
    assert_eq!(config.default_queue, "");
    assert_eq!(config.unknown_queue, "");
    assert_eq!(config.attachments.bucket, "raw");
    assert_eq!(config.attachments.presigned_url_expiration, 604800);
    assert_eq!(config.attachments.max_size, 36700160);
    assert_eq!(config.attachments.blocked_types, vec!["application/x-executable".to_string()]);
    assert_eq!(config.security.max_emails_per_sender_per_hour, 100);
    assert_eq!(config.retention, RetentionConfig { raw_emails: 7, attachments: 30, logs: 30 });

    let err = |r: Result<EnvConfigProvider, mailflow::MailflowError>| r.unwrap_err().to_string();
    assert_eq!(
        err(EnvConfigProvider::from_values(None, None, None, Some("raw".to_string()))),
        "Configuration error: Missing ROUTING_MAP env var"
    );
    assert_eq!(
        err(EnvConfigProvider::from_values(Some(Err("EOF".to_string())), None, None, None)),
        "Configuration error: Invalid ROUTING_MAP JSON: EOF"
    );
    assert_eq!(
        err(EnvConfigProvider::from_values(routes(), Some("d".to_string()), None, None)),
        "Configuration error: Missing RAW_EMAILS_BUCKET"
    );
    assert_eq!(
        err(EnvConfigProvider::from_values(routes(), None, None, Some("raw".to_string()))),
        "Configuration error: Invalid configuration: No domains configured"
    );
    assert_eq!(
        err(EnvConfigProvider::from_values(
            Some(Ok(vec![("a".to_string(), "q://a".to_string())])),
            Some("d".to_string()),
            None,
            Some("raw".to_string())
        )),
        "Configuration error: Invalid configuration: Invalid queue URL for app a: q://a"
    );
}

#[test]
fn text_helpers() {
    assert_eq!(split_on("a,b,,c", ','), vec!["a", "b", "", "c"]);
    assert_eq!(split_on("", ','), vec![""]);
    assert_eq!(split_on(",", ','), vec!["", ""]);
    assert_eq!(parse_domain_list(" , \t"), Vec::<String>::new());
    assert_eq!(parse_domain_list("a.b"), vec!["a.b"]);
    assert_eq!(decimal_string(0), "0");
    assert_eq!(decimal_string(10), "10");
    assert_eq!(decimal_string(u64::MAX), "18446744073709551615");
    assert_eq!(hex_string(&vec![0x00, 0x0f, 0xa0, 0xff]), "000fa0ff");
}

#[test]
fn test_email_address_serialization() {
    let addr = mailflow::models::EmailAddress {
        address: "test@example.com".to_string(),
        name: Some("Test User".to_string()),
    };
    let copy = addr.copy();
    assert_eq!(addr, copy);
    assert_eq!(copy.name.as_deref(), Some("Test User"));
}

#[test]
fn addresses_are_equal_by_address_alone() {
    let named = mailflow::models::EmailAddress {
        address: "a@x.org".to_string(),
        name: Some("A".to_string()),
    };
    let bare = mailflow::models::EmailAddress { address: "a@x.org".to_string(), name: None };
    let other = mailflow::models::EmailAddress { address: "b@x.org".to_string(), name: Some("A".to_string()) };
    assert_eq!(named, bare);
    assert_ne!(named, other);
}

#[test]
fn test_email_body() {
    let body = EmailBody { text: Some("Plain text".to_string()), html: Some("<p>HTML</p>".to_string()) };
    assert_eq!(body.copy(), body);
    assert_eq!(EmailBody::default(), EmailBody { text: None, html: None });
}

#[test]
fn int_028_metrics_emission() {
    let metric_names = vec![
        "InboundEmailsReceived",
        "InboundEmailsProcessed",
        "InboundProcessingTime",
        "OutboundEmailsSent",
        "OutboundProcessingTime",
        "AttachmentsProcessed",
        "RoutingDecisions",
        "ValidationErrors",
        "RateLimitExceeded",
    ];

    for name in metric_names {
        assert!(!name.is_empty(), "Metric name should not be empty");
        assert!(name.chars().all(|c| c.is_alphanumeric()), "Metric name should be alphanumeric: {}", name);
    }

    let units = vec![MetricUnit::Count, MetricUnit::Milliseconds, MetricUnit::Bytes];

    for unit in units {
        let unit_str = format!("{:?}", unit);
        assert!(!unit_str.is_empty());
    }
}

#[test]
fn test_metrics_helpers() {
    let received = Metrics::inbound_email_received("app1");
    assert_eq!(received.name, "InboundEmailsReceived");
    assert_eq!(received.value, 1);
    assert_eq!(received.unit, MetricUnit::Count);
    assert_eq!(received.dimensions, vec![("App".to_string(), "app1".to_string())]);

    let (count, time) = Metrics::inbound_email_processed("app1", 100);
    assert_eq!((count.name.as_str(), count.value), ("InboundEmailsProcessed", 1));
    assert_eq!((time.name.as_str(), time.value, time.unit), ("InboundProcessingTime", 100, MetricUnit::Milliseconds));

    let (count, size) = Metrics::attachment_processed(1024, "application/pdf");
    assert_eq!(count.name, "AttachmentsProcessed");
    assert_eq!((size.name.as_str(), size.value, size.unit), ("AttachmentSize", 1024, MetricUnit::Bytes));
    assert_eq!(size.dimensions, vec![("ContentType".to_string(), "application/pdf".to_string())]);

    let (sent, took) = Metrics::outbound_email_sent(7);
    assert_eq!((sent.name.as_str(), sent.value), ("OutboundEmailsSent", 1));
    assert!(sent.dimensions.is_empty());
    assert_eq!((took.name.as_str(), took.value), ("OutboundProcessingTime", 7));

    assert_eq!(Metrics::inbound_record_received().name, "InboundEmailsReceived");
    assert!(Metrics::inbound_record_received().dimensions.is_empty());
    let (count, time) = Metrics::inbound_record_processed(9);
    assert_eq!((count.name.as_str(), time.name.as_str(), time.value), ("InboundEmailsProcessed", "InboundProcessingTime", 9));
    assert_eq!(Metrics::routing_decision("a").name, "RoutingDecisions");
    assert_eq!(Metrics::dlq_message_sent("inbound").name, "DLQMessages");
    let errors = Metrics::error_occurred("retriable", "outbound");
    assert_eq!(errors.name, "Errors");
    assert_eq!(errors.dimensions.len(), 2);
}

#[test]
fn int_018_path_traversal_protection() {
    fn sanitize_filename(name: &str) -> String {
        let parts: Vec<&str> = name.split(['/', '\\']).collect();
        parts.last().unwrap_or(&"").to_string()
    }
    assert_eq!(sanitize_filename("../../../etc/passwd"), "passwd");
    assert_eq!(sanitize_filename("..\\..\\windows\\system32\\config.sys"), "config.sys");
    assert_eq!(sanitize_filename("normal-file.pdf"), "normal-file.pdf");
    assert_eq!(sanitize_filename("/absolute/path/file.txt"), "file.txt");
    assert_eq!(sanitize_filename("../../app/secrets.json"), "secrets.json");
    assert_eq!(sanitize_filename("file..with..dots.txt"), "file..with..dots.txt");
    assert_eq!(sanitize_filename("./current/dir/file.pdf"), "file.pdf");

    for hostile in ["../../../etc/passwd", "..\\..\\windows\\system32\\config.sys", "./current/dir/file.pdf"] {
        let safe = mailflow::utils::sanitization::sanitize_filename_strict(hostile);
        assert!(!safe.contains('/') && !safe.contains('\\') && !safe.contains(".."));
    }
}

#[test]
fn test_filename_edge_cases() {
    fn sanitize_filename(name: &str) -> String {
        let parts: Vec<&str> = name.split(['/', '\\']).collect();
        parts.last().unwrap_or(&"").to_string()
    }
    assert_eq!(sanitize_filename(""), "");
    assert_eq!(sanitize_filename("..."), "...");
    assert_eq!(sanitize_filename("\u{6587}\u{6863}.pdf"), "\u{6587}\u{6863}.pdf");
    assert_eq!(sanitize_filename("file@#$%.txt"), "file@#$%.txt");
    let long_name = "a".repeat(255) + ".txt";
    assert_eq!(sanitize_filename(&long_name), long_name);

    let strict = mailflow::utils::sanitization::sanitize_filename_strict;
    assert_eq!(strict("\u{6587}\u{6863}.pdf"), "pdf");
    assert_eq!(strict("file@#$%.txt"), "file.txt");
    assert_eq!(strict(&long_name), "a".repeat(255));
}
