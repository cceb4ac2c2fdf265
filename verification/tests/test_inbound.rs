use base64::Engine;
use mailflow::error::MailflowError;
use mailflow::handlers::common::ContextValue;
use mailflow::handlers::inbound::{
    build_envelopes, build_inbound_message, build_inbound_message_with, InboundAction,
    InboundContext, InboundDispatcher, InboundEvent, InboundOutcome, InboundPhase, InboundRecord,
};
use mailflow::handlers::ses::{event_shape, processed_metrics, shape_of, EventShape};
use mailflow::models::{
    AppRouting, AttachmentConfig as ModelAttachmentConfig, AttachmentStatus, Email, EmailAddress,
    EmailBody, EmailHeaders, LambdaEvent, MailflowConfig, RetentionConfig, RoutingTable, S3Bucket,
    S3Event, S3EventRecord, S3Info, S3Object, SecurityConfig, SesAction, SesEvent, SesEventRecord,
    SesMail, SesPayload, SesReceiptFull, SqsEvent, Timestamp, Verdict,
};
use mailflow::routing::rules::RouteDestination;
use mailflow::services::attachments::AttachmentConfig;

fn security(require_spf: bool, allowed: &[&str]) -> SecurityConfig {
    SecurityConfig {
        require_spf,
        require_dkim: false,
        require_dmarc: false,
        max_emails_per_sender_per_hour: 100,
        allowed_sender_domains: allowed.iter().map(|d| d.to_string()).collect(),
    }
}

fn context(routes: &[(&str, &str)], policy: SecurityConfig) -> InboundContext {
    let mut routing = RoutingTable::new();
    for (app, queue) in routes {
        routing.insert(
            app.to_string(),
            AppRouting { queue_url: queue.to_string(), enabled: true, aliases: vec![] },
        );
    }
    let config = MailflowConfig {
        version: "1.0".to_string(),
        domains: vec!["acme.com".to_string()],
        routing,
        default_queue: "q://default".to_string(),
        unknown_queue: "q://unknown".to_string(),
        attachments: ModelAttachmentConfig {
            bucket: "attachments".to_string(),
            presigned_url_expiration: 604800,
            max_size: 35 * 1024 * 1024,
            allowed_types: vec![],
            blocked_types: vec![],
            scan_for_malware: false,
        },
        security: policy.clone(),
        retention: RetentionConfig { raw_emails: 7, attachments: 30, logs: 30 },
    };
    InboundContext::new(
        config,
        policy,
        AttachmentConfig {
            bucket: "attachments".to_string(),
            presigned_url_expiration: 604800,
            max_size: 35 * 1024 * 1024,
            allowed_types: vec![],
            blocked_types: vec![],
        },
    )
}

fn s3_record(size: Option<i64>) -> InboundRecord {
    InboundRecord::from_s3(&S3EventRecord {
        event_version: "2.1".to_string(),
        event_source: "aws:s3".to_string(),
        aws_region: "us-east-1".to_string(),
        event_time: "2025-10-31T12:00:00.000Z".to_string(),
        event_name: "ObjectCreated:Put".to_string(),
        s3: S3Info {
            bucket: S3Bucket { name: "raw".to_string(), arn: "arn:aws:s3:::raw".to_string() },
            object: S3Object { key: "mail/1".to_string(), size, etag: None },
        },
        ses: None,
    })
}

fn ses_record(spf: &str, bucket: Option<&str>, key: Option<&str>) -> SesEventRecord {
    let v = |s: &str| Some(Verdict { status: s.to_string() });
    SesEventRecord {
        event_source: "aws:ses".to_string(),
        event_version: "1.0".to_string(),
        ses: SesPayload {
            mail: SesMail {
                message_id: "ses-id-1".to_string(),
                timestamp: "t".to_string(),
                source: "s@ex.com".to_string(),
                destination: vec!["_billing@acme.com".to_string()],
            },
            receipt: SesReceiptFull {
                timestamp: "t".to_string(),
                recipients: vec!["_billing@acme.com".to_string()],
                spf_verdict: v(spf),
                dkim_verdict: v("PASS"),
                spam_verdict: v("PASS"),
                virus_verdict: v("PASS"),
                action: SesAction {
                    action_type: "S3".to_string(),
                    bucket_name: bucket.map(|b| b.to_string()),
                    object_key: key.map(|k| k.to_string()),
                },
            },
        },
    }
}

fn sample_email(to: &str) -> Email {
    Email {
        message_id: "test-123".to_string(),
        from: EmailAddress { address: "sender@example.com".to_string(), name: Some("Sender".to_string()) },
        to: vec![EmailAddress { address: to.to_string(), name: None }],
        cc: vec![],
        bcc: vec![],
        reply_to: None,
        subject: "Test Subject".to_string(),
        body: EmailBody { text: Some("Body".to_string()), html: None },
        attachments: vec![],
        attachments_data: vec![],
        headers: EmailHeaders::default(),
        received_at: Timestamp { seconds: 1, nanos: 2 },
    }
}

#[test]
fn inbound_test_build_inbound_message() {
    let email = sample_email("_app1@acme.com");

    let result = build_inbound_message(&email, "app1");
    assert!(result.is_ok());

    let message = result.unwrap();
    assert_eq!(message.version, "1.0");
    assert_eq!(message.metadata.routing_key, "app1");
    assert_eq!(message.metadata.domain, "acme.com");
}

#[test]
fn test_inbound_flow_test_build_inbound_message() {
    let mut email = sample_email("_app1@yourdomain.com");
    email.from.name = Some("Sender Name".to_string());
    email.body.text = Some("Test body".to_string());

    let message = build_inbound_message(&email, "app1").expect("Should build inbound message");

    assert_eq!(message.version, "1.0");
    assert_eq!(message.source, "mailflow");
    assert!(message.message_id.starts_with("mailflow-"));
    assert_eq!(message.metadata.routing_key, "app1");
    assert_eq!(message.metadata.domain, "yourdomain.com");
    assert_eq!(message.email.from.address, "sender@example.com");
    assert_eq!(message.email.subject, "Test Subject");
}

#[test]
fn test_message_id_format() {
    let message = build_inbound_message(&sample_email("x@y.z"), "k").unwrap();
    let message_id = message.message_id;
    let prefix = mailflow::constants::MESSAGE_ID_PREFIX;

    assert!(message_id.starts_with(prefix));
    assert!(message_id.contains('-'));
    assert!(message_id.len() > prefix.len());

    let parts: Vec<&str> = message_id.split('-').collect();
    assert!(parts.len() >= 2);
    assert_eq!(message_id.len(), "mailflow-".len() + 36);
    assert_ne!(message_id, build_inbound_message(&sample_email("x@y.z"), "k").unwrap().message_id);
}

#[test]
fn test_message_version() {
    assert_eq!(mailflow::constants::MESSAGE_VERSION, "1.0");
}

#[test]
fn test_source_name() {
    assert_eq!(mailflow::constants::SOURCE_NAME, "mailflow");
}

#[test]
fn envelope_copies_the_message() {
    let mut email = sample_email("no-at-sign");
    email.cc = vec![EmailAddress { address: "c@c.cc".to_string(), name: None }];
    email.bcc = vec![EmailAddress { address: "hidden@b.cc".to_string(), name: None }];
    email.reply_to = Some(EmailAddress { address: "r@r.rr".to_string(), name: None });
    email.headers.in_reply_to = Some("m0".to_string());
    email.headers.references = vec!["m0".to_string()];
    let now = Timestamp { seconds: 77, nanos: 8 };
    let m = build_inbound_message_with(&email, &vec![], "billing", "the-id", now);
    assert_eq!(m.message_id, "mailflow-the-id");
    assert_eq!(m.timestamp, now);
    assert_eq!(m.email.message_id, email.message_id);
    assert_eq!(m.email.from, email.from);
    assert_eq!(m.email.to, email.to);
    assert_eq!(m.email.cc, email.cc);
    assert_eq!(m.email.reply_to, email.reply_to);
    assert_eq!(m.email.body, email.body);
    assert_eq!(m.email.headers, email.headers);
    assert_eq!(m.email.received_at, email.received_at);
    assert_eq!(m.metadata.domain, "unknown");
    assert_eq!(m.metadata.spam_score_millis, 0);
    assert!(!m.metadata.spf_verified && !m.metadata.dkim_verified);
    email.to.clear();
    assert_eq!(build_inbound_message_with(&email, &vec![], "k", "i", now).metadata.domain, "unknown");
}

#[test]
fn one_envelope_per_route_with_its_own_key() {
    let routes: Vec<RouteDestination> = [("a", "qA"), ("b", "qB"), ("default", "qD")]
        .iter()
        .map(|(a, q)| RouteDestination { app_name: a.to_string(), queue_url: q.to_string() })
        .collect();
    let envelopes = build_envelopes(&sample_email("_a@d.com"), &routes);
    assert_eq!(envelopes.len(), 3);
    let keys: Vec<&str> = envelopes.iter().map(|e| e.metadata.routing_key.as_str()).collect();
    assert_eq!(keys, vec!["a", "b", "default"]);
    assert_ne!(envelopes[0].message_id, envelopes[1].message_id);
    assert!(build_envelopes(&sample_email("_a@d.com"), &vec![]).is_empty());
}

fn expect_fail(action: InboundAction, rendered: &str) {
    match action {
        InboundAction::ReportFailure { error, context } => {
            assert_eq!(error.to_string(), rendered);
            assert_eq!(
                context,
                vec![
                    ("bucket".to_string(), ContextValue::Text("raw".to_string())),
                    ("key".to_string(), ContextValue::Text("mail/1".to_string())),
                ]
            );
        }
        other => panic!("expected a report, got {other:?}"),
    }
}

fn downloaded(raw: &[u8]) -> InboundEvent {
    InboundEvent::Downloaded(Ok(raw.to_vec()))
}

#[test]
fn simple_routing_end_to_end() {
    let ctx = context(&[("billing", "q://billing")], security(false, &[]));
    let mut d = InboundDispatcher::new(s3_record(Some(64)));
    assert_eq!(d.phase(), InboundPhase::Start);
    assert_eq!(
        d.step(&ctx, InboundEvent::Begin),
        InboundAction::Download { bucket: "raw".to_string(), key: "mail/1".to_string() }
    );
    assert_eq!(
        d.step(&ctx, downloaded(b"From: s@ex.com\r\nTo: _billing@acme.com\r\nSubject: Hi\r\n\r\nHi")),
        InboundAction::CheckRateLimit {
            sender: "s@ex.com".to_string(),
            limit: 100,
            window_seconds: 3600
        }
    );
    assert_eq!(
        d.step(&ctx, InboundEvent::RateChecked(Ok(()))),
        InboundAction::CheckQueue { queue_url: "q://billing".to_string() }
    );
    match d.step(&ctx, InboundEvent::QueueChecked(Ok(true))) {
        InboundAction::Publish { queue_url, envelope } => {
            assert_eq!(queue_url, "q://billing");
            assert_eq!(envelope.metadata.routing_key, "billing");
            assert_eq!(envelope.metadata.domain, "acme.com");
            assert_eq!(envelope.email.subject, "Hi");
            assert_eq!(envelope.version, "1.0");
            assert_eq!(envelope.source, "mailflow");
            assert!(envelope.message_id.starts_with("mailflow-"));
            assert!(!envelope.metadata.spf_verified);
        }
        other => panic!("expected a publish, got {other:?}"),
    }
    assert_eq!(
        d.step(&ctx, InboundEvent::Published(Ok("id-1".to_string()))),
        InboundAction::Finish { outcome: InboundOutcome::Processed }
    );
    assert_eq!(d.phase(), InboundPhase::Done);
    assert_eq!(d.outcome(), InboundOutcome::Processed);
}

#[test]
fn multi_app_fanout_publishes_one_envelope_per_app() {
    let ctx = context(&[("a", "qA"), ("b", "qB")], security(false, &[]));
    let mut d = InboundDispatcher::new(s3_record(None));
    d.step(&ctx, InboundEvent::Begin);
    d.step(&ctx, downloaded(b"From: s@ex.com\r\nTo: _a@d.com, _b@d.com\r\nSubject: x\r\n\r\ny"));
    let mut published: Vec<(String, String)> = vec![];
    let mut action = d.step(&ctx, InboundEvent::RateChecked(Ok(())));
    loop {
        action = match action {
            InboundAction::CheckQueue { .. } => d.step(&ctx, InboundEvent::QueueChecked(Ok(true))),
            InboundAction::Publish { queue_url, envelope } => {
                published.push((queue_url, envelope.metadata.routing_key));
                d.step(&ctx, InboundEvent::Published(Ok("id".to_string())))
            }
            InboundAction::Finish { outcome } => {
                assert_eq!(outcome, InboundOutcome::Processed);
                break;
            }
            other => panic!("unexpected {other:?}"),
        };
    }
    assert_eq!(
        published,
        vec![("qA".to_string(), "a".to_string()), ("qB".to_string(), "b".to_string())]
    );
}

fn mail_with(parts: &[(&str, &str, &[u8])]) -> Vec<u8> {
    let mut raw = String::from(
        "From: s@ex.com\r\nTo: _billing@acme.com\r\nSubject: files\r\nMessage-ID: <m-1@ex.com>\r\nMIME-Version: 1.0\r\nContent-Type: multipart/mixed; boundary=\"bb\"\r\n\r\n--bb\r\nContent-Type: text/plain\r\n\r\nsee attached\r\n",
    );
    for (name, content_type, data) in parts {
        let encoded = base64::engine::general_purpose::STANDARD.encode(data);
        raw.push_str(&format!(
            "--bb\r\nContent-Type: {content_type}\r\nContent-Disposition: attachment; filename=\"{name}\"\r\nContent-Transfer-Encoding: base64\r\n\r\n{encoded}\r\n"
        ));
    }
    raw.push_str("--bb--\r\n");
    raw.into_bytes()
}

#[test]
fn attachments_are_stored_or_recorded_as_failed() {
    let ctx = context(&[("billing", "q://billing")], security(false, &[]));
    let raw = mail_with(&[
        ("virus.exe", "application/x-msdownload", &[0x4D, 0x5A, 0x90, 0x00]),
        ("report.pdf", "application/pdf", &[0x25, 0x50, 0x44, 0x46, 0x2D, 0x31, 0x2E, 0x34]),
        ("report.pdf", "application/pdf", b"%PDF-again"),
        ("fake.png", "image/png", b"not a png"),
    ]);
    let mut d = InboundDispatcher::new(s3_record(None));
    d.step(&ctx, InboundEvent::Begin);
    d.step(&ctx, InboundEvent::Downloaded(Ok(raw)));
    assert_eq!(
        d.step(&ctx, InboundEvent::RateChecked(Ok(()))),
        InboundAction::StoreAttachment {
            bucket: "attachments".to_string(),
            key: "m-1@ex.com/report.pdf".to_string(),
            index: 1
        }
    );
    assert_eq!(d.phase(), InboundPhase::Storing);
    assert!(d.is_well_formed());
    assert_eq!(d.attachment_bytes(1).unwrap(), &vec![0x25, 0x50, 0x44, 0x46, 0x2D, 0x31, 0x2E, 0x34]);
    assert!(d.attachment_bytes(4).is_none());
    assert_eq!(
        d.step(&ctx, InboundEvent::Stored(Ok("https://signed/1".to_string()))),
        InboundAction::StoreAttachment {
            bucket: "attachments".to_string(),
            key: "m-1@ex.com/report-2.pdf".to_string(),
            index: 2
        }
    );
    assert_eq!(
        d.step(&ctx, InboundEvent::Stored(Err(MailflowError::Storage("S3 upload failed".to_string())))),
        InboundAction::CheckQueue { queue_url: "q://billing".to_string() }
    );
    match d.step(&ctx, InboundEvent::QueueChecked(Ok(true))) {
        InboundAction::Publish { envelope, .. } => {
            let a = &envelope.email.attachments;
            assert_eq!(a.len(), 4);
            assert_eq!(a[0].status, AttachmentStatus::Failed);
            assert!(a[0].error.as_deref().unwrap().contains("blocked"));
            assert_eq!(a[0].filename, "virus.exe");
            assert_eq!(a[1].status, AttachmentStatus::Available);
            assert_eq!(a[1].sanitized_filename, "report.pdf");
            assert_eq!(a[1].content_type, "application/pdf");
            assert_eq!(a[1].s3_bucket, "attachments");
            assert_eq!(a[1].s3_key, "m-1@ex.com/report.pdf");
            assert_eq!(a[1].presigned_url, "https://signed/1");
            assert_eq!(a[1].checksum_md5.as_deref(), Some("914240125319291c7cb7e712e419b254"));
            assert_eq!(a[1].size, 8);
            assert_eq!(a[2].status, AttachmentStatus::Failed);
            assert_eq!(a[2].error.as_deref(), Some("Storage error: S3 upload failed"));
            assert_eq!(a[3].status, AttachmentStatus::Failed);
            assert!(a[3].error.as_deref().unwrap().contains("magic bytes"));
        }
        other => panic!("expected a publish, got {other:?}"),
    }
}

#[test]
fn failures_are_reported_with_the_place_of_the_raw_message() {
    let open = context(&[("billing", "q://billing")], security(false, &[]));
    let mail = b"From: s@ex.com\r\nTo: _billing@acme.com\r\nSubject: Hi\r\n\r\nHi";

    let mut d = InboundDispatcher::new(s3_record(Some(41943041)));
    expect_fail(
        d.step(&open, InboundEvent::Begin),
        "Validation error: Email size 41943041 bytes exceeds maximum 41943040 bytes (40 MB)",
    );
    assert_eq!(d.phase(), InboundPhase::Reporting);
    assert_eq!(
        d.step(&open, InboundEvent::Reported),
        InboundAction::Finish { outcome: InboundOutcome::Failed }
    );
    assert_eq!(d.phase(), InboundPhase::Done);

    let mut d = InboundDispatcher::new(s3_record(Some(41943040)));
    assert!(matches!(d.step(&open, InboundEvent::Begin), InboundAction::Download { .. }));
    expect_fail(
        d.step(&open, InboundEvent::Downloaded(Err(MailflowError::Storage("S3 download failed".to_string())))),
        "Storage error: S3 download failed",
    );

    let mut d = InboundDispatcher::new(s3_record(None));
    d.step(&open, InboundEvent::Begin);
    expect_fail(d.step(&open, downloaded(b"")), "Email parsing error: Failed to parse email");

    let mut d = InboundDispatcher::new(s3_record(None));
    d.step(&open, InboundEvent::Begin);
    expect_fail(
        d.step(&open, InboundEvent::Downloaded(Ok(vec![b'x'; 41943041]))),
        "Validation error: Email size 41943041 exceeds maximum 41943040",
    );

    let closed = context(&[("billing", "q://billing")], security(false, &["Partner.org"]));
    let mut d = InboundDispatcher::new(s3_record(None));
    d.step(&closed, InboundEvent::Begin);
    expect_fail(
        d.step(&closed, downloaded(mail)),
        "Validation error: Sender domain 'ex.com' is not in the allowlist",
    );
    let mut d = InboundDispatcher::new(s3_record(None));
    d.step(&closed, InboundEvent::Begin);
    assert!(matches!(
        d.step(&closed, downloaded(b"From: a@PARTNER.ORG\r\nTo: x@acme.com\r\n\r\nb")),
        InboundAction::CheckRateLimit { .. }
    ));

    let mut d = InboundDispatcher::new(s3_record(None));
    d.step(&open, InboundEvent::Begin);
    d.step(&open, downloaded(mail));
    expect_fail(
        d.step(&open, InboundEvent::RateChecked(Err(MailflowError::RateLimit("too many".to_string())))),
        "Rate limit exceeded: too many",
    );

    let mut d = InboundDispatcher::new(s3_record(None));
    d.step(&open, InboundEvent::Begin);
    d.step(&open, downloaded(mail));
    d.step(&open, InboundEvent::RateChecked(Ok(())));
    expect_fail(
        d.step(&open, InboundEvent::QueueChecked(Ok(false))),
        "Routing error: Target queue for app 'billing' does not exist: q://billing",
    );

    let mut d = InboundDispatcher::new(s3_record(None));
    d.step(&open, InboundEvent::Begin);
    d.step(&open, downloaded(mail));
    d.step(&open, InboundEvent::RateChecked(Ok(())));
    d.step(&open, InboundEvent::QueueChecked(Ok(true)));
    expect_fail(
        d.step(&open, InboundEvent::Published(Err(MailflowError::Queue("SQS send_message failed".to_string())))),
        "Queue error: SQS send_message failed",
    );

    let mut d = InboundDispatcher::new(s3_record(None));
    match d.step(&open, InboundEvent::Reported) {
        InboundAction::ReportFailure { error, .. } => assert!(matches!(error, MailflowError::Lambda(_))),
        other => panic!("expected a report, got {other:?}"),
    }
}

#[test]
fn too_many_attachments_fail_the_record() {
    let ctx = context(&[], security(false, &[]));
    let parts: Vec<(String, &str, &[u8])> =
        (0..51).map(|i| (format!("f{i}.txt"), "text/plain", &b"x"[..])).collect();
    let borrowed: Vec<(&str, &str, &[u8])> = parts.iter().map(|(n, t, d)| (n.as_str(), *t, *d)).collect();
    let mut d = InboundDispatcher::new(s3_record(None));
    d.step(&ctx, InboundEvent::Begin);
    d.step(&ctx, InboundEvent::Downloaded(Ok(mail_with(&borrowed))));
    expect_fail(
        d.step(&ctx, InboundEvent::RateChecked(Ok(()))),
        "Validation error: Too many attachments: 51 exceeds maximum of 50",
    );
}

#[test]
fn gateway_verdicts_are_checked_first_and_travel_with_the_envelope() {
    let strict = context(&[("billing", "q://billing")], security(true, &[]));
    let failing = InboundRecord::from_ses(ses_record("FAIL", Some("raw"), Some("mail/1")), None).unwrap();
    let mut d = InboundDispatcher::new(failing);
    expect_fail(d.step(&strict, InboundEvent::Begin), "Validation error: Email failed SPF verification");

    let passing = InboundRecord::from_ses(ses_record("PASS", None, None), Some("fallback".to_string())).unwrap();
    assert_eq!(passing.bucket, "fallback");
    assert_eq!(passing.key, "ses-id-1");
    assert_eq!(passing.size, None);
    let mut d = InboundDispatcher::new(passing);
    assert_eq!(
        d.step(&strict, InboundEvent::Begin),
        InboundAction::Download { bucket: "fallback".to_string(), key: "ses-id-1".to_string() }
    );
    d.step(&strict, downloaded(b"From: s@ex.com\r\nTo: _billing@acme.com\r\nSubject: Hi\r\n\r\nHi"));
    d.step(&strict, InboundEvent::RateChecked(Ok(())));
    match d.step(&strict, InboundEvent::QueueChecked(Ok(true))) {
        InboundAction::Publish { envelope, .. } => {
            assert!(envelope.metadata.spf_verified);
            assert!(envelope.metadata.dkim_verified);
        }
        other => panic!("expected a publish, got {other:?}"),
    }
    assert_eq!(s3_record(None).handler(), "inbound");
    assert_eq!(
        InboundRecord::from_ses(ses_record("PASS", Some("b"), None), None).unwrap().handler(),
        "ses-gateway"
    );
    assert_eq!(
        InboundRecord::from_ses(ses_record("PASS", None, None), None).unwrap_err().to_string(),
        "Lambda runtime error: RAW_EMAILS_BUCKET not set and S3 bucket not found in SES action"
    );
    let named = InboundRecord::from_ses(ses_record("PASS", Some("b"), Some("k")), Some("fallback".to_string())).unwrap();
    assert_eq!((named.bucket.as_str(), named.key.as_str()), ("b", "k"));
}

#[test]
fn nothing_is_published_unless_every_queue_exists() {
    let ctx = context(&[("a", "qA"), ("b", "qB")], security(false, &[]));
    let mut d = InboundDispatcher::new(s3_record(None));
    d.step(&ctx, InboundEvent::Begin);
    d.step(&ctx, downloaded(b"From: s@ex.com\r\nTo: _a@d.com\r\nCc: _b@d.com\r\nSubject: x\r\n\r\ny"));
    assert_eq!(
        d.step(&ctx, InboundEvent::RateChecked(Ok(()))),
        InboundAction::CheckQueue { queue_url: "qA".to_string() }
    );
    assert_eq!(
        d.step(&ctx, InboundEvent::QueueChecked(Ok(true))),
        InboundAction::CheckQueue { queue_url: "qB".to_string() }
    );
    expect_fail(
        d.step(&ctx, InboundEvent::QueueChecked(Ok(false))),
        "Routing error: Target queue for app 'b' does not exist: qB",
    );
    assert_eq!(
        d.step(&ctx, InboundEvent::Reported),
        InboundAction::Finish { outcome: InboundOutcome::Failed }
    );

    let mut d = InboundDispatcher::new(s3_record(None));
    d.step(&ctx, InboundEvent::Begin);
    d.step(&ctx, downloaded(b"From: s@ex.com\r\nTo: _a@d.com\r\nCc: _b@d.com\r\nSubject: x\r\n\r\ny"));
    d.step(&ctx, InboundEvent::RateChecked(Ok(())));
    d.step(&ctx, InboundEvent::QueueChecked(Ok(true)));
    assert!(matches!(
        d.step(&ctx, InboundEvent::QueueChecked(Ok(true))),
        InboundAction::Publish { ref queue_url, .. } if queue_url == "qA"
    ));
    assert!(matches!(
        d.step(&ctx, InboundEvent::Published(Ok("1".to_string()))),
        InboundAction::Publish { ref queue_url, ref envelope } if queue_url == "qB" && envelope.metadata.routing_key == "b"
    ));
    assert_eq!(
        d.step(&ctx, InboundEvent::Published(Ok("2".to_string()))),
        InboundAction::Finish { outcome: InboundOutcome::Processed }
    );
}

#[test]
fn spam_is_not_rejected_and_surfaces_in_the_envelope() {
    let ctx = context(&[("billing", "q://billing")], security(true, &[]));
    let mut record = ses_record("PASS", Some("raw"), Some("mail/1"));
    record.ses.receipt.spam_verdict = Some(Verdict { status: "FAIL".to_string() });
    let mut d = InboundDispatcher::new(InboundRecord::from_ses(record, None).unwrap());
    assert!(matches!(d.step(&ctx, InboundEvent::Begin), InboundAction::Download { .. }));
    d.step(&ctx, downloaded(b"From: s@ex.com\r\nTo: _billing@acme.com\r\nSubject: Hi\r\n\r\nHi"));
    d.step(&ctx, InboundEvent::RateChecked(Ok(())));
    match d.step(&ctx, InboundEvent::QueueChecked(Ok(true))) {
        InboundAction::Publish { envelope, .. } => {
            assert_eq!(envelope.metadata.spam_score_millis, 1000);
        }
        other => panic!("expected a publish, got {other:?}"),
    }
    assert!(mailflow::services::queue::says_queue_is_missing(
        "service error: AWS.SimpleQueueService.NonExistentQueue: gone"
    ));
    assert!(!mailflow::services::queue::says_queue_is_missing("AccessDenied"));
}

#[test]
fn event_shapes_and_success_metrics() {
    assert_eq!(event_shape(Some("aws:ses")), EventShape::Ses);
    assert_eq!(event_shape(Some("aws:s3")), EventShape::S3);
    assert_eq!(event_shape(Some("aws:sqs")), EventShape::Sqs);
    assert_eq!(event_shape(None), EventShape::Sqs);
    assert_eq!(shape_of(&LambdaEvent::Ses(SesEvent { records: vec![] })), EventShape::Ses);
    assert_eq!(shape_of(&LambdaEvent::S3(S3Event { records: vec![] })), EventShape::S3);
    assert_eq!(shape_of(&LambdaEvent::Sqs(SqsEvent { records: vec![] })), EventShape::Sqs);

    let recipients = vec!["_a@x".to_string(), "plain@x".to_string(), "_b@x".to_string()];
    let metrics = processed_metrics(&recipients, 250);
    assert_eq!(metrics.len(), 2);
    assert_eq!(metrics[0].0.name, "InboundEmailsProcessed");
    assert_eq!(metrics[0].0.dimensions, vec![("App".to_string(), "a".to_string())]);
    assert_eq!(metrics[1].1.name, "InboundProcessingTime");
    assert_eq!(metrics[1].1.value, 250);
    assert_eq!(metrics[1].1.dimensions, vec![("App".to_string(), "b".to_string())]);
}

#[test]
fn envelope_names_the_domain_of_the_recipient_that_was_routed() {
    let mut email = sample_email("_a@d1.com");
    email.to.push(EmailAddress { address: "_b@d2.com".to_string(), name: None });
    email.cc.push(EmailAddress { address: "_c@d3.com".to_string(), name: None });
    email.bcc.push(EmailAddress { address: "_b@d4.com".to_string(), name: None });
    assert_eq!(build_inbound_message(&email, "a").unwrap().metadata.domain, "d1.com");
    assert_eq!(build_inbound_message(&email, "b").unwrap().metadata.domain, "d2.com");
    assert_eq!(build_inbound_message(&email, "c").unwrap().metadata.domain, "d3.com");
    assert_eq!(build_inbound_message(&email, "default").unwrap().metadata.domain, "d1.com");
    email.to = vec![];
    assert_eq!(build_inbound_message(&email, "b").unwrap().metadata.domain, "d4.com");
    assert_eq!(build_inbound_message(&email, "default").unwrap().metadata.domain, "unknown");
}
