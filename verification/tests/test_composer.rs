use mailflow::email::composer::{
    add_threading_headers, message_plan, BodyPart, EmailComposer, HeaderStep, LettreEmailComposer,
    PartKind,
};
use mailflow::models::{EmailAddress, EmailBody, EmailHeaders, OutboundAttachment, OutboundEmail};

fn address(address: &str, name: Option<&str>) -> EmailAddress {
    EmailAddress { address: address.to_string(), name: name.map(|n| n.to_string()) }
}

fn simple(text: Option<&str>, html: Option<&str>) -> OutboundEmail {
    OutboundEmail {
        from: address("sender@example.com", None),
        to: vec![address("recipient@example.com", None)],
        cc: vec![],
        bcc: vec![],
        reply_to: None,
        subject: "Test".to_string(),
        body: EmailBody { text: text.map(|s| s.to_string()), html: html.map(|s| s.to_string()) },
        attachments: vec![],
        headers: EmailHeaders::default(),
    }
}

fn headers(in_reply_to: Option<&str>, references: &[&str]) -> EmailHeaders {
    EmailHeaders {
        in_reply_to: in_reply_to.map(|s| s.to_string()),
        references: references.iter().map(|s| s.to_string()).collect(),
        custom: vec![],
    }
}

#[test]
fn test_compose_simple_email() {
    let mut email = simple(Some("Test body"), None);
    email.from = address("sender@example.com", Some("Sender"));
    email.subject = "Test Subject".to_string();

    let composer = LettreEmailComposer::new();
    let result = composer.compose(&email, &vec![]);

    assert!(result.is_ok());
    let raw_email = result.unwrap();
    let email_str = String::from_utf8_lossy(&raw_email);

    assert!(email_str.contains("From: Sender <sender@example.com>"));
    assert!(email_str.contains("To: recipient@example.com"));
    assert!(email_str.contains("Subject: Test Subject"));
    assert!(email_str.contains("Test body"));
}

#[test]
fn test_compose_multipart_email() {
    let email = simple(Some("Plain text"), Some("<p>HTML</p>"));

    let composer = LettreEmailComposer::new();
    let result = composer.compose(&email, &vec![]);

    assert!(result.is_ok());
    let raw_email = result.unwrap();
    let email_str = String::from_utf8_lossy(&raw_email);

    assert!(email_str.contains("multipart/alternative"));
    assert!(email_str.contains("Plain text"));
    assert!(email_str.contains("<p>HTML</p>"));
    assert!(email_str.find("Plain text").unwrap() < email_str.find("<p>HTML</p>").unwrap());
}

#[test]
fn body_shape_follows_what_is_there() {
    let composer = LettreEmailComposer::default();
    let text = String::from_utf8(composer.compose(&simple(Some("only text"), None), &vec![]).unwrap()).unwrap();
    assert!(text.contains("Content-Type: text/plain"));
    assert!(!text.contains("multipart"));
    let html = String::from_utf8(composer.compose(&simple(None, Some("<b>x</b>")), &vec![]).unwrap()).unwrap();
    assert!(html.contains("Content-Type: text/html"));
    assert!(!html.contains("multipart"));
    let none = String::from_utf8(composer.compose(&simple(None, None), &vec![]).unwrap()).unwrap();
    assert!(none.contains("Content-Type: text/plain"));
}

#[test]
fn bcc_is_not_written_and_other_headers_are() {
    let mut email = simple(Some("x"), None);
    email.cc = vec![address("copy@example.com", Some("Copy Cat"))];
    email.bcc = vec![address("secret@example.com", None)];
    email.reply_to = Some(address("replies@example.com", None));
    email.subject = "Gr\u{fc}\u{df}e".to_string();
    let raw = String::from_utf8(LettreEmailComposer::new().compose(&email, &vec![]).unwrap()).unwrap();
    assert!(raw.contains("Cc: Copy Cat <copy@example.com>") || raw.contains("Cc: \"Copy Cat\" <copy@example.com>"));
    assert!(raw.contains("Reply-To: replies@example.com"));
    assert!(!raw.contains("secret@example.com"));
    assert!(!raw.to_lowercase().contains("bcc"));
    assert!(raw.contains("Subject: =?utf-8?b?"));
}

#[test]
fn attachments_are_wrapped_in_mixed_with_base64() {
    let mut email = simple(Some("see attached"), Some("<p>see attached</p>"));
    email.attachments = vec![
        OutboundAttachment {
            filename: "report.pdf".to_string(),
            content_type: "application/pdf".to_string(),
            s3_bucket: "b".to_string(),
            s3_key: "k1".to_string(),
        },
        OutboundAttachment {
            filename: "pixel.png".to_string(),
            content_type: "image/png".to_string(),
            s3_bucket: "b".to_string(),
            s3_key: "k2".to_string(),
        },
    ];
    let blobs = vec![b"%PDF-1.4 body of the report".to_vec(), vec![0x89, 0x50, 0x4E, 0x47]];
    let raw = String::from_utf8(LettreEmailComposer::new().compose(&email, &blobs).unwrap()).unwrap();
    let mixed = raw.find("multipart/mixed").unwrap();
    let alternative = raw.find("multipart/alternative").unwrap();
    let pdf = raw.find("application/pdf").unwrap();
    let png = raw.find("image/png").unwrap();
    assert!(mixed < alternative && alternative < pdf && pdf < png);
    assert!(raw.contains("Content-Transfer-Encoding: base64"));
    assert!(raw.contains("JVBERi0xLjQgYm9keSBvZiB0aGUgcmVwb3J0"));
    assert!(raw.contains("iVBORw=="));
    assert!(raw.contains("report.pdf") && raw.contains("pixel.png"));
}

#[test]
fn int_012_outbound_size_validation() {
    let mut email = simple(Some("Testing large attachment"), None);
    email.attachments = vec![OutboundAttachment {
        filename: "large-file.bin".to_string(),
        content_type: "application/octet-stream".to_string(),
        s3_bucket: "mailflow-attachments-dev".to_string(),
        s3_key: "attachments/test-123/large-file.bin".to_string(),
    }];
    let composer = LettreEmailComposer::new();
    let limit: usize = 10 * 1024 * 1024;
    let error = composer.compose(&email, &vec![vec![0u8; limit + 1]]).unwrap_err();
    assert_eq!(
        error.to_string(),
        "Validation error: Total attachment size 10485761 bytes exceeds SES limit of 10485760 bytes (10 MB)"
    );
    assert!(composer.compose(&email, &vec![vec![0u8; limit]]).is_ok());
    assert_eq!(
        composer.compose(&email, &vec![]).unwrap_err().to_string(),
        "Validation error: Attachment data does not match the attachments of the message"
    );
    email.attachments.push(email.attachments[0].clone());
    let halves = vec![vec![0u8; limit / 2], vec![0u8; limit / 2 + 1]];
    assert!(composer.compose(&email, &halves).is_err());
}

#[test]
fn unwritable_address_or_type_is_a_parsing_error() {
    let mut email = simple(Some("x"), None);
    email.to = vec![address("not an address", None)];
    let error = LettreEmailComposer::new().compose(&email, &vec![]).unwrap_err();
    assert!(error.to_string().starts_with("Email parsing error: Invalid email address: "));
    let mut email = simple(Some("x"), None);
    email.from = address("also bad", Some("Named"));
    assert!(LettreEmailComposer::new().compose(&email, &vec![]).is_err());
    let mut email = simple(Some("x"), None);
    email.attachments = vec![OutboundAttachment {
        filename: "f".to_string(),
        content_type: "not a type".to_string(),
        s3_bucket: "b".to_string(),
        s3_key: "k".to_string(),
    }];
    let error = LettreEmailComposer::new().compose(&email, &vec![vec![1]]).unwrap_err();
    assert!(error.to_string().starts_with("Email parsing error: Invalid content type 'not a type': "));
}

#[test]
fn threading_headers_stand_before_the_blank_line() {
    let mut email = simple(Some("This is a reply"), None);
    email.headers = headers(Some("m1@x"), &["r1@x", "r2@x"]);
    let raw = String::from_utf8(LettreEmailComposer::new().compose(&email, &vec![]).unwrap()).unwrap();
    let blank = raw.find("\r\n\r\n").unwrap();
    let head = &raw[..blank];
    assert!(head.ends_with("\r\nIn-Reply-To: <m1@x>\r\nReferences: <r1@x> <r2@x>"));
    assert!(head.contains("Subject: Test"));
    assert_eq!(&raw[blank + 4..].trim_end(), &"This is a reply");
    assert_eq!(raw.matches("In-Reply-To:").count(), 1);
}

#[test]
fn threading_is_written_into_given_bytes() {
    let raw = b"A: 1\r\nB: 2\r\n\r\nbody\r\n\r\nmore".to_vec();
    assert_eq!(add_threading_headers(raw.clone(), &headers(None, &[])), raw);
    assert_eq!(
        add_threading_headers(raw.clone(), &headers(Some("m1@x"), &["r1@x", "r2@x"])),
        b"A: 1\r\nB: 2\r\nIn-Reply-To: <m1@x>\r\nReferences: <r1@x> <r2@x>\r\n\r\nbody\r\n\r\nmore".to_vec()
    );
    assert_eq!(
        add_threading_headers(raw.clone(), &headers(Some("m\u{e9}"), &[])),
        "A: 1\r\nB: 2\r\nIn-Reply-To: <m\u{e9}>\r\n\r\nbody\r\n\r\nmore".as_bytes().to_vec()
    );
    assert_eq!(
        add_threading_headers(raw.clone(), &headers(None, &["only"])),
        b"A: 1\r\nB: 2\r\nReferences: <only>\r\n\r\nbody\r\n\r\nmore".to_vec()
    );
    assert_eq!(
        add_threading_headers(b"no blank line\r\n".to_vec(), &headers(Some("i"), &[])),
        b"no blank line\r\n\r\nIn-Reply-To: <i>\r\n\r\n".to_vec()
    );
    assert_eq!(
        add_threading_headers(b"\r\n\r\n".to_vec(), &headers(Some("i"), &[])),
        b"\r\nIn-Reply-To: <i>\r\n\r\n".to_vec()
    );
    assert_eq!(
        add_threading_headers(vec![0xff, 13, 10, 13, 10, 0xfe], &headers(Some("i"), &[])),
        [&[0xffu8][..], b"\r\nIn-Reply-To: <i>\r\n\r\n", &[0xfe][..]].concat()
    );
}

#[test]
fn first_complaint_is_reported_in_the_order_of_writing() {
    let composer = LettreEmailComposer::new();
    let mut email = simple(Some("x"), None);
    email.cc = vec![address("also bad", Some("Named"))];
    email.bcc = vec![address("not an address", None)];
    assert_eq!(
        composer.compose(&email, &vec![]).unwrap_err().to_string(),
        "Email parsing error: Invalid email address: Missing domain or user"
    );
    email.cc = vec![address("copy@example.com", None)];
    assert_eq!(
        composer.compose(&email, &vec![]).unwrap_err().to_string(),
        "Email parsing error: Invalid email address: Invalid input"
    );
    email.bcc = vec![];
    email.reply_to = Some(address("nobody", Some("Nobody")));
    email.attachments = vec![OutboundAttachment {
        filename: "f".to_string(),
        content_type: "plain".to_string(),
        s3_bucket: "b".to_string(),
        s3_key: "k".to_string(),
    }];
    assert_eq!(
        composer.compose(&email, &vec![vec![1]]).unwrap_err().to_string(),
        "Email parsing error: Invalid email address: Missing domain or user"
    );
    email.reply_to = None;
    let error = composer.compose(&email, &vec![vec![1]]).unwrap_err().to_string();
    assert!(error.starts_with("Email parsing error: Invalid content type 'plain': "));
    assert!(error.len() > "Email parsing error: Invalid content type 'plain': ".len());
    email.attachments[0].content_type = "text/plain".to_string();
    assert!(composer.compose(&email, &vec![vec![1]]).is_ok());
}

#[test]
fn a_message_without_recipients_fails_at_the_last_step() {
    let composer = LettreEmailComposer::new();
    let mut email = simple(Some("x"), None);
    email.to = vec![];
    let error = composer.compose(&email, &vec![]).unwrap_err().to_string();
    assert!(error.starts_with("Email parsing error: Failed to build text message: "));
    email.body.html = Some("<p>x</p>".to_string());
    let error = composer.compose(&email, &vec![]).unwrap_err().to_string();
    assert!(error.starts_with("Email parsing error: Failed to build multipart message: "));
    email.body.text = None;
    let error = composer.compose(&email, &vec![]).unwrap_err().to_string();
    assert!(error.starts_with("Email parsing error: Failed to build HTML message: "));
    email.body.html = None;
    let error = composer.compose(&email, &vec![]).unwrap_err().to_string();
    assert!(error.starts_with("Email parsing error: Failed to build empty message: "));
    email.attachments = vec![OutboundAttachment {
        filename: "f".to_string(),
        content_type: "text/plain".to_string(),
        s3_bucket: "b".to_string(),
        s3_key: "k".to_string(),
    }];
    let error = composer.compose(&email, &vec![vec![1]]).unwrap_err().to_string();
    assert!(error.starts_with(
        "Email parsing error: Failed to build multipart message with attachments: "
    ));
}

#[test]
fn plan_lists_what_is_written_in_order() {
    let mut email = simple(Some("text"), Some("<p>html</p>"));
    email.from = address("sender@example.com", Some("Sender"));
    email.to = vec![address("t1@example.com", None), address("t2@example.com", None)];
    email.cc = vec![address("c@example.com", None)];
    email.bcc = vec![address("hidden@example.com", None)];
    email.reply_to = Some(address("reply@example.com", None));
    email.attachments = vec![
        OutboundAttachment {
            filename: "one.pdf".to_string(),
            content_type: "application/pdf".to_string(),
            s3_bucket: "b".to_string(),
            s3_key: "k1".to_string(),
        },
        OutboundAttachment {
            filename: "two.png".to_string(),
            content_type: "image/png".to_string(),
            s3_bucket: "b".to_string(),
            s3_key: "k2".to_string(),
        },
    ];
    let plan = message_plan(&email, &vec![vec![1], vec![2, 3]]);
    assert_eq!(plan.sender, address("sender@example.com", Some("Sender")));
    assert_eq!(plan.sender.name, Some("Sender".to_string()));
    assert_eq!(
        plan.headers,
        vec![
            HeaderStep::Subject("Test".to_string()),
            HeaderStep::To(address("t1@example.com", None)),
            HeaderStep::To(address("t2@example.com", None)),
            HeaderStep::Cc(address("c@example.com", None)),
            HeaderStep::Bcc(address("hidden@example.com", None)),
            HeaderStep::ReplyTo(address("reply@example.com", None)),
        ]
    );
    assert_eq!(
        plan.body,
        vec![
            BodyPart { kind: PartKind::Plain, text: "text".to_string() },
            BodyPart { kind: PartKind::Html, text: "<p>html</p>".to_string() },
        ]
    );
    assert_eq!(plan.attachments.len(), 2);
    assert_eq!(plan.attachments[0].filename, "one.pdf");
    assert_eq!(plan.attachments[0].data, vec![1]);
    assert_eq!(plan.attachments[1].content_type, "image/png");
    assert_eq!(plan.attachments[1].data, vec![2, 3]);
    let bare = message_plan(&simple(None, None), &vec![]);
    assert_eq!(bare.body, vec![BodyPart { kind: PartKind::Empty, text: String::new() }]);
    assert_eq!(bare.headers.len(), 2);
}

#[test]
fn headers_are_written_as_planned() {
    let mut email = simple(Some("text"), None);
    email.to = vec![address("t1@example.com", None)];
    email.cc = vec![address("c@example.com", None)];
    email.bcc = vec![address("hidden@example.com", None)];
    email.reply_to = Some(address("reply@example.com", None));
    let raw = String::from_utf8(LettreEmailComposer::new().compose(&email, &vec![]).unwrap()).unwrap();
    assert!(raw.contains("To: t1@example.com\r\n"));
    assert!(raw.contains("Cc: c@example.com\r\n"));
    assert!(raw.contains("Reply-To: reply@example.com\r\n"));
    assert!(!raw.contains("hidden@example.com"));
    assert!(raw.contains("Content-Type: text/plain"));
    assert!(!raw.contains("text/html"));
}

#[test]
fn line_break_in_a_display_name_is_a_complaint() {
    let composer = LettreEmailComposer::new();
    let mut email = simple(Some("x"), None);
    email.from = address("sender@example.com", Some("Two\nLines"));
    assert_eq!(
        composer.compose(&email, &vec![]).unwrap_err().to_string(),
        "Email parsing error: Invalid email address: line break in display name"
    );
    email.from = address("sender@example.com", Some("One Line"));
    email.cc = vec![address("c@example.com", Some("a\rb"))];
    assert_eq!(
        composer.compose(&email, &vec![]).unwrap_err().to_string(),
        "Email parsing error: Invalid email address: line break in display name"
    );
    email.cc = vec![address("not an address", Some("a\rb"))];
    assert_eq!(
        composer.compose(&email, &vec![]).unwrap_err().to_string(),
        "Email parsing error: Invalid email address: Missing domain or user"
    );
    email.cc = vec![address("c@example.com", Some("  Padded\n"))];
    assert!(composer.compose(&email, &vec![]).is_ok());
}

#[test]
fn header_order_follows_the_plan() {
    let mut email = simple(Some("x"), None);
    email.cc = vec![address("c@example.com", None)];
    email.reply_to = Some(address("reply@example.com", None));
    let raw = String::from_utf8(LettreEmailComposer::new().compose(&email, &vec![]).unwrap()).unwrap();
    let from = raw.find("From: ").unwrap();
    let subject = raw.find("Subject: ").unwrap();
    let to = raw.find("To: ").unwrap();
    let cc = raw.find("Cc: ").unwrap();
    let reply = raw.find("Reply-To: ").unwrap();
    assert!(from < subject && subject < to && to < cc && cc < reply);
}

#[test]
fn odd_text_is_composed_or_refused() {
    let composer = LettreEmailComposer::new();
    let mut email = simple(Some("x\r\n.\r\ny\0"), Some("<p>\u{0}</p>"));
    email.subject = "two\r\nlines \u{1F600} \"q\" \\".to_string();
    email.from = address("sender@example.com", Some("  "));
    email.to = vec![
        address("a@example.com", Some("")),
        address("b@example.com", Some("q\"uo\\te, <x>\t\u{7f}\u{0}\u{1F600}")),
        address("\"Quoted , Name\" <c@example.com>", None),
        address("user@[127.0.0.1]", Some("Literal")),
    ];
    email.reply_to = Some(address("r@example.com", Some("\n inner kept out \n")));
    email.attachments = vec![OutboundAttachment {
        filename: "two\r\nlines \"x\".txt".to_string(),
        content_type: "text/plain; charset=utf-8".to_string(),
        s3_bucket: "b".to_string(),
        s3_key: "k".to_string(),
    }];
    let outcome = composer.compose(&email, &vec![vec![0, 10, 13, 255]]);
    match outcome {
        Ok(raw) => assert!(!raw.is_empty()),
        Err(error) => assert!(error.to_string().starts_with("Email parsing error: ")),
    }
    let mut only = simple(Some("x"), None);
    only.from = address("user@[127.0.0.1]", Some("Literal"));
    match composer.compose(&only, &vec![]) {
        Ok(raw) => assert!(!raw.is_empty()),
        Err(error) => assert!(error
            .to_string()
            .starts_with("Email parsing error: Failed to build text message: ")),
    }
}
