use base64::Engine;
use mailflow::email::parser::{
    email_from_mime, eq_ignoring_ascii_case, extract_attachment, inline_image_filename,
    signed_decimal_string, MailParserEmailParser, MimeMessage, MimePart,
};
use mailflow::foreign::mime_parser::{MimeAddress, MimeAddressList, MimePartBody};
use mailflow::models::Timestamp;

const NOW: Timestamp = Timestamp { seconds: 1_762_000_000, nanos: 0 };

fn build_simple_email(from: &str, to: &str, subject: &str, body: &str) -> String {
    format!(
        "From: {}\r\nTo: {}\r\nSubject: {}\r\nMIME-Version: 1.0\r\nContent-Type: text/plain; charset=UTF-8\r\n\r\n{}",
        from, to, subject, body
    )
}

fn build_html_email(from: &str, to: &str, subject: &str, text: &str, html: &str) -> String {
    let boundary = "----=_Part_0_123456789.1234567890";
    format!(
        "From: {}\r\nTo: {}\r\nSubject: {}\r\nMIME-Version: 1.0\r\nContent-Type: multipart/alternative; boundary=\"{}\"\r\n\r\n--{}\r\nContent-Type: text/plain; charset=UTF-8\r\n\r\n{}\r\n\r\n--{}\r\nContent-Type: text/html; charset=UTF-8\r\n\r\n{}\r\n\r\n--{}--\r\n",
        from, to, subject, boundary, boundary, text, boundary, html, boundary
    )
}

fn build_email_with_attachment(
    from: &str,
    to: &str,
    subject: &str,
    body: &str,
    filename: &str,
    content_type: &str,
    attachment_data: &[u8],
) -> String {
    let boundary = "----=_Part_0_987654321.1234567890";
    let encoded = base64::engine::general_purpose::STANDARD.encode(attachment_data);
    format!(
        "From: {}\r\nTo: {}\r\nSubject: {}\r\nMIME-Version: 1.0\r\nContent-Type: multipart/mixed; boundary=\"{}\"\r\n\r\n--{}\r\nContent-Type: text/plain; charset=UTF-8\r\n\r\n{}\r\n\r\n--{}\r\nContent-Type: {}; name=\"{}\"\r\nContent-Disposition: attachment; filename=\"{}\"\r\nContent-Transfer-Encoding: base64\r\n\r\n{}\r\n\r\n--{}--\r\n",
        from, to, subject, boundary, boundary, body, boundary, content_type, filename, filename, encoded, boundary
    )
}

#[test]
fn test_build_simple_email() {
    let email =
        build_simple_email("test@example.com", "recipient@example.com", "Test Subject", "Test Body");
    assert!(email.contains("From: test@example.com"));
    assert!(email.contains("Subject: Test Subject"));
    assert!(email.contains("Test Body"));
}

#[test]
fn test_parse_simple_email() {
    let raw = b"From: sender@example.com\r\nTo: recipient@example.com\r\nSubject: Test\r\n\r\nBody text";

    let parser = MailParserEmailParser::new();
    let result = parser.parse(raw);

    assert!(result.is_ok());
    let email = result.unwrap();
    assert_eq!(email.from.address, "sender@example.com");
    assert_eq!(email.subject, "Test");
}

#[test]
fn int_026_invalid_email_format() {
    let invalid_emails = [
        b"" as &[u8],
        b"Not a valid email",
        b"From: test\r\nNo-To-Header\r\n",
    ];

    let parser = MailParserEmailParser::new();

    for (idx, raw_email) in invalid_emails.iter().enumerate() {
        let result = parser.parse(raw_email);
        match result {
            Ok(_email) => {
                println!("Email {} parsed with defaults", idx);
            }
            Err(e) => {
                assert!(!e.to_string().is_empty());
                println!("Email {} failed to parse: {}", idx, e.to_string());
            }
        }
    }
    assert_eq!(
        parser.parse(b"").unwrap_err().to_string(),
        "Email parsing error: Failed to parse email"
    );
}

#[test]
fn simple_routing_mail_is_parsed() {
    let raw = b"From: s@ex.com\r\nTo: _billing@acme.com\r\nSubject: Hi\r\n\r\nHi";
    let email = MailParserEmailParser::new().parse_at(raw, NOW).unwrap();
    assert_eq!(email.from.address, "s@ex.com");
    assert_eq!(email.from.name, None);
    assert_eq!(email.to.len(), 1);
    assert_eq!(email.to[0].address, "_billing@acme.com");
    assert!(email.cc.is_empty() && email.bcc.is_empty());
    assert_eq!(email.reply_to, None);
    assert_eq!(email.subject, "Hi");
    assert_eq!(email.body.text.as_deref(), Some("Hi"));
    assert_eq!(email.message_id, "generated-1762000000");
    assert_eq!(email.received_at, NOW);
    assert!(email.attachments.is_empty());
    assert!(email.attachments_data.is_empty());
    assert_eq!(email.headers.in_reply_to, None);
    assert!(email.headers.references.is_empty());
}

#[test]
fn headers_keep_their_order_and_groups_are_flattened() {
    let raw = b"Message-ID: <abc.123@mail.example.com>\r\n\
From: \"Ann Lee\" <ann@example.com>, second@example.com\r\n\
To: b@x.org, \"C D\" <c@x.org>, bare@y.org\r\n\
Cc: Team: t1@x.org, \"T Two\" <t2@x.org>;, solo@x.org\r\n\
Bcc: hidden@x.org\r\n\
Reply-To: replies@example.com\r\n\
In-Reply-To: <m1@x>\r\n\
References: <r1@x> <r2@x>\r\n\
\r\n\
text";
    let email = MailParserEmailParser::new().parse_at(raw, NOW).unwrap();
    assert_eq!(email.message_id, "abc.123@mail.example.com");
    assert_eq!(email.from.address, "ann@example.com");
    assert_eq!(email.from.name.as_deref(), Some("Ann Lee"));
    let to: Vec<&str> = email.to.iter().map(|a| a.address.as_str()).collect();
    assert_eq!(to, vec!["b@x.org", "c@x.org", "bare@y.org"]);
    assert_eq!(email.to[1].name.as_deref(), Some("C D"));
    let cc: Vec<&str> = email.cc.iter().map(|a| a.address.as_str()).collect();
    assert_eq!(cc, vec!["t1@x.org", "t2@x.org", "solo@x.org"]);
    assert_eq!(email.bcc[0].address, "hidden@x.org");
    assert_eq!(email.reply_to.as_ref().unwrap().address, "replies@example.com");
    assert_eq!(email.subject, "");
    assert_eq!(email.headers.in_reply_to.as_deref(), Some("m1@x"));
    assert_eq!(email.headers.references, vec!["r1@x".to_string(), "r2@x".to_string()]);
}

#[test]
fn int_008_email_threading() {
    let raw = b"From: a@x.org\r\nTo: b@x.org\r\nSubject: Re: Hello\r\nIn-Reply-To: <first@x.org>\r\nReferences: <zero@x.org> <first@x.org>\r\n\r\nreply";
    let email = MailParserEmailParser::new().parse(raw).expect("Failed to parse threading email");

    assert!(email.headers.in_reply_to.is_some());
    if let Some(in_reply_to) = &email.headers.in_reply_to {
        assert!(!in_reply_to.is_empty());
    }
    if !email.headers.references.is_empty() {
        assert!(email.headers.references.iter().all(|r| !r.is_empty()));
    }
    assert_eq!(email.headers.in_reply_to.as_deref(), Some("first@x.org"));
    assert_eq!(email.headers.references.len(), 2);
}

#[test]
fn int_001_simple_email_routing() {
    let raw_email = build_simple_email("sender@example.com", "rcpt@yourdomain.com", "Test Email", "Hello");
    let email = MailParserEmailParser::new().parse(raw_email.as_bytes()).expect("Failed to parse simple email");

    assert!(!email.from.address.is_empty(), "From address should not be empty");
    assert!(!email.to.is_empty(), "To addresses should not be empty");
    assert!(!email.subject.is_empty(), "Subject should not be empty");
    assert!(email.body.text.is_some(), "Text body should be present");
}

#[test]
fn int_002_email_with_single_attachment() {
    let pdf = b"%PDF-1.4\nsomething".to_vec();
    let raw_email = build_email_with_attachment(
        "sender@example.com",
        "_app1@yourdomain.com",
        "With attachment",
        "Body",
        "document.pdf",
        "application/pdf",
        &pdf,
    );
    let email = MailParserEmailParser::new()
        .parse(raw_email.as_bytes())
        .expect("Failed to parse email with attachments");

    assert!(!email.attachments_data.is_empty(), "Should have attachment data");

    let attachment = &email.attachments_data[0];
    assert!(!attachment.filename.is_empty(), "Attachment should have filename");
    assert!(!attachment.content_type.is_empty(), "Attachment should have content type");
    assert!(!attachment.data.is_empty(), "Attachment should have data");

    if attachment.filename.ends_with(".pdf") {
        assert_eq!(&attachment.data[0..4], b"%PDF", "PDF should have correct magic bytes");
    }
    assert_eq!(email.attachments_data.len(), 1);
    assert_eq!(attachment.filename, "document.pdf");
    assert_eq!(attachment.content_type, "application/pdf");
    assert_eq!(attachment.data, pdf);
    assert_eq!(email.body.text.as_deref().map(|t| t.trim()), Some("Body"));
}

#[test]
fn int_003_email_with_multiple_attachments() {
    let pdf_data = b"%PDF-1.4\nxyz".to_vec();
    let raw_email = build_email_with_attachment(
        "sender@example.com",
        "_app1@yourdomain.com",
        "Test with PDF",
        "Email body",
        "document.pdf",
        "application/pdf",
        &pdf_data,
    );

    let email = MailParserEmailParser::new().parse(raw_email.as_bytes()).expect("Failed to parse email");

    assert!(!email.attachments_data.is_empty(), "Should have at least one attachment");

    for attachment in &email.attachments_data {
        let filename = &attachment.filename;
        if filename.ends_with(".pdf") || filename == "document.pdf" {
            assert_eq!(&attachment.data[0..4], b"%PDF", "PDF should have correct magic bytes");
            assert!(!attachment.data.is_empty(), "PDF should have data");
        }
    }
}

#[test]
fn int_004_email_with_inline_images() {
    let png = [0x89u8, 0x50, 0x4E, 0x47, 0x0D, 0x0A, 0x1A, 0x0A];
    let encoded = base64::engine::general_purpose::STANDARD.encode(png);
    let raw_email = format!(
        "From: a@x.org\r\nTo: b@x.org\r\nSubject: inline\r\nMIME-Version: 1.0\r\nContent-Type: multipart/related; boundary=\"rel\"\r\n\r\n--rel\r\nContent-Type: text/html; charset=UTF-8\r\n\r\n<p>Logo: <img src=\"cid:logo@x\"></p>\r\n--rel\r\nContent-Type: image/png\r\nContent-ID: <logo@x>\r\nContent-Disposition: inline; filename=\"logo.png\"\r\nContent-Transfer-Encoding: base64\r\n\r\n{encoded}\r\n--rel--\r\n"
    );
    let email = MailParserEmailParser::new()
        .parse(raw_email.as_bytes())
        .expect("Failed to parse email with inline images");

    assert!(email.body.html.is_some(), "Should have HTML body");
    assert_eq!(email.attachments_data.len(), 1);
    assert_eq!(email.attachments_data[0].filename, "inline-logo@x.dat");
    assert_eq!(email.attachments_data[0].content_type, "image/png");
    assert_eq!(email.attachments_data[0].data, png.to_vec());
}

#[test]
fn int_006_large_email_handling() {
    let large_data = vec![0x42; 10 * 1024 * 1024];

    let raw_email = build_email_with_attachment(
        "sender@example.com",
        "_app1@yourdomain.com",
        "Large email test",
        "Email with large attachment",
        "large-file.bin",
        "application/octet-stream",
        &large_data,
    );

    let email = MailParserEmailParser::new().parse(raw_email.as_bytes()).expect("Failed to parse large email");

    let email_size = raw_email.len();
    assert!(email_size > 5 * 1024 * 1024, "Email should be larger than 5 MB");
    assert_eq!(email.attachments_data[0].data.len(), 10 * 1024 * 1024);
}

#[test]
fn int_007_email_with_special_characters() {
    let raw_email = build_html_email(
        "sender@example.com",
        "rcpt@example.com",
        "=?UTF-8?B?R3LDvMOfZSDwn46J?=",
        "Gr\u{fc}\u{df}e \u{1f389}",
        "<p>Gr\u{fc}\u{df}e</p>",
    );
    let email = MailParserEmailParser::new()
        .parse(raw_email.as_bytes())
        .expect("Failed to parse email with special characters");

    assert!(!email.subject.is_empty(), "Subject should not be empty");
    assert_eq!(email.subject, "Gr\u{fc}\u{df}e \u{1f389}");

    if let Some(text) = &email.body.text {
        assert!(text.is_ascii() || !text.is_empty(), "Text body should handle UTF-8");
        assert!(text.contains("Gr\u{fc}\u{df}e \u{1f389}"));
    }
    if let Some(html) = &email.body.html {
        assert!(html.is_ascii() || !html.is_empty(), "HTML body should handle UTF-8");
    }
    assert!(email.body.text.is_some() && email.body.html.is_some());
}

fn part(
    disposition: Option<&str>,
    filename: Option<&str>,
    content_type: Option<(&str, Option<&str>)>,
    content_id: Option<&str>,
    body: MimePartBody,
) -> MimePart {
    MimePart {
        disposition: disposition.map(|s| s.to_string()),
        filename: filename.map(|s| s.to_string()),
        content_type: content_type.map(|(t, s)| (t.to_string(), s.map(|s| s.to_string()))),
        content_id: content_id.map(|s| s.to_string()),
        body,
    }
}

#[test]
fn attachment_rules_by_part() {
    let bytes = || MimePartBody::Binary(vec![1, 2, 3]);
    let declared = extract_attachment(&part(
        Some("ATTACHMENT"),
        Some("a.bin"),
        Some(("application", Some("x-thing"))),
        Some("<cid>"),
        bytes(),
    ))
    .unwrap();
    assert_eq!(
        (declared.filename.as_str(), declared.content_type.as_str(), declared.data.as_slice()),
        ("a.bin", "application/x-thing", &[1u8, 2, 3][..])
    );
    let untyped = extract_attachment(&part(Some("attachment"), Some("a"), None, None, bytes())).unwrap();
    assert_eq!(untyped.content_type, "application/octet-stream");
    let no_subtype =
        extract_attachment(&part(Some("attachment"), Some("a"), Some(("text", None)), None, bytes()))
            .unwrap();
    assert_eq!(no_subtype.content_type, "text");

    let inline = extract_attachment(&part(
        Some("inline"),
        Some("shown.png"),
        Some(("Image", Some("png"))),
        Some("<<logo>>"),
        MimePartBody::InlineBinary(vec![9]),
    ))
    .unwrap();
    assert_eq!(inline.filename, "inline-logo.dat");
    assert_eq!(inline.content_type, "Image/png");
    let starred =
        extract_attachment(&part(None, None, Some(("image", None)), Some("x"), bytes())).unwrap();
    assert_eq!(starred.content_type, "image/*");

    assert!(extract_attachment(&part(Some("attachment"), None, Some(("text", Some("plain"))), None, bytes())).is_none());
    assert!(extract_attachment(&part(Some("inline"), Some("f.txt"), Some(("text", Some("plain"))), Some("c"), bytes())).is_none());
    assert!(extract_attachment(&part(None, None, Some(("image", Some("png"))), None, bytes())).is_none());
    assert!(extract_attachment(&part(Some("attachment"), Some("a"), None, None, MimePartBody::Multipart)).is_none());
    assert!(extract_attachment(&part(Some("attachment"), Some("a"), None, None, MimePartBody::Message)).is_none());
    assert!(extract_attachment(&part(Some("attachment"), Some("t.txt"), None, None, MimePartBody::Text(b"hi".to_vec()))).is_some());
}

#[test]
fn message_without_headers_of_its_own_gets_defaults() {
    let mime = MimeMessage {
        message_id: None,
        subject: None,
        from: MimeAddressList::Groups(vec![vec![MimeAddress { name: None, address: Some("g@x".to_string()) }]]),
        to: MimeAddressList::Groups(vec![
            vec![MimeAddress { name: Some("One".to_string()), address: Some("1@x".to_string()) }],
            vec![],
            vec![
                MimeAddress { name: None, address: None },
                MimeAddress { name: None, address: Some("3@x".to_string()) },
            ],
        ]),
        cc: MimeAddressList::Absent,
        bcc: MimeAddressList::List(vec![]),
        reply_to: MimeAddressList::List(vec![]),
        in_reply_to: Some(vec!["first".to_string(), "second".to_string()]),
        references: None,
        text_body: None,
        html_body: Some("<p>x</p>".to_string()),
        parts: vec![
            part(Some("attachment"), Some("one.txt"), None, None, MimePartBody::Text(b"1".to_vec())),
            part(None, None, None, None, MimePartBody::Multipart),
            part(None, None, Some(("image", Some("gif"))), Some("<i>"), MimePartBody::Binary(vec![2])),
        ],
    };
    let email = email_from_mime(&mime, Timestamp { seconds: -5, nanos: 1 });
    assert_eq!(email.message_id, "generated--5");
    assert_eq!(email.from.address, "");
    assert_eq!(email.from.name, None);
    let to: Vec<(&str, Option<&str>)> =
        email.to.iter().map(|a| (a.address.as_str(), a.name.as_deref())).collect();
    assert_eq!(to, vec![("1@x", Some("One")), ("", None), ("3@x", None)]);
    assert!(email.cc.is_empty() && email.bcc.is_empty());
    assert_eq!(email.reply_to, None);
    assert_eq!(email.subject, "");
    assert_eq!(email.body.text, None);
    assert_eq!(email.body.html.as_deref(), Some("<p>x</p>"));
    assert_eq!(email.headers.in_reply_to.as_deref(), Some("first"));
    assert!(email.headers.references.is_empty());
    let names: Vec<&str> = email.attachments_data.iter().map(|d| d.filename.as_str()).collect();
    assert_eq!(names, vec!["one.txt", "inline-i.dat"]);
    assert_eq!(signed_decimal_string(i64::MIN), "-9223372036854775808");
    assert_eq!(signed_decimal_string(0), "0");
    assert_eq!(inline_image_filename("<>"), "inline-.dat");
    assert_eq!(inline_image_filename("a<b>c"), "inline-a<b>c.dat");
    assert!(eq_ignoring_ascii_case("AttachMent", "attachment"));
    assert!(!eq_ignoring_ascii_case("attachment", "attachments"));
    assert!(!eq_ignoring_ascii_case("\u{212a}", "k"));
}

#[test]
fn parsing_now_reads_the_clock() {
    let email = MailParserEmailParser::new().parse(b"From: a@x.org\r\n\r\nbody").unwrap();
    assert!(email.received_at.seconds > 1_600_000_000);
    assert!(email.received_at.nanos < 2_000_000_000);
    let stamp = email.message_id.strip_prefix("generated-").expect("a generated id");
    let seconds: i64 = stamp.parse().expect("seconds since the epoch");
    assert!((seconds - email.received_at.seconds).abs() <= 1);
}
