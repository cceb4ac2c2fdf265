use mailflow::utils::logging::{
    extract_domain, mask_local_part, redact_body, redact_email, redact_email_full, redact_subject,
    safe_email_context, sanitize_s3_key_for_log,
};

#[test]
fn test_redact_email() {
    assert_eq!(redact_email("user@example.com"), "***@example.com");
    assert_eq!(
        redact_email("Contact test@acme.com for help"),
        "Contact ***@acme.com for help"
    );
    assert_eq!(
        redact_email("From: alice@foo.com To: bob@bar.com"),
        "From: ***@foo.com To: ***@bar.com"
    );
}

#[test]
fn test_redact_email_full() {
    assert_eq!(redact_email_full("user@example.com"), "***@***.***");
    assert_eq!(
        redact_email_full("Multiple: a@b.com and c@d.com"),
        "Multiple: ***@***.*** and ***@***.***"
    );
}

#[test]
fn test_redact_subject() {
    assert_eq!(redact_subject("Short"), "Short");
    assert_eq!(redact_subject("This is a long subject"), "Thi...[22 chars]");
    assert_eq!(redact_subject(""), "");
    assert_eq!(redact_subject("Hi"), "Hi");
    assert_eq!(redact_subject("Test"), "Test");
}

#[test]
fn test_redact_body() {
    assert_eq!(redact_body("Hello world"), "[11 bytes]");
    assert_eq!(redact_body(""), "[0 bytes]");
}

#[test]
fn test_sanitize_s3_key_for_log() {
    let result1 = sanitize_s3_key_for_log("message-id/attachments/file.pdf");
    assert!(result1.contains("file.pdf") && result1.starts_with("..."));

    let result2 = sanitize_s3_key_for_log("file.pdf");
    assert!(result2.contains("file.pdf"));

    let empty_result = sanitize_s3_key_for_log("");
    assert!(empty_result == "..." || empty_result == ".../");

    let result3 = sanitize_s3_key_for_log("a/b/c/file.txt");
    assert!(result3.contains("file.txt") && result3.starts_with("..."));
}

#[test]
fn test_extract_domain() {
    assert_eq!(extract_domain("user@example.com"), "example.com");
    assert_eq!(extract_domain("invalid"), "unknown");
}

#[test]
fn test_safe_email_context() {
    let context = safe_email_context("msg-123", "user@example.com", "Confidential Matter");

    assert_eq!(context.message_id, "msg-123");
    assert_eq!(context.from_domain, "example.com");
    assert_eq!(context.subject_preview, "Con...[19 chars]");
}

#[test]
fn int_020_pii_redaction() {
    assert_eq!(redact_email("user@example.com"), "***@example.com");
    assert_eq!(redact_email("john.doe@company.org"), "***@company.org");

    let redacted_localhost = redact_email("admin@localhost");
    assert!(redacted_localhost == "admin@localhost" || redacted_localhost == "***@localhost");

    assert_eq!(redact_email("admin@localhost.com"), "***@localhost.com");

    let redacted = redact_subject("Password reset for account 12345");
    assert!(redacted.starts_with("Pas") && redacted.contains("chars"), "{}", redacted);

    assert_eq!(redact_subject("Hello"), "Hello");

    let redacted = redact_email("sensitive.user@secret.com");
    assert!(!redacted.contains("sensitive.user"));
    assert!(redacted.contains("@secret.com"));
}

#[test]
fn redaction_hides_local_part_and_keeps_the_rest() {
    let cases = [
        ("x jane.roe+tag@mail.example.org y", "x ***@mail.example.org y", "jane.roe"),
        ("<bob_99@a-b.io>", "<***@a-b.io>", "bob_99"),
        ("two: al@x.de,bea@y.fr.", "two: ***@x.de,***@y.fr.", "bea"),
        ("caf\u{e9} r\u{e9}my@h\u{f4}te.fr", "caf\u{e9} r\u{e9}my@h\u{f4}te.fr", "zzz"),
    ];
    for (text, expected, local) in cases {
        let out = redact_email(text);
        assert_eq!(out, expected);
        assert!(!out.contains(local));
    }
    assert_eq!(redact_email("no address here"), "no address here");
    assert_eq!(redact_email("a@b.c"), "a@b.c");
    assert_eq!(redact_email(""), "");
}

#[test]
fn mask_local_part_keeps_from_the_at_on() {
    assert_eq!(mask_local_part("user@example.com"), "***@example.com");
    assert_eq!(mask_local_part("@x"), "***@x");
    assert_eq!(mask_local_part("nothing"), "***@***");
}

#[test]
fn subject_of_six_characters_is_kept() {
    assert_eq!(redact_subject("123456"), "123456");
    assert_eq!(redact_subject("1234567"), "123...[7 chars]");
    assert_eq!(redact_subject("\u{e9}t\u{e9} \u{e0} Nice"), "\u{e9}t\u{e9}...[10 chars]");
    assert_eq!(redact_body("\u{e9}"), "[2 bytes]");
}

#[test]
fn key_for_log_is_last_segment() {
    assert_eq!(sanitize_s3_key_for_log("a/b/c.txt"), ".../c.txt");
    assert_eq!(sanitize_s3_key_for_log("c.txt"), ".../c.txt");
    assert_eq!(sanitize_s3_key_for_log("a/"), ".../");
    assert_eq!(extract_domain("a@b@c"), "b");
    assert_eq!(extract_domain("a@"), "");
}
