use mailflow::email::attachment::sanitize_filename;
use mailflow::utils::sanitization::{
    redact_emails, sanitize_filename_core, sanitize_filename_strict, sanitize_html,
    sanitize_path_component, validate_s3_key_component,
};

#[test]
fn test_sanitize_html() {
    assert_eq!(
        sanitize_html("<script>alert('xss')</script>"),
        "&lt;script&gt;alert('xss')&lt;/script&gt;"
    );
}

#[test]
fn test_sanitize_path_component() {
    assert_eq!(sanitize_path_component("normal-id-123"), "normal-id-123");
    assert_eq!(sanitize_path_component("../../../etc/passwd"), "etcpasswd");
    assert_eq!(sanitize_path_component("id/with/slash"), "idwithslash");
    assert_eq!(sanitize_path_component("id\\with\\backslash"), "idwithbackslash");
    assert_eq!(sanitize_path_component("..hidden"), "hidden");
    assert_eq!(sanitize_path_component("trailing.."), "trailing");
    assert_eq!(
        sanitize_path_component("msg@email.amazonses.com"),
        "msg@email.amazonses.com"
    );
}

#[test]
fn test_sanitize_filename_strict() {
    assert_eq!(sanitize_filename_strict("document.pdf"), "document.pdf");

    let result = sanitize_filename_strict("../../../etc/passwd");
    assert!(result.contains("etc") || result.starts_with("file_"));

    assert_eq!(sanitize_filename_strict("file;rm -rf /"), "filerm-rf");
    assert_eq!(sanitize_filename_strict("testfile.txt"), "testfile.txt");

    let result = sanitize_filename_strict("");
    assert!(result.starts_with("file_"));

    let result = sanitize_filename_strict("...");
    assert!(!result.is_empty());
}

#[test]
fn test_sanitize_filename_wrapper() {
    assert_eq!(sanitize_filename_strict("test.pdf"), "test.pdf");
    assert_eq!(sanitize_filename_strict("testfile.pdf"), "testfile.pdf");
    assert_eq!(sanitize_filename("test.pdf"), "test.pdf");
}

#[test]
fn test_validate_s3_key_component() {
    assert!(validate_s3_key_component("valid-key-123").is_ok());
    assert!(validate_s3_key_component("").is_err());
    assert!(validate_s3_key_component("../etc/passwd").is_err());
    assert!(validate_s3_key_component("path/with/slash").is_err());
    assert!(validate_s3_key_component(&"a".repeat(2000)).is_err());
}

#[test]
fn s3_key_component_errors_name_the_rule() {
    assert_eq!(
        validate_s3_key_component("").unwrap_err(),
        "Component cannot be empty"
    );
    assert_eq!(
        validate_s3_key_component("a..b").unwrap_err(),
        "Component cannot contain '..'"
    );
    assert_eq!(
        validate_s3_key_component("a\\b").unwrap_err(),
        "Component cannot contain path separators"
    );
    assert_eq!(
        validate_s3_key_component(&"a".repeat(1025)).unwrap_err(),
        "Component too long"
    );
    assert!(validate_s3_key_component(&"a".repeat(1024)).is_ok());
}

#[test]
fn path_component_is_safe_for_hostile_input() {
    let inputs = [
        "../../../etc/passwd",
        "..\\..\\windows\\system32",
        "a/../b",
        "....//....//",
        "x.\u{0}.y",
        ". . .",
        "a...b",
    ];
    for input in inputs {
        let out = sanitize_path_component(input);
        assert!(!out.contains('/'), "{out}");
        assert!(!out.contains('\\'), "{out}");
        assert!(!out.contains(".."), "{out}");
        assert!(out.chars().count() <= 255);
    }
    assert_eq!(sanitize_path_component("a...b"), "a.b");
    assert_eq!(sanitize_path_component(&"a".repeat(300)).chars().count(), 255);
    assert_eq!(sanitize_path_component("caf\u{e9}-1"), "caf\u{e9}-1");
}

#[test]
fn filename_keeps_whitelist_only() {
    let inputs = ["a..b", "....", "a/b\\c", "n\u{e4}me.txt", "x$y%z.pdf", "..a..", "a...b"];
    for input in inputs {
        let out = sanitize_filename_strict(input);
        assert!(!out.is_empty());
        assert!(!out.contains(".."), "{out}");
        assert!(out
            .chars()
            .all(|c| c.is_ascii_alphanumeric() || c == '.' || c == '_' || c == '-'));
    }
    assert_eq!(sanitize_filename_strict("a..b"), "a_b");
    assert_eq!(sanitize_filename_strict("a...b"), "a_.b");
    assert_eq!(sanitize_filename_strict("...."), "__");
    assert_eq!(sanitize_filename_strict("nme.txt"), "nme.txt");
    assert_eq!(sanitize_filename_core("..."), Some("_".to_string()));
    assert_eq!(sanitize_filename_core("."), None);
    assert_eq!(sanitize_filename_core("!!"), None);
}

#[test]
fn empty_filename_gets_a_uuid_name() {
    let first = sanitize_filename_strict("");
    let second = sanitize_filename_strict("###");
    assert!(first.starts_with("file_"));
    assert_eq!(first.len(), 5 + 36);
    assert_ne!(first, second);
    let id = &first[5..];
    for (i, c) in id.chars().enumerate() {
        if i == 8 || i == 13 || i == 18 || i == 23 {
            assert_eq!(c, '-');
        } else {
            assert!(c.is_ascii_digit() || ('a'..='f').contains(&c));
        }
    }
}

#[test]
fn redact_emails_hides_every_local_part() {
    assert_eq!(redact_emails("user@example.com"), "***@example.com");
    assert_eq!(
        redact_emails("from a.b@x.org to c@mail.example.com"),
        "from ***@x.org to ***@mail.example.com"
    );
    assert!(!redact_emails("user@example.com").contains("user"));
    assert_eq!(redact_emails("none"), "none");
}
