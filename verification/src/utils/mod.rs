//! Validation, sanitization, redaction and retry.

pub mod file_validation;
pub mod logging;
pub mod retry;
pub mod sanitization;
pub mod validation;

pub use file_validation::{get_allowed_extensions, get_extension, is_extension_blocked};
pub use logging::{
    extract_domain, redact_body, redact_email, redact_email_full, redact_subject,
    safe_email_context, sanitize_s3_key_for_log,
};
pub use retry::{RetryConfig, RetryDecision};
pub use sanitization::{
    redact_emails, sanitize_filename_strict, sanitize_html, sanitize_path_component,
    validate_s3_key_component,
};
pub use validation::{validate_attachment_size, validate_email_address};
