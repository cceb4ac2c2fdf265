//! Fixed values used throughout the crate.

use vstd::prelude::*;

verus! {

/// Protocol version carried by inbound and outbound envelopes.
pub const MESSAGE_VERSION: &'static str = "1.0";

/// Source identifier of every envelope this system emits.
pub const SOURCE_NAME: &'static str = "mailflow";

/// Prefix of generated envelope identifiers.
pub const MESSAGE_ID_PREFIX: &'static str = "mailflow";

/// How long a processed correlation id is remembered: 24 hours, in seconds.
pub const IDEMPOTENCY_TTL_SECONDS: u64 = 86400;

/// Long-poll wait of the queue, in seconds.
pub const LONG_POLL_WAIT_SECONDS: i32 = 20;

/// Default lifetime of a presigned URL: 7 days, in seconds.
pub const DEFAULT_PRESIGNED_URL_EXPIRATION_SECONDS: u64 = 7 * 24 * 60 * 60;

/// Longest lifetime of a stored attachment: 30 days, in seconds.
pub const MAX_ATTACHMENT_LIFETIME_SECONDS: u64 = 30 * 24 * 60 * 60;

/// Largest raw message accepted inbound: 40 MiB.
pub const MAX_EMAIL_SIZE_BYTES: usize = 40 * 1024 * 1024;

/// Default largest inbound attachment: 35 MiB.
pub const MAX_ATTACHMENT_SIZE_BYTES: usize = 35 * 1024 * 1024;

/// Largest total attachment size the outbound relay takes: 10 MiB.
pub const SES_MAX_ATTACHMENT_SIZE_BYTES: usize = 10 * 1024 * 1024;

/// Most attachments one message may carry.
pub const MAX_ATTACHMENTS_PER_EMAIL: usize = 50;

/// Longest sanitized filename or path component, in characters.
pub const MAX_FILENAME_LENGTH: usize = 255;

/// Largest queue message: 256 KiB.
pub const SQS_MAX_MESSAGE_SIZE_BYTES: usize = 256 * 1024;

/// Longest e-mail address.
pub const MAX_EMAIL_ADDRESS_LENGTH: usize = 320;

/// Longest subject line.
pub const MAX_SUBJECT_LENGTH: usize = 998;

/// Retries after the first attempt of a transient failure.
pub const MAX_RETRIES: u32 = 5;

/// Base delay of the exponential backoff, in milliseconds.
pub const RETRY_BASE_DELAY_MS: u64 = 1000;

/// Cap of the exponential backoff: 5 minutes, in milliseconds.
pub const RETRY_MAX_DELAY_MS: u64 = 5 * 60 * 1000;

/// Jitter applied to retry delays, in thousandths of the delay.
pub const RETRY_JITTER_PERMILLE: u64 = 100;

/// Default sending rate of the relay, in messages per second.
pub const SES_DEFAULT_SEND_RATE: u32 = 14;

/// Most recipients the relay takes per message.
pub const SES_MAX_RECIPIENTS: usize = 50;

/// Default cap on messages per sender per hour.
pub const DEFAULT_MAX_EMAILS_PER_SENDER_PER_HOUR: u32 = 100;

/// Default cap on messages per recipient per hour.
pub const DEFAULT_MAX_EMAILS_PER_RECIPIENT_PER_HOUR: u32 = 50;

/// Characters a sanitized filename may hold.
pub const FILENAME_SAFE_CHARS: &'static str =
    "abcdefghijklmnopqrstuvwxyzABCDEFGHIJKLMNOPQRSTUVWXYZ0123456789._-";

/// Metric namespace.
pub const METRICS_NAMESPACE: &'static str = "Mailflow";

/// Lifetime of a cached queue-existence answer, in seconds.
pub const QUEUE_VALIDATION_CACHE_TTL_SECONDS: u64 = 300;

/// Seconds between configuration refreshes.
pub const CONFIG_REFRESH_INTERVAL_SECONDS: u64 = 60;

/// Most attachments processed at once.
pub const MAX_PARALLEL_ATTACHMENT_WORKERS: usize = 4;

} // verus!
