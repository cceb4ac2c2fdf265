//! The shared services of the pipelines, as far as they decide anything.

pub mod attachments;
pub mod config;
pub mod idempotency;
pub mod metrics;
pub mod queue;
pub mod rate_limiter;
pub mod security;

pub use config::{ConfigProvider, EnvConfigProvider};
pub use attachments::{PreparedAttachment, S3AttachmentProcessor};
pub use idempotency::{IdempotencyService, InMemoryIdempotencyService};
pub use metrics::{MetricRecord, MetricUnit, Metrics};
pub use rate_limiter::{MockRateLimiter, RateLimiter};
pub use security::SecurityValidator;
