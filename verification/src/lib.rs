//! Mail dispatching: the rules that sit between a hosted SMTP ingress and the
//! applications that consume and send mail.
//!
//! Inbound, raw mail that landed in object storage is checked, parsed,
//! relieved of its attachments, routed, and published as one envelope per
//! application that it names. Outbound, send-requests are checked, composed
//! and handed to a relay, at most once per correlation id.
//!
//! This crate decides and does no I/O. The two dispatchers in [`handlers`]
//! are state machines: they are told what happened and say what to do next.
//! What they rely on is in the other modules:
//!
//! - [`email`]: from raw bytes to a message and back;
//! - [`routing`]: from recipients to queues;
//! - [`services`]: attachments, security policy, idempotency, rate limits,
//!   metrics, configuration;
//! - [`utils`]: sanitization, validation, the file-type oracle, redaction,
//!   retry;
//! - [`models`]: the data;
//! - [`text`]: characters and strings;
//! - [`foreign`]: the calls into other crates, whose contracts are believed
//!   and not proved.
//!
//! Every function is verified against its contract. Contracts speak of
//! strings as sequences of characters and of buffers as sequences of bytes.

pub mod constants;
pub mod email;
pub mod error;
pub mod foreign;
pub mod handlers;
pub mod models;
pub mod routing;
pub mod services;
pub mod text;
pub mod utils;

pub use error::MailflowError;
