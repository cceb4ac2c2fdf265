//! Reporting a failed record to the dead-letter queue.

use crate::error::MailflowError;
use crate::models::email::Timestamp;
use crate::services::metrics::{MetricRecord, MetricUnit, Metrics};
use crate::utils::logging::{redact_email, redaction_of};
use vstd::prelude::*;

verus! {

/// The name under which the inbound dispatcher reports failures of
/// storage notifications.
pub const HANDLER_INBOUND: &'static str = "inbound";

/// The name under which the outbound dispatcher reports failures.
pub const HANDLER_OUTBOUND: &'static str = "outbound";

/// The name under which the inbound dispatcher reports failures of events
/// of the SMTP gateway.
pub const HANDLER_SES_GATEWAY: &'static str = "ses-gateway";

/// A value of the context of a failure.
#[derive(Debug, Clone, PartialEq, Eq)]
pub enum ContextValue {
    Text(String),
    List(Vec<String>),
}

/// What goes to the dead-letter queue for a failed record.
#[derive(Debug, Clone, PartialEq, Eq)]
pub struct DlqEnvelope {
    /// The rendered error, with addresses redacted.
    pub error: String,
    /// `retriable` or `permanent`.
    pub error_type: String,
    /// `inbound`, `outbound` or `ses`.
    pub handler: String,
    /// What the record was.
    pub context: Vec<(String, ContextValue)>,
    pub timestamp: Timestamp,
}

/// The type under which an error is reported: `retriable` or `permanent`.
pub open spec fn reported_type(error: MailflowError) -> Seq<char> {
    if error.retriable() {
        "retriable"@
    } else {
        "permanent"@
    }
}

/// The type under which an error is reported.
pub fn error_type(error: &MailflowError) -> (r: &'static str)
    ensures
        r@ == reported_type(*error),
{
    if error.is_retriable() {
        "retriable"
    } else {
        "permanent"
    }
}

/// The error as it may leave the system: rendered, with the local part of
/// every address hidden.
pub fn sanitize_error_message(error: &MailflowError) -> (r: String)
    ensures
        r@ == redaction_of(error.rendered()),
{
    let rendered = error.to_string();
    redact_email(rendered.as_str())
}

/// The envelope that reports `error` of `handler`, with `context`, at
/// `now`.
pub fn build_dlq_envelope(
    error: &MailflowError,
    handler: &str,
    context: Vec<(String, ContextValue)>,
    now: Timestamp,
) -> (r: DlqEnvelope)
    ensures
        r.error@ == redaction_of(error.rendered()),
        r.error_type@ == reported_type(*error),
        r.handler@ == handler@,
        r.context == context,
        r.timestamp == now,
{
    DlqEnvelope {
        error: sanitize_error_message(error),
        error_type: String::from_str(error_type(error)),
        handler: String::from_str(handler),
        context,
        timestamp: now,
    }
}

/// What is done about a failed record.
#[derive(Debug, Clone, PartialEq, Eq)]
pub struct ErrorReport {
    /// The error counter to increment.
    pub error_metric: MetricRecord,
    /// The envelope to send, when a dead-letter queue is configured.
    pub envelope: Option<DlqEnvelope>,
    /// The counter to increment once the envelope was sent.
    pub sent_metric: MetricRecord,
}

/// What is done about `error` of `handler`: the error is counted by type
/// and handler; when a dead-letter queue is configured, an envelope goes
/// there, and is counted once it went. A failure to send the envelope is
/// the caller's to log and to swallow.
pub fn send_error_to_dlq(
    dlq_configured: bool,
    error: &MailflowError,
    handler: &str,
    context: Vec<(String, ContextValue)>,
    now: Timestamp,
) -> (r: ErrorReport)
    ensures
        r.error_metric.is("Errors"@, 1, MetricUnit::Count),
        r.error_metric.dimensions@.len() == 2,
        r.error_metric.dimensions@[0].0@ == "ErrorType"@,
        r.error_metric.dimensions@[0].1@ == reported_type(*error),
        r.error_metric.dimensions@[1].0@ == "Handler"@,
        r.error_metric.dimensions@[1].1@ == handler@,
        r.sent_metric.is("DLQMessages"@, 1, MetricUnit::Count),
        r.sent_metric.filed_under("Handler"@, handler@),
        r.envelope is Some <==> dlq_configured,
        r.envelope matches Some(e) ==> {
            &&& e.error@ == redaction_of(error.rendered())
            &&& e.error_type@ == reported_type(*error)
            &&& e.handler@ == handler@
            &&& e.context == context
            &&& e.timestamp == now
        },
{
    let error_metric = Metrics::error_occurred(error_type(error), handler);
    let sent_metric = Metrics::dlq_message_sent(handler);
    let envelope = if dlq_configured {
        Some(build_dlq_envelope(error, handler, context, now))
    } else {
        None
    };
    ErrorReport { error_metric, envelope, sent_metric }
}

} // verus!
