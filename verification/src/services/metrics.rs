//! The metrics that the pipelines emit. Emitting is the caller's; here is
//! what is emitted.

use vstd::prelude::*;

verus! {

/// The unit of a metric.
#[derive(Debug, Clone, Copy, PartialEq, Eq, Structural)]
pub enum MetricUnit {
    Count,
    Milliseconds,
    Seconds,
    Bytes,
    /// No unit.
    Unitless,
}

/// One data point: a name, a value, a unit and the dimensions it is filed
/// under.
#[derive(Debug, Clone, PartialEq, Eq)]
pub struct MetricRecord {
    pub name: String,
    pub value: u64,
    pub unit: MetricUnit,
    pub dimensions: Vec<(String, String)>,
}

impl MetricRecord {
    /// Whether the record is the data point `name` = `value` in `unit`.
    pub open spec fn is(self, name: Seq<char>, value: u64, unit: MetricUnit) -> bool {
        self.name@ == name && self.value == value && self.unit == unit
    }

    /// Whether the record has no dimension.
    pub open spec fn plain(self) -> bool {
        self.dimensions@.len() == 0
    }

    /// Whether the record has the one dimension `key` = `value`.
    pub open spec fn filed_under(self, key: Seq<char>, value: Seq<char>) -> bool {
        self.dimensions@.len() == 1 && self.dimensions@[0].0@ == key && self.dimensions@[0].1@
            == value
    }
}

fn record(name: &str, value: u64, unit: MetricUnit) -> (r: MetricRecord)
    ensures
        r.is(name@, value, unit),
        r.plain(),
{
    MetricRecord { name: String::from_str(name), value, unit, dimensions: Vec::new() }
}

fn record_under(name: &str, value: u64, unit: MetricUnit, key: &str, under: &str) -> (r:
    MetricRecord)
    ensures
        r.is(name@, value, unit),
        r.filed_under(key@, under@),
{
    let mut dimensions: Vec<(String, String)> = Vec::new();
    dimensions.push((String::from_str(key), String::from_str(under)));
    MetricRecord { name: String::from_str(name), value, unit, dimensions }
}

/// The metrics of the pipelines, by occasion.
#[derive(Debug, Clone, Copy, PartialEq, Eq, Structural)]
pub struct Metrics;

impl Metrics {
    /// A raw message arrived.
    pub fn inbound_record_received() -> (r: MetricRecord)
        ensures
            r.is("InboundEmailsReceived"@, 1, MetricUnit::Count),
            r.plain(),
    {
        record("InboundEmailsReceived", 1, MetricUnit::Count)
    }

    /// A raw message was processed in `duration_ms`: a counter and a
    /// latency.
    pub fn inbound_record_processed(duration_ms: u64) -> (r: (MetricRecord, MetricRecord))
        ensures
            r.0.is("InboundEmailsProcessed"@, 1, MetricUnit::Count),
            r.0.plain(),
            r.1.is("InboundProcessingTime"@, duration_ms, MetricUnit::Milliseconds),
            r.1.plain(),
    {
        (
            record("InboundEmailsProcessed", 1, MetricUnit::Count),
            record("InboundProcessingTime", duration_ms, MetricUnit::Milliseconds),
        )
    }

    /// A message arrived for `app_name`.
    pub fn inbound_email_received(app_name: &str) -> (r: MetricRecord)
        ensures
            r.is("InboundEmailsReceived"@, 1, MetricUnit::Count),
            r.filed_under("App"@, app_name@),
    {
        record_under("InboundEmailsReceived", 1, MetricUnit::Count, "App", app_name)
    }

    /// A message for `app_name` was processed in `duration_ms`: a counter
    /// and a latency.
    pub fn inbound_email_processed(app_name: &str, duration_ms: u64) -> (r: (
        MetricRecord,
        MetricRecord,
    ))
        ensures
            r.0.is("InboundEmailsProcessed"@, 1, MetricUnit::Count),
            r.0.filed_under("App"@, app_name@),
            r.1.is("InboundProcessingTime"@, duration_ms, MetricUnit::Milliseconds),
            r.1.filed_under("App"@, app_name@),
    {
        (
            record_under("InboundEmailsProcessed", 1, MetricUnit::Count, "App", app_name),
            record_under(
                "InboundProcessingTime",
                duration_ms,
                MetricUnit::Milliseconds,
                "App",
                app_name,
            ),
        )
    }

    /// An attachment of `size_bytes` bytes and type `content_type` was
    /// processed: a counter and a size.
    pub fn attachment_processed(size_bytes: usize, content_type: &str) -> (r: (
        MetricRecord,
        MetricRecord,
    ))
        ensures
            r.0.is("AttachmentsProcessed"@, 1, MetricUnit::Count),
            r.0.filed_under("ContentType"@, content_type@),
            r.1.is("AttachmentSize"@, size_bytes as u64, MetricUnit::Bytes),
            r.1.filed_under("ContentType"@, content_type@),
    {
        (
            record_under("AttachmentsProcessed", 1, MetricUnit::Count, "ContentType", content_type),
            record_under(
                "AttachmentSize",
                size_bytes as u64,
                MetricUnit::Bytes,
                "ContentType",
                content_type,
            ),
        )
    }

    /// A message was sent in `duration_ms`: a counter and a latency.
    pub fn outbound_email_sent(duration_ms: u64) -> (r: (MetricRecord, MetricRecord))
        ensures
            r.0.is("OutboundEmailsSent"@, 1, MetricUnit::Count),
            r.0.plain(),
            r.1.is("OutboundProcessingTime"@, duration_ms, MetricUnit::Milliseconds),
            r.1.plain(),
    {
        (
            record("OutboundEmailsSent", 1, MetricUnit::Count),
            record("OutboundProcessingTime", duration_ms, MetricUnit::Milliseconds),
        )
    }

    /// An error of type `error_type` occurred in `handler`.
    pub fn error_occurred(error_type: &str, handler: &str) -> (r: MetricRecord)
        ensures
            r.is("Errors"@, 1, MetricUnit::Count),
            r.dimensions@.len() == 2,
            r.dimensions@[0].0@ == "ErrorType"@,
            r.dimensions@[0].1@ == error_type@,
            r.dimensions@[1].0@ == "Handler"@,
            r.dimensions@[1].1@ == handler@,
    {
        let mut dimensions: Vec<(String, String)> = Vec::new();
        dimensions.push((String::from_str("ErrorType"), String::from_str(error_type)));
        dimensions.push((String::from_str("Handler"), String::from_str(handler)));
        MetricRecord {
            name: String::from_str("Errors"),
            value: 1,
            unit: MetricUnit::Count,
            dimensions,
        }
    }

    /// An envelope of `handler` went to the dead-letter queue.
    pub fn dlq_message_sent(handler: &str) -> (r: MetricRecord)
        ensures
            r.is("DLQMessages"@, 1, MetricUnit::Count),
            r.filed_under("Handler"@, handler@),
    {
        record_under("DLQMessages", 1, MetricUnit::Count, "Handler", handler)
    }

    /// A message was routed to `app_name`.
    pub fn routing_decision(app_name: &str) -> (r: MetricRecord)
        ensures
            r.is("RoutingDecisions"@, 1, MetricUnit::Count),
            r.filed_under("App"@, app_name@),
    {
        record_under("RoutingDecisions", 1, MetricUnit::Count, "App", app_name)
    }
}

} // verus!
