//! The events that start an invocation.

use vstd::prelude::*;

verus! {

/// One of the three event shapes an invocation may carry.
#[derive(Debug, Clone, PartialEq, Eq)]
pub enum LambdaEvent {
    Ses(SesEvent),
    S3(S3Event),
    Sqs(SqsEvent),
}

/// A notification that objects were stored.
#[derive(Debug, Clone, PartialEq, Eq)]
pub struct S3Event {
    pub records: Vec<S3EventRecord>,
}

#[derive(Debug, Clone, PartialEq, Eq)]
pub struct S3EventRecord {
    pub event_version: String,
    pub event_source: String,
    pub aws_region: String,
    pub event_time: String,
    pub event_name: String,
    pub s3: S3Info,
    pub ses: Option<SesInfo>,
}

#[derive(Debug, Clone, PartialEq, Eq)]
pub struct S3Info {
    pub bucket: S3Bucket,
    pub object: S3Object,
}

#[derive(Debug, Clone, PartialEq, Eq)]
pub struct S3Bucket {
    pub name: String,
    pub arn: String,
}

#[derive(Debug, Clone, PartialEq, Eq)]
pub struct S3Object {
    pub key: String,
    pub size: Option<i64>,
    pub etag: Option<String>,
}

#[derive(Debug, Clone, PartialEq, Eq)]
pub struct SesInfo {
    pub mail: SesMail,
    pub receipt: SesReceipt,
}

#[derive(Debug, Clone, PartialEq, Eq)]
pub struct SesMail {
    pub message_id: String,
    pub timestamp: String,
    pub source: String,
    pub destination: Vec<String>,
}

#[derive(Debug, Clone, PartialEq, Eq)]
pub struct SesReceipt {
    pub recipients: Vec<String>,
    pub spf_verdict: Option<Verdict>,
    pub dkim_verdict: Option<Verdict>,
    pub spam_verdict: Option<Verdict>,
}

/// The outcome of one check made by the SMTP gateway.
#[derive(Debug, Clone, PartialEq, Eq)]
pub struct Verdict {
    pub status: String,
}

/// The SMTP gateway's own event, with its verdicts.
#[derive(Debug, Clone, PartialEq, Eq)]
pub struct SesEvent {
    pub records: Vec<SesEventRecord>,
}

#[derive(Debug, Clone, PartialEq, Eq)]
pub struct SesEventRecord {
    pub event_source: String,
    pub event_version: String,
    pub ses: SesPayload,
}

#[derive(Debug, Clone, PartialEq, Eq)]
pub struct SesPayload {
    pub mail: SesMail,
    pub receipt: SesReceiptFull,
}

#[derive(Debug, Clone, PartialEq, Eq)]
pub struct SesReceiptFull {
    pub timestamp: String,
    pub recipients: Vec<String>,
    pub spf_verdict: Option<Verdict>,
    pub dkim_verdict: Option<Verdict>,
    pub spam_verdict: Option<Verdict>,
    pub virus_verdict: Option<Verdict>,
    pub action: SesAction,
}

#[derive(Debug, Clone, PartialEq, Eq)]
pub struct SesAction {
    pub action_type: String,
    pub bucket_name: Option<String>,
    pub object_key: Option<String>,
}

/// Records received from the outbound queue.
#[derive(Debug, Clone, PartialEq, Eq)]
pub struct SqsEvent {
    pub records: Vec<SqsRecord>,
}

#[derive(Debug, Clone, PartialEq, Eq)]
pub struct SqsRecord {
    pub message_id: String,
    pub receipt_handle: String,
    pub body: String,
    pub attributes: Vec<(String, String)>,
    pub message_attributes: Vec<(String, MessageAttribute)>,
}

#[derive(Debug, Clone, PartialEq, Eq)]
pub struct MessageAttribute {
    pub string_value: Option<String>,
    pub binary_value: Option<String>,
    pub data_type: String,
}

} // verus!
