//! The envelopes published to applications and consumed from them.

use super::email::{Attachment, EmailAddress, EmailBody, EmailHeaders, Timestamp};
use crate::text::str_eq;
use vstd::prelude::*;

verus! {

/// The envelope published to an application's queue.
#[derive(Debug, Clone, PartialEq, Eq)]
pub struct InboundMessage {
    pub version: String,
    pub message_id: String,
    pub timestamp: Timestamp,
    pub source: String,
    pub email: InboundEmail,
    pub metadata: MessageMetadata,
}

/// The part of a parsed message that an envelope carries.
#[derive(Debug, Clone, PartialEq, Eq)]
pub struct InboundEmail {
    pub message_id: String,
    pub from: EmailAddress,
    pub to: Vec<EmailAddress>,
    pub cc: Vec<EmailAddress>,
    pub reply_to: Option<EmailAddress>,
    pub subject: String,
    pub body: EmailBody,
    pub attachments: Vec<Attachment>,
    pub headers: EmailHeaders,
    pub received_at: Timestamp,
}

/// Routing and verdicts of an envelope. The spam score is kept in
/// thousandths.
#[derive(Debug, Clone, PartialEq, Eq)]
pub struct MessageMetadata {
    pub routing_key: String,
    pub domain: String,
    pub spam_score_millis: u32,
    pub dkim_verified: bool,
    pub spf_verified: bool,
}

/// A send-request consumed from the outbound queue.
#[derive(Debug, Clone, PartialEq, Eq)]
pub struct OutboundMessage {
    pub version: String,
    pub correlation_id: String,
    pub timestamp: Timestamp,
    pub source: String,
    pub email: OutboundEmail,
    pub options: SendOptions,
}

#[derive(Debug, Clone, PartialEq, Eq)]
pub struct OutboundEmail {
    pub from: EmailAddress,
    pub to: Vec<EmailAddress>,
    pub cc: Vec<EmailAddress>,
    pub bcc: Vec<EmailAddress>,
    pub reply_to: Option<EmailAddress>,
    pub subject: String,
    pub body: EmailBody,
    pub attachments: Vec<OutboundAttachment>,
    pub headers: EmailHeaders,
}

/// Where the bytes of an outbound attachment are stored.
#[derive(Debug, Clone, PartialEq, Eq)]
pub struct OutboundAttachment {
    pub filename: String,
    pub content_type: String,
    pub s3_bucket: String,
    pub s3_key: String,
}

#[derive(Debug, Clone, PartialEq, Eq)]
pub struct SendOptions {
    pub priority: Priority,
    pub scheduled_send_time: Option<Timestamp>,
    pub track_opens: bool,
    pub track_clicks: bool,
}

impl Default for SendOptions {
    fn default() -> (r: Self)
        ensures
            r.priority == Priority::Normal,
            r.scheduled_send_time is None,
            !r.track_opens,
            !r.track_clicks,
    {
        SendOptions {
            priority: Priority::Normal,
            scheduled_send_time: None,
            track_opens: false,
            track_clicks: false,
        }
    }
}

#[derive(Debug, Clone, Copy, PartialEq, Eq, Structural)]
pub enum Priority {
    High,
    Normal,
    Low,
}

impl Priority {
    /// The priority that `name` names: `high`, `normal` or `low`; a name that
    /// is not known counts as `normal`.
    pub open spec fn named(name: Seq<char>) -> Priority {
        if name == "high"@ {
            Priority::High
        } else if name == "low"@ {
            Priority::Low
        } else {
            Priority::Normal
        }
    }

    /// The priority that `name` names; a name that is not known counts as
    /// `normal`.
    pub fn from_name(name: &str) -> (p: Priority)
        ensures
            p == Priority::named(name@),
    {
        if str_eq(name, "high") {
            Priority::High
        } else if str_eq(name, "low") {
            Priority::Low
        } else {
            default_priority()
        }
    }

    /// The name of the priority.
    pub fn name(self) -> (n: &'static str)
        ensures
            n@ == (match self {
                Priority::High => "high"@,
                Priority::Normal => "normal"@,
                Priority::Low => "low"@,
            }),
    {
        match self {
            Priority::High => "high",
            Priority::Normal => "normal",
            Priority::Low => "low",
        }
    }
}

/// The priority of a request that names none, or one that is not known.
pub fn default_priority() -> (p: Priority)
    ensures
        p == Priority::Normal,
{
    Priority::Normal
}

} // verus!
