//! The inbound dispatcher: from a notification that raw mail was stored to
//! one envelope on the queue of each application that the mail names.

use crate::constants::{MAX_EMAIL_SIZE_BYTES, MESSAGE_ID_PREFIX, MESSAGE_VERSION, SOURCE_NAME};
use crate::email::parser::{email_of, mime_of, MailParserEmailParser};
use crate::error::MailflowError;
use crate::foreign::mime_parser::is_message;
use crate::foreign::{is_uuid_text, new_uuid, utc_now};
use crate::handlers::common::{ContextValue, HANDLER_INBOUND, HANDLER_SES_GATEWAY};
use crate::models::config::{AppRoutingView, MailflowConfig, SecurityConfig};
use crate::models::email::{
    addresses_of, Attachment, AttachmentStatus, Email, EmailAddress, Timestamp,
};
use crate::models::events::{S3EventRecord, SesEventRecord};
use crate::models::messages::{InboundEmail, InboundMessage, MessageMetadata};
use crate::routing::engine::{destination_views, routes_of, MailflowRouter};
use crate::routing::rules::{app_name_of, extract_app_name, RouteDestination};
use crate::foreign::md5_of;
use crate::services::attachments::{
    batch_message, blob_refusal, is_refusal_record, is_stored_name, is_stored_record,
    storage_key, AttachmentConfig, PreparedAttachment, S3AttachmentProcessor,
};
use crate::text::hex_lower;
use crate::services::security::{
    failed, passed, sender_verdict, verdict_objection, SecurityValidator, SenderVerdict,
};
use crate::text::{concat2, concat3, decimal, decimal_string, str_eq, views};
use crate::utils::logging::{domain_of, extract_domain};
use vstd::prelude::*;

verus! {

/// The first of `recipients` that names the application `app`, if one
/// does.
pub open spec fn first_naming(recipients: Seq<Seq<char>>, app: Seq<char>) -> Option<Seq<char>>
    decreases recipients.len(),
{
    if recipients.len() == 0 {
        None
    } else {
        match first_naming(recipients.drop_last(), app) {
            Some(address) => Some(address),
            None => if app_name_of(recipients.last()) == Some(app) {
                Some(recipients.last())
            } else {
                None
            },
        }
    }
}

/// The first naming recipient of two lists in a row is that of the first
/// list, or else that of the second.
pub proof fn lemma_first_naming_of_both(
    front: Seq<Seq<char>>,
    back: Seq<Seq<char>>,
    app: Seq<char>,
)
    ensures
        first_naming(front + back, app) == match first_naming(front, app) {
            Some(address) => Some(address),
            None => first_naming(back, app),
        },
    decreases back.len(),
{
    if back.len() == 0 {
        assert(front + back =~= front);
    } else {
        assert((front + back).drop_last() =~= front + back.drop_last());
        assert((front + back).last() == back.last());
        lemma_first_naming_of_both(front, back.drop_last(), app);
    }
}

/// The recipient that produced the destination `routing_key`: the first of
/// `to`, `cc` and `bcc` that names that application, and the first `to`
/// address for a destination that no recipient names, as the default one.
pub open spec fn routed_recipient(email: Email, routing_key: Seq<char>) -> Option<Seq<char>> {
    match first_naming(email.recipients(), routing_key) {
        Some(address) => Some(address),
        None => if email.to@.len() > 0 {
            Some(email.to@[0].address@)
        } else {
            None
        },
    }
}

/// The domain that the envelope for `routing_key` names: that of the
/// recipient that produced the destination, or `unknown` when there is no
/// such recipient or it has no domain.
pub open spec fn envelope_domain(email: Email, routing_key: Seq<char>) -> Seq<char> {
    match routed_recipient(email, routing_key) {
        Some(address) => match domain_of(address) {
            Some(d) => d,
            None => "unknown"@,
        },
        None => "unknown"@,
    }
}

/// The first address of `list` that names the application `app`.
fn first_naming_in(list: &Vec<EmailAddress>, app: &str) -> (r: Option<usize>)
    ensures
        match r {
            Some(i) => i < list@.len() && first_naming(addresses_of(list@), app@) == Some(
                list@[i as int].address@,
            ),
            None => first_naming(addresses_of(list@), app@) is None,
        },
{
    let ghost all = addresses_of(list@);
    let mut i: usize = 0;
    while i < list.len()
        invariant
            i <= list.len(),
            all == addresses_of(list@),
            first_naming(all.take(i as int), app@) is None,
        decreases list.len() - i,
    {
        proof {
            assert(all.take(i as int + 1).drop_last() =~= all.take(i as int));
            assert(all.take(i as int + 1).last() == list@[i as int].address@);
        }
        let named = extract_app_name(list[i].address.as_str());
        let found = match &named {
            Some(name) => str_eq(name.as_str(), app),
            None => false,
        };
        if found {
            proof {
                lemma_first_naming_of_both(all.take(i as int + 1), all.skip(i as int + 1), app@);
                assert(all.take(i as int + 1) + all.skip(i as int + 1) =~= all);
            }
            return Some(i);
        }
        i += 1;
    }
    assert(all.take(list.len() as int) =~= all);
    None
}

/// The domain that the envelope of `email` for `routing_key` names.
pub fn domain_for(email: &Email, routing_key: &str) -> (domain: String)
    ensures
        domain@ == envelope_domain(*email, routing_key@),
{
    proof {
        lemma_first_naming_of_both(
            addresses_of(email.to@) + addresses_of(email.cc@),
            addresses_of(email.bcc@),
            routing_key@,
        );
        lemma_first_naming_of_both(
            addresses_of(email.to@),
            addresses_of(email.cc@),
            routing_key@,
        );
    }
    let address: &str = match first_naming_in(&email.to, routing_key) {
        Some(i) => email.to[i].address.as_str(),
        None => match first_naming_in(&email.cc, routing_key) {
            Some(i) => email.cc[i].address.as_str(),
            None => match first_naming_in(&email.bcc, routing_key) {
                Some(i) => email.bcc[i].address.as_str(),
                None => if email.to.len() > 0 {
                    email.to[0].address.as_str()
                } else {
                    return "unknown".to_string();
                },
            },
        },
    };
    extract_domain(address)
}

/// Whether `message` is the envelope of `email`, with `attachments`, for
/// the application `routing_key`, made at `now` under the id `id`.
pub open spec fn envelope_for(
    message: InboundMessage,
    email: Email,
    attachments: Seq<Attachment>,
    routing_key: Seq<char>,
    id: Seq<char>,
    now: Timestamp,
) -> bool {
    &&& message.version@ == MESSAGE_VERSION@
    &&& message.message_id@ == MESSAGE_ID_PREFIX@ + "-"@ + id
    &&& message.timestamp == now
    &&& message.source@ == SOURCE_NAME@
    &&& message.email.message_id == email.message_id
    &&& message.email.from == email.from
    &&& message.email.to@ == email.to@
    &&& message.email.cc@ == email.cc@
    &&& message.email.reply_to == email.reply_to
    &&& message.email.subject == email.subject
    &&& message.email.body == email.body
    &&& message.email.attachments@ == attachments
    &&& message.email.headers.in_reply_to == email.headers.in_reply_to
    &&& message.email.headers.references@ == email.headers.references@
    &&& message.email.headers.custom@ == email.headers.custom@
    &&& message.email.received_at == email.received_at
    &&& message.metadata.routing_key@ == routing_key
    &&& message.metadata.domain@ == envelope_domain(email, routing_key)
}

/// Whether `message` is an envelope of `email`, with `attachments`, for
/// the application `routing_key`, made at some instant under some UUID.
pub open spec fn is_envelope_of(
    message: InboundMessage,
    email: Email,
    attachments: Seq<Attachment>,
    routing_key: Seq<char>,
) -> bool {
    exists|id: Seq<char>, now: Timestamp|
        #![trigger envelope_for(message, email, attachments, routing_key, id, now)]
        is_uuid_text(id) && envelope_for(message, email, attachments, routing_key, id, now)
}

/// The envelope of `email`, with `attachments`, for the application
/// `routing_key`, made at `now` under the id `id`. The verdicts are not
/// known to it: both start out as not verified.
pub fn build_inbound_message_with(
    email: &Email,
    attachments: &Vec<Attachment>,
    routing_key: &str,
    id: &str,
    now: Timestamp,
) -> (message: InboundMessage)
    ensures
        envelope_for(message, *email, attachments@, routing_key@, id@, now),
        !message.metadata.dkim_verified,
        !message.metadata.spf_verified,
        message.metadata.spam_score_millis == 0,
{
    let domain = domain_for(email, routing_key);
    InboundMessage {
        version: String::from_str(MESSAGE_VERSION),
        message_id: concat3(MESSAGE_ID_PREFIX, "-", id),
        timestamp: now,
        source: String::from_str(SOURCE_NAME),
        email: InboundEmail {
            message_id: email.message_id.clone(),
            from: email.from.copy(),
            to: EmailAddress::copy_all(&email.to),
            cc: EmailAddress::copy_all(&email.cc),
            reply_to: EmailAddress::copy_opt(&email.reply_to),
            subject: email.subject.clone(),
            body: email.body.copy(),
            attachments: Attachment::copy_all(attachments),
            headers: email.headers.copy(),
            received_at: email.received_at,
        },
        metadata: MessageMetadata {
            routing_key: String::from_str(routing_key),
            domain,
            spam_score_millis: 0,
            dkim_verified: false,
            spf_verified: false,
        },
    }
}

/// The envelope of `email` for the application `routing_key`, made now
/// under a fresh id.
pub fn build_inbound_message(email: &Email, routing_key: &str) -> (r: Result<
    InboundMessage,
    MailflowError,
>)
    ensures
        r is Ok,
        is_envelope_of(r->Ok_0, *email, email.attachments@, routing_key@),
{
    let id = new_uuid();
    let now = utc_now();
    let message = build_inbound_message_with(
        email,
        &email.attachments,
        routing_key,
        id.as_str(),
        now,
    );
    assert(envelope_for(message, *email, email.attachments@, routing_key@, id@, now));
    Ok(message)
}

/// The routing keys of the envelopes, in order.
pub open spec fn routing_keys(envelopes: Seq<InboundMessage>) -> Seq<Seq<char>> {
    envelopes.map_values(|m: InboundMessage| m.metadata.routing_key@)
}

/// The application names of the destinations, in order.
pub open spec fn app_names_of(routes: Seq<RouteDestination>) -> Seq<Seq<char>> {
    routes.map_values(|d: RouteDestination| d.app_name@)
}

/// One envelope per destination, each addressed to the application of its
/// destination.
pub fn build_envelopes(email: &Email, routes: &Vec<RouteDestination>) -> (envelopes: Vec<
    InboundMessage,
>)
    ensures
        envelopes@.len() == routes@.len(),
        routing_keys(envelopes@) == app_names_of(routes@),
        forall|i: int|
            0 <= i < routes@.len() ==> is_envelope_of(
                #[trigger] envelopes@[i],
                *email,
                email.attachments@,
                routes@[i].app_name@,
            ),
{
    let mut envelopes: Vec<InboundMessage> = Vec::new();
    let mut i: usize = 0;
    while i < routes.len()
        invariant
            i <= routes.len(),
            envelopes@.len() == i,
            forall|j: int|
                0 <= j < i ==> (#[trigger] envelopes@[j]).metadata.routing_key@
                    == routes@[j].app_name@,
            forall|j: int|
                0 <= j < i ==> is_envelope_of(
                    #[trigger] envelopes@[j],
                    *email,
                    email.attachments@,
                    routes@[j].app_name@,
                ),
        decreases routes.len() - i,
    {
        let id = new_uuid();
        let now = utc_now();
        let message = build_inbound_message_with(
            email,
            &email.attachments,
            routes[i].app_name.as_str(),
            id.as_str(),
            now,
        );
        assert(envelope_for(
            message,
            *email,
            email.attachments@,
            routes@[i as int].app_name@,
            id@,
            now,
        ));
        assert(is_envelope_of(message, *email, email.attachments@, routes@[i as int].app_name@));
        envelopes.push(message);
        i += 1;
    }
    assert(routing_keys(envelopes@) =~= app_names_of(routes@));
    envelopes
}

/// Whether no two of `names` are the same.
pub open spec fn pairwise_distinct(names: Seq<Seq<char>>) -> bool {
    forall|i: int, j: int| 0 <= i < j < names.len() ==> names[i] != names[j]
}

/// Envelopes made one per destination carry distinct routing keys whenever
/// the destinations are for distinct applications.
pub proof fn lemma_one_envelope_per_route(
    envelopes: Seq<InboundMessage>,
    routes: Seq<RouteDestination>,
)
    requires
        envelopes.len() == routes.len(),
        routing_keys(envelopes) == app_names_of(routes),
        pairwise_distinct(app_names_of(routes)),
    ensures
        envelopes.len() == routes.len(),
        forall|i: int|
            0 <= i < envelopes.len() ==> (#[trigger] envelopes[i]).metadata.routing_key@
                == routes[i].app_name@,
        forall|i: int, j: int|
            0 <= i < j < envelopes.len() ==> (#[trigger] envelopes[i]).metadata.routing_key@ != (
            #[trigger] envelopes[j]).metadata.routing_key@,
{
    assert forall|i: int| 0 <= i < envelopes.len() implies (
    #[trigger] envelopes[i]).metadata.routing_key@ == routes[i].app_name@ by {
        assert(routing_keys(envelopes)[i] == app_names_of(routes)[i]);
    }
    assert forall|i: int, j: int| 0 <= i < j < envelopes.len() implies (
    #[trigger] envelopes[i]).metadata.routing_key@ != (
    #[trigger] envelopes[j]).metadata.routing_key@ by {
        assert(routing_keys(envelopes)[i] == app_names_of(routes)[i]);
        assert(routing_keys(envelopes)[j] == app_names_of(routes)[j]);
    }
}

/// One record of an inbound event: where the raw message is, how large
/// it is if that is known, and the verdicts of the SMTP gateway if it
/// gave any.
#[derive(Debug, Clone, PartialEq, Eq)]
pub struct InboundRecord {
    pub bucket: String,
    pub key: String,
    pub size: Option<i64>,
    pub ses: Option<SesEventRecord>,
}

impl InboundRecord {
    /// The record of a storage notification.
    pub fn from_s3(record: &S3EventRecord) -> (r: Self)
        ensures
            r.bucket == record.s3.bucket.name,
            r.key == record.s3.object.key,
            r.size == record.s3.object.size,
            r.ses is None,
    {
        InboundRecord {
            bucket: record.s3.bucket.name.clone(),
            key: record.s3.object.key.clone(),
            size: record.s3.object.size,
            ses: None,
        }
    }

    /// The name under which failures of the record are reported:
    /// `ses-gateway` for an event of the SMTP gateway, `inbound` for a
    /// storage notification.
    pub fn handler(&self) -> (name: &'static str)
        ensures
            name@ == (if self.ses is Some {
                HANDLER_SES_GATEWAY@
            } else {
                HANDLER_INBOUND@
            }),
    {
        if self.ses.is_some() {
            HANDLER_SES_GATEWAY
        } else {
            HANDLER_INBOUND
        }
    }

    /// The record of an event of the SMTP gateway. The bucket is the one
    /// that the event names, else `default_bucket`; the key is the one
    /// that the event names, else the id that the gateway gave the
    /// message. An event that names no bucket, when there is no default
    /// either, is rejected with `Lambda`.
    pub fn from_ses(record: SesEventRecord, default_bucket: Option<String>) -> (r: Result<
        Self,
        MailflowError,
    >)
        ensures
            r is Ok <==> record.ses.receipt.action.bucket_name is Some || default_bucket is Some,
            r matches Ok(found) ==> {
                &&& found.bucket == (match record.ses.receipt.action.bucket_name {
                    Some(b) => b,
                    None => default_bucket->0,
                })
                &&& found.key == (match record.ses.receipt.action.object_key {
                    Some(k) => k,
                    None => record.ses.mail.message_id,
                })
                &&& found.size is None
                &&& found.ses == Some(record)
            },
            r matches Err(e) ==> e is Lambda && e.detail()
                == "RAW_EMAILS_BUCKET not set and S3 bucket not found in SES action"@,
    {
        let bucket = match &record.ses.receipt.action.bucket_name {
            Some(b) => b.clone(),
            None => match default_bucket {
                Some(b) => b,
                None => {
                    return Err(
                        MailflowError::Lambda(
                            "RAW_EMAILS_BUCKET not set and S3 bucket not found in SES action".to_string(),
                        ),
                    );
                },
            },
        };
        let key = match &record.ses.receipt.action.object_key {
            Some(k) => k.clone(),
            None => record.ses.mail.message_id.clone(),
        };
        Ok(InboundRecord { bucket, key, size: None, ses: Some(record) })
    }
}

/// What the inbound dispatcher needs of the configuration.
#[derive(Debug, Clone, PartialEq, Eq)]
pub struct InboundContext {
    security: SecurityValidator,
    attachments: S3AttachmentProcessor,
    router: MailflowRouter,
    hourly_limit: u32,
}

impl InboundContext {
    /// The security policy in force.
    pub closed spec fn policy(&self) -> SecurityConfig {
        self.security.policy()
    }

    /// The attachment settings in force.
    pub closed spec fn settings(&self) -> AttachmentConfig {
        self.attachments.settings()
    }

    /// The routing table in force.
    pub closed spec fn table(&self) -> Seq<(Seq<char>, AppRoutingView)> {
        self.router.table()
    }

    /// The queue for mail that names no known application.
    pub closed spec fn fallback(&self) -> Seq<char> {
        self.router.fallback()
    }

    /// The number of messages that a sender may send per hour.
    pub closed spec fn hourly_limit(&self) -> u32 {
        self.hourly_limit
    }

    /// The context for a configuration and the attachment settings of the
    /// process.
    pub fn new(config: MailflowConfig, security: SecurityConfig, attachments: AttachmentConfig) -> (r:
        Self)
        ensures
            r.policy() == security,
            r.settings() == attachments,
            r.table() == config.routing@,
            r.fallback() == config.default_queue@,
            r.hourly_limit() == security.max_emails_per_sender_per_hour,
    {
        let hourly_limit = security.max_emails_per_sender_per_hour;
        InboundContext {
            security: SecurityValidator::new(security),
            attachments: S3AttachmentProcessor::new(attachments),
            router: MailflowRouter::new(config),
            hourly_limit,
        }
    }
}

/// How far the dispatcher is with a record.
#[derive(Debug, Clone, Copy, PartialEq, Eq, Structural)]
pub enum InboundPhase {
    /// Nothing was done yet.
    Start,
    /// Asked for the raw message.
    Downloading,
    /// Asked whether the sender is within its limit.
    CheckingRate,
    /// Asked to store an attachment.
    Storing,
    /// Asked whether the queue of a destination exists.
    CheckingQueue,
    /// Asked to publish the envelope of a destination.
    Publishing,
    /// Asked to report a failure to the dead-letter queue.
    Reporting,
    /// Done with the record.
    Done,
}

/// What became of a record.
#[derive(Debug, Clone, Copy, PartialEq, Eq, Structural)]
pub enum InboundOutcome {
    /// Not decided yet.
    Pending,
    /// Every destination got its envelope.
    Processed,
    /// The record failed and was reported.
    Failed,
}

/// What the caller reports to the dispatcher.
#[derive(Debug, PartialEq, Eq)]
pub enum InboundEvent {
    /// The record is to be processed.
    Begin,
    Downloaded(Result<Vec<u8>, MailflowError>),
    RateChecked(Result<(), MailflowError>),
    /// The attachment was stored and can be fetched through this URL, or
    /// storing or presigning failed.
    Stored(Result<String, MailflowError>),
    /// Whether the queue exists.
    QueueChecked(Result<bool, MailflowError>),
    /// The queue took the envelope and gave it an id, or did not.
    Published(Result<String, MailflowError>),
    /// The failure was reported, or reporting failed and was logged.
    Reported,
}

/// What the dispatcher asks the caller to do.
#[derive(Debug, Clone, PartialEq, Eq)]
pub enum InboundAction {
    Download { bucket: String, key: String },
    CheckRateLimit { sender: String, limit: u32, window_seconds: u64 },
    /// Store the bytes of attachment number `index` under `key` and
    /// presign them.
    StoreAttachment { bucket: String, key: String, index: usize },
    CheckQueue { queue_url: String },
    Publish { queue_url: String, envelope: InboundMessage },
    ReportFailure { error: MailflowError, context: Vec<(String, ContextValue)> },
    Finish { outcome: InboundOutcome },
}

/// The dispatcher of one inbound record.
#[derive(Debug, Clone, PartialEq, Eq)]
pub struct InboundDispatcher {
    phase: InboundPhase,
    outcome: InboundOutcome,
    record: InboundRecord,
    email: Option<Email>,
    attachments: Vec<Attachment>,
    names: Vec<String>,
    pending: Option<PreparedAttachment>,
    routes: Vec<RouteDestination>,
    route_index: usize,
}

/// The state of a dispatcher, as far as its decisions depend on it.
pub ghost struct InboundView {
    pub phase: InboundPhase,
    pub outcome: InboundOutcome,
    pub record: InboundRecord,
    pub email: Option<Email>,
    pub attachments: Seq<Attachment>,
    pub names: Seq<String>,
    pub pending: Option<PreparedAttachment>,
    pub routes: Seq<RouteDestination>,
    pub route_index: int,
}

/// The spam score, in thousandths, of a message that the gateway marked as
/// spam.
pub const SPAM_SCORE_FLAGGED: u32 = 1000;

/// The length of the window of the rate limit: one hour, in seconds.
pub const RATE_WINDOW_SECONDS: u64 = 3600;

/// Whether a transition is the start of the report of a failure: the
/// record counts as failed, and the caller is asked to report an error of
/// the kind `kind` with the place of the raw message as context.
pub open spec fn reports(
    before: InboundView,
    after: InboundView,
    action: InboundAction,
    kind: spec_fn(MailflowError) -> bool,
) -> bool {
    &&& after.phase == InboundPhase::Reporting
    &&& after.outcome == InboundOutcome::Failed
    &&& action matches InboundAction::ReportFailure { error, context }
    &&& kind(error)
    &&& context@.len() == 2
    &&& context@[0].0@ == "bucket"@
    &&& context@[0].1 matches ContextValue::Text(bucket)
    &&& bucket@ == before.record.bucket@
    &&& context@[1].0@ == "key"@
    &&& context@[1].1 matches ContextValue::Text(key)
    &&& key@ == before.record.key@
}

/// The message for a raw message that is announced as too large.
pub open spec fn announced_size_message(size: i64) -> Seq<char> {
    "Email size "@ + decimal(size as nat) + " bytes exceeds maximum "@ + decimal(
        MAX_EMAIL_SIZE_BYTES as nat,
    ) + " bytes (40 MB)"@
}

/// The message for a raw message that is too large.
pub open spec fn actual_size_message(size: nat) -> Seq<char> {
    "Email size "@ + decimal(size) + " exceeds maximum "@ + decimal(MAX_EMAIL_SIZE_BYTES as nat)
}

/// The message for a sender that the policy does not let in.
pub open spec fn sender_message(verdict: SenderVerdict, sender: Seq<char>) -> Seq<char> {
    match verdict {
        SenderVerdict::Allowed => Seq::empty(),
        SenderVerdict::Malformed => "Invalid email address format: "@
            + crate::utils::logging::redaction_of(sender),
        SenderVerdict::NotListed(domain) => "Sender domain '"@ + domain
            + "' is not in the allowlist"@,
    }
}

/// The message for a destination whose queue does not exist.
pub open spec fn missing_queue_message(route: RouteDestination) -> Seq<char> {
    "Target queue for app '"@ + route.app_name@ + "' does not exist: "@ + route.queue_url@
}

/// Whether the caller is asked whether the queue of destination number
/// `index` exists.
pub open spec fn checks_queue(after: InboundView, action: InboundAction, index: int) -> bool {
    &&& after.phase == InboundPhase::CheckingQueue
    &&& after.route_index == index
    &&& 0 <= index < after.routes.len()
    &&& action matches InboundAction::CheckQueue { queue_url }
    &&& queue_url@ == after.routes[index].queue_url@
}

/// Whether the caller is asked to publish the envelope of destination
/// number `index`: the envelope of the message with its attachments,
/// addressed to the application of the destination, with the verdicts of
/// the gateway.
pub open spec fn publishes(
    before: InboundView,
    after: InboundView,
    action: InboundAction,
    email: Email,
    index: int,
) -> bool {
    &&& after.phase == InboundPhase::Publishing
    &&& after.outcome == before.outcome
    &&& after.email == before.email
    &&& after.attachments == before.attachments
    &&& after.routes == before.routes
    &&& after.route_index == index
    &&& 0 <= index < before.routes.len()
    &&& action matches InboundAction::Publish { queue_url, envelope }
    &&& queue_url@ == before.routes[index].queue_url@
    &&& is_envelope_of(envelope, email, before.attachments, before.routes[index].app_name@)
    &&& envelope.metadata.spf_verified == (before.record.ses is Some && passed(
        before.record.ses->0.ses.receipt.spf_verdict,
    ))
    &&& envelope.metadata.dkim_verified == (before.record.ses is Some && passed(
        before.record.ses->0.ses.receipt.dkim_verdict,
    ))
    &&& envelope.metadata.spam_score_millis == (if before.record.ses is Some && failed(
        before.record.ses->0.ses.receipt.spam_verdict,
    ) {
        SPAM_SCORE_FLAGGED
    } else {
        0
    })
}

/// Whether the transition goes on with the attachments after `done` of
/// them have their record. Every blob that is refused gets the record of
/// its refusal, in order. The caller is asked to store the first blob that
/// is not refused, under a key made of the sanitized message id and a
/// name that no earlier blob of the batch is stored under; when no such
/// blob is left, the destinations are resolved and the caller is asked
/// about the queue of the first.
pub open spec fn stores_or_routes(
    context: InboundContext,
    before: InboundView,
    after: InboundView,
    action: InboundAction,
    email: Email,
    done: Seq<Attachment>,
) -> bool {
    &&& after.email == Some(email)
    &&& after.outcome == before.outcome
    &&& done.len() <= after.attachments.len() <= email.attachments_data@.len()
    &&& after.attachments.take(done.len() as int) == done
    &&& forall|j: int|
        done.len() <= j < after.attachments.len() ==> (#[trigger] after.attachments[j]).status
            == AttachmentStatus::Failed
    &&& forall|j: int|
        done.len() <= j < after.attachments.len() ==> (
        #[trigger] after.attachments[j]).well_formed()
    &&& forall|j: int|
        done.len() <= j < after.attachments.len() ==> is_refusal_record(
            context.settings(),
            email.attachments_data@[j],
            #[trigger] after.attachments[j],
        )
    &&& {
        ||| {
            &&& after.phase == InboundPhase::Storing
            &&& action matches InboundAction::StoreAttachment { bucket, key, index }
            &&& index == after.attachments.len()
            &&& index < email.attachments_data@.len()
            &&& bucket@ == context.settings().bucket@
            &&& after.pending matches Some(prepared)
            &&& key@ == prepared.s3_key@
            &&& key@.len() > 0
            &&& key@ == storage_key(email.message_id@, prepared.sanitized_filename@)
            &&& is_stored_name(
                prepared.sanitized_filename@,
                prepared.base_name@,
                index as nat,
                views(before.names),
            )
            &&& !views(before.names).contains(prepared.sanitized_filename@)
            &&& views(after.names) == views(before.names).push(prepared.sanitized_filename@)
            &&& prepared.checksum_md5@ == hex_lower(
                md5_of(email.attachments_data@[index as int].data@),
            )
            &&& blob_refusal(context.settings(), email.attachments_data@[index as int]) is None
        }
        ||| {
            &&& after.attachments.len() == email.attachments_data@.len()
            &&& destination_views(after.routes) == routes_of(
                context.table(),
                context.fallback(),
                email.recipients(),
            )
            &&& checks_queue(after, action, 0)
        }
    }
}

/// The transitions of the dispatcher: what it asks for, and where it
/// stands after, for each event in each phase.
pub open spec fn inbound_transition(
    context: InboundContext,
    before: InboundView,
    event: InboundEvent,
    after: InboundView,
    action: InboundAction,
) -> bool {
    &&& after.record == before.record
    &&& match before.phase {
        InboundPhase::Start => match event {
            InboundEvent::Begin => if before.record.size is Some && before.record.size->0
                > MAX_EMAIL_SIZE_BYTES {
                reports(
                    before,
                    after,
                    action,
                    |e: MailflowError|
                        e is Validation && e.detail() == announced_size_message(
                            before.record.size->0,
                        ),
                )
            } else if before.record.ses is Some && verdict_objection(
                context.policy(),
                before.record.ses->0,
            ) is Some {
                reports(
                    before,
                    after,
                    action,
                    |e: MailflowError|
                        e is Validation && Some(e.detail()) == verdict_objection(
                            context.policy(),
                            before.record.ses->0,
                        ),
                )
            } else {
                &&& after.phase == InboundPhase::Downloading
                &&& after.outcome == before.outcome
                &&& action matches InboundAction::Download { bucket, key }
                &&& bucket@ == before.record.bucket@
                &&& key@ == before.record.key@
            },
            _ => reports(before, after, action, |e: MailflowError| e is Lambda),
        },
        InboundPhase::Downloading => match event {
            InboundEvent::Downloaded(Ok(raw)) => if raw@.len() > MAX_EMAIL_SIZE_BYTES {
                reports(
                    before,
                    after,
                    action,
                    |e: MailflowError|
                        e is Validation && e.detail() == actual_size_message(raw@.len()),
                )
            } else if !is_message(raw@) {
                &&& after.email is None
                &&& reports(
                    before,
                    after,
                    action,
                    |e: MailflowError| e is EmailParsing && e.detail() == "Failed to parse email"@,
                )
            } else {
                &&& after.email matches Some(email)
                &&& exists|now: Timestamp| email_of(email, mime_of(raw@), now)
                &&& after.attachments.len() == 0
                &&& after.names.len() == 0
                &&& match sender_verdict(
                    views(context.policy().allowed_sender_domains@),
                    email.from.address@,
                ) {
                    SenderVerdict::Allowed => {
                        &&& after.phase == InboundPhase::CheckingRate
                        &&& after.outcome == before.outcome
                        &&& action matches InboundAction::CheckRateLimit {
                            sender,
                            limit,
                            window_seconds,
                        }
                        &&& sender@ == email.from.address@
                        &&& limit == context.hourly_limit()
                        &&& window_seconds == RATE_WINDOW_SECONDS
                    },
                    verdict => reports(
                        before,
                        after,
                        action,
                        |e: MailflowError|
                            e is Validation && e.detail() == sender_message(
                                verdict,
                                email.from.address@,
                            ),
                    ),
                }
            },
            InboundEvent::Downloaded(Err(error)) => reports(
                before,
                after,
                action,
                |e: MailflowError| e == error,
            ),
            _ => reports(before, after, action, |e: MailflowError| e is Lambda),
        },
        InboundPhase::CheckingRate => match (event, before.email) {
            (InboundEvent::RateChecked(Ok(())), Some(email)) => if email.attachments_data@.len()
                > crate::constants::MAX_ATTACHMENTS_PER_EMAIL {
                reports(
                    before,
                    after,
                    action,
                    |e: MailflowError|
                        e is Validation && e.detail() == batch_message(
                            email.attachments_data@.len(),
                        ),
                )
            } else {
                stores_or_routes(context, before, after, action, email, before.attachments)
            },
            (InboundEvent::RateChecked(Err(error)), _) => reports(
                before,
                after,
                action,
                |e: MailflowError| e == error,
            ),
            _ => reports(before, after, action, |e: MailflowError| e is Lambda),
        },
        InboundPhase::Storing => match (event, before.email, before.pending) {
            (InboundEvent::Stored(stored), Some(email), Some(prepared)) => exists|
                record: Attachment,
                now: Timestamp,
            |
                {
                    &&& #[trigger] is_stored_record(
                        context.settings(),
                        email.attachments_data@[before.attachments.len() as int],
                        prepared,
                        stored,
                        now,
                        record,
                    )
                    &&& stores_or_routes(
                        context,
                        before,
                        after,
                        action,
                        email,
                        before.attachments.push(record),
                    )
                },
            _ => reports(before, after, action, |e: MailflowError| e is Lambda),
        },
        InboundPhase::CheckingQueue => match (event, before.email) {
            (InboundEvent::QueueChecked(Ok(true)), Some(email)) => if before.route_index + 1
                < before.routes.len() {
                &&& after.outcome == before.outcome
                &&& after.email == before.email
                &&& after.attachments == before.attachments
                &&& after.routes == before.routes
                &&& checks_queue(after, action, before.route_index + 1)
            } else {
                publishes(before, after, action, email, 0)
            },
            (InboundEvent::QueueChecked(Ok(false)), Some(email)) => reports(
                before,
                after,
                action,
                |e: MailflowError|
                    e is Routing && e.detail() == missing_queue_message(
                        before.routes[before.route_index],
                    ),
            ),
            (InboundEvent::QueueChecked(Err(error)), _) => reports(
                before,
                after,
                action,
                |e: MailflowError| e == error,
            ),
            _ => reports(before, after, action, |e: MailflowError| e is Lambda),
        },
        InboundPhase::Publishing => match (event, before.email) {
            (InboundEvent::Published(Ok(_)), Some(email)) => if before.route_index + 1
                < before.routes.len() {
                publishes(before, after, action, email, before.route_index + 1)
            } else {
                &&& after.phase == InboundPhase::Done
                &&& after.outcome == InboundOutcome::Processed
                &&& action == (InboundAction::Finish { outcome: InboundOutcome::Processed })
            },
            (InboundEvent::Published(Err(error)), _) => reports(
                before,
                after,
                action,
                |e: MailflowError| e == error,
            ),
            _ => reports(before, after, action, |e: MailflowError| e is Lambda),
        },
        InboundPhase::Reporting => {
            &&& after.phase == InboundPhase::Done
            &&& after.outcome == before.outcome
            &&& action == (InboundAction::Finish { outcome: before.outcome })
        },
        InboundPhase::Done => {
            &&& after.phase == InboundPhase::Done
            &&& after.outcome == before.outcome
            &&& action == (InboundAction::Finish { outcome: before.outcome })
        },
    }
}

/// A record counts as processed only once the envelope of its last
/// destination was published.
pub proof fn lemma_processed_after_last_route(
    context: InboundContext,
    before: InboundView,
    event: InboundEvent,
    after: InboundView,
    action: InboundAction,
)
    requires
        inbound_transition(context, before, event, after, action),
        before.outcome == InboundOutcome::Pending,
        after.outcome == InboundOutcome::Processed,
    ensures
        before.phase == InboundPhase::Publishing,
        event matches InboundEvent::Published(Ok(_)),
        before.route_index + 1 >= before.routes.len(),
{
}

/// The envelope that is published for a destination is addressed to the
/// application of that destination and goes to its queue; and the first
/// envelope is published only once the queue of the last destination was
/// found to exist.
pub proof fn lemma_published_to_its_route(
    context: InboundContext,
    before: InboundView,
    event: InboundEvent,
    after: InboundView,
    action: InboundAction,
)
    requires
        inbound_transition(context, before, event, after, action),
        action is Publish,
    ensures
        0 <= after.route_index < before.routes.len(),
        action->Publish_envelope.metadata.routing_key@
            == before.routes[after.route_index].app_name@,
        action->Publish_queue_url@ == before.routes[after.route_index].queue_url@,
        before.phase == InboundPhase::CheckingQueue ==> after.route_index == 0
            && before.route_index + 1 >= before.routes.len() && event
            matches InboundEvent::QueueChecked(Ok(true)),
        before.phase == InboundPhase::Publishing ==> after.route_index == before.route_index + 1
            && event matches InboundEvent::Published(Ok(_)),
        before.phase == InboundPhase::CheckingQueue || before.phase == InboundPhase::Publishing,
{
}

/// Each blob of a batch is stored under a name and a key of its own: the
/// caller is asked to store a blob under a name that no earlier blob of
/// the batch is stored under, and the key is made of the sanitized message
/// id and that name.
pub proof fn lemma_stored_under_its_own_name(
    context: InboundContext,
    before: InboundView,
    event: InboundEvent,
    after: InboundView,
    action: InboundAction,
)
    requires
        inbound_transition(context, before, event, after, action),
        action is StoreAttachment,
        pairwise_distinct(views(before.names)),
    ensures
        pairwise_distinct(views(after.names)),
        after.pending is Some,
        after.email is Some,
        views(after.names) == views(before.names).push(after.pending->0.sanitized_filename@),
        action->StoreAttachment_key@ == storage_key(
            after.email->0.message_id@,
            after.pending->0.sanitized_filename@,
        ),
{
    let earlier = views(before.names);
    let name = after.pending->0.sanitized_filename@;
    assert(!earlier.contains(name));
    assert forall|i: int, j: int| 0 <= i < j < earlier.push(name).len() implies earlier.push(
        name,
    )[i] != earlier.push(name)[j] by {
        if j == earlier.len() {
            assert(earlier[i] != name);
        }
    }
}

impl View for InboundDispatcher {
    type V = InboundView;

    closed spec fn view(&self) -> InboundView {
        InboundView {
            phase: self.phase,
            outcome: self.outcome,
            record: self.record,
            email: self.email,
            attachments: self.attachments@,
            names: self.names@,
            pending: self.pending,
            routes: self.routes@,
            route_index: self.route_index as int,
        }
    }
}

impl InboundDispatcher {
    /// A dispatcher for `record`, at its start.
    pub fn new(record: InboundRecord) -> (r: Self)
        ensures
            r.well_formed(),
            r@.phase == InboundPhase::Start,
            r@.outcome == InboundOutcome::Pending,
            r@.record == record,
    {
        InboundDispatcher {
            phase: InboundPhase::Start,
            outcome: InboundOutcome::Pending,
            record,
            email: None,
            attachments: Vec::new(),
            names: Vec::new(),
            pending: None,
            routes: Vec::new(),
            route_index: 0,
        }
    }

    /// What holds of every dispatcher: from the check of the rate limit on
    /// it has a message; while it stores, it has decided on the blob being
    /// stored; while it asks about queues and publishes, it stands at one
    /// of its destinations.
    pub closed spec fn well_formed(&self) -> bool {
        match self.phase {
            InboundPhase::CheckingRate => self.email is Some && self.attachments@.len() == 0,
            InboundPhase::Storing => self.email is Some && self.pending is Some
                && self.attachments@.len() < self.email->0.attachments_data@.len()
                && self.pending->0.s3_key@.len() > 0,
            InboundPhase::CheckingQueue | InboundPhase::Publishing => self.email is Some
                && self.route_index < self.routes@.len(),
            _ => true,
        }
    }

    /// Whether the dispatcher is as every dispatcher is.
    pub fn is_well_formed(&self) -> (b: bool)
        ensures
            b == self.well_formed(),
    {
        match self.phase {
            InboundPhase::CheckingRate => self.email.is_some() && self.attachments.len() == 0,
            InboundPhase::Storing => match (&self.email, &self.pending) {
                (Some(email), Some(pending)) => self.attachments.len()
                    < email.attachments_data.len() && !pending.s3_key.as_str().is_empty(),
                _ => false,
            },
            InboundPhase::CheckingQueue | InboundPhase::Publishing => self.email.is_some()
                && self.route_index < self.routes.len(),
            _ => true,
        }
    }

    /// How far the dispatcher is.
    pub fn phase(&self) -> (p: InboundPhase)
        ensures
            p == self@.phase,
    {
        self.phase
    }

    /// What became of the record, as far as it is decided.
    pub fn outcome(&self) -> (o: InboundOutcome)
        ensures
            o == self@.outcome,
    {
        self.outcome
    }

    /// The bytes of attachment number `index` of the message, if there is
    /// one.
    pub fn attachment_bytes(&self, index: usize) -> (r: Option<&Vec<u8>>)
        ensures
            match r {
                Some(bytes) => self@.email is Some && index < self@.email->0.attachments_data@.len()
                    && bytes@ == self@.email->0.attachments_data@[index as int].data@,
                None => self@.email is None || index >= self@.email->0.attachments_data@.len(),
            },
    {
        match &self.email {
            Some(email) => {
                if index < email.attachments_data.len() {
                    Some(&email.attachments_data[index].data)
                } else {
                    None
                }
            },
            None => None,
        }
    }

    fn report(&mut self, error: MailflowError) -> (action: InboundAction)
        ensures
            final(self)@.record == old(self)@.record,
            final(self)@.email == old(self)@.email,
            final(self)@.attachments == old(self)@.attachments,
            final(self)@.names == old(self)@.names,
            reports(old(self)@, final(self)@, action, |e: MailflowError| e == error),
    {
        self.phase = InboundPhase::Reporting;
        self.outcome = InboundOutcome::Failed;
        let mut context: Vec<(String, ContextValue)> = Vec::new();
        context.push((String::from_str("bucket"), ContextValue::Text(self.record.bucket.clone())));
        context.push((String::from_str("key"), ContextValue::Text(self.record.key.clone())));
        InboundAction::ReportFailure { error, context }
    }

    fn unexpected(&mut self) -> (action: InboundAction)
        ensures
            final(self)@.record == old(self)@.record,
            reports(old(self)@, final(self)@, action, |e: MailflowError| e is Lambda),
    {
        self.report(MailflowError::Lambda("Unexpected event for the state of the record".to_string()))
    }

    fn check_queue(&mut self, index: usize) -> (action: InboundAction)
        requires
            index < old(self)@.routes.len(),
        ensures
            final(self)@.record == old(self)@.record,
            final(self)@.outcome == old(self)@.outcome,
            final(self)@.email == old(self)@.email,
            final(self)@.attachments == old(self)@.attachments,
            final(self)@.routes == old(self)@.routes,
            checks_queue(final(self)@, action, index as int),
    {
        self.phase = InboundPhase::CheckingQueue;
        self.route_index = index;
        InboundAction::CheckQueue { queue_url: self.routes[index].queue_url.clone() }
    }

    fn store_or_route(&mut self, context: &InboundContext, now: Timestamp) -> (action:
        InboundAction)
        requires
            old(self)@.email is Some,
            old(self)@.attachments.len() <= old(self)@.email->0.attachments_data@.len(),
        ensures
            final(self)@.record == old(self)@.record,
            final(self).well_formed(),
            stores_or_routes(
                *context,
                old(self)@,
                final(self)@,
                action,
                old(self)@.email->0,
                old(self)@.attachments,
            ),
    {
        let ghost done = self.attachments@;
        let ghost before = self@;
        let ghost the_email = self.email->0;
        let count = match &self.email {
            Some(email) => email.attachments_data.len(),
            None => 0,
        };
        while self.attachments.len() < count
            invariant
                before == old(self)@,
                done == before.attachments,
                before.email == Some(the_email),
                self.email == Some(the_email),
                count == the_email.attachments_data@.len(),
                self.record == before.record,
                self.outcome == before.outcome,
                done.len() <= self.attachments@.len() <= count,
                self.attachments@.take(done.len() as int) == done,
                forall|j: int|
                    done.len() <= j < self.attachments@.len() ==> (
                    #[trigger] self.attachments@[j]).status == AttachmentStatus::Failed,
                forall|j: int|
                    done.len() <= j < self.attachments@.len() ==> (
                    #[trigger] self.attachments@[j]).well_formed(),
                forall|j: int|
                    done.len() <= j < self.attachments@.len() ==> is_refusal_record(
                        context.settings(),
                        the_email.attachments_data@[j],
                        #[trigger] self.attachments@[j],
                    ),
                self.names@ == before.names,
            decreases count - self.attachments@.len(),
        {
            let index = self.attachments.len();
            let decided = match &self.email {
                Some(email) => {
                    match context.attachments.prepare(
                        email.message_id.as_str(),
                        &email.attachments_data[index],
                        index,
                        &self.names,
                    ) {
                        Ok(prepared) => Ok(prepared),
                        Err(e) => Err(context.attachments.failed(&email.attachments_data[index], &e, now)),
                    }
                },
                None => {
                    assert(false);
                    Err(Self::placeholder(now))
                },
            };
            match decided {
                Ok(prepared) => {
                    self.names.push(prepared.sanitized_filename.clone());
                    assert(views(self.names@) =~= views(before.names).push(
                        prepared.sanitized_filename@,
                    ));
                    let key = prepared.s3_key.clone();
                    self.pending = Some(prepared);
                    self.phase = InboundPhase::Storing;
                    return InboundAction::StoreAttachment {
                        bucket: String::from_str(context.attachments.bucket()),
                        key,
                        index,
                    };
                },
                Err(record) => {
                    let ghost sofar = self.attachments@;
                    self.attachments.push(record);
                    proof {
                        assert(self.attachments@.take(done.len() as int) =~= sofar.take(
                            done.len() as int,
                        ));
                    }
                },
            }
        }
        let routes = match &self.email {
            Some(email) => match context.router.route(email) {
                Ok(routes) => routes,
                Err(_) => Vec::new(),
            },
            None => Vec::new(),
        };
        self.routes = routes;
        self.check_queue(0)
    }

    fn placeholder(now: Timestamp) -> (r: Attachment)
        ensures
            r.well_formed(),
            r.status == AttachmentStatus::Failed,
    {
        proof {
            reveal_strlit("Attachment is missing");
        }
        Attachment {
            filename: String::new(),
            sanitized_filename: String::new(),
            content_type: String::new(),
            size: 0,
            s3_bucket: String::new(),
            s3_key: String::new(),
            presigned_url: String::new(),
            presigned_url_expiration: now,
            checksum_md5: None,
            status: AttachmentStatus::Failed,
            error: Some("Attachment is missing".to_string()),
        }
    }

    fn verified(verdict: &Option<crate::models::events::Verdict>) -> (b: bool)
        ensures
            b == passed(*verdict),
    {
        match verdict {
            Some(v) => crate::text::str_eq(v.status.as_str(), "PASS"),
            None => false,
        }
    }

    fn begin(&mut self, context: &InboundContext) -> (action: InboundAction)
        requires
            old(self)@.phase == InboundPhase::Start,
        ensures
            final(self).well_formed(),
            inbound_transition(*context, old(self)@, InboundEvent::Begin, final(self)@, action),
    {
        match self.record.size {
            Some(size) => {
                if size > MAX_EMAIL_SIZE_BYTES as i64 {
                    let mut m = concat2("Email size ", decimal_string(size as u64).as_str());
                    m.append(" bytes exceeds maximum ");
                    m.append(decimal_string(MAX_EMAIL_SIZE_BYTES as u64).as_str());
                    m.append(" bytes (40 MB)");
                    return self.report(MailflowError::Validation(m));
                }
            },
            None => {},
        }
        let objection = match &self.record.ses {
            Some(ses) => context.security.validate_ses_verdicts(ses),
            None => Ok(()),
        };
        match objection {
            Ok(()) => {
                self.phase = InboundPhase::Downloading;
                InboundAction::Download {
                    bucket: self.record.bucket.clone(),
                    key: self.record.key.clone(),
                }
            },
            Err(e) => self.report(e),
        }
    }

    fn downloaded(&mut self, context: &InboundContext, raw: Vec<u8>) -> (action: InboundAction)
        requires
            old(self)@.phase == InboundPhase::Downloading,
        ensures
            final(self).well_formed(),
            inbound_transition(
                *context,
                old(self)@,
                InboundEvent::Downloaded(Ok(raw)),
                final(self)@,
                action,
            ),
    {
        match context.security.validate_email_size(raw.len()) {
            Ok(()) => {},
            Err(e) => {
                return self.report(e);
            },
        }
        let now = utc_now();
        let email = match MailParserEmailParser::new().parse_at(raw.as_slice(), now) {
            Ok(email) => email,
            Err(e) => {
                self.email = None;
                return self.report(e);
            },
        };
        assert(email_of(email, mime_of(raw@), now));
        let allowed = context.security.validate_sender_domain(email.from.address.as_str());
        let sender = email.from.address.clone();
        self.email = Some(email);
        self.attachments = Vec::new();
        self.names = Vec::new();
        match allowed {
            Ok(()) => {
                self.phase = InboundPhase::CheckingRate;
                InboundAction::CheckRateLimit {
                    sender,
                    limit: context.hourly_limit,
                    window_seconds: RATE_WINDOW_SECONDS,
                }
            },
            Err(e) => self.report(e),
        }
    }

    fn stored(&mut self, context: &InboundContext, stored: Result<String, MailflowError>) -> (action:
        InboundAction)
        requires
            old(self).well_formed(),
            old(self)@.phase == InboundPhase::Storing,
        ensures
            final(self).well_formed(),
            inbound_transition(
                *context,
                old(self)@,
                InboundEvent::Stored(stored),
                final(self)@,
                action,
            ),
    {
        let now = utc_now();
        let index = self.attachments.len();
        let ghost before = self@;
        let prepared = match self.pending.take() {
            Some(prepared) => prepared,
            None => {
                assert(false);
                return self.unexpected();
            },
        };
        let record = match &self.email {
            Some(email) => match stored {
                Ok(url) => context.attachments.complete(
                    &email.attachments_data[index],
                    prepared,
                    url,
                    now,
                ),
                Err(e) => context.attachments.failed(&email.attachments_data[index], &e, now),
            },
            None => {
                assert(false);
                Self::placeholder(now)
            },
        };
        self.attachments.push(record);
        let ghost middle = self@;
        let action = self.store_or_route(context, now);
        proof {
            assert(is_stored_record(
                context.settings(),
                before.email->0.attachments_data@[before.attachments.len() as int],
                before.pending->0,
                stored,
                now,
                record,
            ));
            assert(stores_or_routes(
                *context,
                before,
                self@,
                action,
                before.email->0,
                before.attachments.push(record),
            ));
        }
        action
    }

    fn publish(&mut self, context: &InboundContext, index: usize) -> (action: InboundAction)
        requires
            old(self)@.email is Some,
            index < old(self)@.routes.len(),
        ensures
            final(self).well_formed(),
            final(self)@.record == old(self)@.record,
            publishes(old(self)@, final(self)@, action, old(self)@.email->0, index as int),
    {
        let id = new_uuid();
        let now = utc_now();
        let (spf, dkim, spam) = match &self.record.ses {
            Some(ses) => (
                Self::verified(&ses.ses.receipt.spf_verdict),
                Self::verified(&ses.ses.receipt.dkim_verdict),
                context.security.is_marked_spam(ses),
            ),
            None => (false, false, false),
        };
        let route = &self.routes[index];
        let built = match &self.email {
            Some(email) => {
                let mut envelope = build_inbound_message_with(
                    email,
                    &self.attachments,
                    route.app_name.as_str(),
                    id.as_str(),
                    now,
                );
                envelope.metadata.spf_verified = spf;
                envelope.metadata.dkim_verified = dkim;
                envelope.metadata.spam_score_millis = if spam {
                    SPAM_SCORE_FLAGGED
                } else {
                    0
                };
                proof {
                    assert(envelope_for(
                        envelope,
                        *email,
                        self.attachments@,
                        route.app_name@,
                        id@,
                        now,
                    ));
                }
                Some((route.queue_url.clone(), envelope))
            },
            None => None,
        };
        match built {
            Some((queue_url, envelope)) => {
                self.phase = InboundPhase::Publishing;
                self.route_index = index;
                InboundAction::Publish { queue_url, envelope }
            },
            None => {
                assert(false);
                self.unexpected()
            },
        }
    }

    /// Takes an event and answers with what to do next, by the rules of
    /// [`inbound_transition`].
    pub fn step(&mut self, context: &InboundContext, event: InboundEvent) -> (action: InboundAction)
        requires
            old(self).well_formed(),
        ensures
            final(self).well_formed(),
            inbound_transition(*context, old(self)@, event, final(self)@, action),
    {
        match self.phase {
            InboundPhase::Start => match event {
                InboundEvent::Begin => self.begin(context),
                _ => self.unexpected(),
            },
            InboundPhase::Downloading => match event {
                InboundEvent::Downloaded(Ok(raw)) => self.downloaded(context, raw),
                InboundEvent::Downloaded(Err(error)) => self.report(error),
                _ => self.unexpected(),
            },
            InboundPhase::CheckingRate => match event {
                InboundEvent::RateChecked(Ok(())) => {
                    let count = match &self.email {
                        Some(email) => email.attachments_data.len(),
                        None => 0,
                    };
                    match S3AttachmentProcessor::check_batch(count) {
                        Ok(()) => {
                            let now = utc_now();
                            self.store_or_route(context, now)
                        },
                        Err(e) => self.report(e),
                    }
                },
                InboundEvent::RateChecked(Err(error)) => self.report(error),
                _ => self.unexpected(),
            },
            InboundPhase::Storing => match event {
                InboundEvent::Stored(stored) => self.stored(context, stored),
                _ => self.unexpected(),
            },
            InboundPhase::CheckingQueue => match event {
                InboundEvent::QueueChecked(Ok(true)) => {
                    if self.route_index < self.routes.len() - 1 {
                        let next = self.route_index + 1;
                        self.check_queue(next)
                    } else {
                        self.publish(context, 0)
                    }
                },
                InboundEvent::QueueChecked(Ok(false)) => {
                    let route = &self.routes[self.route_index];
                    let mut m = concat3(
                        "Target queue for app '",
                        route.app_name.as_str(),
                        "' does not exist: ",
                    );
                    m.append(route.queue_url.as_str());
                    self.report(MailflowError::Routing(m))
                },
                InboundEvent::QueueChecked(Err(error)) => self.report(error),
                _ => self.unexpected(),
            },
            InboundPhase::Publishing => match event {
                InboundEvent::Published(Ok(_)) => {
                    if self.route_index < self.routes.len() - 1 {
                        let next = self.route_index + 1;
                        self.publish(context, next)
                    } else {
                        self.phase = InboundPhase::Done;
                        self.outcome = InboundOutcome::Processed;
                        InboundAction::Finish { outcome: InboundOutcome::Processed }
                    }
                },
                InboundEvent::Published(Err(error)) => self.report(error),
                _ => self.unexpected(),
            },
            InboundPhase::Reporting => {
                self.phase = InboundPhase::Done;
                InboundAction::Finish { outcome: self.outcome }
            },
            InboundPhase::Done => InboundAction::Finish { outcome: self.outcome },
        }
    }
}

} // verus!
