//! The outbound dispatcher: from a send-request to a sent message, at most
//! once per correlation id.

use crate::constants::IDEMPOTENCY_TTL_SECONDS;
use crate::email::composer::{compose_refusal, composed, EmailComposer, LettreEmailComposer};
use crate::error::MailflowError;
use crate::handlers::common::ContextValue;
use crate::models::email::{addresses_of, EmailAddress};
use crate::models::events::SqsRecord;
use crate::models::messages::{OutboundEmail, OutboundMessage};
use crate::constants::SES_MAX_ATTACHMENT_SIZE_BYTES;
use crate::email::composer::{too_large_message, total_size};
use crate::text::{concat2, views};
use crate::utils::validation::{is_email_address, is_valid_email_address};
use vstd::prelude::*;

verus! {

/// The position of the first address of `addresses` that is not written in
/// the address grammar, or `addresses.len()`.
pub open spec fn first_invalid(addresses: Seq<Seq<char>>) -> int
    decreases addresses.len(),
{
    if addresses.len() == 0 {
        0
    } else if !is_email_address(addresses[0]) {
        0
    } else {
        1 + first_invalid(addresses.drop_first())
    }
}

/// `first_invalid` is the least position of an address that is not valid.
pub proof fn lemma_first_invalid(addresses: Seq<Seq<char>>)
    ensures
        0 <= first_invalid(addresses) <= addresses.len(),
        first_invalid(addresses) < addresses.len() ==> !is_email_address(
            addresses[first_invalid(addresses)],
        ),
        forall|j: int| 0 <= j < first_invalid(addresses) ==> is_email_address(#[trigger] addresses[j]),
    decreases addresses.len(),
{
    if addresses.len() > 0 && is_email_address(addresses[0]) {
        lemma_first_invalid(addresses.drop_first());
        let k = first_invalid(addresses.drop_first());
        assert forall|j: int| 0 <= j < 1 + k implies is_email_address(#[trigger] addresses[j]) by {
            if j > 0 {
                assert(addresses.drop_first()[j - 1] == addresses[j]);
            }
        }
    }
}

/// The address to reply to, as a list of none or one.
pub open spec fn reply_address(email: OutboundEmail) -> Seq<Seq<char>> {
    match email.reply_to {
        Some(a) => seq![a.address@],
        None => Seq::empty(),
    }
}

/// Every address of a request that must be written in the address grammar,
/// in the order in which they are checked: the sender, then `to`, `cc`,
/// `bcc`, and the address to reply to.
pub open spec fn checked_addresses(email: OutboundEmail) -> Seq<Seq<char>> {
    seq![email.from.address@] + addresses_of(email.to@) + addresses_of(email.cc@) + addresses_of(
        email.bcc@,
    ) + reply_address(email)
}

/// Why a request is not accepted, if it is not: it has no recipient; else
/// no sender; else no subject; else neither a text nor an HTML body; else
/// one of its addresses is not written in the address grammar.
pub open spec fn outbound_objection(message: OutboundMessage) -> Option<Seq<char>> {
    let email = message.email;
    let all = checked_addresses(email);
    if email.to@.len() == 0 {
        Some("At least one recipient required"@)
    } else if email.from.address@.len() == 0 {
        Some("From address required"@)
    } else if email.subject@.len() == 0 {
        Some("Subject required"@)
    } else if email.body.text is None && email.body.html is None {
        Some("Email must have text or HTML body"@)
    } else if first_invalid(all) < all.len() {
        Some("Invalid email address: "@ + all[first_invalid(all)])
    } else {
        None
    }
}

/// A request without recipient, without sender, without subject or without
/// body is not accepted.
pub proof fn lemma_incomplete_request_rejected(message: OutboundMessage)
    requires
        message.email.to@.len() == 0 || message.email.from.address@.len() == 0
            || message.email.subject@.len() == 0 || (message.email.body.text is None
            && message.email.body.html is None),
    ensures
        outbound_objection(message) is Some,
{
}

fn check_addresses(list: &Vec<EmailAddress>, Ghost(before): Ghost<Seq<Seq<char>>>) -> (r: Result<
    (),
    MailflowError,
>)
    requires
        first_invalid(before) == before.len(),
    ensures
        match r {
            Ok(()) => first_invalid(before + addresses_of(list@)) == (before + addresses_of(
                list@,
            )).len(),
            Err(e) => {
                &&& e is Validation
                &&& forall|after: Seq<Seq<char>>|
                    {
                        let all = #[trigger] (before + addresses_of(list@) + after);
                        first_invalid(all) < all.len() && e.detail() == "Invalid email address: "@
                            + all[first_invalid(all)]
                    }
            },
        },
{
    let ghost addrs = addresses_of(list@);
    let mut i: usize = 0;
    proof {
        assert(before + addrs.take(0) =~= before);
    }
    while i < list.len()
        invariant
            i <= list.len(),
            addrs == addresses_of(list@),
            first_invalid(before + addrs.take(i as int)) == (before + addrs.take(i as int)).len(),
        decreases list.len() - i,
    {
        let ghost sofar = before + addrs.take(i as int);
        if !is_valid_email_address(list[i].address.as_str()) {
            let message = concat2("Invalid email address: ", list[i].address.as_str());
            proof {
                assert forall|after: Seq<Seq<char>>|
                    {
                        let all = #[trigger] (before + addresses_of(list@) + after);
                        first_invalid(all) < all.len() && message@ == "Invalid email address: "@
                            + all[first_invalid(all)]
                    } by {
                    let all = before + addrs + after;
                    lemma_first_invalid(sofar);
                    lemma_first_invalid(all);
                    let at = sofar.len() as int;
                    assert(all[at] == addrs[i as int]);
                    assert forall|j: int| 0 <= j < at implies is_email_address(all[j]) by {
                        assert(all[j] == sofar[j]);
                    }
                    assert(first_invalid(all) == at);
                }
            }
            return Err(MailflowError::Validation(message));
        }
        proof {
            let next = before + addrs.take(i as int + 1);
            lemma_first_invalid(sofar);
            lemma_first_invalid(next);
            assert(next =~= sofar.push(addrs[i as int]));
            assert forall|j: int| 0 <= j < next.len() implies is_email_address(next[j]) by {
                if j < sofar.len() {
                    assert(next[j] == sofar[j]);
                }
            }
        }
        i += 1;
    }
    assert(addrs.take(list.len() as int) =~= addrs);
    Ok(())
}

/// Accepts a request that has a recipient, a sender, a subject and a body,
/// and whose addresses are all written in the address grammar; rejects
/// every other with `Validation`.
pub fn validate_outbound_message(message: &OutboundMessage) -> (r: Result<(), MailflowError>)
    ensures
        r is Ok <==> outbound_objection(*message) is None,
        r matches Err(e) ==> e is Validation && outbound_objection(*message) == Some(e.detail()),
{
    let email = &message.email;
    if email.to.len() == 0 {
        return Err(MailflowError::Validation("At least one recipient required".to_string()));
    }
    if email.from.address.as_str().is_empty() {
        return Err(MailflowError::Validation("From address required".to_string()));
    }
    if email.subject.as_str().is_empty() {
        return Err(MailflowError::Validation("Subject required".to_string()));
    }
    if email.body.text.is_none() && email.body.html.is_none() {
        return Err(MailflowError::Validation("Email must have text or HTML body".to_string()));
    }
    let ghost all = checked_addresses(*email);
    let ghost to = addresses_of(email.to@);
    let ghost cc = addresses_of(email.cc@);
    let ghost bcc = addresses_of(email.bcc@);
    let ghost reply: Seq<Seq<char>> = reply_address(*email);
    let ghost head = seq![email.from.address@];
    if !is_valid_email_address(email.from.address.as_str()) {
        proof {
            assert(all[0] == email.from.address@);
        }
        return Err(
            MailflowError::Validation(
                concat2("Invalid email address: ", email.from.address.as_str()),
            ),
        );
    }
    proof {
        lemma_first_invalid(head);
        assert(head[0] == email.from.address@);
    }
    match check_addresses(&email.to, Ghost(head)) {
        Ok(()) => {},
        Err(e) => {
            proof {
                assert(all =~= head + to + (cc + bcc + reply));
            }
            return Err(e);
        },
    }
    match check_addresses(&email.cc, Ghost(head + to)) {
        Ok(()) => {},
        Err(e) => {
            proof {
                assert(all =~= head + to + cc + (bcc + reply));
            }
            return Err(e);
        },
    }
    match check_addresses(&email.bcc, Ghost(head + to + cc)) {
        Ok(()) => {},
        Err(e) => {
            proof {
                assert(all =~= head + to + cc + bcc + reply);
            }
            return Err(e);
        },
    }
    match &email.reply_to {
        Some(a) => {
            if !is_valid_email_address(a.address.as_str()) {
                proof {
                    let sofar = head + to + cc + bcc;
                    lemma_first_invalid(sofar);
                    lemma_first_invalid(all);
                    assert(all =~= sofar.push(a.address@));
                    assert forall|j: int| 0 <= j < sofar.len() implies is_email_address(all[j]) by {
                        assert(all[j] == sofar[j]);
                    }
                    assert(all[sofar.len() as int] == a.address@);
                    assert(first_invalid(all) == sofar.len());
                }
                return Err(
                    MailflowError::Validation(
                        concat2("Invalid email address: ", a.address.as_str()),
                    ),
                );
            }
            proof {
                let sofar = head + to + cc + bcc;
                lemma_first_invalid(sofar);
                lemma_first_invalid(all);
                assert(all =~= sofar.push(a.address@));
                assert forall|j: int| 0 <= j < all.len() implies is_email_address(all[j]) by {
                    if j < sofar.len() {
                        assert(all[j] == sofar[j]);
                    }
                }
            }
        },
        None => {
            proof {
                assert(all =~= head + to + cc + bcc);
            }
        },
    }
    Ok(())
}

/// How far the dispatcher is with a record.
#[derive(Debug, Clone, Copy, PartialEq, Eq, Structural)]
pub enum OutboundPhase {
    /// Nothing is known of the record yet.
    Start,
    /// Asked whether the correlation id was processed before.
    CheckingDuplicate,
    /// Asked whether the relay knows the sender.
    VerifyingSender,
    /// Asked for the sending quota.
    CheckingQuota,
    /// Asked for the bytes of an attachment.
    Fetching,
    /// Handed the message to the relay.
    Sending,
    /// Asked to record the correlation id.
    Recording,
    /// Asked to report a failure to the dead-letter queue.
    Reporting,
    /// Asked to delete the record from the queue.
    Deleting,
    /// Done with the record.
    Done,
}

/// What became of a record.
#[derive(Debug, Clone, Copy, PartialEq, Eq, Structural)]
pub enum OutboundOutcome {
    /// Not decided yet.
    Pending,
    /// The message was sent and recorded.
    Sent,
    /// The correlation id was processed before; nothing was sent.
    Duplicate,
    /// The record failed and was reported.
    Failed,
}

/// The sending quota of the relay, in whole messages.
#[derive(Debug, Clone, Copy, PartialEq, Eq, Structural)]
pub struct SendQuota {
    pub max_24_hour_send: i64,
    pub max_send_rate: i64,
    pub sent_last_24_hours: i64,
}

/// What the caller reports to the dispatcher.
#[derive(Debug, PartialEq, Eq)]
pub enum OutboundEvent {
    /// The body of the record was read as a request, or could not be.
    Received(Result<OutboundMessage, String>),
    /// Whether the correlation id is on record.
    DuplicateChecked(Result<bool, MailflowError>),
    /// Whether the relay knows the sender.
    SenderVerified(Result<bool, MailflowError>),
    QuotaFetched(Result<SendQuota, MailflowError>),
    AttachmentFetched(Result<Vec<u8>, MailflowError>),
    /// The relay took the message and gave it an id, or did not.
    Sent(Result<String, MailflowError>),
    Recorded(Result<(), MailflowError>),
    /// The failure was reported, or reporting failed and was logged.
    Reported,
    /// The record was deleted, or deleting failed and was logged.
    Deleted(Result<(), MailflowError>),
}

/// What the dispatcher asks the caller to do.
#[derive(Debug, Clone, PartialEq, Eq)]
pub enum OutboundAction {
    CheckDuplicate { correlation_id: String },
    VerifySender { address: String },
    GetSendQuota,
    FetchAttachment { bucket: String, key: String },
    SendRaw { raw: Vec<u8>, from: String, recipients: Vec<String> },
    RecordProcessed { correlation_id: String, ttl_seconds: u64 },
    ReportFailure { error: MailflowError, context: Vec<(String, ContextValue)> },
    DeleteFromQueue { receipt_handle: String },
    Finish { outcome: OutboundOutcome },
}

/// The dispatcher of one record of the outbound queue.
#[derive(Debug, Clone, PartialEq, Eq)]
pub struct OutboundDispatcher {
    phase: OutboundPhase,
    outcome: OutboundOutcome,
    record: SqsRecord,
    message: Option<OutboundMessage>,
    blobs: Vec<Vec<u8>>,
}

/// The state of a dispatcher, as far as its decisions depend on it.
pub ghost struct OutboundView {
    pub phase: OutboundPhase,
    pub outcome: OutboundOutcome,
    pub record: SqsRecord,
    pub message: Option<OutboundMessage>,
    pub blobs: Seq<Vec<u8>>,
}

/// The recipients of the envelope: every address of `to`, `cc` and `bcc`.
pub open spec fn envelope_recipients(email: OutboundEmail) -> Seq<Seq<char>> {
    addresses_of(email.to@) + addresses_of(email.cc@) + addresses_of(email.bcc@)
}

/// Whether a transition is the start of the report of the failure `error`:
/// the record counts as failed, and the caller is asked to report `error`
/// with the id and the body of the record as context.
pub open spec fn reports(
    before: OutboundView,
    after: OutboundView,
    action: OutboundAction,
    kind: spec_fn(MailflowError) -> bool,
) -> bool {
    &&& after.phase == OutboundPhase::Reporting
    &&& after.outcome == OutboundOutcome::Failed
    &&& action matches OutboundAction::ReportFailure { error, context }
    &&& kind(error)
    &&& context@.len() == 2
    &&& context@[0].0@ == "message_id"@
    &&& context@[0].1 matches ContextValue::Text(id)
    &&& id@ == before.record.message_id@
    &&& context@[1].0@ == "original_message"@
    &&& context@[1].1 matches ContextValue::Text(body)
    &&& body@ == before.record.body@
}

/// Whether the caller is asked to delete the record.
pub open spec fn deletes(before: OutboundView, after: OutboundView, action: OutboundAction) -> bool
{
    &&& after.phase == OutboundPhase::Deleting
    &&& action matches OutboundAction::DeleteFromQueue { receipt_handle }
    &&& receipt_handle@ == before.record.receipt_handle@
}

/// Whether the caller is asked for the attachment number `index`.
pub open spec fn fetches(
    after: OutboundView,
    action: OutboundAction,
    email: OutboundEmail,
    index: int,
) -> bool {
    &&& after.phase == OutboundPhase::Fetching
    &&& action matches OutboundAction::FetchAttachment { bucket, key }
    &&& 0 <= index < email.attachments@.len()
    &&& bucket@ == email.attachments@[index].s3_bucket@
    &&& key@ == email.attachments@[index].s3_key@
}

/// Whether the transition is what follows once every attachment is
/// there. Attachments that are too large together are reported, and so is
/// a request that cannot be composed, with the reason. Every other request
/// is composed and handed to the relay, with every address of `to`, `cc`
/// and `bcc` as a recipient of the envelope, while the dispatcher keeps
/// the request and the attachments.
pub open spec fn sends_or_reports(
    before: OutboundView,
    after: OutboundView,
    action: OutboundAction,
    email: OutboundEmail,
    blobs: Seq<Vec<u8>>,
) -> bool {
    if total_size(blobs) > SES_MAX_ATTACHMENT_SIZE_BYTES {
        reports(
            before,
            after,
            action,
            |e: MailflowError|
                e is Validation && e.detail() == too_large_message(total_size(blobs)),
        )
    } else {
        match compose_refusal(email, blobs) {
            Some(why) => reports(
                before,
                after,
                action,
                |e: MailflowError| e is EmailParsing && e.detail() == why,
            ),
            None => {
                &&& after.phase == OutboundPhase::Sending
                &&& after.outcome == before.outcome
                &&& after.message == before.message
                &&& after.blobs == blobs
                &&& action matches OutboundAction::SendRaw { raw, from, recipients }
                &&& from@ == email.from.address@
                &&& views(recipients@) == envelope_recipients(email)
                &&& exists|date: Seq<char>, boundaries: Seq<Seq<char>>|
                    raw@ == #[trigger] composed(email, blobs, date, boundaries)
            },
        }
    }
}

/// The transitions of the dispatcher: what it asks for, and where it
/// stands after, for each event in each phase.
pub open spec fn outbound_transition(
    before: OutboundView,
    event: OutboundEvent,
    after: OutboundView,
    action: OutboundAction,
) -> bool {
    &&& after.record == before.record
    &&& match before.phase {
        OutboundPhase::Start => match event {
            OutboundEvent::Received(Ok(message)) => match outbound_objection(message) {
                Some(objection) => reports(
                    before,
                    after,
                    action,
                    |e: MailflowError| e is Validation && e.detail() == objection,
                ),
                None => {
                    &&& after.phase == OutboundPhase::CheckingDuplicate
                    &&& after.outcome == before.outcome
                    &&& after.message == Some(message)
                    &&& after.blobs.len() == 0
                    &&& action matches OutboundAction::CheckDuplicate { correlation_id }
                    &&& correlation_id@ == message.correlation_id@
                },
            },
            OutboundEvent::Received(Err(why)) => reports(
                before,
                after,
                action,
                |e: MailflowError|
                    e is Validation && e.detail() == "Invalid outbound message JSON: "@ + why@,
            ),
            _ => reports(before, after, action, |e: MailflowError| e is Lambda),
        },
        OutboundPhase::CheckingDuplicate => match (event, before.message) {
            (OutboundEvent::DuplicateChecked(Ok(true)), Some(message)) => {
                &&& after.outcome == OutboundOutcome::Duplicate
                &&& deletes(before, after, action)
            },
            (OutboundEvent::DuplicateChecked(Ok(false)), Some(message)) => {
                &&& after.phase == OutboundPhase::VerifyingSender
                &&& after.outcome == before.outcome
                &&& after.message == before.message
                &&& after.blobs == before.blobs
                &&& action matches OutboundAction::VerifySender { address }
                &&& address@ == message.email.from.address@
            },
            (OutboundEvent::DuplicateChecked(Err(error)), _) => reports(
                before,
                after,
                action,
                |e: MailflowError| e == error,
            ),
            _ => reports(before, after, action, |e: MailflowError| e is Lambda),
        },
        OutboundPhase::VerifyingSender => match (event, before.message) {
            (OutboundEvent::SenderVerified(Ok(true)), Some(message)) => {
                &&& after.phase == OutboundPhase::CheckingQuota
                &&& after.outcome == before.outcome
                &&& after.message == before.message
                &&& after.blobs == before.blobs
                &&& action is GetSendQuota
            },
            (OutboundEvent::SenderVerified(Ok(false)), Some(message)) => reports(
                before,
                after,
                action,
                |e: MailflowError|
                    e is Validation && e.detail() == "Sender address '"@
                        + message.email.from.address@
                        + "' is not verified in SES. Please verify the email address or domain before sending."@,
            ),
            (OutboundEvent::SenderVerified(Err(error)), _) => reports(
                before,
                after,
                action,
                |e: MailflowError| e == error,
            ),
            _ => reports(before, after, action, |e: MailflowError| e is Lambda),
        },
        OutboundPhase::CheckingQuota => match (event, before.message) {
            (OutboundEvent::QuotaFetched(Ok(quota)), Some(message)) => if quota.sent_last_24_hours
                >= quota.max_24_hour_send {
                reports(
                    before,
                    after,
                    action,
                    |e: MailflowError| e is Ses && e.detail() == "Daily sending quota exceeded"@,
                )
            } else if message.email.attachments@.len() > 0 {
                &&& after.outcome == before.outcome
                &&& after.message == before.message
                &&& after.blobs.len() == 0
                &&& fetches(after, action, message.email, 0)
            } else {
                sends_or_reports(before, after, action, message.email, Seq::empty())
            },
            (OutboundEvent::QuotaFetched(Err(error)), _) => reports(
                before,
                after,
                action,
                |e: MailflowError| e == error,
            ),
            _ => reports(before, after, action, |e: MailflowError| e is Lambda),
        },
        OutboundPhase::Fetching => match (event, before.message) {
            (OutboundEvent::AttachmentFetched(Ok(bytes)), Some(message)) => if before.blobs.len()
                + 1 < message.email.attachments@.len() {
                &&& after.outcome == before.outcome
                &&& after.message == before.message
                &&& after.blobs == before.blobs.push(bytes)
                &&& fetches(after, action, message.email, before.blobs.len() as int + 1)
            } else {
                sends_or_reports(
                    before,
                    after,
                    action,
                    message.email,
                    before.blobs.push(bytes),
                )
            },
            (OutboundEvent::AttachmentFetched(Err(error)), _) => reports(
                before,
                after,
                action,
                |e: MailflowError| e == error,
            ),
            _ => reports(before, after, action, |e: MailflowError| e is Lambda),
        },
        OutboundPhase::Sending => match (event, before.message) {
            (OutboundEvent::Sent(Ok(id)), Some(message)) => {
                &&& after.phase == OutboundPhase::Recording
                &&& after.outcome == before.outcome
                &&& after.message == before.message
                &&& action matches OutboundAction::RecordProcessed { correlation_id, ttl_seconds }
                &&& correlation_id@ == message.correlation_id@
                &&& ttl_seconds == IDEMPOTENCY_TTL_SECONDS
            },
            (OutboundEvent::Sent(Err(error)), _) => reports(
                before,
                after,
                action,
                |e: MailflowError| e == error,
            ),
            _ => reports(before, after, action, |e: MailflowError| e is Lambda),
        },
        OutboundPhase::Recording => match event {
            OutboundEvent::Recorded(Ok(())) => {
                &&& after.outcome == OutboundOutcome::Sent
                &&& deletes(before, after, action)
            },
            OutboundEvent::Recorded(Err(error)) => reports(
                before,
                after,
                action,
                |e: MailflowError| e == error,
            ),
            _ => reports(before, after, action, |e: MailflowError| e is Lambda),
        },
        OutboundPhase::Reporting => {
            &&& after.outcome == before.outcome
            &&& deletes(before, after, action)
        },
        OutboundPhase::Deleting => {
            &&& after.phase == OutboundPhase::Done
            &&& after.outcome == before.outcome
            &&& action == (OutboundAction::Finish { outcome: before.outcome })
        },
        OutboundPhase::Done => {
            &&& after.phase == OutboundPhase::Done
            &&& after.outcome == before.outcome
            &&& action == (OutboundAction::Finish { outcome: before.outcome })
        },
    }
}

/// A correlation id that was processed before is not sent again: the
/// record is deleted from the queue, and nothing is reported.
pub proof fn lemma_duplicate_is_not_sent(
    before: OutboundView,
    after: OutboundView,
    action: OutboundAction,
)
    requires
        before.phase == OutboundPhase::CheckingDuplicate,
        before.message is Some,
        outbound_transition(before, OutboundEvent::DuplicateChecked(Ok(true)), after, action),
    ensures
        action is DeleteFromQueue,
        after.outcome == OutboundOutcome::Duplicate,
        after.phase == OutboundPhase::Deleting,
{
}

/// A correlation id is recorded only once the relay took the message: the
/// send comes first, the record second.
pub proof fn lemma_recorded_after_sent(
    before: OutboundView,
    event: OutboundEvent,
    after: OutboundView,
    action: OutboundAction,
)
    requires
        outbound_transition(before, event, after, action),
        action is RecordProcessed,
    ensures
        before.phase == OutboundPhase::Sending,
        event matches OutboundEvent::Sent(Ok(_)),
{
}

/// Once the relay took the message, the id that is recorded is that of
/// the request that was sent, for 24 hours.
pub proof fn lemma_recorded_id_is_of_the_request(
    before: OutboundView,
    sending: OutboundEvent,
    middle: OutboundView,
    send: OutboundAction,
    relay_id: String,
    after: OutboundView,
    action: OutboundAction,
)
    requires
        outbound_transition(before, sending, middle, send),
        send is SendRaw,
        outbound_transition(middle, OutboundEvent::Sent(Ok(relay_id)), after, action),
    ensures
        before.message is Some,
        action matches OutboundAction::RecordProcessed { correlation_id, ttl_seconds }
            && correlation_id@ == before.message->0.correlation_id@ && ttl_seconds
            == IDEMPOTENCY_TTL_SECONDS,
{
}

/// A message is handed to the relay only after the quota was found
/// sufficient or the last attachment came in, and never for a record
/// whose outcome is decided.
pub proof fn lemma_sent_from_quota_or_fetch(
    before: OutboundView,
    event: OutboundEvent,
    after: OutboundView,
    action: OutboundAction,
)
    requires
        outbound_transition(before, event, after, action),
        action is SendRaw,
    ensures
        before.phase == OutboundPhase::CheckingQuota || before.phase == OutboundPhase::Fetching,
        before.message is Some,
        after.phase == OutboundPhase::Sending,
{
}

/// Every failure is reported and then the record is deleted: after a
/// report the dispatcher asks for the deletion, whatever it is told.
pub proof fn lemma_failure_is_reported_then_deleted(
    before: OutboundView,
    event: OutboundEvent,
    after: OutboundView,
    action: OutboundAction,
)
    requires
        before.phase == OutboundPhase::Reporting,
        outbound_transition(before, event, after, action),
    ensures
        action is DeleteFromQueue,
        after.phase == OutboundPhase::Deleting,
        after.outcome == before.outcome,
{
}

impl View for OutboundDispatcher {
    type V = OutboundView;

    closed spec fn view(&self) -> OutboundView {
        OutboundView {
            phase: self.phase,
            outcome: self.outcome,
            record: self.record,
            message: self.message,
            blobs: self.blobs@,
        }
    }
}

impl OutboundDispatcher {
    /// A dispatcher for `record`, at its start.
    pub fn new(record: SqsRecord) -> (r: Self)
        ensures
            r.well_formed(),
            r@.phase == OutboundPhase::Start,
            r@.outcome == OutboundOutcome::Pending,
            r@.record == record,
            r@.message is None,
            r@.blobs.len() == 0,
    {
        OutboundDispatcher {
            phase: OutboundPhase::Start,
            outcome: OutboundOutcome::Pending,
            record,
            message: None,
            blobs: Vec::new(),
        }
    }

    /// Whether the dispatcher is as every dispatcher is.
    pub fn is_well_formed(&self) -> (b: bool)
        ensures
            b == self.well_formed(),
    {
        match self.phase {
            OutboundPhase::CheckingDuplicate | OutboundPhase::VerifyingSender
            | OutboundPhase::CheckingQuota | OutboundPhase::Sending => self.message.is_some(),
            OutboundPhase::Fetching => match &self.message {
                Some(message) => self.blobs.len() < message.email.attachments.len(),
                None => false,
            },
            _ => true,
        }
    }

    /// How far the dispatcher is.
    pub fn phase(&self) -> (p: OutboundPhase)
        ensures
            p == self@.phase,
    {
        self.phase
    }

    /// What became of the record, as far as it is decided.
    pub fn outcome(&self) -> (o: OutboundOutcome)
        ensures
            o == self@.outcome,
    {
        self.outcome
    }

    fn report(&mut self, error: MailflowError) -> (action: OutboundAction)
        ensures
            final(self)@.record == old(self)@.record,
            final(self)@.message == old(self)@.message,
            reports(old(self)@, final(self)@, action, |e: MailflowError| e == error),
    {
        self.phase = OutboundPhase::Reporting;
        self.outcome = OutboundOutcome::Failed;
        let mut context: Vec<(String, ContextValue)> = Vec::new();
        context.push(
            (String::from_str("message_id"), ContextValue::Text(self.record.message_id.clone())),
        );
        context.push(
            (String::from_str("original_message"), ContextValue::Text(self.record.body.clone())),
        );
        OutboundAction::ReportFailure { error, context }
    }

    fn unexpected(&mut self) -> (action: OutboundAction)
        ensures
            final(self)@.record == old(self)@.record,
            reports(old(self)@, final(self)@, action, |e: MailflowError| e is Lambda),
    {
        self.report(MailflowError::Lambda("Unexpected event for the state of the record".to_string()))
    }

    fn delete(&mut self) -> (action: OutboundAction)
        ensures
            final(self)@.record == old(self)@.record,
            final(self)@.outcome == old(self)@.outcome,
            final(self)@.message == old(self)@.message,
            deletes(old(self)@, final(self)@, action),
    {
        self.phase = OutboundPhase::Deleting;
        OutboundAction::DeleteFromQueue { receipt_handle: self.record.receipt_handle.clone() }
    }

    fn fetch(&mut self, index: usize) -> (action: OutboundAction)
        requires
            old(self)@.message is Some,
            index < old(self)@.message->0.email.attachments@.len(),
        ensures
            final(self)@.record == old(self)@.record,
            final(self)@.outcome == old(self)@.outcome,
            final(self)@.message == old(self)@.message,
            final(self)@.blobs == old(self)@.blobs,
            fetches(final(self)@, action, old(self)@.message->0.email, index as int),
    {
        self.phase = OutboundPhase::Fetching;
        match &self.message {
            Some(message) => {
                let attachment = &message.email.attachments[index];
                OutboundAction::FetchAttachment {
                    bucket: attachment.s3_bucket.clone(),
                    key: attachment.s3_key.clone(),
                }
            },
            None => OutboundAction::GetSendQuota,
        }
    }

    fn recipients_of(email: &OutboundEmail) -> (r: Vec<String>)
        ensures
            views(r@) == envelope_recipients(*email),
    {
        let mut out: Vec<String> = Vec::new();
        assert(views(out@) =~= Seq::empty());
        Self::push_addresses(&mut out, &email.to);
        Self::push_addresses(&mut out, &email.cc);
        Self::push_addresses(&mut out, &email.bcc);
        proof {
            assert(views(out@) =~= envelope_recipients(*email));
        }
        out
    }

    fn push_addresses(out: &mut Vec<String>, list: &Vec<EmailAddress>)
        ensures
            views(final(out)@) == views(old(out)@) + addresses_of(list@),
    {
        let ghost start = views(out@);
        let ghost all = addresses_of(list@);
        let mut i: usize = 0;
        while i < list.len()
            invariant
                i <= list.len(),
                all == addresses_of(list@),
                views(out@) == start + all.take(i as int),
            decreases list.len() - i,
        {
            let ghost before = out@;
            out.push(list[i].address.clone());
            proof {
                assert(views(out@) =~= views(before).push(list@[i as int].address@));
                assert(start + all.take(i as int + 1) =~= (start + all.take(i as int)).push(
                    all[i as int],
                ));
            }
            i += 1;
        }
        assert(all.take(list.len() as int) =~= all);
    }

    fn send(&mut self) -> (action: OutboundAction)
        requires
            old(self)@.message is Some,
            old(self)@.blobs.len() == old(self)@.message->0.email.attachments@.len(),
        ensures
            final(self)@.record == old(self)@.record,
            final(self)@.message == old(self)@.message,
            sends_or_reports(
                old(self)@,
                final(self)@,
                action,
                old(self)@.message->0.email,
                old(self)@.blobs,
            ),
    {
        let composed = match &self.message {
            Some(message) => {
                match LettreEmailComposer::new().compose(&message.email, &self.blobs) {
                    Ok(raw) => Ok(
                        (
                            raw,
                            message.email.from.address.clone(),
                            Self::recipients_of(&message.email),
                        ),
                    ),
                    Err(e) => Err(e),
                }
            },
            None => {
                assert(false);
                Err(MailflowError::EmailParsing(String::new()))
            },
        };
        match composed {
            Ok((raw, from, recipients)) => {
                self.phase = OutboundPhase::Sending;
                OutboundAction::SendRaw { raw, from, recipients }
            },
            Err(e) => self.report(e),
        }
    }

    /// Takes an event and answers with what to do next, by the rules of
    /// [`outbound_transition`].
    pub fn step(&mut self, event: OutboundEvent) -> (action: OutboundAction)
        requires
            old(self).well_formed(),
        ensures
            final(self).well_formed(),
            outbound_transition(old(self)@, event, final(self)@, action),
    {
        match self.phase {
            OutboundPhase::Start => match event {
                OutboundEvent::Received(Ok(message)) => {
                    match validate_outbound_message(&message) {
                        Ok(()) => {
                            let correlation_id = message.correlation_id.clone();
                            self.message = Some(message);
                            self.blobs = Vec::new();
                            self.phase = OutboundPhase::CheckingDuplicate;
                            OutboundAction::CheckDuplicate { correlation_id }
                        },
                        Err(e) => self.report(e),
                    }
                },
                OutboundEvent::Received(Err(why)) => self.report(
                    MailflowError::Validation(
                        concat2("Invalid outbound message JSON: ", why.as_str()),
                    ),
                ),
                _ => self.unexpected(),
            },
            OutboundPhase::CheckingDuplicate => match event {
                OutboundEvent::DuplicateChecked(Ok(true)) => {
                    self.outcome = OutboundOutcome::Duplicate;
                    self.delete()
                },
                OutboundEvent::DuplicateChecked(Ok(false)) => {
                    let address = match &self.message {
                        Some(message) => message.email.from.address.clone(),
                        None => String::new(),
                    };
                    self.phase = OutboundPhase::VerifyingSender;
                    OutboundAction::VerifySender { address }
                },
                OutboundEvent::DuplicateChecked(Err(error)) => self.report(error),
                _ => self.unexpected(),
            },
            OutboundPhase::VerifyingSender => match event {
                OutboundEvent::SenderVerified(Ok(true)) => {
                    self.phase = OutboundPhase::CheckingQuota;
                    OutboundAction::GetSendQuota
                },
                OutboundEvent::SenderVerified(Ok(false)) => {
                    let mut m = String::from_str("Sender address '");
                    match &self.message {
                        Some(message) => {
                            m.append(message.email.from.address.as_str());
                        },
                        None => {},
                    }
                    m.append(
                        "' is not verified in SES. Please verify the email address or domain before sending.",
                    );
                    self.report(MailflowError::Validation(m))
                },
                OutboundEvent::SenderVerified(Err(error)) => self.report(error),
                _ => self.unexpected(),
            },
            OutboundPhase::CheckingQuota => match event {
                OutboundEvent::QuotaFetched(Ok(quota)) => {
                    if quota.sent_last_24_hours >= quota.max_24_hour_send {
                        self.report(MailflowError::Ses("Daily sending quota exceeded".to_string()))
                    } else {
                        let count = match &self.message {
                            Some(message) => message.email.attachments.len(),
                            None => 0,
                        };
                        self.blobs = Vec::new();
                        if count > 0 {
                            self.fetch(0)
                        } else {
                            self.send()
                        }
                    }
                },
                OutboundEvent::QuotaFetched(Err(error)) => self.report(error),
                _ => self.unexpected(),
            },
            OutboundPhase::Fetching => match event {
                OutboundEvent::AttachmentFetched(Ok(bytes)) => {
                    let count = match &self.message {
                        Some(message) => message.email.attachments.len(),
                        None => 0,
                    };
                    if self.blobs.len() >= count {
                        assert(false);
                        self.unexpected()
                    } else {
                        self.blobs.push(bytes);
                        if self.blobs.len() < count {
                            let next = self.blobs.len();
                            self.fetch(next)
                        } else {
                            self.send()
                        }
                    }
                },
                OutboundEvent::AttachmentFetched(Err(error)) => self.report(error),
                _ => self.unexpected(),
            },
            OutboundPhase::Sending => match event {
                OutboundEvent::Sent(Ok(_)) => {
                    let correlation_id = match &self.message {
                        Some(message) => message.correlation_id.clone(),
                        None => String::new(),
                    };
                    self.phase = OutboundPhase::Recording;
                    OutboundAction::RecordProcessed {
                        correlation_id,
                        ttl_seconds: IDEMPOTENCY_TTL_SECONDS,
                    }
                },
                OutboundEvent::Sent(Err(error)) => self.report(error),
                _ => self.unexpected(),
            },
            OutboundPhase::Recording => match event {
                OutboundEvent::Recorded(Ok(())) => {
                    self.outcome = OutboundOutcome::Sent;
                    self.delete()
                },
                OutboundEvent::Recorded(Err(error)) => self.report(error),
                _ => self.unexpected(),
            },
            OutboundPhase::Reporting => self.delete(),
            OutboundPhase::Deleting => {
                self.phase = OutboundPhase::Done;
                OutboundAction::Finish { outcome: self.outcome }
            },
            OutboundPhase::Done => OutboundAction::Finish { outcome: self.outcome },
        }
    }

    /// What holds of every dispatcher: between the check for a duplicate
    /// and the record of the correlation id it has a request, and it never
    /// holds more attachments than the request names, and fewer while it
    /// fetches.
    pub closed spec fn well_formed(&self) -> bool {
        match self.phase {
            OutboundPhase::CheckingDuplicate | OutboundPhase::VerifyingSender
            | OutboundPhase::CheckingQuota | OutboundPhase::Sending => self.message is Some,
            OutboundPhase::Fetching => self.message is Some && self.blobs@.len()
                < self.message->0.email.attachments@.len(),
            _ => true,
        }
    }
}

} // verus!
