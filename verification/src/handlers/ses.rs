//! What is particular to events of the SMTP gateway.

use crate::models::events::LambdaEvent;
use crate::routing::rules::{app_name_of, extract_app_name};
use crate::services::metrics::{MetricRecord, MetricUnit, Metrics};
use crate::text::{str_eq, views};
use vstd::prelude::*;

verus! {

/// The shape of an event.
#[derive(Debug, Clone, Copy, PartialEq, Eq, Structural)]
pub enum EventShape {
    /// An event of the SMTP gateway, with verdicts.
    Ses,
    /// A notification that an object was stored.
    S3,
    /// Records of the outbound queue.
    Sqs,
}

/// The shape that the `eventSource` of the first record of an event
/// announces: `aws:ses` and `aws:s3` announce theirs; anything else, and a
/// record without `eventSource`, is taken as a record of the queue.
pub fn event_shape(first_event_source: Option<&str>) -> (r: EventShape)
    ensures
        r == (match first_event_source {
            Some(source) => if source@ == "aws:ses"@ {
                EventShape::Ses
            } else if source@ == "aws:s3"@ {
                EventShape::S3
            } else {
                EventShape::Sqs
            },
            None => EventShape::Sqs,
        }),
{
    match first_event_source {
        Some(source) => {
            if str_eq(source, "aws:ses") {
                EventShape::Ses
            } else if str_eq(source, "aws:s3") {
                EventShape::S3
            } else {
                EventShape::Sqs
            }
        },
        None => EventShape::Sqs,
    }
}

/// The shape of an event that was read.
pub fn shape_of(event: &LambdaEvent) -> (r: EventShape)
    ensures
        r == (match *event {
            LambdaEvent::Ses(_) => EventShape::Ses,
            LambdaEvent::S3(_) => EventShape::S3,
            LambdaEvent::Sqs(_) => EventShape::Sqs,
        }),
{
    match event {
        LambdaEvent::Ses(_) => EventShape::Ses,
        LambdaEvent::S3(_) => EventShape::S3,
        LambdaEvent::Sqs(_) => EventShape::Sqs,
    }
}

/// The applications that `recipients` name, one per recipient that names
/// one, in the order of the recipients.
pub open spec fn named_apps(recipients: Seq<Seq<char>>) -> Seq<Seq<char>>
    decreases recipients.len(),
{
    if recipients.len() == 0 {
        Seq::empty()
    } else {
        match app_name_of(recipients.last()) {
            Some(app) => named_apps(recipients.drop_last()).push(app),
            None => named_apps(recipients.drop_last()),
        }
    }
}

/// Whether `pair` is the counter and the latency of a record processed in
/// `duration_ms` for the application `app`.
pub open spec fn processed_for(pair: (MetricRecord, MetricRecord), app: Seq<char>, duration_ms: u64) -> bool {
    &&& pair.0.is("InboundEmailsProcessed"@, 1, MetricUnit::Count)
    &&& pair.0.filed_under("App"@, app)
    &&& pair.1.is("InboundProcessingTime"@, duration_ms, MetricUnit::Milliseconds)
    &&& pair.1.filed_under("App"@, app)
}

/// The metrics of a record that was processed in `duration_ms`: for each
/// recipient that names an application, a counter and a latency filed
/// under that application.
pub fn processed_metrics(recipients: &Vec<String>, duration_ms: u64) -> (r: Vec<
    (MetricRecord, MetricRecord),
>)
    ensures
        r@.len() == named_apps(views(recipients@)).len(),
        forall|i: int|
            0 <= i < r@.len() ==> processed_for(
                #[trigger] r@[i],
                named_apps(views(recipients@))[i],
                duration_ms,
            ),
{
    let ghost all = views(recipients@);
    let mut out: Vec<(MetricRecord, MetricRecord)> = Vec::new();
    let mut i: usize = 0;
    while i < recipients.len()
        invariant
            i <= recipients.len(),
            all == views(recipients@),
            out@.len() == named_apps(all.take(i as int)).len(),
            forall|j: int|
                0 <= j < out@.len() ==> processed_for(
                    #[trigger] out@[j],
                    named_apps(all.take(i as int))[j],
                    duration_ms,
                ),
        decreases recipients.len() - i,
    {
        proof {
            assert(all.take(i as int + 1).drop_last() =~= all.take(i as int));
            assert(all.take(i as int + 1).last() == recipients@[i as int]@);
        }
        match extract_app_name(recipients[i].as_str()) {
            Some(app) => {
                out.push(Metrics::inbound_email_processed(app.as_str(), duration_ms));
            },
            None => {},
        }
        i += 1;
    }
    assert(all.take(recipients.len() as int) =~= all);
    out
}

} // verus!
