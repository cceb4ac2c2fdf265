//! From an outbound request to raw RFC 5322 bytes.
//!
//! The MIME encoding is done by the `lettre` crate; what this module
//! decides is the shape of the message, the limit on its attachments, and
//! the threading headers, which are written into the finished bytes.

use crate::constants::SES_MAX_ATTACHMENT_SIZE_BYTES;
use crate::error::MailflowError;
use crate::foreign::mail_builder::{
    add_part, address_refusal, alternative_made, alternative_of, attachment_made,
    attachment_part, bcc_added, builder_from, builder_holds, cc_added, content_type_refusal,
    finish_multi, finish_refusal, finish_single, finished_multi, finished_single, formatted,
    formatted_bytes, html_made, html_part, mailbox_holds, mailbox_read, mailbox_refusal,
    message_holds, mixed_around, mixed_made, mixed_of_multi, mixed_of_single, name_writable,
    named_mailbox, parse_mailbox, part_added, part_holds, parts_hold, plain_made, plain_part,
    reply_to_added, started_from, subject_set, to_added, with_bcc, with_cc, with_reply_to,
    with_subject, with_to, TransferEncoding,
};
use crate::foreign::{trim, trimmed_of};
use crate::models::email::{EmailAddress, EmailBody, EmailHeaders};
use crate::models::messages::{OutboundAttachment, OutboundEmail};
use crate::text::{
    chars_of, concat2, concat3, copy_bytes, decimal, decimal_string, opt_view, views,
};
use lettre::message::{Mailbox, MessageBuilder, MultiPart, SinglePart};
use vstd::prelude::*;
use vstd::utf8::encode_utf8;

verus! {

/// Whether the four bytes CR LF CR LF stand at position `at` of `raw`.
pub open spec fn blank_line_at(raw: Seq<u8>, at: int) -> bool {
    &&& 0 <= at
    &&& at + 4 <= raw.len()
    &&& raw[at] == 13
    &&& raw[at + 1] == 10
    &&& raw[at + 2] == 13
    &&& raw[at + 3] == 10
}

/// The position of the first CR LF CR LF of `raw`, which ends its header
/// section; `raw.len()` when there is none.
pub open spec fn header_end(raw: Seq<u8>) -> int
    decreases raw.len(),
{
    if raw.len() < 4 {
        raw.len() as int
    } else if blank_line_at(raw, 0) {
        0
    } else {
        1 + header_end(raw.drop_first())
    }
}

/// `header_end` is the least position of a blank line.
pub proof fn lemma_header_end(raw: Seq<u8>)
    ensures
        0 <= header_end(raw) <= raw.len(),
        header_end(raw) < raw.len() ==> blank_line_at(raw, header_end(raw)),
        forall|j: int| 0 <= j < header_end(raw) ==> !blank_line_at(raw, j),
    decreases raw.len(),
{
    if raw.len() >= 4 && !blank_line_at(raw, 0) {
        let rest = raw.drop_first();
        lemma_header_end(rest);
        let k = header_end(rest);
        if k < rest.len() {
            assert(blank_line_at(rest, k));
            assert(rest[k] == raw[k + 1] && rest[k + 1] == raw[k + 2] && rest[k + 2] == raw[k + 3]
                && rest[k + 3] == raw[k + 4]);
        }
        assert forall|j: int| 0 <= j < 1 + k implies !blank_line_at(raw, j) by {
            if j > 0 && blank_line_at(raw, j) {
                assert(rest[j - 1] == raw[j] && rest[j] == raw[j + 1] && rest[j + 1] == raw[j + 2]
                    && rest[j + 2] == raw[j + 3]);
                assert(blank_line_at(rest, j - 1));
            }
        }
    }
}

/// The message ids `refs`, each between angle brackets, separated by one
/// space.
pub open spec fn bracketed(refs: Seq<Seq<char>>) -> Seq<u8>
    decreases refs.len(),
{
    if refs.len() == 0 {
        Seq::empty()
    } else if refs.len() == 1 {
        encode_utf8("<"@) + encode_utf8(refs[0]) + encode_utf8(">"@)
    } else {
        bracketed(refs.drop_last()) + encode_utf8(" <"@) + encode_utf8(refs.last()) + encode_utf8(
            ">"@,
        )
    }
}

/// The header lines that thread a message, each preceded by its line
/// break: `In-Reply-To` when there is an id to reply to, `References` when
/// there are references.
pub open spec fn threading_lines(in_reply_to: Option<Seq<char>>, refs: Seq<Seq<char>>) -> Seq<u8> {
    (match in_reply_to {
        Some(id) => encode_utf8("\r\nIn-Reply-To: <"@) + encode_utf8(id) + encode_utf8(">"@),
        None => Seq::empty(),
    }) + (if refs.len() > 0 {
        encode_utf8("\r\nReferences: "@) + bracketed(refs)
    } else {
        Seq::empty()
    })
}

/// `raw` with the threading headers written at the end of its header
/// section, before the blank line: unchanged when there is nothing to
/// thread; else the header section, the threading lines, the blank line,
/// and the body.
pub open spec fn threaded(raw: Seq<u8>, in_reply_to: Option<Seq<char>>, refs: Seq<Seq<char>>) -> Seq<
    u8,
> {
    if in_reply_to is None && refs.len() == 0 {
        raw
    } else {
        let end = header_end(raw);
        let body = if end < raw.len() {
            raw.skip(end + 4)
        } else {
            Seq::empty()
        };
        raw.take(end) + threading_lines(in_reply_to, refs) + encode_utf8("\r\n\r\n"@) + body
    }
}

fn push_text(out: &mut Vec<u8>, s: &str)
    ensures
        final(out)@ == old(out)@ + encode_utf8(s@),
{
    let bytes = s.as_bytes();
    let ghost start = out@;
    let mut i: usize = 0;
    while i < bytes.len()
        invariant
            i <= bytes.len(),
            bytes@ == encode_utf8(s@),
            out@ == start + bytes@.take(i as int),
        decreases bytes.len() - i,
    {
        out.push(bytes[i]);
        assert(start + bytes@.take(i as int + 1) =~= (start + bytes@.take(i as int)).push(
            bytes@[i as int],
        ));
        i += 1;
    }
    assert(bytes@.take(bytes.len() as int) =~= bytes@);
}

fn find_header_end(raw: &Vec<u8>) -> (k: usize)
    ensures
        k == header_end(raw@),
        k <= raw.len(),
        k < raw.len() ==> k + 4 <= raw.len(),
{
    if raw.len() < 4 {
        return raw.len();
    }
    let last: usize = raw.len() - 4;
    let mut i: usize = 0;
    while i <= last
        invariant
            i <= last + 1,
            last == raw.len() - 4,
            forall|j: int| 0 <= j < i ==> !blank_line_at(raw@, j),
        decreases last + 1 - i,
    {
        if raw[i] == 13 && raw[i + 1] == 10 && raw[i + 2] == 13 && raw[i + 3] == 10 {
            proof {
                lemma_header_end(raw@);
                assert(blank_line_at(raw@, i as int));
            }
            return i;
        }
        i += 1;
    }
    proof {
        lemma_header_end(raw@);
        let e = header_end(raw@);
        if e < raw.len() {
            assert(blank_line_at(raw@, e));
        }
    }
    raw.len()
}

fn push_range(out: &mut Vec<u8>, raw: &Vec<u8>, from: usize, to: usize)
    requires
        from <= to <= raw.len(),
    ensures
        final(out)@ == old(out)@ + raw@.subrange(from as int, to as int),
{
    let ghost start = out@;
    let mut j: usize = from;
    while j < to
        invariant
            from <= j <= to <= raw.len(),
            out@ == start + raw@.subrange(from as int, j as int),
        decreases to - j,
    {
        out.push(raw[j]);
        assert(start + raw@.subrange(from as int, j as int + 1) =~= (start + raw@.subrange(
            from as int,
            j as int,
        )).push(raw@[j as int]));
        j += 1;
    }
}

fn push_bracketed(out: &mut Vec<u8>, references: &Vec<String>)
    ensures
        final(out)@ == old(out)@ + bracketed(views(references@)),
{
    let ghost refs = views(references@);
    let ghost start = out@;
    let mut k: usize = 0;
    assert(bracketed(refs.take(0)) =~= Seq::<u8>::empty());
    while k < references.len()
        invariant
            k <= references.len(),
            refs == views(references@),
            out@ == start + bracketed(refs.take(k as int)),
        decreases references.len() - k,
    {
        let ghost before = out@;
        let ghost piece = references@[k as int]@;
        proof {
            assert(refs.take(k as int + 1).drop_last() =~= refs.take(k as int));
            assert(refs.take(k as int + 1).last() == piece);
            assert(refs.take(k as int + 1)[0] == refs[0]);
        }
        if k == 0 {
            push_text(out, "<");
        } else {
            push_text(out, " <");
        }
        push_text(out, references[k].as_str());
        push_text(out, ">");
        proof {
            if k == 0 {
                assert(bracketed(refs.take(1)) == encode_utf8("<"@) + encode_utf8(piece)
                    + encode_utf8(">"@));
                assert(out@ =~= start + bracketed(refs.take(1)));
            } else {
                assert(bracketed(refs.take(k as int + 1)) == bracketed(refs.take(k as int))
                    + encode_utf8(" <"@) + encode_utf8(piece) + encode_utf8(">"@));
                assert(out@ =~= start + bracketed(refs.take(k as int + 1)));
            }
        }
        k += 1;
    }
    assert(refs.take(references.len() as int) =~= refs);
}

fn push_threading_lines(out: &mut Vec<u8>, headers: &EmailHeaders)
    ensures
        final(out)@ == old(out)@ + threading_lines(
            opt_view(headers.in_reply_to),
            views(headers.references@),
        ),
{
    let ghost start = out@;
    match &headers.in_reply_to {
        Some(id) => {
            push_text(out, "\r\nIn-Reply-To: <");
            push_text(out, id.as_str());
            push_text(out, ">");
        },
        None => {},
    }
    let ghost middle = out@;
    if headers.references.len() > 0 {
        push_text(out, "\r\nReferences: ");
        push_bracketed(out, &headers.references);
    }
    proof {
        let first: Seq<u8> = match opt_view(headers.in_reply_to) {
            Some(id) => encode_utf8("\r\nIn-Reply-To: <"@) + encode_utf8(id) + encode_utf8(">"@),
            None => Seq::empty(),
        };
        let second: Seq<u8> = if views(headers.references@).len() > 0 {
            encode_utf8("\r\nReferences: "@) + bracketed(views(headers.references@))
        } else {
            Seq::empty()
        };
        assert(middle =~= start + first);
        assert(out@ =~= middle + second);
        assert(out@ =~= start + (first + second));
    }
}

/// Writes the threading headers of `headers` into the composed message
/// `raw`, after its last header and before the blank line that ends the
/// header section: `In-Reply-To: <id>` when there is an id to reply to, and
/// `References: <id> <id> ...` when there are references.
pub fn add_threading_headers(raw: Vec<u8>, headers: &EmailHeaders) -> (r: Vec<u8>)
    ensures
        r@ == threaded(raw@, opt_view(headers.in_reply_to), views(headers.references@)),
{
    if headers.in_reply_to.is_none() && headers.references.len() == 0 {
        return raw;
    }
    let end = find_header_end(&raw);
    let mut out: Vec<u8> = Vec::new();
    push_range(&mut out, &raw, 0, end);
    push_threading_lines(&mut out, headers);
    push_text(&mut out, "\r\n\r\n");
    let ghost lines = threading_lines(opt_view(headers.in_reply_to), views(headers.references@));
    let ghost blank = encode_utf8("\r\n\r\n"@);
    if end < raw.len() {
        push_range(&mut out, &raw, end + 4, raw.len());
        proof {
            assert(raw@.subrange(0, end as int) =~= raw@.take(end as int));
            assert(raw@.subrange(end as int + 4, raw.len() as int) =~= raw@.skip(end as int + 4));
            assert(out@ =~= raw@.take(end as int) + lines + blank + raw@.skip(end as int + 4));
        }
    } else {
        proof {
            assert(raw@.subrange(0, end as int) =~= raw@.take(end as int));
            assert(out@ =~= raw@.take(end as int) + lines + blank + Seq::<u8>::empty());
        }
    }
    out
}

/// The sizes of the blobs, added up.
pub open spec fn total_size(blobs: Seq<Vec<u8>>) -> nat
    decreases blobs.len(),
{
    if blobs.len() == 0 {
        0
    } else {
        total_size(blobs.drop_last()) + blobs.last()@.len()
    }
}

/// The message for attachments that are too large together.
pub open spec fn too_large_message(total: nat) -> Seq<char> {
    "Total attachment size "@ + decimal(if total > u64::MAX { u64::MAX as nat } else { total })
        + " bytes exceeds SES limit of "@ + decimal(SES_MAX_ATTACHMENT_SIZE_BYTES as nat)
        + " bytes (10 MB)"@
}

fn total_bytes(blobs: &Vec<Vec<u8>>) -> (total: u64)
    ensures
        total == (if total_size(blobs@) > u64::MAX {
            u64::MAX as nat
        } else {
            total_size(blobs@)
        }),
{
    let mut total: u64 = 0;
    let mut i: usize = 0;
    while i < blobs.len()
        invariant
            i <= blobs.len(),
            total == (if total_size(blobs@.take(i as int)) > u64::MAX {
                u64::MAX as nat
            } else {
                total_size(blobs@.take(i as int))
            }),
        decreases blobs.len() - i,
    {
        proof {
            assert(blobs@.take(i as int + 1).drop_last() =~= blobs@.take(i as int));
        }
        let len = blobs[i].len() as u64;
        total = if len > u64::MAX - total {
            u64::MAX
        } else {
            total + len
        };
        i += 1;
    }
    assert(blobs@.take(blobs.len() as int) =~= blobs@);
    total
}

/// Something that composes outbound messages.
pub trait EmailComposer {
    /// Composes `email` with the bytes of its attachments, one blob per
    /// attachment. Attachments that together exceed 10 MiB are rejected
    /// with `Validation`.
    fn compose(&self, email: &OutboundEmail, blobs: &Vec<Vec<u8>>) -> (r: Result<
        Vec<u8>,
        MailflowError,
    >)
        ensures
            blobs@.len() == email.attachments@.len() && total_size(blobs@)
                > SES_MAX_ATTACHMENT_SIZE_BYTES ==> (r matches Err(e) && e is Validation),
    ;
}

/// The complaint about a mailbox that cannot be written, if there is one.
/// With a display name the address alone is parsed, and the name must hold
/// no line break; without one the whole text is parsed as a mailbox.
pub open spec fn mailbox_complaint(mailbox: (Seq<char>, Option<Seq<char>>)) -> Option<Seq<char>> {
    match mailbox.1 {
        Some(name) => match address_refusal(mailbox.0) {
            Some(why) => Some("Invalid email address: "@ + why),
            None => if name_writable(Some(name)) {
                None
            } else {
                Some("Invalid email address: line break in display name"@)
            },
        },
        None => match mailbox_refusal(mailbox.0) {
            Some(why) => Some("Invalid email address: "@ + why),
            None => None,
        },
    }
}

/// The address and the display name that are handed to the builder for a
/// mailbox: the two as they are when there is a name, else what is read
/// out of the text.
pub open spec fn mailbox_written(mailbox: (Seq<char>, Option<Seq<char>>)) -> (
    Seq<char>,
    Option<Seq<char>>,
) {
    match mailbox.1 {
        Some(name) => (mailbox.0, Some(name)),
        None => mailbox_read(mailbox.0),
    }
}

/// The complaint about a content type that cannot be written, if there is
/// one.
pub open spec fn content_type_complaint(content_type: Seq<char>) -> Option<Seq<char>> {
    match content_type_refusal(content_type) {
        Some(why) => Some("Invalid content type '"@ + content_type + "': "@ + why),
        None => None,
    }
}

/// One header to write, with what it is written from.
#[derive(Debug, Clone, PartialEq, Eq)]
pub enum HeaderStep {
    Subject(String),
    To(EmailAddress),
    Cc(EmailAddress),
    /// Used for the envelope; the header is dropped when the message is
    /// finished.
    Bcc(EmailAddress),
    ReplyTo(EmailAddress),
}

/// A header to write, as plain values.
pub ghost enum HeaderStepView {
    Subject(Seq<char>),
    To((Seq<char>, Option<Seq<char>>)),
    Cc((Seq<char>, Option<Seq<char>>)),
    Bcc((Seq<char>, Option<Seq<char>>)),
    ReplyTo((Seq<char>, Option<Seq<char>>)),
}

impl View for HeaderStep {
    type V = HeaderStepView;

    open spec fn view(&self) -> HeaderStepView {
        match *self {
            HeaderStep::Subject(s) => HeaderStepView::Subject(s@),
            HeaderStep::To(m) => HeaderStepView::To(m@),
            HeaderStep::Cc(m) => HeaderStepView::Cc(m@),
            HeaderStep::Bcc(m) => HeaderStepView::Bcc(m@),
            HeaderStep::ReplyTo(m) => HeaderStepView::ReplyTo(m@),
        }
    }
}

/// Which list of recipients a mailbox stands in.
#[derive(Debug, Clone, Copy, PartialEq, Eq, Structural)]
pub enum RecipientList {
    To,
    Cc,
    Bcc,
}

/// The header that a recipient of the list `list` is written to.
pub open spec fn recipient_step(list: RecipientList, mailbox: (Seq<char>, Option<Seq<char>>)) ->
    HeaderStepView {
    match list {
        RecipientList::To => HeaderStepView::To(mailbox),
        RecipientList::Cc => HeaderStepView::Cc(mailbox),
        RecipientList::Bcc => HeaderStepView::Bcc(mailbox),
    }
}

/// The headers that the recipients `mailboxes` of the list `list` are
/// written to, in order.
pub open spec fn recipient_steps(list: RecipientList, mailboxes: Seq<EmailAddress>) -> Seq<
    HeaderStepView,
> {
    mailboxes.map_values(|m: EmailAddress| recipient_step(list, m@))
}

/// The headers of a request that follow the sender, in the order in which
/// they are written: the subject, then `to`, `cc` and `bcc`, then the reply
/// address.
pub open spec fn header_steps_of(email: OutboundEmail) -> Seq<HeaderStepView> {
    seq![HeaderStepView::Subject(email.subject@)] + recipient_steps(RecipientList::To, email.to@) + recipient_steps(
        RecipientList::Cc,
        email.cc@,
    ) + recipient_steps(RecipientList::Bcc, email.bcc@) + match email.reply_to {
        Some(reply_to) => seq![HeaderStepView::ReplyTo(reply_to@)],
        None => Seq::empty(),
    }
}

/// How one part of the body is written.
#[derive(Debug, Clone, Copy, PartialEq, Eq, Structural)]
pub enum PartKind {
    /// As `text/plain`.
    Plain,
    /// As `text/html`.
    Html,
    /// As an empty `text/plain`, for a request without body.
    Empty,
}

/// One part of the body.
#[derive(Debug, Clone, PartialEq, Eq)]
pub struct BodyPart {
    pub kind: PartKind,
    pub text: String,
}

impl View for BodyPart {
    type V = (PartKind, Seq<char>);

    open spec fn view(&self) -> (PartKind, Seq<char>) {
        (self.kind, self.text@)
    }
}

/// The parts of the body of a request: the text before the HTML when both
/// are there, the one that is there when one is, and an empty text when
/// none is.
pub open spec fn body_parts_of(body: EmailBody) -> Seq<(PartKind, Seq<char>)> {
    match (body.text, body.html) {
        (Some(text), Some(html)) => seq![(PartKind::Plain, text@), (PartKind::Html, html@)],
        (Some(text), None) => seq![(PartKind::Plain, text@)],
        (None, Some(html)) => seq![(PartKind::Html, html@)],
        (None, None) => seq![(PartKind::Empty, Seq::empty())],
    }
}

/// The encoding in which attachments are transferred.
pub open spec fn attachment_encoding() -> TransferEncoding {
    TransferEncoding::Base64
}

/// One attachment to write: its file name, its declared content type, its
/// bytes and the encoding for their transfer.
#[derive(Debug, Clone, PartialEq, Eq)]
pub struct PlannedAttachment {
    pub filename: String,
    pub content_type: String,
    pub data: Vec<u8>,
    pub encoding: TransferEncoding,
}

impl View for PlannedAttachment {
    type V = (Seq<char>, Seq<char>, Seq<u8>, TransferEncoding);

    open spec fn view(&self) -> (Seq<char>, Seq<char>, Seq<u8>, TransferEncoding) {
        (self.filename@, self.content_type@, self.data@, self.encoding)
    }
}

/// The attachments of a request with their bytes, paired in order and
/// encoded as base64; what has no partner is left out.
pub open spec fn attachments_of(attachments: Seq<OutboundAttachment>, blobs: Seq<Vec<u8>>) -> Seq<
    (Seq<char>, Seq<char>, Seq<u8>, TransferEncoding),
> {
    Seq::new(
        if attachments.len() <= blobs.len() {
            attachments.len()
        } else {
            blobs.len()
        },
        |i: int|
            (
                attachments[i].filename@,
                attachments[i].content_type@,
                blobs[i]@,
                attachment_encoding(),
            ),
    )
}

/// What is handed to the builder for one message, in the order in which it
/// is handed over: the sender, the other headers, then the parts of the
/// body, which stand in a `multipart/alternative` when they are two, then
/// the attachments, which make the whole a `multipart/mixed` with the body
/// first.
#[derive(Debug, Clone, PartialEq, Eq)]
pub struct MessagePlan {
    pub sender: EmailAddress,
    pub headers: Vec<HeaderStep>,
    pub body: Vec<BodyPart>,
    pub attachments: Vec<PlannedAttachment>,
}

/// A plan, as plain values.
pub ghost struct MessagePlanView {
    pub sender: (Seq<char>, Option<Seq<char>>),
    pub headers: Seq<HeaderStepView>,
    pub body: Seq<(PartKind, Seq<char>)>,
    pub attachments: Seq<(Seq<char>, Seq<char>, Seq<u8>, TransferEncoding)>,
}

impl View for MessagePlan {
    type V = MessagePlanView;

    open spec fn view(&self) -> MessagePlanView {
        MessagePlanView {
            sender: self.sender@,
            headers: self.headers@.map_values(|s: HeaderStep| s@),
            body: self.body@.map_values(|p: BodyPart| p@),
            attachments: self.attachments@.map_values(|a: PlannedAttachment| a@),
        }
    }
}

/// The plan for the request `email` with the bytes `blobs` of its
/// attachments.
pub open spec fn plan_of(email: OutboundEmail, blobs: Seq<Vec<u8>>) -> MessagePlanView {
    MessagePlanView {
        sender: email.from@,
        headers: header_steps_of(email),
        body: body_parts_of(email.body),
        attachments: attachments_of(email.attachments@, blobs),
    }
}

/// The complaint about a header that cannot be written, if there is one.
/// Only mailboxes can be refused.
pub open spec fn step_complaint(step: HeaderStepView) -> Option<Seq<char>> {
    match step {
        HeaderStepView::Subject(_) => None,
        HeaderStepView::To(m) => mailbox_complaint(m),
        HeaderStepView::Cc(m) => mailbox_complaint(m),
        HeaderStepView::Bcc(m) => mailbox_complaint(m),
        HeaderStepView::ReplyTo(m) => mailbox_complaint(m),
    }
}

/// The complaints about headers, one place for each.
pub open spec fn header_complaints(headers: Seq<HeaderStepView>) -> Seq<Option<Seq<char>>> {
    headers.map_values(|step: HeaderStepView| step_complaint(step))
}

/// The complaints about the sender and the headers, in order.
pub open spec fn address_complaints(
    sender: (Seq<char>, Option<Seq<char>>),
    headers: Seq<HeaderStepView>,
) -> Seq<Option<Seq<char>>> {
    seq![mailbox_complaint(sender)] + header_complaints(headers)
}

/// The complaints about a plan in the order in which it is carried out:
/// its sender and its headers first, then the content types of its
/// attachments.
pub open spec fn plan_complaints(plan: MessagePlanView) -> Seq<Option<Seq<char>>> {
    address_complaints(plan.sender, plan.headers) + plan.attachments.map_values(
        |a: (Seq<char>, Seq<char>, Seq<u8>, TransferEncoding)| content_type_complaint(a.1),
    )
}

/// The complaints about a request in the order in which it is checked: its
/// mailboxes first, then the content types of its attachments.
pub open spec fn complaints(email: OutboundEmail) -> Seq<Option<Seq<char>>> {
    address_complaints(email.from@, header_steps_of(email)) + email.attachments@.map_values(
        |attachment: OutboundAttachment| content_type_complaint(attachment.content_type@),
    )
}

/// With every attachment paired, the complaints about the plan of a
/// request are the complaints about the request.
pub proof fn lemma_plan_complaints(email: OutboundEmail, blobs: Seq<Vec<u8>>)
    requires
        blobs.len() == email.attachments@.len(),
    ensures
        plan_complaints(plan_of(email, blobs)) == complaints(email),
{
    let planned = plan_of(email, blobs).attachments.map_values(
        |a: (Seq<char>, Seq<char>, Seq<u8>, TransferEncoding)| content_type_complaint(a.1),
    );
    let asked = email.attachments@.map_values(
        |attachment: OutboundAttachment| content_type_complaint(attachment.content_type@),
    );
    assert(planned =~= asked);
}

/// Adds the recipients `list` to `steps`, in order, as headers of the kind
/// `kind`.
fn push_recipients(steps: &mut Vec<HeaderStep>, list: &Vec<EmailAddress>, kind: RecipientList)
    ensures
        final(steps)@.map_values(|s: HeaderStep| s@) == old(steps)@.map_values(|s: HeaderStep| s@)
            + recipient_steps(kind, list@),
{
    let ghost before = steps@.map_values(|s: HeaderStep| s@);
    let mut i: usize = 0;
    while i < list.len()
        invariant
            i <= list.len(),
            steps@.map_values(|s: HeaderStep| s@) == before + recipient_steps(
                kind,
                list@.take(i as int),
            ),
        decreases list.len() - i,
    {
        let ghost so_far = steps@.map_values(|s: HeaderStep| s@);
        let mailbox = list[i].copy();
        let step = match kind {
            RecipientList::To => HeaderStep::To(mailbox),
            RecipientList::Cc => HeaderStep::Cc(mailbox),
            RecipientList::Bcc => HeaderStep::Bcc(mailbox),
        };
        steps.push(step);
        proof {
            assert(step@ == recipient_step(kind, list@[i as int]@));
            assert(steps@.map_values(|s: HeaderStep| s@) =~= so_far.push(step@));
            assert(recipient_steps(kind, list@.take(i as int + 1)) =~= recipient_steps(
                kind,
                list@.take(i as int),
            ).push(step@));
            assert(so_far.push(step@) =~= before + recipient_steps(
                kind,
                list@.take(i as int + 1),
            ));
        }
        i += 1;
    }
    assert(list@.take(list.len() as int) =~= list@);
}

/// The headers of `email` that follow the sender, in the order in which
/// they are written.
pub fn header_steps(email: &OutboundEmail) -> (steps: Vec<HeaderStep>)
    ensures
        steps@.map_values(|s: HeaderStep| s@) == header_steps_of(*email),
{
    let mut steps: Vec<HeaderStep> = Vec::new();
    steps.push(HeaderStep::Subject(email.subject.clone()));
    assert(steps@.map_values(|s: HeaderStep| s@) =~= seq![
        HeaderStepView::Subject(email.subject@),
    ]);
    push_recipients(&mut steps, &email.to, RecipientList::To);
    push_recipients(&mut steps, &email.cc, RecipientList::Cc);
    push_recipients(&mut steps, &email.bcc, RecipientList::Bcc);
    match &email.reply_to {
        Some(reply_to) => {
            let ghost so_far = steps@.map_values(|s: HeaderStep| s@);
            steps.push(HeaderStep::ReplyTo(reply_to.copy()));
            assert(steps@.map_values(|s: HeaderStep| s@) =~= so_far + seq![
                HeaderStepView::ReplyTo(reply_to@),
            ]);
        },
        None => {
            assert(steps@.map_values(|s: HeaderStep| s@) + Seq::empty() =~= steps@.map_values(
                |s: HeaderStep| s@,
            ));
        },
    }
    steps
}

/// The parts of `body` in the order in which they are written.
pub fn body_parts(body: &EmailBody) -> (parts: Vec<BodyPart>)
    ensures
        parts@.map_values(|p: BodyPart| p@) == body_parts_of(*body),
{
    let mut parts: Vec<BodyPart> = Vec::new();
    match (&body.text, &body.html) {
        (Some(text), Some(html)) => {
            parts.push(BodyPart { kind: PartKind::Plain, text: text.clone() });
            parts.push(BodyPart { kind: PartKind::Html, text: html.clone() });
        },
        (Some(text), None) => {
            parts.push(BodyPart { kind: PartKind::Plain, text: text.clone() });
        },
        (None, Some(html)) => {
            parts.push(BodyPart { kind: PartKind::Html, text: html.clone() });
        },
        (None, None) => {
            parts.push(BodyPart { kind: PartKind::Empty, text: String::new() });
        },
    }
    assert(parts@.map_values(|p: BodyPart| p@) =~= body_parts_of(*body));
    parts
}

/// What is handed to the builder for `email` with the bytes `blobs` of its
/// attachments.
pub fn message_plan(email: &OutboundEmail, blobs: &Vec<Vec<u8>>) -> (plan: MessagePlan)
    ensures
        plan@ == plan_of(*email, blobs@),
{
    let headers = header_steps(email);
    let body = body_parts(&email.body);
    let count = if email.attachments.len() <= blobs.len() {
        email.attachments.len()
    } else {
        blobs.len()
    };
    let mut attachments: Vec<PlannedAttachment> = Vec::new();
    let mut i: usize = 0;
    while i < count
        invariant
            i <= count,
            count <= email.attachments.len(),
            count <= blobs.len(),
            attachments@.len() == i,
            forall|j: int|
                0 <= j < i ==> (#[trigger] attachments@[j])@ == (
                    email.attachments@[j].filename@,
                    email.attachments@[j].content_type@,
                    blobs@[j]@,
                    attachment_encoding(),
                ),
        decreases count - i,
    {
        attachments.push(
            PlannedAttachment {
                filename: email.attachments[i].filename.clone(),
                content_type: email.attachments[i].content_type.clone(),
                data: copy_bytes(&blobs[i]),
                encoding: TransferEncoding::Base64,
            },
        );
        i += 1;
    }
    let plan = MessagePlan { sender: email.from.copy(), headers, body, attachments };
    assert(plan@.attachments =~= attachments_of(email.attachments@, blobs@));
    plan
}

/// The first complaint that is there.
pub open spec fn first_present(list: Seq<Option<Seq<char>>>) -> Option<Seq<char>>
    decreases list.len(),
{
    if list.len() == 0 {
        None
    } else if list[0] is Some {
        list[0]
    } else {
        first_present(list.skip(1))
    }
}

/// With nothing before place `n`, the first complaint is the one at `n`, and
/// there is none when `n` is the end.
pub proof fn lemma_first_present(list: Seq<Option<Seq<char>>>, n: int)
    requires
        0 <= n <= list.len(),
        forall|j: int| 0 <= j < n ==> list[j] is None,
    ensures
        n < list.len() && list[n] is Some ==> first_present(list) == list[n],
        n == list.len() ==> first_present(list) is None,
    decreases n,
{
    if n > 0 {
        let rest = list.skip(1);
        assert forall|j: int| 0 <= j < n - 1 implies rest[j] is None by {
            assert(rest[j] == list[j + 1]);
        }
        if n < list.len() {
            assert(rest[n - 1] == list[n]);
        }
        lemma_first_present(rest, n - 1);
    }
}

/// What is first in the front of a list is first in the whole.
pub proof fn lemma_first_of_front(front: Seq<Option<Seq<char>>>, whole: Seq<Option<Seq<char>>>)
    requires
        front.len() <= whole.len(),
        forall|j: int| 0 <= j < front.len() ==> whole[j] == front[j],
        first_present(front) is Some,
    ensures
        first_present(whole) == first_present(front),
    decreases front.len(),
{
    if front.len() > 0 && front[0] is None {
        let rest = front.skip(1);
        let tail = whole.skip(1);
        assert forall|j: int| 0 <= j < rest.len() implies tail[j] == rest[j] by {
            assert(tail[j] == whole[j + 1]);
            assert(rest[j] == front[j + 1]);
        }
        lemma_first_of_front(rest, tail);
    }
}

/// A list without a first complaint has none at all.
pub proof fn lemma_none_present(list: Seq<Option<Seq<char>>>)
    requires
        first_present(list) is None,
    ensures
        forall|j: int| 0 <= j < list.len() ==> list[j] is None,
    decreases list.len(),
{
    if list.len() > 0 {
        let rest = list.skip(1);
        lemma_none_present(rest);
        assert forall|j: int| 0 <= j < list.len() implies list[j] is None by {
            if j > 0 {
                assert(rest[j - 1] == list[j]);
            }
        }
    }
}

/// With nothing in the front of a list, what is first in the whole is what
/// is first in the rest.
pub proof fn lemma_first_absent_then(front: Seq<Option<Seq<char>>>, rest: Seq<Option<Seq<char>>>)
    requires
        forall|j: int| 0 <= j < front.len() ==> front[j] is None,
    ensures
        first_present(front + rest) == first_present(rest),
    decreases front.len(),
{
    if front.len() == 0 {
        assert(front + rest =~= rest);
    } else {
        let whole = front + rest;
        assert(whole[0] == front[0]);
        assert(whole.skip(1) =~= front.skip(1) + rest);
        assert forall|j: int| 0 <= j < front.skip(1).len() implies front.skip(1)[j] is None by {
            assert(front.skip(1)[j] == front[j + 1]);
        }
        lemma_first_absent_then(front.skip(1), rest);
    }
}

/// What a builder that held `builder` holds after the header `step` was
/// handed to it.
pub open spec fn step_applied(builder: Seq<char>, step: HeaderStepView) -> Seq<char> {
    match step {
        HeaderStepView::Subject(subject) => subject_set(builder, subject),
        HeaderStepView::To(m) => to_added(builder, mailbox_written(m).0, mailbox_written(m).1),
        HeaderStepView::Cc(m) => cc_added(builder, mailbox_written(m).0, mailbox_written(m).1),
        HeaderStepView::Bcc(m) => bcc_added(builder, mailbox_written(m).0, mailbox_written(m).1),
        HeaderStepView::ReplyTo(m) => reply_to_added(
            builder,
            mailbox_written(m).0,
            mailbox_written(m).1,
        ),
    }
}

/// What the builder holds after it was started from `sender` and the
/// headers `steps` were handed to it in order.
pub open spec fn builder_after(
    sender: (Seq<char>, Option<Seq<char>>),
    steps: Seq<HeaderStepView>,
) -> Seq<char>
    decreases steps.len(),
{
    if steps.len() == 0 {
        started_from(mailbox_written(sender).0, mailbox_written(sender).1)
    } else {
        step_applied(builder_after(sender, steps.drop_last()), steps.last())
    }
}

/// What the part made of one part of the body holds.
pub open spec fn body_part_made(part: (PartKind, Seq<char>)) -> Seq<char> {
    match part.0 {
        PartKind::Plain => plain_made(part.1),
        PartKind::Html => html_made(part.1),
        PartKind::Empty => plain_made(Seq::empty()),
    }
}

/// What a multipart that held `parts` holds after the attachments were
/// added to it in order.
pub open spec fn attachments_added(
    parts: Seq<char>,
    attachments: Seq<(Seq<char>, Seq<char>, Seq<u8>, TransferEncoding)>,
) -> Seq<char>
    decreases attachments.len(),
{
    if attachments.len() == 0 {
        parts
    } else {
        let a = attachments.last();
        part_added(
            attachments_added(parts, attachments.drop_last()),
            attachment_made(a.0, a.1, a.2, a.3),
        )
    }
}

/// What the `multipart/mixed` of a plan with attachments holds: the body
/// first, then the attachments in order.
pub open spec fn mixed_held(plan: MessagePlanView, boundaries: Seq<Seq<char>>) -> Seq<char> {
    attachments_added(
        if plan.body.len() == 2 {
            mixed_around(
                alternative_made(
                    body_part_made(plan.body[0]),
                    body_part_made(plan.body[1]),
                    boundaries[0],
                ),
                boundaries[1],
            )
        } else {
            mixed_made(body_part_made(plan.body[0]), boundaries[0])
        },
        plan.attachments,
    )
}

/// What the message holds that is built by `plan` at a moment written
/// `date`, with the boundaries `boundaries` drawn for its multiparts, the
/// inner one first. A body of two parts is a `multipart/alternative`;
/// with attachments the body stands first in a `multipart/mixed` and the
/// attachments follow in order.
pub open spec fn message_held(
    plan: MessagePlanView,
    date: Seq<char>,
    boundaries: Seq<Seq<char>>,
) -> Seq<char> {
    let builder = builder_after(plan.sender, plan.headers);
    let first = body_part_made(plan.body[0]);
    if plan.attachments.len() == 0 {
        if plan.body.len() == 2 {
            finished_multi(
                builder,
                alternative_made(first, body_part_made(plan.body[1]), boundaries[0]),
                date,
            )
        } else {
            finished_single(builder, first, date)
        }
    } else {
        finished_multi(builder, mixed_held(plan, boundaries), date)
    }
}

/// The bytes of the message that is built by `plan`.
pub open spec fn message_bytes(
    plan: MessagePlanView,
    date: Seq<char>,
    boundaries: Seq<Seq<char>>,
) -> Seq<u8> {
    formatted_bytes(message_held(plan, date, boundaries))
}

/// The error with which the message of `plan` cannot be finished, if it
/// cannot.
pub open spec fn build_refusal(plan: MessagePlanView) -> Option<Seq<char>> {
    finish_refusal(builder_after(plan.sender, plan.headers))
}

/// The message with which a request cannot be composed, if it cannot: the
/// first complaint about it, else the reason for which the builder cannot
/// finish the message.
pub open spec fn compose_refusal(email: OutboundEmail, blobs: Seq<Vec<u8>>) -> Option<Seq<char>> {
    match first_present(complaints(email)) {
        Some(complaint) => Some(complaint),
        None => match build_refusal(plan_of(email, blobs)) {
            Some(why) => Some(failure_message(build_label(plan_of(email, blobs)), why)),
            None => None,
        },
    }
}

/// The bytes of the composed request: the message that is built by its
/// plan, with its threading headers written into it.
pub open spec fn composed(
    email: OutboundEmail,
    blobs: Seq<Vec<u8>>,
    date: Seq<char>,
    boundaries: Seq<Seq<char>>,
) -> Seq<u8> {
    threaded(
        message_bytes(plan_of(email, blobs), date, boundaries),
        opt_view(email.headers.in_reply_to),
        views(email.headers.references@),
    )
}

/// The words that introduce the failure of the last step of building, by
/// the shape of the message.
pub open spec fn build_label(plan: MessagePlanView) -> Seq<char> {
    if plan.attachments.len() > 0 {
        "Failed to build multipart message with attachments"@
    } else if plan.body.len() == 2 {
        "Failed to build multipart message"@
    } else if plan.body.len() == 1 && plan.body[0].0 == PartKind::Html {
        "Failed to build HTML message"@
    } else if plan.body.len() == 1 && plan.body[0].0 == PartKind::Empty {
        "Failed to build empty message"@
    } else {
        "Failed to build text message"@
    }
}

/// The message for a step that failed with `why`.
pub open spec fn failure_message(label: Seq<char>, why: Seq<char>) -> Seq<char> {
    label + ": "@ + why
}

/// Composes outbound messages with the `lettre` crate.
#[derive(Debug, Clone, Copy, PartialEq, Eq, Structural)]
pub struct LettreEmailComposer;

impl LettreEmailComposer {
    pub fn new() -> (r: Self) {
        LettreEmailComposer
    }

    /// Whether `name`, trimmed, holds a line break.
    fn breaks_line(name: &str) -> (b: bool)
        ensures
            b == !name_writable(Some(name@)),
    {
        let trimmed = trim(name);
        let v = chars_of(trimmed.as_str());
        let mut i: usize = 0;
        while i < v.len()
            invariant
                i <= v.len(),
                v@ == trimmed_of(name@),
                forall|j: int| 0 <= j < i ==> v@[j] != '\n' && v@[j] != '\r',
            decreases v.len() - i,
        {
            if v[i] == '\n' || v[i] == '\r' {
                return true;
            }
            i += 1;
        }
        false
    }

    fn to_mailbox(address: &EmailAddress) -> (r: Result<Mailbox, MailflowError>)
        ensures
            match mailbox_complaint(address@) {
                Some(complaint) => r matches Err(e) && e is EmailParsing && e.detail()
                    == complaint,
                None => r matches Ok(mailbox) && mailbox_holds(mailbox) == mailbox_written(
                    address@,
                ) && name_writable(mailbox_holds(mailbox).1),
            },
    {
        let parsed = match &address.name {
            Some(name) => named_mailbox(name.as_str(), address.address.as_str()),
            None => parse_mailbox(address.address.as_str()),
        };
        match parsed {
            Ok(mailbox) => {
                let refused = match &address.name {
                    Some(name) => Self::breaks_line(name.as_str()),
                    None => false,
                };
                if refused {
                    Err(
                        MailflowError::EmailParsing(
                            "Invalid email address: line break in display name".to_string(),
                        ),
                    )
                } else {
                    Ok(mailbox)
                }
            },
            Err(why) => Err(
                MailflowError::EmailParsing(concat2("Invalid email address: ", why.as_str())),
            ),
        }
    }

    /// Starts a builder from `sender` and hands it the headers `steps` in
    /// order. The first mailbox that cannot be written is reported.
    fn addressed(sender: &EmailAddress, steps: &Vec<HeaderStep>) -> (r: Result<
        MessageBuilder,
        MailflowError,
    >)
        ensures
            match first_present(
                address_complaints(sender@, steps@.map_values(|s: HeaderStep| s@)),
            ) {
                Some(complaint) => r matches Err(e) && e is EmailParsing && e.detail()
                    == complaint,
                None => r matches Ok(builder) && builder_holds(builder) == builder_after(
                    sender@,
                    steps@.map_values(|s: HeaderStep| s@),
                ),
            },
    {
        let ghost views = steps@.map_values(|s: HeaderStep| s@);
        let ghost list = address_complaints(sender@, views);
        proof {
            lemma_first_present(list, 0);
        }
        let mut builder = builder_from(Self::to_mailbox(sender)?);
        proof {
            assert(views.take(0) =~= Seq::<HeaderStepView>::empty());
        }
        let mut i: usize = 0;
        while i < steps.len()
            invariant
                i <= steps.len(),
                views == steps@.map_values(|s: HeaderStep| s@),
                list == address_complaints(sender@, views),
                forall|n: int| 0 <= n < 1 + i ==> list[n] is None,
                builder_holds(builder) == builder_after(sender@, views.take(i as int)),
            decreases steps.len() - i,
        {
            proof {
                assert(list[1 + i] == step_complaint(views[i as int]));
                assert(views[i as int] == steps@[i as int]@);
                lemma_first_present(list, 1 + i);
                assert(views.take(i as int + 1).drop_last() =~= views.take(i as int));
                assert(views.take(i as int + 1).last() == views[i as int]);
            }
            builder = match &steps[i] {
                HeaderStep::Subject(subject) => with_subject(builder, subject.as_str()),
                HeaderStep::To(mailbox) => with_to(builder, Self::to_mailbox(mailbox)?),
                HeaderStep::Cc(mailbox) => with_cc(builder, Self::to_mailbox(mailbox)?),
                HeaderStep::Bcc(mailbox) => with_bcc(builder, Self::to_mailbox(mailbox)?),
                HeaderStep::ReplyTo(mailbox) => with_reply_to(
                    builder,
                    Self::to_mailbox(mailbox)?,
                ),
            };
            i += 1;
        }
        proof {
            lemma_first_present(list, 1 + i);
            assert(views.take(steps.len() as int) =~= views);
        }
        Ok(builder)
    }

    /// The bytes of a message that was finished, or the failure of
    /// finishing it, introduced by `what`.
    fn built(parts: Result<lettre::Message, String>, what: &str) -> (r: Result<
        Vec<u8>,
        MailflowError,
    >)
        ensures
            match parts {
                Ok(message) => r matches Ok(bytes) && bytes@ == formatted_bytes(
                    message_holds(message),
                ),
                Err(why) => r matches Err(e) && e is EmailParsing && e.detail()
                    == failure_message(what@, why@),
            },
    {
        match parts {
            Ok(message) => Ok(formatted(&message)),
            Err(why) => Err(MailflowError::EmailParsing(concat3(what, ": ", why.as_str()))),
        }
    }

    /// One part of the body, as the builder takes it.
    fn body_part(part: &BodyPart) -> (r: SinglePart)
        ensures
            part_holds(r) == body_part_made(part@),
    {
        proof {
            reveal_strlit("");
            assert(""@ =~= Seq::<char>::empty());
        }
        match part.kind {
            PartKind::Plain => plain_part(part.text.as_str()),
            PartKind::Html => html_part(part.text.as_str()),
            PartKind::Empty => plain_part(""),
        }
    }

    /// The body of `plan`, with its attachments, as one multipart; the
    /// first content type that cannot be written is reported.
    fn mixed(plan: &MessagePlan) -> (r: Result<MultiPart, MailflowError>)
        requires
            1 <= plan.body@.len() <= 2,
            plan.attachments@.len() > 0,
        ensures
            match first_present(
                plan@.attachments.map_values(
                    |a: (Seq<char>, Seq<char>, Seq<u8>, TransferEncoding)|
                        content_type_complaint(a.1),
                ),
            ) {
                Some(complaint) => r matches Err(e) && e is EmailParsing && e.detail()
                    == complaint,
                None => r matches Ok(parts) && exists|boundaries: Seq<Seq<char>>|
                    parts_hold(parts) == #[trigger] mixed_held(plan@, boundaries),
            },
    {
        let ghost list = plan@.attachments.map_values(
            |a: (Seq<char>, Seq<char>, Seq<u8>, TransferEncoding)| content_type_complaint(a.1),
        );
        let first = Self::body_part(&plan.body[0]);
        let ghost boundaries: Seq<Seq<char>>;
        let mut mixed: MultiPart = if plan.body.len() == 2 {
            let second = Self::body_part(&plan.body[1]);
            let inner = alternative_of(first, second);
            let ghost inner_held = parts_hold(inner);
            let around = mixed_of_multi(inner);
            proof {
                let b0 = choose|b: Seq<char>|
                    inner_held == alternative_made(
                        body_part_made(plan@.body[0]),
                        body_part_made(plan@.body[1]),
                        b,
                    );
                let b1 = choose|b: Seq<char>| parts_hold(around) == mixed_around(inner_held, b);
                boundaries = seq![b0, b1];
            }
            around
        } else {
            let around = mixed_of_single(first);
            proof {
                let b0 = choose|b: Seq<char>|
                    parts_hold(around) == mixed_made(body_part_made(plan@.body[0]), b);
                boundaries = seq![b0];
            }
            around
        };
        let ghost start = parts_hold(mixed);
        proof {
            assert(plan@.attachments.take(0) =~= Seq::empty());
        }
        let mut i: usize = 0;
        while i < plan.attachments.len()
            invariant
                i <= plan.attachments.len(),
                list == plan@.attachments.map_values(
                    |a: (Seq<char>, Seq<char>, Seq<u8>, TransferEncoding)|
                        content_type_complaint(a.1),
                ),
                forall|n: int| 0 <= n < i ==> list[n] is None,
                parts_hold(mixed) == attachments_added(start, plan@.attachments.take(i as int)),
            decreases plan.attachments.len() - i,
        {
            let attachment = &plan.attachments[i];
            proof {
                assert(plan@.attachments[i as int] == attachment@);
                assert(list[i as int] == content_type_complaint(attachment.content_type@));
                lemma_first_present(list, i as int);
                assert(plan@.attachments.take(i as int + 1).drop_last()
                    =~= plan@.attachments.take(i as int));
                assert(plan@.attachments.take(i as int + 1).last() == attachment@);
            }
            let part = match attachment_part(
                attachment.filename.as_str(),
                attachment.content_type.as_str(),
                copy_bytes(&attachment.data),
                attachment.encoding,
            ) {
                Ok(part) => part,
                Err(why) => {
                    let mut m = concat3(
                        "Invalid content type '",
                        attachment.content_type.as_str(),
                        "': ",
                    );
                    m.append(why.as_str());
                    return Err(MailflowError::EmailParsing(m));
                },
            };
            mixed = add_part(mixed, part);
            i += 1;
        }
        proof {
            lemma_first_present(list, i as int);
            assert(plan@.attachments.take(plan.attachments.len() as int) =~= plan@.attachments);
            assert(parts_hold(mixed) == mixed_held(plan@, boundaries));
        }
        Ok(mixed)
    }

    /// Carries out `plan` and gives the message without its threading
    /// headers. The first mailbox or content type that cannot be written
    /// is reported; after that the message is finished, or the builder
    /// says why it cannot be.
    fn build(plan: &MessagePlan) -> (r: Result<Vec<u8>, MailflowError>)
        requires
            1 <= plan.body@.len() <= 2,
        ensures
            match first_present(plan_complaints(plan@)) {
                Some(complaint) => r matches Err(e) && e is EmailParsing && e.detail()
                    == complaint,
                None => match build_refusal(plan@) {
                    Some(why) => r matches Err(e) && e is EmailParsing && e.detail()
                        == failure_message(build_label(plan@), why),
                    None => r matches Ok(bytes) && exists|
                        date: Seq<char>,
                        boundaries: Seq<Seq<char>>,
                    | bytes@ == #[trigger] message_bytes(plan@, date, boundaries),
                },
            },
    {
        let ghost list = plan_complaints(plan@);
        let ghost addresses = address_complaints(plan@.sender, plan@.headers);
        let ghost types = plan@.attachments.map_values(
            |a: (Seq<char>, Seq<char>, Seq<u8>, TransferEncoding)| content_type_complaint(a.1),
        );
        proof {
            if first_present(addresses) is Some {
                lemma_first_of_front(addresses, list);
            }
        }
        let builder = Self::addressed(&plan.sender, &plan.headers)?;
        proof {
            lemma_none_present(addresses);
            assert forall|n: int| 0 <= n < addresses.len() implies list[n] is None by {
                assert(list[n] == addresses[n]);
            }
        }
        let ghost builder_held = builder_holds(builder);
        if plan.attachments.len() == 0 {
            proof {
                lemma_first_present(list, addresses.len() as int);
            }
            let first = Self::body_part(&plan.body[0]);
            if plan.body.len() == 2 {
                let second = Self::body_part(&plan.body[1]);
                let parts = alternative_of(first, second);
                let ghost parts_held = parts_hold(parts);
                let what = "Failed to build multipart message";
                assert(what@ == build_label(plan@));
                let finished = finish_multi(builder, parts);
                proof {
                    if finished is Ok {
                    let message = finished->Ok_0;
                        let b0 = choose|b: Seq<char>|
                            parts_held == alternative_made(
                                body_part_made(plan@.body[0]),
                                body_part_made(plan@.body[1]),
                                b,
                            );
                        let date = choose|date: Seq<char>|
                            message_holds(message) == finished_multi(
                                builder_held,
                                parts_held,
                                date,
                            );
                        assert(formatted_bytes(message_holds(message)) == message_bytes(
                            plan@,
                            date,
                            seq![b0],
                        ));
                    }
                }
                return Self::built(finished, what);
            }
            let what = match plan.body[0].kind {
                PartKind::Plain => "Failed to build text message",
                PartKind::Html => "Failed to build HTML message",
                PartKind::Empty => "Failed to build empty message",
            };
            assert(what@ == build_label(plan@));
            let finished = finish_single(builder, first);
            proof {
                if finished is Ok {
                    let message = finished->Ok_0;
                    let date = choose|date: Seq<char>|
                        message_holds(message) == finished_single(
                            builder_held,
                            body_part_made(plan@.body[0]),
                            date,
                        );
                    assert(formatted_bytes(message_holds(message)) == message_bytes(
                        plan@,
                        date,
                        Seq::empty(),
                    ));
                }
            }
            return Self::built(finished, what);
        }
        proof {
            if first_present(types) is Some {
                lemma_first_absent_then(addresses, types);
            } else {
                lemma_none_present(types);
                assert forall|n: int| 0 <= n < list.len() implies list[n] is None by {
                    if n >= addresses.len() {
                        assert(list[n] == types[n - addresses.len()]);
                    }
                }
                lemma_first_present(list, list.len() as int);
            }
        }
        let mixed = Self::mixed(plan)?;
        let ghost parts_held = parts_hold(mixed);
        let what = "Failed to build multipart message with attachments";
        assert(what@ == build_label(plan@));
        let finished = finish_multi(builder, mixed);
        proof {
            if finished is Ok {
                    let message = finished->Ok_0;
                let boundaries = choose|boundaries: Seq<Seq<char>>|
                    parts_held == #[trigger] mixed_held(plan@, boundaries);
                let date = choose|date: Seq<char>|
                    message_holds(message) == finished_multi(builder_held, parts_held, date);
                assert(formatted_bytes(message_holds(message)) == message_bytes(
                    plan@,
                    date,
                    boundaries,
                ));
            }
        }
        Self::built(finished, what)
    }

}

impl EmailComposer for LettreEmailComposer {
    /// Composes `email` with the bytes of its attachments, one blob per
    /// attachment in the order of the request. Blobs that do not match the
    /// attachments, or that together exceed 10 MiB, are rejected with
    /// `Validation` before anything is built. What is handed to the
    /// builder, and in which order, is the plan of [`message_plan`]. The
    /// first mailbox or content type that cannot be written is rejected
    /// with `EmailParsing`, and so is a message that the builder cannot
    /// finish; every other request is composed. BCC recipients are not
    /// written into the headers. What comes back is the message that the
    /// builder makes of the plan, at this moment and with the boundaries it
    /// draws, with the threading headers of the request written into it.
    fn compose(&self, email: &OutboundEmail, blobs: &Vec<Vec<u8>>) -> (r: Result<
        Vec<u8>,
        MailflowError,
    >)
        ensures
            blobs@.len() != email.attachments@.len() ==> (r matches Err(e) && e is Validation
                && e.detail() == "Attachment data does not match the attachments of the message"@),
            blobs@.len() == email.attachments@.len() && total_size(blobs@)
                > SES_MAX_ATTACHMENT_SIZE_BYTES ==> (r matches Err(e) && e is Validation
                && e.detail() == too_large_message(total_size(blobs@))),
            blobs@.len() == email.attachments@.len() && total_size(blobs@)
                <= SES_MAX_ATTACHMENT_SIZE_BYTES ==> match compose_refusal(*email, blobs@) {
                Some(why) => r matches Err(e) && e is EmailParsing && e.detail() == why,
                None => r matches Ok(bytes) && exists|date: Seq<char>, boundaries: Seq<Seq<char>>|
                    bytes@ == #[trigger] composed(*email, blobs@, date, boundaries),
            },
    {
        if blobs.len() != email.attachments.len() {
            return Err(
                MailflowError::Validation(
                    "Attachment data does not match the attachments of the message".to_string(),
                ),
            );
        }
        let total = total_bytes(blobs);
        if total > SES_MAX_ATTACHMENT_SIZE_BYTES as u64 {
            let mut m = concat2("Total attachment size ", decimal_string(total).as_str());
            m.append(" bytes exceeds SES limit of ");
            m.append(decimal_string(SES_MAX_ATTACHMENT_SIZE_BYTES as u64).as_str());
            m.append(" bytes (10 MB)");
            return Err(MailflowError::Validation(m));
        }
        let plan = message_plan(email, blobs);
        proof {
            lemma_plan_complaints(*email, blobs@);
            assert(plan@.body.len() == plan.body@.len());
        }
        let built = match Self::build(&plan) {
            Ok(built) => built,
            Err(e) => {
                return Err(e);
            },
        };
        let ghost before = built@;
        let bytes = add_threading_headers(built, &email.headers);
        proof {
            let (date, boundaries) = choose|date: Seq<char>, boundaries: Seq<Seq<char>>|
                before == #[trigger] message_bytes(plan@, date, boundaries);
            assert(bytes@ == composed(*email, blobs@, date, boundaries));
        }
        Ok(bytes)
    }
}

impl Default for LettreEmailComposer {
    fn default() -> (r: Self) {
        LettreEmailComposer
    }
}

} // verus!
