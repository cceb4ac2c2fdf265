//! Building a message with the `lettre` crate.
//!
//! The builder, its parts and the finished message are values of that crate
//! and are opaque here. Each function below makes one step. What a value
//! of the crate holds has a name, and so has what each step makes of what
//! it is given: every step depends on its arguments alone, but for the
//! boundary that a multipart draws at random and the date that finishing a
//! message adds. So the bytes that come out are fixed by what was handed
//! over, the date and the boundaries.

use lettre::message::header::{ContentTransferEncoding, ContentType};
use lettre::message::{Attachment, Body, Mailbox, MessageBuilder, MultiPart, SinglePart};
use lettre::Message;
use crate::foreign::trimmed_of;
use vstd::prelude::*;

verus! {

#[verifier::external_type_specification]
#[verifier::external_body]
pub struct ExMessageBuilder(MessageBuilder);

#[verifier::external_type_specification]
#[verifier::external_body]
pub struct ExMailbox(Mailbox);

#[verifier::external_type_specification]
#[verifier::external_body]
pub struct ExMultiPart(MultiPart);

#[verifier::external_type_specification]
#[verifier::external_body]
pub struct ExSinglePart(SinglePart);

#[verifier::external_type_specification]
#[verifier::external_body]
pub struct ExLettreMessage(Message);

/// The address and the display name that `mailbox` holds.
pub uninterp spec fn mailbox_holds(mailbox: Mailbox) -> (Seq<char>, Option<Seq<char>>);

/// Everything that `builder` holds: its headers, its envelope and whether
/// it keeps `Bcc`, as its `Debug` rendering gives them.
pub uninterp spec fn builder_holds(builder: MessageBuilder) -> Seq<char>;

/// Everything that `part` holds: its headers and its encoded body, as its
/// `Debug` rendering gives them.
pub uninterp spec fn part_holds(part: SinglePart) -> Seq<char>;

/// Everything that `parts` holds: its headers, with the boundary, and its
/// parts in order, as its `Debug` rendering gives them.
pub uninterp spec fn parts_hold(parts: MultiPart) -> Seq<char>;

/// Everything that `message` holds: its headers, its body and its
/// envelope, as its `Debug` rendering gives them.
pub uninterp spec fn message_holds(message: Message) -> Seq<char>;

/// The error with which `Mailbox::from_str` refuses `text`, rendered; none
/// where it accepts the text.
pub uninterp spec fn mailbox_refusal(text: Seq<char>) -> Option<Seq<char>>;

/// The error with which `Address::from_str` refuses `text`, rendered; none
/// where it accepts the text.
pub uninterp spec fn address_refusal(text: Seq<char>) -> Option<Seq<char>>;

/// The error with which `ContentType::parse` refuses `text`, rendered; none
/// where it accepts the text.
pub uninterp spec fn content_type_refusal(text: Seq<char>) -> Option<Seq<char>>;

/// The address and the display name that `Mailbox::from_str` reads out of
/// `text`, where it accepts the text.
pub uninterp spec fn mailbox_read(text: Seq<char>) -> (Seq<char>, Option<Seq<char>>);

/// What a builder holds after `Message::builder().from(..)` with a mailbox
/// that holds `address` and `name`.
pub uninterp spec fn started_from(address: Seq<char>, name: Option<Seq<char>>) -> Seq<char>;

/// What a builder that held `builder` holds after `MessageBuilder::to` with
/// a mailbox that holds `address` and `name`.
pub uninterp spec fn to_added(builder: Seq<char>, address: Seq<char>, name: Option<Seq<char>>) ->
    Seq<char>;

/// What a builder that held `builder` holds after `MessageBuilder::cc`.
pub uninterp spec fn cc_added(builder: Seq<char>, address: Seq<char>, name: Option<Seq<char>>) ->
    Seq<char>;

/// What a builder that held `builder` holds after `MessageBuilder::bcc`.
pub uninterp spec fn bcc_added(builder: Seq<char>, address: Seq<char>, name: Option<Seq<char>>) ->
    Seq<char>;

/// What a builder that held `builder` holds after
/// `MessageBuilder::reply_to`.
pub uninterp spec fn reply_to_added(
    builder: Seq<char>,
    address: Seq<char>,
    name: Option<Seq<char>>,
) -> Seq<char>;

/// What a builder that held `builder` holds after
/// `MessageBuilder::subject`.
pub uninterp spec fn subject_set(builder: Seq<char>, subject: Seq<char>) -> Seq<char>;

/// What the part that `SinglePart::plain` makes of `text` holds.
pub uninterp spec fn plain_made(text: Seq<char>) -> Seq<char>;

/// What the part that `SinglePart::html` makes of `html` holds.
pub uninterp spec fn html_made(html: Seq<char>) -> Seq<char>;

/// What a `multipart/alternative` with the boundary `boundary` holds once
/// the parts that held `first` and `second` were added to it, in that
/// order.
pub uninterp spec fn alternative_made(first: Seq<char>, second: Seq<char>, boundary: Seq<char>) ->
    Seq<char>;

/// What a `multipart/mixed` with the boundary `boundary` holds once the
/// single part that held `part` was added to it.
pub uninterp spec fn mixed_made(part: Seq<char>, boundary: Seq<char>) -> Seq<char>;

/// What a `multipart/mixed` with the boundary `boundary` holds once the
/// multipart that held `inner` was added to it.
pub uninterp spec fn mixed_around(inner: Seq<char>, boundary: Seq<char>) -> Seq<char>;

/// What a multipart that held `parts` holds after `MultiPart::singlepart`
/// with a part that held `part`.
pub uninterp spec fn part_added(parts: Seq<char>, part: Seq<char>) -> Seq<char>;

/// What the attachment part made of these holds.
pub uninterp spec fn attachment_made(
    filename: Seq<char>,
    content_type: Seq<char>,
    data: Seq<u8>,
    encoding: TransferEncoding,
) -> Seq<char>;

/// The error with which a message cannot be finished from a builder that
/// holds `builder`, rendered; none where it can. The body plays no part in
/// it.
pub uninterp spec fn finish_refusal(builder: Seq<char>) -> Option<Seq<char>>;

/// What the message holds that `MessageBuilder::singlepart` finishes, at a
/// moment that is written `date`, from a builder that held `builder` and a
/// part that held `part`.
pub uninterp spec fn finished_single(builder: Seq<char>, part: Seq<char>, date: Seq<char>) -> Seq<
    char,
>;

/// What the message holds that `MessageBuilder::multipart` finishes, at a
/// moment that is written `date`, from a builder that held `builder` and a
/// multipart that held `parts`.
pub uninterp spec fn finished_multi(builder: Seq<char>, parts: Seq<char>, date: Seq<char>) -> Seq<
    char,
>;

/// The bytes that `Message::formatted` writes for a message that holds
/// `message`.
pub uninterp spec fn formatted_bytes(message: Seq<char>) -> Seq<u8>;

/// Whether a display name can be written into a header: trimmed, it holds
/// no line break. lettre stops the program on a name that cannot.
pub open spec fn name_writable(name: Option<Seq<char>>) -> bool {
    name matches Some(n) ==> !trimmed_of(n).contains('\n') && !trimmed_of(n).contains('\r')
}

/// Parses `address` with `Mailbox::from_str`; the error is rendered with its
/// `Display`. Whether the text is accepted, what is read out of it, and the
/// error if it is refused, depend on the text alone. No character that the
/// grammar lets into a display name is a line break.
#[verifier::external_body]
pub(crate) fn parse_mailbox(address: &str) -> (r: Result<Mailbox, String>)
    ensures
        match r {
            Ok(mailbox) => mailbox_refusal(address@) is None && mailbox_holds(mailbox)
                == mailbox_read(address@) && name_writable(mailbox_holds(mailbox).1),
            Err(why) => mailbox_refusal(address@) == Some(why@),
        },
{
    address.parse::<Mailbox>().map_err(|e| e.to_string())
}

/// Parses `address` with `Address::from_str` and calls `Mailbox::new` with
/// the display name `name`; the error is rendered with its `Display`.
/// `Mailbox::new` has no error, so the address alone decides; the mailbox
/// holds the address as it was given and the name.
#[verifier::external_body]
pub(crate) fn named_mailbox(name: &str, address: &str) -> (r: Result<Mailbox, String>)
    ensures
        match r {
            Ok(mailbox) => address_refusal(address@) is None && mailbox_holds(mailbox) == (
                address@,
                Some(name@),
            ),
            Err(why) => address_refusal(address@) == Some(why@),
        },
{
    let parsed = address.parse::<lettre::Address>().map_err(|e| e.to_string())?;
    Ok(Mailbox::new(Some(name.to_string()), parsed))
}

/// Calls `Message::builder` and `MessageBuilder::from`.
#[verifier::external_body]
pub(crate) fn builder_from(mailbox: Mailbox) -> (r: MessageBuilder)
    requires
        name_writable(mailbox_holds(mailbox).1),
    ensures
        builder_holds(r) == started_from(mailbox_holds(mailbox).0, mailbox_holds(mailbox).1),
{
    Message::builder().from(mailbox)
}

/// Calls `MessageBuilder::to`.
#[verifier::external_body]
pub(crate) fn with_to(builder: MessageBuilder, mailbox: Mailbox) -> (r: MessageBuilder)
    requires
        name_writable(mailbox_holds(mailbox).1),
    ensures
        builder_holds(r) == to_added(
            builder_holds(builder),
            mailbox_holds(mailbox).0,
            mailbox_holds(mailbox).1,
        ),
{
    builder.to(mailbox)
}

/// Calls `MessageBuilder::cc`.
#[verifier::external_body]
pub(crate) fn with_cc(builder: MessageBuilder, mailbox: Mailbox) -> (r: MessageBuilder)
    requires
        name_writable(mailbox_holds(mailbox).1),
    ensures
        builder_holds(r) == cc_added(
            builder_holds(builder),
            mailbox_holds(mailbox).0,
            mailbox_holds(mailbox).1,
        ),
{
    builder.cc(mailbox)
}

/// Calls `MessageBuilder::bcc`. The builder uses the mailbox for the
/// envelope and, unless told to keep it, drops the `Bcc` header when the
/// message is built.
#[verifier::external_body]
pub(crate) fn with_bcc(builder: MessageBuilder, mailbox: Mailbox) -> (r: MessageBuilder)
    requires
        name_writable(mailbox_holds(mailbox).1),
    ensures
        builder_holds(r) == bcc_added(
            builder_holds(builder),
            mailbox_holds(mailbox).0,
            mailbox_holds(mailbox).1,
        ),
{
    builder.bcc(mailbox)
}

/// Calls `MessageBuilder::reply_to`.
#[verifier::external_body]
pub(crate) fn with_reply_to(builder: MessageBuilder, mailbox: Mailbox) -> (r: MessageBuilder)
    requires
        name_writable(mailbox_holds(mailbox).1),
    ensures
        builder_holds(r) == reply_to_added(
            builder_holds(builder),
            mailbox_holds(mailbox).0,
            mailbox_holds(mailbox).1,
        ),
{
    builder.reply_to(mailbox)
}

/// Calls `MessageBuilder::subject`.
#[verifier::external_body]
pub(crate) fn with_subject(builder: MessageBuilder, subject: &str) -> (r: MessageBuilder)
    ensures
        builder_holds(r) == subject_set(builder_holds(builder), subject@),
{
    builder.subject(subject)
}

/// Calls `SinglePart::plain`.
#[verifier::external_body]
pub(crate) fn plain_part(text: &str) -> (r: SinglePart)
    ensures
        part_holds(r) == plain_made(text@),
{
    SinglePart::plain(text.to_string())
}

/// Calls `SinglePart::html`.
#[verifier::external_body]
pub(crate) fn html_part(html: &str) -> (r: SinglePart)
    ensures
        part_holds(r) == html_made(html@),
{
    SinglePart::html(html.to_string())
}

/// Calls `MultiPart::alternative`, which draws a boundary at random, and
/// adds the two parts in the order given.
#[verifier::external_body]
pub(crate) fn alternative_of(first: SinglePart, second: SinglePart) -> (r: MultiPart)
    ensures
        exists|boundary: Seq<char>|
            parts_hold(r) == alternative_made(part_holds(first), part_holds(second), boundary),
{
    MultiPart::alternative().singlepart(first).singlepart(second)
}

/// Calls `MultiPart::mixed`, which draws a boundary at random, and adds
/// `part`.
#[verifier::external_body]
pub(crate) fn mixed_of_single(part: SinglePart) -> (r: MultiPart)
    ensures
        exists|boundary: Seq<char>| parts_hold(r) == mixed_made(part_holds(part), boundary),
{
    MultiPart::mixed().singlepart(part)
}

/// Calls `MultiPart::mixed`, which draws a boundary at random, and adds
/// `part`.
#[verifier::external_body]
pub(crate) fn mixed_of_multi(part: MultiPart) -> (r: MultiPart)
    ensures
        exists|boundary: Seq<char>| parts_hold(r) == mixed_around(parts_hold(part), boundary),
{
    MultiPart::mixed().multipart(part)
}

/// Calls `MultiPart::singlepart`.
#[verifier::external_body]
pub(crate) fn add_part(parts: MultiPart, part: SinglePart) -> (r: MultiPart)
    ensures
        parts_hold(r) == part_added(parts_hold(parts), part_holds(part)),
{
    parts.singlepart(part)
}

/// An encoding for the transfer of a part that takes any bytes.
#[derive(Debug, Clone, Copy, PartialEq, Eq, Structural)]
pub enum TransferEncoding {
    Base64,
    QuotedPrintable,
    Binary,
}

/// Parses `content_type` with `ContentType::parse`, encodes `data` with
/// `Body::new_with_encoding`, and calls `Attachment::new(filename).body`.
/// The error of the parse is rendered with its `Display`; none of the three
/// encodings refuses any bytes, so the content type alone decides.
#[verifier::external_body]
pub(crate) fn attachment_part(
    filename: &str,
    content_type: &str,
    data: Vec<u8>,
    encoding: TransferEncoding,
) -> (r: Result<SinglePart, String>)
    ensures
        match r {
            Ok(part) => content_type_refusal(content_type@) is None && part_holds(part)
                == attachment_made(filename@, content_type@, data@, encoding),
            Err(why) => content_type_refusal(content_type@) == Some(why@),
        },
{
    let parsed = ContentType::parse(content_type).map_err(|e| e.to_string())?;
    let encoding = match encoding {
        TransferEncoding::Base64 => ContentTransferEncoding::Base64,
        TransferEncoding::QuotedPrintable => ContentTransferEncoding::QuotedPrintable,
        TransferEncoding::Binary => ContentTransferEncoding::Binary,
    };
    let body = Body::new_with_encoding(data, encoding).map_err(|_| String::new())?;
    Ok(Attachment::new(filename.to_string()).body(body, parsed))
}

/// Calls `MessageBuilder::singlepart`, which adds the date of the moment
/// where the builder holds none; the error is rendered with its `Display`.
/// Whether the message can be finished depends on what the builder holds
/// alone.
#[verifier::external_body]
pub(crate) fn finish_single(builder: MessageBuilder, part: SinglePart) -> (r: Result<
    Message,
    String,
>)
    ensures
        match r {
            Ok(message) => finish_refusal(builder_holds(builder)) is None && exists|
                date: Seq<char>,
            |
                message_holds(message) == finished_single(
                    builder_holds(builder),
                    part_holds(part),
                    date,
                ),
            Err(why) => finish_refusal(builder_holds(builder)) == Some(why@),
        },
{
    builder.singlepart(part).map_err(|e| e.to_string())
}

/// Calls `MessageBuilder::multipart`, which adds the date of the moment
/// where the builder holds none; the error is rendered with its `Display`.
/// Whether the message can be finished depends on what the builder holds
/// alone.
#[verifier::external_body]
pub(crate) fn finish_multi(builder: MessageBuilder, parts: MultiPart) -> (r: Result<
    Message,
    String,
>)
    ensures
        match r {
            Ok(message) => finish_refusal(builder_holds(builder)) is None && exists|
                date: Seq<char>,
            |
                message_holds(message) == finished_multi(
                    builder_holds(builder),
                    parts_hold(parts),
                    date,
                ),
            Err(why) => finish_refusal(builder_holds(builder)) == Some(why@),
        },
{
    builder.multipart(parts).map_err(|e| e.to_string())
}

/// Calls `Message::formatted`.
#[verifier::external_body]
pub(crate) fn formatted(message: &Message) -> (r: Vec<u8>)
    ensures
        r@ == formatted_bytes(message_holds(*message)),
{
    message.formatted()
}

} // verus!
