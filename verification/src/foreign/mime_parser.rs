//! What is read out of a message parsed by the `mail_parser` crate.
//!
//! A parsed message is a value of that crate and is opaque here. Each
//! function below reads one thing out of a message that the parser made,
//! and hands it over as plain values. What the parser finds depends on the
//! bytes alone, so each reading has a name over the bytes that the message
//! was parsed from; nothing more is claimed of it.

use mail_parser::{Address, GetHeader, Message, MessageParser, MimeHeaders, PartType};
use vstd::prelude::*;

verus! {

/// A message parsed by `mail_parser`.
#[verifier::external_type_specification]
#[verifier::external_body]
pub struct ExMessage<'x>(Message<'x>);

/// One mailbox of an address header, as the parser found it.
#[derive(Debug, Clone, PartialEq, Eq)]
pub struct MimeAddress {
    pub name: Option<String>,
    pub address: Option<String>,
}

/// The value of an address header: absent, a list of mailboxes, or groups of
/// mailboxes.
#[derive(Debug, Clone, PartialEq, Eq)]
pub enum MimeAddressList {
    Absent,
    List(Vec<MimeAddress>),
    Groups(Vec<Vec<MimeAddress>>),
}

/// The body of one part of a message.
#[derive(Debug, Clone, PartialEq, Eq)]
pub enum MimePartBody {
    Text(Vec<u8>),
    Html(Vec<u8>),
    Binary(Vec<u8>),
    InlineBinary(Vec<u8>),
    Message,
    Multipart,
}

/// Whether `MessageParser::default().parse` finds a message in `raw`.
pub uninterp spec fn is_message(raw: Seq<u8>) -> bool;

/// The bytes that `message` was parsed from, where it is what
/// `MessageParser::default().parse` makes of the bytes that it holds; none
/// for a message that was put together in another way.
pub uninterp spec fn parsed_from(message: Message<'_>) -> Option<Seq<u8>>;

/// Calls `MessageParser::default().parse`, which returns nothing when it
/// finds no header in `raw` and never panics. Whether it finds a message
/// depends on the bytes alone; the message that it finds holds the bytes.
#[verifier::external_body]
pub(crate) fn parse_message<'x>(raw: &'x [u8]) -> (r: Option<Message<'x>>)
    ensures
        r is Some <==> is_message(raw@),
        r matches Some(message) ==> parsed_from(message) == Some(raw@),
{
    MessageParser::default().parse(raw)
}

/// The text of the last header `name` of the root part of the message that
/// `mail_parser` finds in `raw`.
pub uninterp spec fn header_text_of(raw: Seq<u8>, name: Seq<char>) -> Option<String>;

/// The texts of the last header `name` of the root part of the message in
/// `raw`.
pub uninterp spec fn header_texts_of(raw: Seq<u8>, name: Seq<char>) -> Option<Vec<String>>;

/// The mailboxes of the last header `name` of the root part of the message
/// in `raw`.
pub uninterp spec fn header_addresses_of(raw: Seq<u8>, name: Seq<char>) -> Option<
    MimeAddressList,
>;

/// The first text body of the message in `raw`, as plain text.
pub uninterp spec fn text_body_of(raw: Seq<u8>) -> Option<String>;

/// The first HTML body of the message in `raw`, as HTML.
pub uninterp spec fn html_body_of(raw: Seq<u8>) -> Option<String>;

/// The number of parts of the message in `raw`.
pub uninterp spec fn part_count_of(raw: Seq<u8>) -> usize;

/// The disposition type of part `index` of the message in `raw`.
pub uninterp spec fn part_disposition_of(raw: Seq<u8>, index: usize) -> Option<String>;

/// The `filename` attribute of the disposition of part `index` of the
/// message in `raw`.
pub uninterp spec fn part_filename_of(raw: Seq<u8>, index: usize) -> Option<String>;

/// The content type and subtype of part `index` of the message in `raw`.
pub uninterp spec fn part_content_type_of(raw: Seq<u8>, index: usize) -> Option<
    (String, Option<String>),
>;

/// The content id of part `index` of the message in `raw`.
pub uninterp spec fn part_content_id_of(raw: Seq<u8>, index: usize) -> Option<String>;

/// The body of part `index` of the message in `raw`.
pub uninterp spec fn part_body_of(raw: Seq<u8>, index: usize) -> Option<MimePartBody>;

/// Looks the header `name` up among the headers of the root
/// part (`Message::part(0)`, `GetHeader::header`), which yields the last
/// header of that name, and calls `HeaderValue::as_text` on its value. The
/// parser reads nothing but the bytes.
#[verifier::external_body]
pub(crate) fn header_text(message: &Message<'_>, name: &str) -> (r: Option<String>)
    requires
        parsed_from(*message) is Some,
    ensures
        r == header_text_of(parsed_from(*message)->0, name@),
{
    message.part(0)?.headers.header(name)?.value.as_text().map(|text| text.to_string())
}

/// Looks the header `name` up among the headers of the root
/// part and calls `HeaderValue::as_text_list` on its value.
#[verifier::external_body]
pub(crate) fn header_text_list(message: &Message<'_>, name: &str) -> (r: Option<Vec<String>>)
    requires
        parsed_from(*message) is Some,
    ensures
        r == header_texts_of(parsed_from(*message)->0, name@),
{
    let list = message.part(0)?.headers.header(name)?.value.as_text_list()?;
    Some(list.iter().map(|text| text.to_string()).collect())
}

/// Looks the header `name` up among the headers of the root
/// part, calls `HeaderValue::as_address` on its value, and copies the
/// mailboxes. Nothing comes back for a header that is absent or holds no
/// addresses.
#[verifier::external_body]
pub(crate) fn header_addresses(message: &Message<'_>, name: &str) -> (r: Option<
    MimeAddressList,
>)
    requires
        parsed_from(*message) is Some,
    ensures
        r == header_addresses_of(parsed_from(*message)->0, name@),
{
    let copy = |a: &mail_parser::Addr| MimeAddress {
        name: a.name.as_ref().map(|n| n.to_string()),
        address: a.address.as_ref().map(|n| n.to_string()),
    };
    Some(match message.part(0)?.headers.header(name)?.value.as_address()? {
        Address::List(list) => MimeAddressList::List(list.iter().map(copy).collect()),
        Address::Group(groups) => MimeAddressList::Groups(
            groups.iter().map(|g| g.addresses.iter().map(copy).collect()).collect(),
        ),
    })
}

/// Calls `Message::body_text(0)`: the first text body,
/// rendered as plain text.
#[verifier::external_body]
pub(crate) fn first_text_body(message: &Message<'_>) -> (r: Option<String>)
    requires
        parsed_from(*message) is Some,
    ensures
        r == text_body_of(parsed_from(*message)->0),
{
    message.body_text(0).map(|text| text.to_string())
}

/// Calls `Message::body_html(0)`: the first HTML body,
/// rendered as HTML.
#[verifier::external_body]
pub(crate) fn first_html_body(message: &Message<'_>) -> (r: Option<String>)
    requires
        parsed_from(*message) is Some,
    ensures
        r == html_body_of(parsed_from(*message)->0),
{
    message.body_html(0).map(|html| html.to_string())
}

/// The length of `Message::parts`.
#[verifier::external_body]
pub(crate) fn part_count(message: &Message<'_>) -> (r: usize)
    requires
        parsed_from(*message) is Some,
    ensures
        r == part_count_of(parsed_from(*message)->0),
{
    message.parts.len()
}

/// Calls `Message::part` and `MimeHeaders::content_disposition`,
/// and takes the disposition type: `attachment`, `inline`, or whatever the
/// part says.
#[verifier::external_body]
pub(crate) fn part_disposition(message: &Message<'_>, index: usize) -> (r: Option<String>)
    requires
        parsed_from(*message) is Some,
    ensures
        r == part_disposition_of(parsed_from(*message)->0, index),
{
    message.part(index)?.content_disposition().map(|d| d.ctype().to_string())
}

/// Calls `Message::part` and `MimeHeaders::content_disposition`,
/// and takes the `filename` attribute of the disposition.
#[verifier::external_body]
pub(crate) fn part_disposition_filename(message: &Message<'_>, index: usize) -> (r: Option<String>)
    requires
        parsed_from(*message) is Some,
    ensures
        r == part_filename_of(parsed_from(*message)->0, index),
{
    message.part(index)?.content_disposition()?.attribute("filename").map(|f| f.to_string())
}

/// Calls `Message::part` and `MimeHeaders::content_type`, and
/// takes the type and, where there is one, the subtype.
#[verifier::external_body]
pub(crate) fn part_content_type(message: &Message<'_>, index: usize) -> (r: Option<
    (String, Option<String>),
>)
    requires
        parsed_from(*message) is Some,
    ensures
        r == part_content_type_of(parsed_from(*message)->0, index),
{
    let content_type = message.part(index)?.content_type()?;
    Some((content_type.ctype().to_string(), content_type.subtype().map(|s| s.to_string())))
}

/// Calls `Message::part` and `MimeHeaders::content_id`.
#[verifier::external_body]
pub(crate) fn part_content_id(message: &Message<'_>, index: usize) -> (r: Option<String>)
    requires
        parsed_from(*message) is Some,
    ensures
        r == part_content_id_of(parsed_from(*message)->0, index),
{
    message.part(index)?.content_id().map(|id| id.to_string())
}

/// Calls `Message::part` and copies the body of the part, by
/// its kind.
#[verifier::external_body]
pub(crate) fn part_body(message: &Message<'_>, index: usize) -> (r: Option<MimePartBody>)
    requires
        parsed_from(*message) is Some,
    ensures
        r == part_body_of(parsed_from(*message)->0, index),
{
    Some(match &message.part(index)?.body {
        PartType::Text(text) => MimePartBody::Text(text.as_bytes().to_vec()),
        PartType::Html(html) => MimePartBody::Html(html.as_bytes().to_vec()),
        PartType::Binary(data) => MimePartBody::Binary(data.to_vec()),
        PartType::InlineBinary(data) => MimePartBody::InlineBinary(data.to_vec()),
        PartType::Message(_) => MimePartBody::Message,
        PartType::Multipart(_) => MimePartBody::Multipart,
    })
}

} // verus!
