//! From raw RFC 5322 bytes to an [`Email`].
//!
//! The MIME structure is found by the `mail_parser` crate; what this module
//! decides is what of it becomes the message: which mailbox is the sender,
//! which parts are attachments and under which names, what the message id
//! is when the message has none.

use crate::error::MailflowError;
use crate::foreign::mime_parser::{
    first_html_body, first_text_body, header_addresses, header_text, header_text_list, part_body,
    header_addresses_of, header_text_of, header_texts_of, html_body_of, is_message,
    part_body_of, part_content_id, part_content_id_of, part_content_type, part_content_type_of,
    part_count, part_count_of, part_disposition, part_disposition_filename, part_disposition_of,
    part_filename_of, parse_message, parsed_from, text_body_of, MimeAddress, MimeAddressList, MimePartBody,
};
use crate::foreign::utc_now;
use crate::models::email::{
    blob_views, mailbox_views, AttachmentData, Email, EmailAddress, EmailBody, EmailHeaders,
    Timestamp,
};
use crate::text::{
    chars_of, concat2, concat3, copy_bytes, copy_opt, copy_strings, decimal, decimal_string,
    opt_view, string_of_range,
};
use mail_parser::Message;
use vstd::prelude::*;

verus! {

/// One part of a message, as far as the rules on attachments read it.
#[derive(Debug, Clone, PartialEq, Eq)]
pub struct MimePart {
    /// The type of the content disposition: `attachment`, `inline`, ...
    pub disposition: Option<String>,
    /// The `filename` attribute of the content disposition.
    pub filename: Option<String>,
    /// The type and the subtype of the content.
    pub content_type: Option<(String, Option<String>)>,
    pub content_id: Option<String>,
    pub body: MimePartBody,
}

/// A message as the MIME parser found it.
#[derive(Debug, Clone, PartialEq, Eq)]
pub struct MimeMessage {
    pub message_id: Option<String>,
    pub subject: Option<String>,
    pub from: MimeAddressList,
    pub to: MimeAddressList,
    pub cc: MimeAddressList,
    pub bcc: MimeAddressList,
    pub reply_to: MimeAddressList,
    pub in_reply_to: Option<Vec<String>>,
    pub references: Option<Vec<String>>,
    pub text_body: Option<String>,
    pub html_body: Option<String>,
    pub parts: Vec<MimePart>,
}

/// The mailbox that stands for `a`: its address, or the empty address when
/// the parser found none, and its name.
pub open spec fn mailbox_of(a: MimeAddress) -> (Seq<char>, Option<Seq<char>>) {
    (
        match a.address {
            Some(address) => address@,
            None => Seq::empty(),
        },
        opt_view(a.name),
    )
}

/// The mailboxes of a list, in order.
pub open spec fn mailboxes_of(list: Seq<MimeAddress>) -> Seq<(Seq<char>, Option<Seq<char>>)> {
    list.map_values(|a: MimeAddress| mailbox_of(a))
}

/// The mailboxes of the groups, group after group.
pub open spec fn mailboxes_of_groups(groups: Seq<Vec<MimeAddress>>) -> Seq<
    (Seq<char>, Option<Seq<char>>),
>
    decreases groups.len(),
{
    if groups.len() == 0 {
        Seq::empty()
    } else {
        mailboxes_of_groups(groups.drop_last()) + mailboxes_of(groups.last()@)
    }
}

/// Every mailbox of an address header, in the order of the header; groups
/// are flattened.
pub open spec fn all_mailboxes(header: MimeAddressList) -> Seq<(Seq<char>, Option<Seq<char>>)> {
    match header {
        MimeAddressList::Absent => Seq::empty(),
        MimeAddressList::List(list) => mailboxes_of(list@),
        MimeAddressList::Groups(groups) => mailboxes_of_groups(groups@),
    }
}

/// The first mailbox of an address header that is a plain list.
pub open spec fn first_mailbox(header: MimeAddressList) -> Option<(Seq<char>, Option<Seq<char>>)> {
    match header {
        MimeAddressList::List(list) => if list@.len() > 0 {
            Some(mailbox_of(list@[0]))
        } else {
            None
        },
        _ => None,
    }
}

/// `c` in lower case, when it is an ASCII capital; else `c`.
pub open spec fn ascii_lower(c: char) -> char {
    if 'A' <= c && c <= 'Z' {
        ((c as u8) + 32) as char
    } else {
        c
    }
}

/// Whether `a` and `b` are the same but for the case of ASCII letters.
pub open spec fn same_ignoring_ascii_case(a: Seq<char>, b: Seq<char>) -> bool {
    a.len() == b.len() && forall|i: int|
        #![trigger a[i]]
        0 <= i < a.len() ==> ascii_lower(a[i]) == ascii_lower(b[i])
}

/// The bytes of a body that has bytes.
pub open spec fn body_bytes(body: MimePartBody) -> Option<Seq<u8>> {
    match body {
        MimePartBody::Text(b) => Some(b@),
        MimePartBody::Html(b) => Some(b@),
        MimePartBody::Binary(b) => Some(b@),
        MimePartBody::InlineBinary(b) => Some(b@),
        MimePartBody::Message => None,
        MimePartBody::Multipart => None,
    }
}

/// Whether a part declares itself an attachment and names a file.
pub open spec fn is_declared_attachment(part: MimePart) -> bool {
    part.disposition is Some && same_ignoring_ascii_case(part.disposition->0@, "attachment"@)
        && part.filename is Some
}

/// Whether a part is an image that the message refers to by a content id.
pub open spec fn is_inline_image(part: MimePart) -> bool {
    part.content_type is Some && same_ignoring_ascii_case((part.content_type->0).0@, "image"@)
        && part.content_id is Some
}

/// The content type of a declared attachment: type and subtype, the type
/// alone when there is no subtype, `application/octet-stream` when the part
/// declares no type.
pub open spec fn declared_type(content_type: Option<(String, Option<String>)>) -> Seq<char> {
    match content_type {
        None => "application/octet-stream"@,
        Some((main, None)) => main@,
        Some((main, Some(sub))) => main@ + "/"@ + sub@,
    }
}

/// The content type of an inline image: type and subtype, with `*` for a
/// missing subtype.
pub open spec fn inline_type(content_type: (String, Option<String>)) -> Seq<char> {
    match content_type.1 {
        None => content_type.0@ + "/*"@,
        Some(sub) => content_type.0@ + "/"@ + sub@,
    }
}

/// Whether `c` is an angle bracket.
pub open spec fn is_angle(c: char) -> bool {
    c == '<' || c == '>'
}

/// The number of angle brackets at the start of `s`.
pub open spec fn leading_angles(s: Seq<char>) -> int
    decreases s.len(),
{
    if s.len() == 0 || !is_angle(s[0]) {
        0
    } else {
        1 + leading_angles(s.drop_first())
    }
}

/// The number of angle brackets at the end of `s`.
pub open spec fn trailing_angles(s: Seq<char>) -> int
    decreases s.len(),
{
    if s.len() == 0 || !is_angle(s.last()) {
        0
    } else {
        1 + trailing_angles(s.drop_last())
    }
}

/// `s` without the angle brackets at its start and at its end.
pub open spec fn without_angles(s: Seq<char>) -> Seq<char> {
    let a = leading_angles(s);
    let b = s.len() - trailing_angles(s);
    if a < b {
        s.subrange(a, b)
    } else {
        Seq::empty()
    }
}

/// The filename given to an inline image with the content id `content_id`.
pub open spec fn inline_filename(content_id: Seq<char>) -> Seq<char> {
    "inline-"@ + without_angles(content_id) + ".dat"@
}

/// The blob that a part yields, if it is an attachment: a part that
/// declares itself an attachment and names a file yields its body under
/// that name; failing that, an image with a content id yields its body
/// under a name made from the id; a part without bytes yields nothing.
pub open spec fn blob_of(part: MimePart) -> Option<(Seq<char>, Seq<char>, Seq<u8>)> {
    match body_bytes(part.body) {
        None => None,
        Some(bytes) => if is_declared_attachment(part) {
            Some((part.filename->0@, declared_type(part.content_type), bytes))
        } else if is_inline_image(part) {
            Some((inline_filename(part.content_id->0@), inline_type(part.content_type->0), bytes))
        } else {
            None
        },
    }
}

/// The blobs of the parts, in the order of the parts.
pub open spec fn blobs_of(parts: Seq<MimePart>) -> Seq<(Seq<char>, Seq<char>, Seq<u8>)>
    decreases parts.len(),
{
    if parts.len() == 0 {
        Seq::empty()
    } else {
        match blob_of(parts.last()) {
            Some(blob) => blobs_of(parts.drop_last()).push(blob),
            None => blobs_of(parts.drop_last()),
        }
    }
}

/// The decimal notation of `n`, with a minus sign when it is negative.
pub open spec fn signed_decimal(n: int) -> Seq<char> {
    if n < 0 {
        "-"@ + decimal((-n) as nat)
    } else {
        decimal(n as nat)
    }
}

/// The id of a message: its own, or `generated-` and the second of
/// processing when it has none.
pub open spec fn message_id_of(own: Option<String>, now: Timestamp) -> Seq<char> {
    match own {
        Some(id) => id@,
        None => "generated-"@ + signed_decimal(now.seconds as int),
    }
}

/// Whether `email` is what the message `mime`, processed at `now`, becomes.
pub open spec fn email_of(email: Email, mime: MimeMessage, now: Timestamp) -> bool {
    &&& email.message_id@ == message_id_of(mime.message_id, now)
    &&& email.from@ == (match first_mailbox(mime.from) {
        Some(mailbox) => mailbox,
        None => (Seq::<char>::empty(), None::<Seq<char>>),
    })
    &&& mailbox_views(email.to@) == all_mailboxes(mime.to)
    &&& mailbox_views(email.cc@) == all_mailboxes(mime.cc)
    &&& mailbox_views(email.bcc@) == all_mailboxes(mime.bcc)
    &&& (match first_mailbox(mime.reply_to) {
        Some(mailbox) => email.reply_to is Some && email.reply_to->0@ == mailbox,
        None => email.reply_to is None,
    })
    &&& email.subject@ == (match mime.subject {
        Some(subject) => subject@,
        None => Seq::<char>::empty(),
    })
    &&& email.body.text == mime.text_body
    &&& email.body.html == mime.html_body
    &&& email.attachments@.len() == 0
    &&& blob_views(email.attachments_data@) == blobs_of(mime.parts@)
    &&& opt_view(email.headers.in_reply_to) == (match mime.in_reply_to {
        Some(list) => if list@.len() > 0 {
            Some(list@[0]@)
        } else {
            None::<Seq<char>>
        },
        None => None::<Seq<char>>,
    })
    &&& email.headers.references@ == (match mime.references {
        Some(list) => list@,
        None => Seq::<String>::empty(),
    })
    &&& email.headers.custom@.len() == 0
    &&& email.received_at == now
}

fn lower(c: char) -> (r: char)
    ensures
        r == ascii_lower(c),
{
    if c >= 'A' && c <= 'Z' {
        ((c as u8) + 32) as char
    } else {
        c
    }
}

/// Whether `a` and `b` are the same but for the case of ASCII letters.
pub fn eq_ignoring_ascii_case(a: &str, b: &str) -> (same: bool)
    ensures
        same == same_ignoring_ascii_case(a@, b@),
{
    let x = chars_of(a);
    let y = chars_of(b);
    if x.len() != y.len() {
        return false;
    }
    let mut i: usize = 0;
    while i < x.len()
        invariant
            i <= x.len(),
            x.len() == y.len(),
            x@ == a@,
            y@ == b@,
            forall|j: int| #![trigger x@[j]] 0 <= j < i ==> ascii_lower(x@[j]) == ascii_lower(y@[j]),
        decreases x.len() - i,
    {
        if lower(x[i]) != lower(y[i]) {
            proof {
                let c = x@[i as int];
                assert(ascii_lower(c) != ascii_lower(y@[i as int]));
                assert(!same_ignoring_ascii_case(x@, y@));
            }
            return false;
        }
        i += 1;
    }
    true
}

fn convert_mailbox(a: &MimeAddress) -> (r: EmailAddress)
    ensures
        r@ == mailbox_of(*a),
{
    EmailAddress {
        address: match &a.address {
            Some(address) => address.clone(),
            None => String::new(),
        },
        name: copy_opt(&a.name),
    }
}

fn append_mailboxes(out: &mut Vec<EmailAddress>, list: &Vec<MimeAddress>)
    ensures
        mailbox_views(final(out)@) == mailbox_views(old(out)@) + mailboxes_of(list@),
{
    let ghost start = mailbox_views(out@);
    let mut i: usize = 0;
    while i < list.len()
        invariant
            i <= list.len(),
            mailbox_views(out@) == start + mailboxes_of(list@).take(i as int),
        decreases list.len() - i,
    {
        let ghost before = out@;
        let mailbox = convert_mailbox(&list[i]);
        out.push(mailbox);
        proof {
            let all = mailboxes_of(list@);
            assert(mailbox_views(out@) =~= mailbox_views(before).push(mailbox@));
            assert(start + all.take(i as int + 1) =~= (start + all.take(i as int)).push(
                all[i as int],
            ));
        }
        i += 1;
    }
    assert(mailboxes_of(list@).take(list.len() as int) =~= mailboxes_of(list@));
}

/// Every mailbox of an address header, in order; groups are flattened.
pub fn extract_addresses(header: &MimeAddressList) -> (r: Vec<EmailAddress>)
    ensures
        mailbox_views(r@) == all_mailboxes(*header),
{
    let mut out: Vec<EmailAddress> = Vec::new();
    assert(mailbox_views(out@) =~= Seq::empty());
    match header {
        MimeAddressList::Absent => {},
        MimeAddressList::List(list) => {
            append_mailboxes(&mut out, list);
            assert(Seq::empty() + mailboxes_of(list@) =~= mailboxes_of(list@));
        },
        MimeAddressList::Groups(groups) => {
            let mut g: usize = 0;
            while g < groups.len()
                invariant
                    g <= groups.len(),
                    mailbox_views(out@) == mailboxes_of_groups(groups@.take(g as int)),
                decreases groups.len() - g,
            {
                proof {
                    assert(groups@.take(g as int + 1).drop_last() =~= groups@.take(g as int));
                }
                append_mailboxes(&mut out, &groups[g]);
                g += 1;
            }
            assert(groups@.take(groups.len() as int) =~= groups@);
        },
    }
    out
}

/// The first mailbox of an address header that is a plain list.
pub fn extract_first_address(header: &MimeAddressList) -> (r: Option<EmailAddress>)
    ensures
        match first_mailbox(*header) {
            Some(mailbox) => r is Some && r->0@ == mailbox,
            None => r is None,
        },
{
    match header {
        MimeAddressList::List(list) => {
            if list.len() > 0 {
                Some(convert_mailbox(&list[0]))
            } else {
                None
            }
        },
        _ => None,
    }
}

fn copy_body_bytes(body: &MimePartBody) -> (r: Option<Vec<u8>>)
    ensures
        match r {
            Some(b) => body_bytes(*body) == Some(b@),
            None => body_bytes(*body) is None,
        },
{
    match body {
        MimePartBody::Text(b) => Some(copy_bytes(b)),
        MimePartBody::Html(b) => Some(copy_bytes(b)),
        MimePartBody::Binary(b) => Some(copy_bytes(b)),
        MimePartBody::InlineBinary(b) => Some(copy_bytes(b)),
        MimePartBody::Message => None,
        MimePartBody::Multipart => None,
    }
}

/// The filename given to an inline image with the content id `content_id`:
/// `inline-`, the id without its angle brackets, `.dat`.
pub fn inline_image_filename(content_id: &str) -> (r: String)
    ensures
        r@ == inline_filename(content_id@),
{
    let v = chars_of(content_id);
    proof {
        lemma_leading_angles(v@);
        lemma_trailing_angles(v@);
    }
    let mut a: usize = 0;
    while a < v.len() && (v[a] == '<' || v[a] == '>')
        invariant
            a <= v.len(),
            forall|i: int| 0 <= i < a ==> is_angle(v@[i]),
        decreases v.len() - a,
    {
        a += 1;
    }
    let mut b: usize = v.len();
    while b > 0 && (v[b - 1] == '<' || v[b - 1] == '>')
        invariant
            b <= v.len(),
            forall|i: int| b <= i < v.len() ==> is_angle(v@[i]),
        decreases b,
    {
        b -= 1;
    }
    assert(a == leading_angles(v@));
    assert(b == v.len() - trailing_angles(v@));
    let core = if a < b {
        string_of_range(&v, a, b)
    } else {
        String::new()
    };
    concat3("inline-", core.as_str(), ".dat")
}

/// What `leading_angles` counts.
pub proof fn lemma_leading_angles(s: Seq<char>)
    ensures
        0 <= leading_angles(s) <= s.len(),
        forall|i: int| 0 <= i < leading_angles(s) ==> is_angle(s[i]),
        leading_angles(s) < s.len() ==> !is_angle(s[leading_angles(s)]),
    decreases s.len(),
{
    if s.len() > 0 && is_angle(s[0]) {
        lemma_leading_angles(s.drop_first());
        let k = leading_angles(s.drop_first());
        assert forall|i: int| 0 <= i < 1 + k implies is_angle(s[i]) by {
            if i > 0 {
                assert(s.drop_first()[i - 1] == s[i]);
            }
        }
        if 1 + k < s.len() {
            assert(s.drop_first()[k] == s[1 + k]);
        }
    }
}

/// What `trailing_angles` counts.
pub proof fn lemma_trailing_angles(s: Seq<char>)
    ensures
        0 <= trailing_angles(s) <= s.len(),
        forall|i: int| s.len() - trailing_angles(s) <= i < s.len() ==> is_angle(s[i]),
        trailing_angles(s) < s.len() ==> !is_angle(s[s.len() - trailing_angles(s) - 1]),
    decreases s.len(),
{
    if s.len() > 0 && is_angle(s.last()) {
        lemma_trailing_angles(s.drop_last());
        let k = trailing_angles(s.drop_last());
        assert forall|i: int| s.len() - (1 + k) <= i < s.len() implies is_angle(s[i]) by {
            if i < s.len() - 1 {
                assert(s.drop_last()[i] == s[i]);
            }
        }
        if 1 + k < s.len() {
            assert(s.drop_last()[s.len() - 1 - k - 1] == s[s.len() - (1 + k) - 1]);
        }
    }
}

/// The blob that a part yields, if it is an attachment.
pub fn extract_attachment(part: &MimePart) -> (r: Option<AttachmentData>)
    ensures
        match r {
            Some(blob) => blob_of(*part) == Some(blob@),
            None => blob_of(*part) is None,
        },
{
    let data = match copy_body_bytes(&part.body) {
        Some(data) => data,
        None => {
            return None;
        },
    };
    let declared = match &part.disposition {
        Some(d) => eq_ignoring_ascii_case(d.as_str(), "attachment"),
        None => false,
    };
    if declared {
        match &part.filename {
            Some(filename) => {
                let content_type = match &part.content_type {
                    None => "application/octet-stream".to_string(),
                    Some((main, None)) => main.clone(),
                    Some((main, Some(sub))) => concat3(main.as_str(), "/", sub.as_str()),
                };
                return Some(AttachmentData { filename: filename.clone(), content_type, data });
            },
            None => {},
        }
    }
    match (&part.content_type, &part.content_id) {
        (Some(content_type), Some(content_id)) => {
            if eq_ignoring_ascii_case(content_type.0.as_str(), "image") {
                let full = match &content_type.1 {
                    None => concat2(content_type.0.as_str(), "/*"),
                    Some(sub) => concat3(content_type.0.as_str(), "/", sub.as_str()),
                };
                Some(
                    AttachmentData {
                        filename: inline_image_filename(content_id.as_str()),
                        content_type: full,
                        data,
                    },
                )
            } else {
                None
            }
        },
        _ => None,
    }
}

/// The blobs of the parts of a message, in the order of the parts.
pub fn extract_attachments(parts: &Vec<MimePart>) -> (r: Vec<AttachmentData>)
    ensures
        blob_views(r@) == blobs_of(parts@),
{
    let mut out: Vec<AttachmentData> = Vec::new();
    assert(blob_views(out@) =~= Seq::empty());
    let mut i: usize = 0;
    while i < parts.len()
        invariant
            i <= parts.len(),
            blob_views(out@) == blobs_of(parts@.take(i as int)),
        decreases parts.len() - i,
    {
        proof {
            assert(parts@.take(i as int + 1).drop_last() =~= parts@.take(i as int));
        }
        match extract_attachment(&parts[i]) {
            Some(blob) => {
                let ghost before = out@;
                out.push(blob);
                assert(blob_views(out@) =~= blob_views(before).push(blob@));
            },
            None => {},
        }
        i += 1;
    }
    assert(parts@.take(parts.len() as int) =~= parts@);
    out
}

/// The decimal notation of `n`, with a minus sign when it is negative.
pub fn signed_decimal_string(n: i64) -> (s: String)
    ensures
        s@ == signed_decimal(n as int),
{
    if n < 0 {
        let magnitude: u64 = if n == i64::MIN {
            9223372036854775808u64
        } else {
            (-n) as u64
        };
        concat2("-", decimal_string(magnitude).as_str())
    } else {
        decimal_string(n as u64)
    }
}

/// What the message `mime`, processed at `now`, becomes: the sender is the
/// first mailbox of `From`; recipients keep the order of their headers;
/// an absent subject is empty; an absent message id is generated from the
/// second of processing; the parts that are attachments become blobs.
pub fn email_from_mime(mime: &MimeMessage, now: Timestamp) -> (email: Email)
    ensures
        email_of(email, *mime, now),
{
    let message_id = match &mime.message_id {
        Some(id) => id.clone(),
        None => concat2("generated-", signed_decimal_string(now.seconds).as_str()),
    };
    let from = match extract_first_address(&mime.from) {
        Some(mailbox) => mailbox,
        None => EmailAddress { address: String::new(), name: None },
    };
    let in_reply_to = match &mime.in_reply_to {
        Some(list) => {
            if list.len() > 0 {
                Some(list[0].clone())
            } else {
                None
            }
        },
        None => None,
    };
    let references = match &mime.references {
        Some(list) => copy_strings(list),
        None => Vec::new(),
    };
    Email {
        message_id,
        from,
        to: extract_addresses(&mime.to),
        cc: extract_addresses(&mime.cc),
        bcc: extract_addresses(&mime.bcc),
        reply_to: extract_first_address(&mime.reply_to),
        subject: match &mime.subject {
            Some(subject) => subject.clone(),
            None => String::new(),
        },
        body: EmailBody { text: copy_opt(&mime.text_body), html: copy_opt(&mime.html_body) },
        attachments: Vec::new(),
        headers: EmailHeaders { in_reply_to, references, custom: Vec::new() },
        received_at: now,
        attachments_data: extract_attachments(&mime.parts),
    }
}

/// Something that parses raw messages.
pub trait EmailParser {
    /// Parses `raw`; bytes that are not a message are rejected with
    /// `EmailParsing`.
    fn parse(&self, raw: &[u8]) -> (r: Result<Email, MailflowError>)
        ensures
            r matches Err(e) ==> e is EmailParsing,
    ;
}

/// The mailboxes of the header `name` of the message in `raw`; a header
/// that is not there or holds no addresses reads as absent.
pub open spec fn addresses_read(raw: Seq<u8>, name: Seq<char>) -> MimeAddressList {
    match header_addresses_of(raw, name) {
        Some(list) => list,
        None => MimeAddressList::Absent,
    }
}

/// Part `index` of the message in `raw`, if it has a body to read.
pub open spec fn part_read(raw: Seq<u8>, index: usize) -> Option<MimePart> {
    match part_body_of(raw, index) {
        Some(body) => Some(
            MimePart {
                disposition: part_disposition_of(raw, index),
                filename: part_filename_of(raw, index),
                content_type: part_content_type_of(raw, index),
                content_id: part_content_id_of(raw, index),
                body,
            },
        ),
        None => None,
    }
}

/// The first `count` parts of the message in `raw`, in order.
pub open spec fn parts_read(raw: Seq<u8>, count: nat) -> Seq<MimePart>
    decreases count,
{
    if count == 0 || count > usize::MAX {
        Seq::empty()
    } else {
        let before = parts_read(raw, (count - 1) as nat);
        match part_read(raw, (count - 1) as usize) {
            Some(part) => before.push(part),
            None => before,
        }
    }
}

/// Whether `mime` is the reading of the message in `raw`: the headers
/// `Message-ID`, `Subject`, `From`, `To`, `Cc`, `Bcc`, `Reply-To`,
/// `In-Reply-To` and `References` of its root part, its first text and
/// HTML bodies, and its parts.
pub open spec fn reads_as(mime: MimeMessage, raw: Seq<u8>) -> bool {
    &&& mime.message_id == header_text_of(raw, "Message-ID"@)
    &&& mime.subject == header_text_of(raw, "Subject"@)
    &&& mime.from == addresses_read(raw, "From"@)
    &&& mime.to == addresses_read(raw, "To"@)
    &&& mime.cc == addresses_read(raw, "Cc"@)
    &&& mime.bcc == addresses_read(raw, "Bcc"@)
    &&& mime.reply_to == addresses_read(raw, "Reply-To"@)
    &&& mime.in_reply_to == header_texts_of(raw, "In-Reply-To"@)
    &&& mime.references == header_texts_of(raw, "References"@)
    &&& mime.text_body == text_body_of(raw)
    &&& mime.html_body == html_body_of(raw)
    &&& mime.parts@ == parts_read(raw, part_count_of(raw) as nat)
}

/// The reading of the message in `raw`.
pub open spec fn mime_of(raw: Seq<u8>) -> MimeMessage {
    choose|mime: MimeMessage| reads_as(mime, raw)
}

/// Parses raw messages with the `mail_parser` crate.
#[derive(Debug, Clone, Copy, PartialEq, Eq, Structural)]
pub struct MailParserEmailParser;

impl MailParserEmailParser {
    pub fn new() -> (r: Self) {
        MailParserEmailParser
    }

    /// The mailboxes of the header `name` of `message`.
    fn addresses(message: &Message<'_>, name: &str) -> (r: MimeAddressList)
        requires
            parsed_from(*message) is Some,
        ensures
            r == addresses_read(parsed_from(*message)->0, name@),
    {
        match header_addresses(message, name) {
            Some(list) => list,
            None => MimeAddressList::Absent,
        }
    }

    /// Reads the MIME structure of `raw`; nothing when `raw` is not a
    /// message.
    fn read_mime(&self, raw: &[u8]) -> (r: Option<MimeMessage>)
        ensures
            r is Some <==> is_message(raw@),
            r matches Some(mime) ==> reads_as(mime, raw@),
    {
        let message = match parse_message(raw) {
            Some(message) => message,
            None => {
                return None;
            },
        };
        let count = part_count(&message);
        let mut parts: Vec<MimePart> = Vec::new();
        let mut i: usize = 0;
        while i < count
            invariant
                i <= count,
                parsed_from(message) == Some(raw@),
                parts@ == parts_read(raw@, i as nat),
            decreases count - i,
        {
            match part_body(&message, i) {
                Some(body) => {
                    parts.push(
                        MimePart {
                            disposition: part_disposition(&message, i),
                            filename: part_disposition_filename(&message, i),
                            content_type: part_content_type(&message, i),
                            content_id: part_content_id(&message, i),
                            body,
                        },
                    );
                },
                None => {},
            }
            i += 1;
        }
        Some(
            MimeMessage {
                message_id: header_text(&message, "Message-ID"),
                subject: header_text(&message, "Subject"),
                from: Self::addresses(&message, "From"),
                to: Self::addresses(&message, "To"),
                cc: Self::addresses(&message, "Cc"),
                bcc: Self::addresses(&message, "Bcc"),
                reply_to: Self::addresses(&message, "Reply-To"),
                in_reply_to: header_text_list(&message, "In-Reply-To"),
                references: header_text_list(&message, "References"),
                text_body: first_text_body(&message),
                html_body: first_html_body(&message),
                parts,
            },
        )
    }

    /// Parses `raw` as a message processed at `now`. Bytes in which the
    /// MIME parser finds no message are rejected with `EmailParsing`; every
    /// message becomes what [`email_of`] makes of its reading.
    pub fn parse_at(&self, raw: &[u8], now: Timestamp) -> (r: Result<Email, MailflowError>)
        ensures
            r is Ok <==> is_message(raw@),
            match r {
                Ok(email) => email_of(email, mime_of(raw@), now),
                Err(e) => e is EmailParsing && e.detail() == "Failed to parse email"@,
            },
    {
        match self.read_mime(raw) {
            Some(mime) => {
                let email = email_from_mime(&mime, now);
                proof {
                    assert(reads_as(mime, raw@));
                    assert(reads_as(mime_of(raw@), raw@));
                    assert(email_of(email, mime, now));
                }
                Ok(email)
            },
            None => Err(MailflowError::EmailParsing("Failed to parse email".to_string())),
        }
    }

    /// Parses `raw` as a message processed now.
    pub fn parse(&self, raw: &[u8]) -> (r: Result<Email, MailflowError>)
        ensures
            r is Ok <==> is_message(raw@),
            match r {
                Ok(email) => exists|now: Timestamp| email_of(email, mime_of(raw@), now),
                Err(e) => e is EmailParsing && e.detail() == "Failed to parse email"@,
            },
    {
        let now = utc_now();
        self.parse_at(raw, now)
    }
}

impl Default for MailParserEmailParser {
    fn default() -> (r: Self) {
        MailParserEmailParser
    }
}

impl EmailParser for MailParserEmailParser {
    fn parse(&self, raw: &[u8]) -> (r: Result<Email, MailflowError>)
        ensures
            r is Ok <==> is_message(raw@),
            match r {
                Ok(email) => exists|now: Timestamp| email_of(email, mime_of(raw@), now),
                Err(e) => e is EmailParsing && e.detail() == "Failed to parse email"@,
            },
    {
        MailParserEmailParser::parse(self, raw)
    }
}

} // verus!
