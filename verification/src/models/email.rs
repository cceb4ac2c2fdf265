//! Parsed mail and its parts.

use crate::text::{copy_bytes, copy_opt, copy_strings, opt_view};
use vstd::prelude::*;
use vstd::std_specs::cmp::PartialEqSpecImpl;

verus! {

/// An instant: seconds since the Unix epoch and the nanoseconds within that
/// second.
#[derive(Debug, Clone, Copy, PartialEq, Eq, Structural)]
pub struct Timestamp {
    pub seconds: i64,
    pub nanos: u32,
}

impl Timestamp {
    /// The instant `seconds` later, or the last instant there is when that
    /// would be later still.
    pub open spec fn later_by(self, seconds: u64) -> Timestamp {
        Timestamp {
            seconds: if self.seconds + seconds > i64::MAX {
                i64::MAX
            } else {
                (self.seconds + seconds) as i64
            },
            nanos: self.nanos,
        }
    }

    /// The instant `seconds` later.
    pub fn plus_seconds(self, seconds: u64) -> (r: Timestamp)
        ensures
            r == self.later_by(seconds),
    {
        let sum: i128 = self.seconds as i128 + seconds as i128;
        let capped: i64 = if sum > i64::MAX as i128 {
            i64::MAX
        } else {
            sum as i64
        };
        Timestamp { seconds: capped, nanos: self.nanos }
    }
}

/// A mailbox: an address and an optional display name. Two mailboxes are
/// equal when their addresses are; the display name plays no part.
#[derive(Debug, Clone, Eq)]
pub struct EmailAddress {
    pub address: String,
    pub name: Option<String>,
}

impl PartialEq for EmailAddress {
    fn eq(&self, other: &Self) -> (same: bool) {
        self.address == other.address
    }
}

impl PartialEqSpecImpl for EmailAddress {
    open spec fn obeys_eq_spec() -> bool {
        true
    }

    open spec fn eq_spec(&self, other: &Self) -> bool {
        self.address@ == other.address@
    }
}

impl EmailAddress {
    /// A copy of the mailbox.
    pub fn copy(&self) -> (r: Self)
        ensures
            r == *self,
    {
        EmailAddress { address: self.address.clone(), name: copy_opt(&self.name) }
    }

    /// A copy of a list of mailboxes.
    pub fn copy_all(v: &Vec<EmailAddress>) -> (r: Vec<EmailAddress>)
        ensures
            r@ == v@,
    {
        let mut r: Vec<EmailAddress> = Vec::new();
        let mut i: usize = 0;
        while i < v.len()
            invariant
                i <= v.len(),
                r@ == v@.take(i as int),
            decreases v.len() - i,
        {
            r.push(v[i].copy());
            assert(v@.take(i as int).push(v@[i as int]) =~= v@.take(i as int + 1));
            i += 1;
        }
        assert(v@.take(v.len() as int) =~= v@);
        r
    }

    /// A copy of an optional mailbox.
    pub fn copy_opt(o: &Option<EmailAddress>) -> (r: Option<EmailAddress>)
        ensures
            r == *o,
    {
        match o {
            Some(a) => Some(a.copy()),
            None => None,
        }
    }
}

impl View for EmailAddress {
    type V = (Seq<char>, Option<Seq<char>>);

    /// The address and the display name, as characters.
    open spec fn view(&self) -> (Seq<char>, Option<Seq<char>>) {
        (self.address@, opt_view(self.name))
    }
}

/// The views of a list of mailboxes, in order.
pub open spec fn mailbox_views(v: Seq<EmailAddress>) -> Seq<(Seq<char>, Option<Seq<char>>)> {
    v.map_values(|a: EmailAddress| a@)
}

/// The addresses of a list of mailboxes, as characters, in order.
pub open spec fn addresses_of(v: Seq<EmailAddress>) -> Seq<Seq<char>> {
    v.map_values(|a: EmailAddress| a.address@)
}

/// The two renderings of a message body; either may be absent.
#[derive(Debug, Clone, PartialEq, Eq)]
pub struct EmailBody {
    pub text: Option<String>,
    pub html: Option<String>,
}

impl EmailBody {
    /// A copy of the body.
    pub fn copy(&self) -> (r: Self)
        ensures
            r == *self,
    {
        EmailBody { text: copy_opt(&self.text), html: copy_opt(&self.html) }
    }
}

impl Default for EmailBody {
    fn default() -> (r: Self)
        ensures
            r.text is None,
            r.html is None,
    {
        EmailBody { text: None, html: None }
    }
}

/// The bytes of an attachment as they came out of the message, before they
/// are stored. Never serialized.
#[derive(Debug, Clone, PartialEq, Eq)]
pub struct AttachmentData {
    pub filename: String,
    pub content_type: String,
    pub data: Vec<u8>,
}

impl View for AttachmentData {
    type V = (Seq<char>, Seq<char>, Seq<u8>);

    /// The filename, the declared content type and the bytes.
    open spec fn view(&self) -> (Seq<char>, Seq<char>, Seq<u8>) {
        (self.filename@, self.content_type@, self.data@)
    }
}

/// The views of a list of blobs, in order.
pub open spec fn blob_views(v: Seq<AttachmentData>) -> Seq<(Seq<char>, Seq<char>, Seq<u8>)> {
    v.map_values(|d: AttachmentData| d@)
}

impl AttachmentData {
    /// A copy of the blob.
    pub fn copy(&self) -> (r: Self)
        ensures
            r.filename == self.filename,
            r.content_type == self.content_type,
            r.data@ == self.data@,
    {
        AttachmentData {
            filename: self.filename.clone(),
            content_type: self.content_type.clone(),
            data: copy_bytes(&self.data),
        }
    }
}

/// Whether a stored attachment can be fetched.
#[derive(Debug, Clone, Copy, PartialEq, Eq, Structural)]
pub enum AttachmentStatus {
    Available,
    Failed,
}

/// The record of an attachment after materialization.
#[derive(Debug, Clone, PartialEq, Eq)]
pub struct Attachment {
    pub filename: String,
    pub sanitized_filename: String,
    pub content_type: String,
    pub size: usize,
    pub s3_bucket: String,
    pub s3_key: String,
    pub presigned_url: String,
    pub presigned_url_expiration: Timestamp,
    pub checksum_md5: Option<String>,
    pub status: AttachmentStatus,
    pub error: Option<String>,
}

impl Attachment {
    /// What holds of every record the materializer emits: an available
    /// attachment has a checksum and a place in storage; a failed one says
    /// why.
    pub open spec fn well_formed(self) -> bool {
        match self.status {
            AttachmentStatus::Available => {
                &&& self.checksum_md5 is Some
                &&& self.s3_bucket@.len() > 0
                &&& self.s3_key@.len() > 0
                &&& self.presigned_url@.len() > 0
            },
            AttachmentStatus::Failed => {
                &&& self.error is Some
                &&& self.error->0@.len() > 0
            },
        }
    }

    /// A copy of the record.
    pub fn copy(&self) -> (r: Self)
        ensures
            r == *self,
    {
        Attachment {
            filename: self.filename.clone(),
            sanitized_filename: self.sanitized_filename.clone(),
            content_type: self.content_type.clone(),
            size: self.size,
            s3_bucket: self.s3_bucket.clone(),
            s3_key: self.s3_key.clone(),
            presigned_url: self.presigned_url.clone(),
            presigned_url_expiration: self.presigned_url_expiration,
            checksum_md5: copy_opt(&self.checksum_md5),
            status: self.status,
            error: copy_opt(&self.error),
        }
    }

    /// A copy of a list of records.
    pub fn copy_all(v: &Vec<Attachment>) -> (r: Vec<Attachment>)
        ensures
            r@ == v@,
    {
        let mut r: Vec<Attachment> = Vec::new();
        let mut i: usize = 0;
        while i < v.len()
            invariant
                i <= v.len(),
                r@ == v@.take(i as int),
            decreases v.len() - i,
        {
            r.push(v[i].copy());
            assert(v@.take(i as int).push(v@[i as int]) =~= v@.take(i as int + 1));
            i += 1;
        }
        assert(v@.take(v.len() as int) =~= v@);
        r
    }
}

/// Threading and custom headers.
#[derive(Debug, Clone, PartialEq, Eq)]
pub struct EmailHeaders {
    pub in_reply_to: Option<String>,
    pub references: Vec<String>,
    pub custom: Vec<(String, String)>,
}

impl EmailHeaders {
    /// A copy of the headers.
    pub fn copy(&self) -> (r: Self)
        ensures
            r.in_reply_to == self.in_reply_to,
            r.references@ == self.references@,
            r.custom@ == self.custom@,
    {
        let mut custom: Vec<(String, String)> = Vec::new();
        let mut i: usize = 0;
        while i < self.custom.len()
            invariant
                i <= self.custom.len(),
                custom@ == self.custom@.take(i as int),
            decreases self.custom.len() - i,
        {
            custom.push((self.custom[i].0.clone(), self.custom[i].1.clone()));
            assert(self.custom@.take(i as int).push(self.custom@[i as int])
                =~= self.custom@.take(i as int + 1));
            i += 1;
        }
        assert(self.custom@.take(self.custom.len() as int) =~= self.custom@);
        EmailHeaders {
            in_reply_to: copy_opt(&self.in_reply_to),
            references: copy_strings(&self.references),
            custom,
        }
    }
}

impl Default for EmailHeaders {
    fn default() -> (r: Self)
        ensures
            r.in_reply_to is None,
            r.references@.len() == 0,
            r.custom@.len() == 0,
    {
        EmailHeaders { in_reply_to: None, references: Vec::new(), custom: Vec::new() }
    }
}

/// A parsed message: the canonical form that the parser produces and the
/// materializer, the resolver and the envelope builder consume.
#[derive(Debug, Clone, PartialEq, Eq)]
pub struct Email {
    pub message_id: String,
    pub from: EmailAddress,
    pub to: Vec<EmailAddress>,
    pub cc: Vec<EmailAddress>,
    pub bcc: Vec<EmailAddress>,
    pub reply_to: Option<EmailAddress>,
    pub subject: String,
    pub body: EmailBody,
    pub attachments: Vec<Attachment>,
    pub headers: EmailHeaders,
    pub received_at: Timestamp,
    /// Attachment bytes awaiting storage.
    pub attachments_data: Vec<AttachmentData>,
}

impl Email {
    /// Every recipient address, `to` first, then `cc`, then `bcc`.
    pub open spec fn recipients(self) -> Seq<Seq<char>> {
        addresses_of(self.to@) + addresses_of(self.cc@) + addresses_of(self.bcc@)
    }
}

} // verus!
