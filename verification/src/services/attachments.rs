//! Materializing attachments: judging, naming and hashing each blob before
//! it is stored, and recording what became of it.
//!
//! Storing and presigning are the caller's; for each blob the caller asks
//! [`S3AttachmentProcessor::prepare`], stores under the key it is given,
//! and hands the presigned URL to [`S3AttachmentProcessor::complete`], or
//! the failure to [`S3AttachmentProcessor::failed`].

use crate::constants::{
    DEFAULT_PRESIGNED_URL_EXPIRATION_SECONDS, MAX_ATTACHMENTS_PER_EMAIL, MAX_ATTACHMENT_SIZE_BYTES,
};
use crate::error::MailflowError;
use crate::foreign::{is_uuid_text, md5_digest, md5_of, trim, trimmed_of};
use crate::models::email::{Attachment, AttachmentData, AttachmentStatus, Timestamp};
use crate::text::{
    chars_of, concat2, concat3, decimal, decimal_string, find_last, hex_lower, hex_string,
    last_index, lemma_last_index, list_contains, parse_decimal, parsed_decimal, pieces, split_on,
    string_of_range, views,
};
use crate::utils::file_validation::{
    file_type_verdict, refusal_message, validate_file_type, FileTypeVerdict,
};
use crate::utils::sanitization::{
    path_component, sanitize_filename_strict, sanitize_path_component, sanitized_filename,
};
use vstd::prelude::*;

verus! {

/// Where attachments are stored and what is let in.
#[derive(Debug, Clone, PartialEq, Eq)]
pub struct AttachmentConfig {
    pub bucket: String,
    /// Lifetime of presigned URLs, in seconds.
    pub presigned_url_expiration: u64,
    /// Largest attachment, in bytes.
    pub max_size: usize,
    pub allowed_types: Vec<String>,
    pub blocked_types: Vec<String>,
}

/// The pieces of a comma-separated list, each trimmed.
pub open spec fn trimmed_pieces(list: Seq<Seq<char>>) -> Seq<Seq<char>> {
    list.map_values(|piece: Seq<char>| trimmed_of(piece))
}

/// The content types that a comma-separated list names: its pieces, each
/// trimmed.
pub fn parse_type_list(text: &str) -> (r: Vec<String>)
    ensures
        views(r@) == trimmed_pieces(pieces(text@, ',')),
{
    let parts = split_on(text, ',');
    let ghost all = trimmed_pieces(views(parts@));
    let mut out: Vec<String> = Vec::new();
    let mut i: usize = 0;
    while i < parts.len()
        invariant
            i <= parts.len(),
            all == trimmed_pieces(views(parts@)),
            views(out@) == all.take(i as int),
        decreases parts.len() - i,
    {
        let ghost before = out@;
        let t = trim(parts[i].as_str());
        out.push(t);
        proof {
            assert(views(parts@)[i as int] == parts@[i as int]@);
            assert(views(out@) =~= views(before).push(t@));
            assert(all.take(i as int).push(all[i as int]) =~= all.take(i as int + 1));
        }
        i += 1;
    }
    assert(all.take(parts.len() as int) =~= all);
    out
}

/// The number that an optional text writes, or `fallback` when there is no
/// text or it writes no number.
pub open spec fn number_or(text: Option<String>, fallback: u64) -> u64 {
    match text {
        Some(t) => match parsed_decimal(t@) {
            Some(n) => n as u64,
            None => fallback,
        },
        None => fallback,
    }
}

fn read_number(text: &Option<String>, fallback: u64) -> (n: u64)
    ensures
        n == number_or(*text, fallback),
{
    match text {
        Some(t) => match parse_decimal(t.as_str()) {
            Some(n) => n,
            None => fallback,
        },
        None => fallback,
    }
}

impl AttachmentConfig {
    /// The settings that the environment names. `attachments_bucket` is
    /// `ATTACHMENTS_BUCKET` and `raw_bucket` is `RAW_EMAILS_BUCKET`: the
    /// bucket is the first that is set, or empty. `expiration` is
    /// `PRESIGNED_URL_EXPIRATION_SECONDS`, 7 days when it is not set or no
    /// number; `max_size` is `MAX_ATTACHMENT_SIZE_BYTES`, 35 MiB when it is
    /// not set or no number. `allowed` and `blocked` are
    /// `ALLOWED_CONTENT_TYPES` and `BLOCKED_CONTENT_TYPES`, lists separated
    /// by commas; without them everything is allowed and executables are
    /// blocked.
    pub fn from_values(
        attachments_bucket: Option<String>,
        raw_bucket: Option<String>,
        expiration: Option<String>,
        max_size: Option<String>,
        allowed: Option<String>,
        blocked: Option<String>,
    ) -> (r: Result<Self, MailflowError>)
        ensures
            r is Ok,
            r->Ok_0.bucket@ == (match attachments_bucket {
                Some(b) => b@,
                None => match raw_bucket {
                    Some(b) => b@,
                    None => Seq::empty(),
                },
            }),
            r->Ok_0.presigned_url_expiration == number_or(
                expiration,
                DEFAULT_PRESIGNED_URL_EXPIRATION_SECONDS,
            ),
            r->Ok_0.max_size == (if number_or(max_size, MAX_ATTACHMENT_SIZE_BYTES as u64)
                <= usize::MAX {
                number_or(max_size, MAX_ATTACHMENT_SIZE_BYTES as u64) as usize
            } else {
                MAX_ATTACHMENT_SIZE_BYTES
            }),
            views(r->Ok_0.allowed_types@) == trimmed_pieces(
                pieces(
                    match allowed {
                        Some(a) => a@,
                        None => "*"@,
                    },
                    ',',
                ),
            ),
            views(r->Ok_0.blocked_types@) == trimmed_pieces(
                pieces(
                    match blocked {
                        Some(b) => b@,
                        None => "application/x-executable,application/x-msdownload"@,
                    },
                    ',',
                ),
            ),
    {
        let bucket = match attachments_bucket {
            Some(b) => b,
            None => match raw_bucket {
                Some(b) => b,
                None => String::new(),
            },
        };
        let presigned_url_expiration = read_number(
            &expiration,
            DEFAULT_PRESIGNED_URL_EXPIRATION_SECONDS,
        );
        let size = read_number(&max_size, MAX_ATTACHMENT_SIZE_BYTES as u64);
        let max_size: usize = if size <= usize::MAX as u64 {
            size as usize
        } else {
            MAX_ATTACHMENT_SIZE_BYTES
        };
        let allowed_types = match &allowed {
            Some(a) => parse_type_list(a.as_str()),
            None => parse_type_list("*"),
        };
        let blocked_types = match &blocked {
            Some(b) => parse_type_list(b.as_str()),
            None => parse_type_list("application/x-executable,application/x-msdownload"),
        };
        Ok(AttachmentConfig { bucket, presigned_url_expiration, max_size, allowed_types, blocked_types })
    }
}

/// What was decided of a blob before it is stored.
#[derive(Debug, Clone, PartialEq, Eq)]
pub struct PreparedAttachment {
    /// The sanitized filename, before any index was added to it.
    pub base_name: String,
    /// The sanitized filename under which the blob is stored.
    pub sanitized_filename: String,
    /// The key under which the blob is stored.
    pub s3_key: String,
    /// The MD5 checksum of the blob, in hexadecimal.
    pub checksum_md5: String,
    /// The content type that the file-type oracle found.
    pub detected_type: String,
}

/// `name` with `-index` before its extension, or at its end when it has no
/// extension.
pub open spec fn indexed_name(name: Seq<char>, index: nat) -> Seq<char> {
    let k = last_index(name, '.');
    if k < 0 {
        name + "-"@ + decimal(index)
    } else {
        name.take(k) + "-"@ + decimal(index) + "."@ + name.skip(k + 1)
    }
}

/// `name` with `-index` added `times` times.
pub open spec fn indexed_times(name: Seq<char>, index: nat, times: nat) -> Seq<char>
    decreases times,
{
    if times == 0 {
        name
    } else {
        indexed_name(indexed_times(name, index, (times - 1) as nat), index)
    }
}

/// Whether `stored` is the name under which the blob number `index` of a
/// batch is stored, when its sanitized name is `name` and the earlier
/// blobs of the batch are stored under `earlier`: the sanitized name with
/// the index added as often as it takes, and no oftener, to differ from
/// every earlier name.
pub open spec fn is_stored_name(
    stored: Seq<char>,
    name: Seq<char>,
    index: nat,
    earlier: Seq<Seq<char>>,
) -> bool {
    exists|times: nat|
        #![trigger indexed_times(name, index, times)]
        {
            &&& stored == indexed_times(name, index, times)
            &&& !earlier.contains(stored)
            &&& forall|fewer: nat|
                fewer < times ==> earlier.contains(#[trigger] indexed_times(name, index, fewer))
        }
}

/// Adding an index makes a name longer.
pub proof fn lemma_indexed_name_longer(name: Seq<char>, index: nat)
    ensures
        indexed_name(name, index).len() > name.len(),
{
    lemma_last_index(name, '.');
    reveal_strlit("-");
    reveal_strlit(".");
}

/// The reason for which a blob is refused, if it is: its size first, then
/// what the file-type oracle says.
pub open spec fn blob_refusal(config: AttachmentConfig, data: AttachmentData) -> Option<Seq<char>> {
    if data.data@.len() > config.max_size {
        Some(oversize_message(data.filename@, config.max_size as nat, data.data@.len()))
    } else if !(file_type_verdict(data.filename@, data.data@) is Accepted) {
        Some(refusal_message(file_type_verdict(data.filename@, data.data@), data.filename@))
    } else {
        None
    }
}

/// Whether `record` is the record of the blob `data` that failed with the
/// rendered error `rendered`: it names the blob, carries the error and has
/// no place in storage.
pub open spec fn is_failure_record(
    config: AttachmentConfig,
    data: AttachmentData,
    rendered: Seq<char>,
    record: Attachment,
) -> bool {
    &&& record.well_formed()
    &&& record.status == AttachmentStatus::Failed
    &&& record.filename == data.filename
    &&& record.content_type == data.content_type
    &&& record.size == data.data@.len()
    &&& record.s3_bucket == config.bucket
    &&& record.s3_key@.len() == 0
    &&& record.presigned_url@.len() == 0
    &&& record.checksum_md5 is None
    &&& record.error is Some && record.error->0@ == rendered
    &&& exists|id: Seq<char>|
        is_uuid_text(id) && record.sanitized_filename@ == sanitized_filename(data.filename@, id)
}

/// Whether `record` is the record of the blob `data` that was refused
/// before it was stored.
pub open spec fn is_refusal_record(
    config: AttachmentConfig,
    data: AttachmentData,
    record: Attachment,
) -> bool {
    blob_refusal(config, data) matches Some(why) && is_failure_record(
        config,
        data,
        "Validation error: "@ + why,
        record,
    )
}

/// Whether `record` is the record of the blob `data`, prepared as
/// `prepared`, after storage answered `stored` at `now`. A blob that was
/// stored in a named bucket and has a URL is available under the key and
/// the checksum that were prepared, until the lifetime of the URL, counted
/// from `now`, is over; every other blob has failed, with the error of the
/// storage if it gave one.
pub open spec fn is_stored_record(
    config: AttachmentConfig,
    data: AttachmentData,
    prepared: PreparedAttachment,
    stored: Result<String, MailflowError>,
    now: Timestamp,
    record: Attachment,
) -> bool {
    match stored {
        Ok(url) => if config.bucket@.len() > 0 && url@.len() > 0 {
            &&& record.well_formed()
            &&& record.status == AttachmentStatus::Available
            &&& record.filename == data.filename
            &&& record.content_type == data.content_type
            &&& record.size == data.data@.len()
            &&& record.s3_bucket == config.bucket
            &&& record.sanitized_filename == prepared.sanitized_filename
            &&& record.s3_key == prepared.s3_key
            &&& record.presigned_url == url
            &&& record.presigned_url_expiration == now.later_by(config.presigned_url_expiration)
            &&& record.checksum_md5 == Some(prepared.checksum_md5)
            &&& record.error is None
        } else {
            &&& record.well_formed()
            &&& record.status == AttachmentStatus::Failed
            &&& record.filename == data.filename
            &&& record.content_type == data.content_type
            &&& record.size == data.data@.len()
            &&& record.s3_bucket == config.bucket
            &&& record.sanitized_filename == prepared.sanitized_filename
            &&& record.error is Some
            &&& record.error->0@ == "Storage error: Attachment was not stored"@
        },
        Err(e) => is_failure_record(config, data, e.rendered(), record),
    }
}

/// The key of a blob: the sanitized message id, `/`, and the stored name.
pub open spec fn storage_key(message_id: Seq<char>, stored: Seq<char>) -> Seq<char> {
    path_component(message_id) + "/"@ + stored
}

/// The message for a blob that is too large.
pub open spec fn oversize_message(filename: Seq<char>, max_size: nat, actual: nat) -> Seq<char> {
    "Attachment "@ + filename + " exceeds max size of "@ + decimal(max_size) + " bytes (actual: "@
        + decimal(actual) + " bytes)"@
}

/// The message for a batch that is too large.
pub open spec fn batch_message(count: nat) -> Seq<char> {
    "Too many attachments: "@ + decimal(count) + " exceeds maximum of "@ + decimal(
        MAX_ATTACHMENTS_PER_EMAIL as nat,
    )
}

/// Adds `-index` to `name`, before its extension.
pub fn add_index(name: &str, index: usize) -> (r: String)
    ensures
        r@ == indexed_name(name@, index as nat),
{
    let v = chars_of(name);
    proof {
        lemma_last_index(v@, '.');
    }
    let number = decimal_string(index as u64);
    match find_last(&v, '.') {
        None => concat3(name, "-", number.as_str()),
        Some(k) => {
            let stem = string_of_range(&v, 0, k);
            let ext = string_of_range(&v, k + 1, v.len());
            assert(v@.subrange(0, k as int) =~= v@.take(k as int));
            assert(v@.subrange(k as int + 1, v.len() as int) =~= v@.skip(k as int + 1));
            let mut r = concat3(stem.as_str(), "-", number.as_str());
            r.append(".");
            r.append(ext.as_str());
            r
        },
    }
}

/// The name under which blob number `index` is stored when its sanitized
/// name is `name` and the earlier blobs are stored under `earlier`.
pub fn free_name(name: &str, index: usize, earlier: &Vec<String>) -> (stored: String)
    ensures
        is_stored_name(stored@, name@, index as nat, views(earlier@)),
        !views(earlier@).contains(stored@),
{
    let mut longest: usize = 0;
    let mut i: usize = 0;
    while i < earlier.len()
        invariant
            i <= earlier.len(),
            forall|j: int| 0 <= j < i ==> views(earlier@)[j].len() <= longest,
        decreases earlier.len() - i,
    {
        let length = chars_of(earlier[i].as_str()).len();
        assert(views(earlier@)[i as int] == earlier@[i as int]@);
        if length > longest {
            longest = length;
        }
        i += 1;
    }
    let mut stored = String::from_str(name);
    let ghost mut times: nat = 0;
    while list_contains(earlier, stored.as_str())
        invariant
            stored@ == indexed_times(name@, index as nat, times),
            forall|fewer: nat|
                fewer < times ==> views(earlier@).contains(
                    #[trigger] indexed_times(name@, index as nat, fewer),
                ),
            forall|j: int| 0 <= j < earlier@.len() ==> views(earlier@)[j].len() <= longest,
        decreases
                (if stored@.len() > longest {
                    0
                } else {
                    longest + 1 - stored@.len()
                }),
    {
        proof {
            lemma_indexed_name_longer(stored@, index as nat);
            let at = choose|j: int|
                0 <= j < views(earlier@).len() && views(earlier@)[j] == stored@;
            assert(views(earlier@)[at].len() <= longest);
        }
        stored = add_index(stored.as_str(), index);
        proof {
            times = times + 1;
        }
    }
    stored
}

/// Materializes the attachments of a message.
#[derive(Debug, Clone, PartialEq, Eq)]
pub struct S3AttachmentProcessor {
    config: AttachmentConfig,
}

impl S3AttachmentProcessor {
    /// The configuration in force.
    pub closed spec fn settings(&self) -> AttachmentConfig {
        self.config
    }

    pub fn new(config: AttachmentConfig) -> (r: Self)
        ensures
            r.settings() == config,
    {
        S3AttachmentProcessor { config }
    }

    /// The bucket in which attachments are stored.
    pub fn bucket(&self) -> (b: &str)
        ensures
            b@ == self.settings().bucket@,
    {
        self.config.bucket.as_str()
    }

    /// The lifetime of presigned URLs, in seconds.
    pub fn presigned_url_expiration(&self) -> (s: u64)
        ensures
            s == self.settings().presigned_url_expiration,
    {
        self.config.presigned_url_expiration
    }

    /// Refuses a batch of more than 50 blobs with `Validation`.
    pub fn check_batch(count: usize) -> (r: Result<(), MailflowError>)
        ensures
            r is Ok <==> count <= MAX_ATTACHMENTS_PER_EMAIL,
            r matches Err(e) ==> e is Validation && e.detail() == batch_message(count as nat),
    {
        if count > MAX_ATTACHMENTS_PER_EMAIL {
            let mut m = concat2("Too many attachments: ", decimal_string(count as u64).as_str());
            m.append(" exceeds maximum of ");
            m.append(decimal_string(MAX_ATTACHMENTS_PER_EMAIL as u64).as_str());
            return Err(MailflowError::Validation(m));
        }
        Ok(())
    }

    /// Decides what becomes of blob number `index` of the batch for the
    /// message `message_id`, given the names under which the blobs before
    /// it are stored. A blob over the size limit, or one that the
    /// file-type oracle refuses, is rejected with `Validation`. Every other
    /// blob gets a sanitized name that no earlier blob is stored under; a
    /// key under the sanitized message id; and its MD5 checksum.
    pub fn prepare(
        &self,
        message_id: &str,
        data: &AttachmentData,
        index: usize,
        earlier: &Vec<String>,
    ) -> (r: Result<PreparedAttachment, MailflowError>)
        ensures
            r is Ok <==> blob_refusal(self.settings(), *data) is None,
            r matches Err(e) ==> e is Validation && Some(e.detail()) == blob_refusal(
                self.settings(),
                *data,
            ),
            r matches Ok(p) ==> {
                &&& file_type_verdict(data.filename@, data.data@) == FileTypeVerdict::Accepted(
                    p.detected_type@,
                )
                &&& exists|id: Seq<char>|
                    is_uuid_text(id) && p.base_name@ == sanitized_filename(data.filename@, id)
                &&& is_stored_name(
                    p.sanitized_filename@,
                    p.base_name@,
                    index as nat,
                    views(earlier@),
                )
                &&& !views(earlier@).contains(p.sanitized_filename@)
                &&& p.s3_key@ == storage_key(message_id@, p.sanitized_filename@)
                &&& p.checksum_md5@ == hex_lower(md5_of(data.data@))
                &&& p.checksum_md5@.len() == 32
                &&& p.s3_key@.len() > 0
            },
    {
        if data.data.len() > self.config.max_size {
            let mut m = concat3("Attachment ", data.filename.as_str(), " exceeds max size of ");
            m.append(decimal_string(self.config.max_size as u64).as_str());
            m.append(" bytes (actual: ");
            m.append(decimal_string(data.data.len() as u64).as_str());
            m.append(" bytes)");
            return Err(MailflowError::Validation(m));
        }
        let detected_type = match validate_file_type(
            data.filename.as_str(),
            data.data.as_slice(),
            data.content_type.as_str(),
        ) {
            Ok(t) => t,
            Err(e) => {
                return Err(e);
            },
        };
        let base_name = sanitize_filename_strict(data.filename.as_str());
        let sanitized_filename = free_name(base_name.as_str(), index, earlier);
        let safe_message_id = sanitize_path_component(message_id);
        let s3_key = concat3(safe_message_id.as_str(), "/", sanitized_filename.as_str());
        proof {
            reveal_strlit("/");
        }
        let digest = md5_digest(data.data.as_slice());
        let checksum_md5 = hex_string(&digest);
        Ok(PreparedAttachment { base_name, sanitized_filename, s3_key, checksum_md5, detected_type })
    }

    /// The record of a blob that was stored under the key of `prepared` and
    /// can be fetched through `presigned_url` until its lifetime, counted
    /// from `now`, is over. Storage that names no bucket or hands out an
    /// empty URL has not made the blob available: the record then says
    /// so.
    pub fn complete(
        &self,
        data: &AttachmentData,
        prepared: PreparedAttachment,
        presigned_url: String,
        now: Timestamp,
    ) -> (r: Attachment)
        requires
            prepared.s3_key@.len() > 0,
        ensures
            is_stored_record(self.settings(), *data, prepared, Ok(presigned_url), now, r),
            r.well_formed(),
            r.filename == data.filename,
            r.content_type == data.content_type,
            r.size == data.data@.len(),
            r.s3_bucket == self.settings().bucket,
            r.sanitized_filename == prepared.sanitized_filename,
            self.settings().bucket@.len() > 0 && presigned_url@.len() > 0 ==> {
                &&& r.status == AttachmentStatus::Available
                &&& r.s3_key == prepared.s3_key
                &&& r.presigned_url == presigned_url
                &&& r.presigned_url_expiration == now.later_by(
                    self.settings().presigned_url_expiration,
                )
                &&& r.checksum_md5 == Some(prepared.checksum_md5)
                &&& r.error is None
            },
            !(self.settings().bucket@.len() > 0 && presigned_url@.len() > 0) ==> {
                &&& r.status == AttachmentStatus::Failed
                &&& r.error is Some
                &&& r.error->0@ == "Storage error: Attachment was not stored"@
            },
    {
        if self.config.bucket.as_str().is_empty() || presigned_url.as_str().is_empty() {
            proof {
                reveal_strlit("Storage error: Attachment was not stored");
            }
            return Attachment {
                filename: data.filename.clone(),
                sanitized_filename: prepared.sanitized_filename,
                content_type: data.content_type.clone(),
                size: data.data.len(),
                s3_bucket: self.config.bucket.clone(),
                s3_key: String::new(),
                presigned_url: String::new(),
                presigned_url_expiration: now,
                checksum_md5: None,
                status: AttachmentStatus::Failed,
                error: Some("Storage error: Attachment was not stored".to_string()),
            };
        }
        Attachment {
            filename: data.filename.clone(),
            sanitized_filename: prepared.sanitized_filename,
            content_type: data.content_type.clone(),
            size: data.data.len(),
            s3_bucket: self.config.bucket.clone(),
            s3_key: prepared.s3_key,
            presigned_url,
            presigned_url_expiration: now.plus_seconds(self.config.presigned_url_expiration),
            checksum_md5: Some(prepared.checksum_md5),
            status: AttachmentStatus::Available,
            error: None,
        }
    }

    /// The record of a blob that was rejected or could not be stored: it
    /// carries the rendered error and no place in storage.
    pub fn failed(&self, data: &AttachmentData, error: &MailflowError, now: Timestamp) -> (r:
        Attachment)
        ensures
            is_failure_record(self.settings(), *data, error.rendered(), r),
            r.well_formed(),
            r.status == AttachmentStatus::Failed,
            r.filename == data.filename,
            r.content_type == data.content_type,
            r.size == data.data@.len(),
            r.s3_bucket == self.settings().bucket,
            r.s3_key@.len() == 0,
            r.presigned_url@.len() == 0,
            r.presigned_url_expiration == now,
            r.checksum_md5 is None,
            r.error is Some && r.error->0@ == error.rendered(),
            exists|id: Seq<char>|
                is_uuid_text(id) && r.sanitized_filename@ == sanitized_filename(data.filename@, id),
    {
        let rendered = error.to_string();
        proof {
            lemma_rendered_not_empty(*error);
        }
        Attachment {
            filename: data.filename.clone(),
            sanitized_filename: sanitize_filename_strict(data.filename.as_str()),
            content_type: data.content_type.clone(),
            size: data.data.len(),
            s3_bucket: self.config.bucket.clone(),
            s3_key: String::new(),
            presigned_url: String::new(),
            presigned_url_expiration: now,
            checksum_md5: None,
            status: AttachmentStatus::Failed,
            error: Some(rendered),
        }
    }
}

/// A rendered error is never empty.
pub proof fn lemma_rendered_not_empty(error: MailflowError)
    ensures
        error.rendered().len() > 0,
{
    reveal_strlit("Email parsing error: ");
    reveal_strlit("Routing error: ");
    reveal_strlit("Storage error: ");
    reveal_strlit("Queue error: ");
    reveal_strlit("SES error: ");
    reveal_strlit("Configuration error: ");
    reveal_strlit("Validation error: ");
    reveal_strlit("Idempotency error: ");
    reveal_strlit("Rate limit exceeded: ");
    reveal_strlit("Lambda runtime error: ");
    reveal_strlit("Unknown error: ");
}

} // verus!
