use mailflow::error::MailflowError;
use mailflow::models::{AttachmentData, AttachmentStatus, Timestamp};
use mailflow::services::attachments::{add_index, AttachmentConfig, S3AttachmentProcessor};

fn processor(bucket: &str, max_size: usize) -> S3AttachmentProcessor {
    S3AttachmentProcessor::new(AttachmentConfig {
        bucket: bucket.to_string(),
        presigned_url_expiration: 604800,
        max_size,
        allowed_types: vec![],
        blocked_types: vec![],
    })
}

fn blob(filename: &str, content_type: &str, data: &[u8]) -> AttachmentData {
    AttachmentData {
        filename: filename.to_string(),
        content_type: content_type.to_string(),
        data: data.to_vec(),
    }
}

const NOW: Timestamp = Timestamp { seconds: 1_700_000_000, nanos: 5 };

#[test]
fn test_unique_filename_generation() {
    let sanitized = "document.pdf";

    let filename1 = sanitized.to_string();
    assert_eq!(filename1, "document.pdf");

    let parts: Vec<&str> = sanitized.rsplitn(2, '.').collect();
    let filename2 = format!("{}-{}.{}", parts[1], 1, parts[0]);
    assert_eq!(filename2, "document-1.pdf");

    let filename3 = format!("{}-{}.{}", parts[1], 2, parts[0]);
    assert_eq!(filename3, "document-2.pdf");

    assert_eq!(add_index(sanitized, 1), filename2);
    assert_eq!(add_index(sanitized, 2), filename3);
}

#[test]
fn index_goes_before_the_last_extension() {
    assert_eq!(add_index("archive.tar.gz", 12), "archive.tar-12.gz");
    assert_eq!(add_index("README", 3), "README-3");
    assert_eq!(add_index("a.", 0), "a-0.");
    assert_eq!(add_index(".hidden", 7), "-7.hidden");
}

#[test]
fn attachment_ingest_of_a_pdf() {
    let p = processor("attachments", 1024);
    let data = blob("report.pdf", "application/pdf", &[0x25, 0x50, 0x44, 0x46, 0x2D, 0x31, 0x2E, 0x34]);
    let prepared = p.prepare("<msg-1@mail.example.com>", &data, 0, &vec![]).unwrap();
    assert_eq!(prepared.base_name, "report.pdf");
    assert_eq!(prepared.sanitized_filename, "report.pdf");
    assert_eq!(prepared.s3_key, "msg-1@mail.example.com/report.pdf");
    assert_eq!(prepared.detected_type, "application/pdf");
    assert_eq!(prepared.checksum_md5, "914240125319291c7cb7e712e419b254");

    let record = p.complete(&data, prepared, "https://signed.example/report".to_string(), NOW);
    assert_eq!(record.status, AttachmentStatus::Available);
    assert_eq!(record.filename, "report.pdf");
    assert_eq!(record.sanitized_filename, "report.pdf");
    assert_eq!(record.content_type, "application/pdf");
    assert_eq!(record.size, 8);
    assert_eq!(record.s3_bucket, "attachments");
    assert_eq!(record.s3_key, "msg-1@mail.example.com/report.pdf");
    assert_eq!(record.presigned_url, "https://signed.example/report");
    assert_eq!(
        record.presigned_url_expiration,
        Timestamp { seconds: 1_700_000_000 + 604800, nanos: 5 }
    );
    assert!(record.checksum_md5.as_deref().map(|c| !c.is_empty()).unwrap_or(false));
    assert_eq!(record.error, None);
}

#[test]
fn md5_matches_known_digests() {
    let p = processor("b", 1024);
    let empty = p.prepare("m", &blob("a.txt", "text/plain", b""), 0, &vec![]).unwrap();
    assert_eq!(empty.checksum_md5, "d41d8cd98f00b204e9800998ecf8427e");
    let abc = p.prepare("m", &blob("a.txt", "text/plain", b"abc"), 0, &vec![]).unwrap();
    assert_eq!(abc.checksum_md5, "900150983cd24fb0d6963f7d28e17f72");
    assert_ne!(empty.checksum_md5, abc.checksum_md5);
}

#[test]
fn blocked_extension_is_recorded_as_failed() {
    let p = processor("attachments", 1024);
    let data = blob("virus.exe", "application/x-msdownload", &[0x4D, 0x5A, 0x90, 0x00]);
    let error = p.prepare("m1", &data, 0, &vec![]).unwrap_err();
    assert!(matches!(error, MailflowError::Validation(_)));
    let record = p.failed(&data, &error, NOW);
    assert_eq!(record.status, AttachmentStatus::Failed);
    assert!(record.error.as_deref().unwrap().contains("blocked"));
    assert_eq!(
        record.error.as_deref().unwrap(),
        "Validation error: File type not allowed: virus.exe (blocked extension)"
    );
    assert_eq!(record.filename, "virus.exe");
    assert_eq!(record.sanitized_filename, "virus.exe");
    assert_eq!(record.s3_key, "");
    assert_eq!(record.presigned_url, "");
    assert_eq!(record.checksum_md5, None);
    assert_eq!(record.presigned_url_expiration, NOW);
}

#[test]
fn oversize_blob_is_rejected_before_its_type_is_judged() {
    let p = processor("b", 4);
    let error = p.prepare("m", &blob("virus.exe", "x/y", b"12345"), 0, &vec![]).unwrap_err();
    assert_eq!(
        error.to_string(),
        "Validation error: Attachment virus.exe exceeds max size of 4 bytes (actual: 5 bytes)"
    );
    assert!(p.prepare("m", &blob("a.txt", "x/y", b"1234"), 0, &vec![]).is_ok());
}

#[test]
fn duplicate_names_get_their_index() {
    let p = processor("b", 1024);
    let data = blob("notes.txt", "text/plain", b"x");
    let mut names: Vec<String> = vec![];
    let mut stored: Vec<String> = vec![];
    for (index, name) in ["notes.txt", "other.txt", "notes.txt", "n/o/t/e/s.txt", "notes.txt"].iter().enumerate() {
        let mut d = data.clone();
        d.filename = name.to_string();
        let prepared = p.prepare("../id", &d, index, &names).unwrap();
        names.push(prepared.sanitized_filename.clone());
        stored.push(prepared.s3_key);
    }
    assert_eq!(
        stored,
        vec!["id/notes.txt", "id/other.txt", "id/notes-2.txt", "id/notes-3.txt", "id/notes-4.txt"]
    );
}

#[test]
fn nameless_blob_gets_a_uuid_name_and_key_is_traversal_free() {
    let p = processor("b", 1024);
    let mut data = blob("???.txt", "text/plain", b"x");
    let first = p.prepare("../../etc", &data, 0, &vec![]).unwrap();
    assert_eq!(first.s3_key, "etc/txt");
    data.filename = "....txt".to_string();
    assert_eq!(p.prepare("a/b", &data, 0, &vec![]).unwrap().s3_key, "ab/__txt");
    data.filename = "!!.json".to_string();
    assert_eq!(p.prepare("", &data, 0, &vec![]).unwrap().s3_key, "/json");
}

#[test]
fn storage_that_names_no_place_makes_a_failed_record() {
    let data = blob("a.txt", "text/plain", b"x");
    let p = processor("b", 1024);
    let prepared = p.prepare("m", &data, 0, &vec![]).unwrap();
    let record = p.complete(&data, prepared.clone(), String::new(), NOW);
    assert_eq!(record.status, AttachmentStatus::Failed);
    assert_eq!(record.error.as_deref(), Some("Storage error: Attachment was not stored"));
    let nowhere = processor("", 1024);
    let record = nowhere.complete(&data, prepared, "https://u".to_string(), NOW);
    assert_eq!(record.status, AttachmentStatus::Failed);
    let failure = MailflowError::Storage("S3 upload failed: timeout".to_string());
    let record = p.failed(&data, &failure, NOW);
    assert_eq!(record.error.as_deref(), Some("Storage error: S3 upload failed: timeout"));
}

#[test]
fn batch_of_more_than_fifty_is_rejected() {
    assert!(S3AttachmentProcessor::check_batch(0).is_ok());
    assert!(S3AttachmentProcessor::check_batch(50).is_ok());
    assert_eq!(
        S3AttachmentProcessor::check_batch(51).unwrap_err().to_string(),
        "Validation error: Too many attachments: 51 exceeds maximum of 50"
    );
    assert_eq!(processor("bk", 9).bucket(), "bk");
    assert_eq!(processor("bk", 9).presigned_url_expiration(), 604800);
    assert_eq!(NOW.plus_seconds(u64::MAX).seconds, i64::MAX);
}

#[test]
fn stored_names_of_a_batch_are_distinct() {
    let p = processor("b", 1024);
    let data = blob("a.txt", "text/plain", b"x");
    for batch in [
        ["a.txt", "a.txt", "a-1.txt", "a-1.txt"],
        ["a-2.txt", "a.txt", "a.txt", "a.txt"],
        ["a.txt", "a-1-2.txt", "a.txt", "a-1.txt"],
    ] {
        let mut names: Vec<String> = vec![];
        let mut keys: Vec<String> = vec![];
        for (index, name) in batch.iter().enumerate() {
            let mut d = data.clone();
            d.filename = name.to_string();
            let prepared = p.prepare("m", &d, index, &names).unwrap();
            assert!(!names.contains(&prepared.sanitized_filename));
            assert!(!keys.contains(&prepared.s3_key));
            names.push(prepared.sanitized_filename.clone());
            keys.push(prepared.s3_key);
        }
    }
    let names = vec!["a.txt".to_string(), "a-1.txt".to_string()];
    let mut d = data.clone();
    d.filename = "a.txt".to_string();
    assert_eq!(p.prepare("m", &d, 1, &names).unwrap().sanitized_filename, "a-1-1.txt");
    assert_eq!(p.prepare("m", &d, 2, &names).unwrap().sanitized_filename, "a-2.txt");
}
