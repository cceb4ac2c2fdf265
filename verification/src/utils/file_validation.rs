//! The file-type oracle: which attachments are let in, judged by extension
//! and leading bytes.

use crate::error::MailflowError;
use crate::foreign::{lowercase_of, to_lowercase};
use crate::text::{
    chars_of, concat2, concat3, find_last, last_index, lemma_last_index, opt_view, str_eq,
    string_of_range,
};
use vstd::prelude::*;

verus! {

/// One line of the whitelist: a content type, the extension that announces
/// it, and the bytes that a file of that type starts with (none for text).
#[derive(Debug, Clone, PartialEq, Eq)]
pub struct FileSignature {
    pub mime_type: &'static str,
    pub extension: &'static str,
    pub magic: Vec<u8>,
}

impl View for FileSignature {
    type V = (Seq<char>, Seq<char>, Seq<u8>);

    open spec fn view(&self) -> (Seq<char>, Seq<char>, Seq<u8>) {
        (self.mime_type@, self.extension@, self.magic@)
    }
}

/// The whitelist, in the order in which it is consulted.
pub open spec fn signature_table() -> Seq<(Seq<char>, Seq<char>, Seq<u8>)> {
    seq![
        ("image/jpeg"@, "jpg"@, seq![0xFFu8, 0xD8u8, 0xFFu8]),
        ("image/jpeg"@, "jpeg"@, seq![0xFFu8, 0xD8u8, 0xFFu8]),
        ("image/png"@, "png"@, seq![0x89u8, 0x50u8, 0x4Eu8, 0x47u8]),
        ("image/gif"@, "gif"@, seq![0x47u8, 0x49u8, 0x46u8, 0x38u8]),
        ("image/webp"@, "webp"@, seq![0x52u8, 0x49u8, 0x46u8, 0x46u8]),
        ("image/bmp"@, "bmp"@, seq![0x42u8, 0x4Du8]),
        ("image/tiff"@, "tiff"@, seq![0x49u8, 0x49u8, 0x2Au8, 0x00u8]),
        ("image/tiff"@, "tif"@, seq![0x49u8, 0x49u8, 0x2Au8, 0x00u8]),
        ("application/pdf"@, "pdf"@, seq![0x25u8, 0x50u8, 0x44u8, 0x46u8]),
        (
            "application/vnd.openxmlformats-officedocument.wordprocessingml.document"@,
            "docx"@,
            seq![0x50u8, 0x4Bu8, 0x03u8, 0x04u8],
        ),
        (
            "application/vnd.openxmlformats-officedocument.spreadsheetml.sheet"@,
            "xlsx"@,
            seq![0x50u8, 0x4Bu8, 0x03u8, 0x04u8],
        ),
        (
            "application/vnd.openxmlformats-officedocument.presentationml.presentation"@,
            "pptx"@,
            seq![0x50u8, 0x4Bu8, 0x03u8, 0x04u8],
        ),
        ("application/zip"@, "zip"@, seq![0x50u8, 0x4Bu8, 0x03u8, 0x04u8]),
        ("text/plain"@, "txt"@, Seq::<u8>::empty()),
        ("text/csv"@, "csv"@, Seq::<u8>::empty()),
        ("text/html"@, "html"@, Seq::<u8>::empty()),
        ("text/xml"@, "xml"@, Seq::<u8>::empty()),
        ("application/json"@, "json"@, Seq::<u8>::empty()),
    ]
}

/// The views of the lines of `v`.
pub open spec fn signature_views(v: Seq<FileSignature>) -> Seq<(Seq<char>, Seq<char>, Seq<u8>)> {
    v.map_values(|s: FileSignature| s@)
}

fn signature(mime_type: &'static str, extension: &'static str, magic: Vec<u8>) -> (s:
    FileSignature)
    ensures
        s@ == (mime_type@, extension@, magic@),
{
    FileSignature { mime_type, extension, magic }
}

/// The whitelist.
pub fn allowed_signatures() -> (v: Vec<FileSignature>)
    ensures
        signature_views(v@) == signature_table(),
{
    let zip = "application/zip";
    let docx = "application/vnd.openxmlformats-officedocument.wordprocessingml.document";
    let xlsx = "application/vnd.openxmlformats-officedocument.spreadsheetml.sheet";
    let pptx = "application/vnd.openxmlformats-officedocument.presentationml.presentation";
    let mut v: Vec<FileSignature> = Vec::new();
    v.push(signature("image/jpeg", "jpg", vec![0xFFu8, 0xD8u8, 0xFFu8]));
    v.push(signature("image/jpeg", "jpeg", vec![0xFFu8, 0xD8u8, 0xFFu8]));
    v.push(signature("image/png", "png", vec![0x89u8, 0x50u8, 0x4Eu8, 0x47u8]));
    v.push(signature("image/gif", "gif", vec![0x47u8, 0x49u8, 0x46u8, 0x38u8]));
    v.push(signature("image/webp", "webp", vec![0x52u8, 0x49u8, 0x46u8, 0x46u8]));
    v.push(signature("image/bmp", "bmp", vec![0x42u8, 0x4Du8]));
    v.push(signature("image/tiff", "tiff", vec![0x49u8, 0x49u8, 0x2Au8, 0x00u8]));
    v.push(signature("image/tiff", "tif", vec![0x49u8, 0x49u8, 0x2Au8, 0x00u8]));
    v.push(signature("application/pdf", "pdf", vec![0x25u8, 0x50u8, 0x44u8, 0x46u8]));
    v.push(signature(docx, "docx", vec![0x50u8, 0x4Bu8, 0x03u8, 0x04u8]));
    v.push(signature(xlsx, "xlsx", vec![0x50u8, 0x4Bu8, 0x03u8, 0x04u8]));
    v.push(signature(pptx, "pptx", vec![0x50u8, 0x4Bu8, 0x03u8, 0x04u8]));
    v.push(signature(zip, "zip", vec![0x50u8, 0x4Bu8, 0x03u8, 0x04u8]));
    v.push(signature("text/plain", "txt", Vec::new()));
    v.push(signature("text/csv", "csv", Vec::new()));
    v.push(signature("text/html", "html", Vec::new()));
    v.push(signature("text/xml", "xml", Vec::new()));
    v.push(signature("application/json", "json", Vec::new()));
    proof {
        let t = signature_table();
        let w = signature_views(v@);
        assert(w.len() == t.len());
        assert forall|i: int| 0 <= i < 18 implies w[i] == t[i] by {
            assert(w[i] == v@[i]@);
            assert(w[i].2 =~= t[i].2);
        }
        assert(w =~= t);
    }
    v
}

/// The extensions that are refused whatever the file holds.
pub open spec fn blocked_extensions() -> Seq<Seq<char>> {
    seq![
        "exe"@,
        "bat"@,
        "cmd"@,
        "com"@,
        "pif"@,
        "scr"@,
        "vbs"@,
        "js"@,
        "jar"@,
        "msi"@,
        "app"@,
        "deb"@,
        "rpm"@,
        "dmg"@,
        "pkg"@,
        "sh"@,
        "bash"@,
        "ps1"@,
        "dll"@,
        "so"@,
        "dylib"@,
        "sys"@,
        "ocx"@,
    ]
}

/// The views of the strings of `v`.
pub open spec fn str_views(v: Seq<&'static str>) -> Seq<Seq<char>> {
    v.map_values(|s: &'static str| s@)
}

/// The blocklist.
pub fn blocked_list() -> (v: Vec<&'static str>)
    ensures
        str_views(v@) == blocked_extensions(),
{
    let v = vec![
        "exe",
        "bat",
        "cmd",
        "com",
        "pif",
        "scr",
        "vbs",
        "js",
        "jar",
        "msi",
        "app",
        "deb",
        "rpm",
        "dmg",
        "pkg",
        "sh",
        "bash",
        "ps1",
        "dll",
        "so",
        "dylib",
        "sys",
        "ocx",
    ];
    assert(str_views(v@) =~= blocked_extensions());
    v
}

/// What follows the last `.` of `filename`, as written; none when there is
/// no `.` or nothing follows the last one.
pub open spec fn raw_extension(filename: Seq<char>) -> Option<Seq<char>> {
    let k = last_index(filename, '.');
    if k < 0 || k + 1 == filename.len() {
        None
    } else {
        Some(filename.skip(k + 1))
    }
}

/// The extension of `filename`, in lower case.
pub open spec fn extension_of(filename: Seq<char>) -> Option<Seq<char>> {
    match raw_extension(filename) {
        Some(e) => Some(lowercase_of(e)),
        None => None,
    }
}

/// The extension of `filename`, in lower case: what follows its last `.`.
pub fn get_extension(filename: &str) -> (r: Option<String>)
    ensures
        opt_view(r) == extension_of(filename@),
{
    let v = chars_of(filename);
    proof {
        lemma_last_index(v@, '.');
    }
    match find_last(&v, '.') {
        None => None,
        Some(k) => {
            if k + 1 == v.len() {
                None
            } else {
                let raw = string_of_range(&v, k + 1, v.len());
                assert(v@.subrange(k as int + 1, v.len() as int) =~= v@.skip(k as int + 1));
                Some(to_lowercase(raw.as_str()))
            }
        },
    }
}

/// Whether the extension of `filename` is on the blocklist.
pub open spec fn extension_blocked(filename: Seq<char>) -> bool {
    match extension_of(filename) {
        Some(e) => blocked_extensions().contains(e),
        None => false,
    }
}

fn in_blocklist(ext: &str) -> (b: bool)
    ensures
        b == blocked_extensions().contains(ext@),
{
    let list = blocked_list();
    let mut i: usize = 0;
    while i < list.len()
        invariant
            i <= list.len(),
            str_views(list@) == blocked_extensions(),
            forall|j: int| 0 <= j < i ==> blocked_extensions()[j] != ext@,
        decreases list.len() - i,
    {
        assert(str_views(list@)[i as int] == list@[i as int]@);
        if str_eq(list[i], ext) {
            return true;
        }
        i += 1;
    }
    false
}

/// Whether the extension of `filename` is one that is always refused.
pub fn is_extension_blocked(filename: &str) -> (b: bool)
    ensures
        b == extension_blocked(filename@),
{
    match get_extension(filename) {
        Some(ext) => in_blocklist(ext.as_str()),
        None => false,
    }
}

/// Whether the whitelist line `line` accepts a file with extension `ext`
/// that starts with `content`.
pub open spec fn line_accepts(
    line: (Seq<char>, Seq<char>, Seq<u8>),
    ext: Seq<char>,
    content: Seq<u8>,
) -> bool {
    line.1 == ext && (line.2.len() == 0 || line.2.is_prefix_of(content))
}

/// The position of the first line of `t` that accepts, or `t.len()`.
pub open spec fn first_accepting(
    t: Seq<(Seq<char>, Seq<char>, Seq<u8>)>,
    ext: Seq<char>,
    content: Seq<u8>,
) -> int
    decreases t.len(),
{
    if t.len() == 0 {
        0
    } else if line_accepts(t[0], ext, content) {
        0
    } else {
        1 + first_accepting(t.drop_first(), ext, content)
    }
}

/// `first_accepting` is the least position of a line that accepts.
pub proof fn lemma_first_accepting(
    t: Seq<(Seq<char>, Seq<char>, Seq<u8>)>,
    ext: Seq<char>,
    content: Seq<u8>,
)
    ensures
        0 <= first_accepting(t, ext, content) <= t.len(),
        first_accepting(t, ext, content) < t.len() ==> line_accepts(
            t[first_accepting(t, ext, content)],
            ext,
            content,
        ),
        forall|j: int|
            0 <= j < first_accepting(t, ext, content) ==> !line_accepts(#[trigger] t[j], ext, content),
    decreases t.len(),
{
    if t.len() > 0 && !line_accepts(t[0], ext, content) {
        lemma_first_accepting(t.drop_first(), ext, content);
        let k = first_accepting(t.drop_first(), ext, content);
        assert forall|j: int| 0 <= j < 1 + k implies !line_accepts(#[trigger] t[j], ext, content) by {
            if j > 0 {
                assert(t.drop_first()[j - 1] == t[j]);
            }
        }
    }
}

/// Whether some line of `t` is for the extension `ext`.
pub open spec fn knows_extension(t: Seq<(Seq<char>, Seq<char>, Seq<u8>)>, ext: Seq<char>) -> bool {
    exists|i: int| 0 <= i < t.len() && (#[trigger] t[i]).1 == ext
}

/// What the oracle says of a file.
pub ghost enum FileTypeVerdict {
    /// Accepted, with the content type of the line that accepted it.
    Accepted(Seq<char>),
    /// Refused: the extension is on the blocklist.
    Blocked,
    /// Refused: the name has no extension.
    NoExtension,
    /// Refused: the extension is not on the whitelist.
    UnknownExtension(Seq<char>),
    /// Refused: the leading bytes do not fit the extension.
    Mismatch(Seq<char>),
}

/// The oracle: a blocked extension is refused; then a name without
/// extension; then an extension that the whitelist does not know; then the
/// first line for the extension that has no leading bytes or whose leading
/// bytes start the content accepts; failing that, the file is refused.
pub open spec fn file_type_verdict(filename: Seq<char>, content: Seq<u8>) -> FileTypeVerdict {
    match extension_of(filename) {
        None => FileTypeVerdict::NoExtension,
        Some(ext) => {
            let t = signature_table();
            let k = first_accepting(t, ext, content);
            if blocked_extensions().contains(ext) {
                FileTypeVerdict::Blocked
            } else if !knows_extension(t, ext) {
                FileTypeVerdict::UnknownExtension(ext)
            } else if k < t.len() {
                FileTypeVerdict::Accepted(t[k].0)
            } else {
                FileTypeVerdict::Mismatch(ext)
            }
        },
    }
}

/// The message of a refusal.
pub open spec fn refusal_message(verdict: FileTypeVerdict, filename: Seq<char>) -> Seq<char> {
    match verdict {
        FileTypeVerdict::Accepted(_) => Seq::empty(),
        FileTypeVerdict::Blocked => "File type not allowed: "@ + filename
            + " (blocked extension)"@,
        FileTypeVerdict::NoExtension => "No file extension found: "@ + filename,
        FileTypeVerdict::UnknownExtension(ext) => "File type not allowed: ."@ + ext
            + " extension"@,
        FileTypeVerdict::Mismatch(ext) => "File type mismatch: "@ + filename
            + " has extension ."@ + ext
            + " but magic bytes don't match expected signature"@,
    }
}

/// A file that the oracle accepts gets the content type of a whitelist line
/// for its extension, and that line has no leading bytes or its leading
/// bytes start the file.
pub proof fn lemma_accepted_by_a_line(filename: Seq<char>, content: Seq<u8>)
    requires
        file_type_verdict(filename, content) is Accepted,
    ensures
        extension_of(filename) is Some,
        exists|i: int|
            0 <= i < signature_table().len() && line_accepts(
                #[trigger] signature_table()[i],
                extension_of(filename)->0,
                content,
            ) && file_type_verdict(filename, content) == FileTypeVerdict::Accepted(
                signature_table()[i].0,
            ),
{
    let ext = extension_of(filename)->0;
    lemma_first_accepting(signature_table(), ext, content);
    let k = first_accepting(signature_table(), ext, content);
    assert(line_accepts(signature_table()[k], ext, content));
}

/// A file with a blocked extension is refused whatever it holds.
pub proof fn lemma_blocked_whatever_the_bytes(filename: Seq<char>, content: Seq<u8>)
    requires
        extension_blocked(filename),
    ensures
        file_type_verdict(filename, content) == FileTypeVerdict::Blocked,
{
}

fn starts_with_bytes(content: &[u8], magic: &Vec<u8>) -> (b: bool)
    ensures
        b == magic@.is_prefix_of(content@),
{
    if magic.len() > content.len() {
        return false;
    }
    let mut i: usize = 0;
    while i < magic.len()
        invariant
            i <= magic.len() <= content.len(),
            forall|j: int| 0 <= j < i ==> content@[j] == magic@[j],
        decreases magic.len() - i,
    {
        if content[i] != magic[i] {
            assert(content@.take(magic@.len() as int)[i as int] != magic@[i as int]);
            return false;
        }
        i += 1;
    }
    assert(content@.take(magic@.len() as int) =~= magic@);
    true
}

/// Judges a file by its name and its leading bytes, and returns the content
/// type of the whitelist line that accepts it. The declared content type
/// plays no part.
pub fn validate_file_type(filename: &str, content: &[u8], declared_content_type: &str) -> (r:
    Result<String, MailflowError>)
    ensures
        match r {
            Ok(mime) => file_type_verdict(filename@, content@) == FileTypeVerdict::Accepted(mime@),
            Err(e) => {
                &&& !(file_type_verdict(filename@, content@) is Accepted)
                &&& e is Validation
                &&& e.detail() == refusal_message(file_type_verdict(filename@, content@), filename@)
            },
        },
{
    let ext = match get_extension(filename) {
        Some(ext) => ext,
        None => {
            return Err(
                MailflowError::Validation(concat2("No file extension found: ", filename)),
            );
        },
    };
    if in_blocklist(ext.as_str()) {
        return Err(
            MailflowError::Validation(
                concat3("File type not allowed: ", filename, " (blocked extension)"),
            ),
        );
    }
    let table = allowed_signatures();
    let ghost t = signature_table();
    let mut known = false;
    let mut i: usize = 0;
    while i < table.len()
        invariant
            i <= table.len(),
            t == signature_table(),
            signature_views(table@) == t,
            extension_of(filename@) == Some(ext@),
            !blocked_extensions().contains(ext@),
            known == (exists|j: int| 0 <= j < i && (#[trigger] t[j]).1 == ext@),
            forall|j: int| 0 <= j < i ==> !line_accepts(#[trigger] t[j], ext@, content@),
        decreases table.len() - i,
    {
        assert(t[i as int] == table@[i as int]@);
        if str_eq(table[i].extension, ext.as_str()) {
            known = true;
            if table[i].magic.len() == 0 || starts_with_bytes(content, &table[i].magic) {
                proof {
                    lemma_first_accepting(t, ext@, content@);
                    assert(line_accepts(t[i as int], ext@, content@));
                    assert(knows_extension(t, ext@));
                }
                return Ok(table[i].mime_type.to_string());
            }
        }
        i += 1;
    }
    proof {
        lemma_first_accepting(t, ext@, content@);
    }
    if !known {
        return Err(
            MailflowError::Validation(
                concat3("File type not allowed: .", ext.as_str(), " extension"),
            ),
        );
    }
    let mut m = concat3("File type mismatch: ", filename, " has extension .");
    m.append(ext.as_str());
    m.append(" but magic bytes don't match expected signature");
    Err(MailflowError::Validation(m))
}

/// The extensions of the whitelist, in the order of its lines.
pub fn get_allowed_extensions() -> (v: Vec<&'static str>)
    ensures
        str_views(v@) == signature_table().map_values(
            |line: (Seq<char>, Seq<char>, Seq<u8>)| line.1,
        ),
{
    let table = allowed_signatures();
    let ghost all = signature_table().map_values(|line: (Seq<char>, Seq<char>, Seq<u8>)| line.1);
    let mut v: Vec<&'static str> = Vec::new();
    let mut i: usize = 0;
    while i < table.len()
        invariant
            i <= table.len(),
            signature_views(table@) == signature_table(),
            all == signature_table().map_values(|line: (Seq<char>, Seq<char>, Seq<u8>)| line.1),
            str_views(v@) == all.take(i as int),
        decreases table.len() - i,
    {
        let ghost before = v@;
        assert(signature_table()[i as int] == table@[i as int]@);
        v.push(table[i].extension);
        assert(str_views(v@) =~= str_views(before).push(table@[i as int].extension@));
        assert(all.take(i as int).push(all[i as int]) =~= all.take(i as int + 1));
        i += 1;
    }
    assert(all.take(table.len() as int) =~= all);
    v
}

} // verus!
