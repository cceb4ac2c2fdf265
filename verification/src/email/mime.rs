//! Content types by file extension.

use crate::foreign::{lowercase_of, to_lowercase};
use crate::text::{chars_of, find_last, last_index, lemma_last_index, str_eq, string_of_range};
use vstd::prelude::*;

verus! {

/// The content types known by extension, in the order in which they are
/// consulted.
pub open spec fn known_content_types() -> Seq<(Seq<char>, Seq<char>)> {
    seq![
        ("pdf"@, "application/pdf"@),
        ("txt"@, "text/plain"@),
        ("html"@, "text/html"@),
        ("json"@, "application/json"@),
        ("xml"@, "application/xml"@),
        ("zip"@, "application/zip"@),
        ("jpg"@, "image/jpeg"@),
        ("jpeg"@, "image/jpeg"@),
        ("png"@, "image/png"@),
        ("gif"@, "image/gif"@),
        ("doc"@, "application/msword"@),
        ("docx"@, "application/vnd.openxmlformats-officedocument.wordprocessingml.document"@),
        ("xls"@, "application/vnd.ms-excel"@),
        ("xlsx"@, "application/vnd.openxmlformats-officedocument.spreadsheetml.sheet"@),
    ]
}

/// The content type that `table` gives the extension `ext`: that of the
/// first line for it, or `application/octet-stream`.
pub open spec fn content_type_in(table: Seq<(Seq<char>, Seq<char>)>, ext: Seq<char>) -> Seq<char>
    decreases table.len(),
{
    if table.len() == 0 {
        "application/octet-stream"@
    } else if table[0].0 == ext {
        table[0].1
    } else {
        content_type_in(table.drop_first(), ext)
    }
}

/// What follows the last `.` of `filename`, or all of it when it has no
/// `.`, in lower case.
pub open spec fn trailing_extension(filename: Seq<char>) -> Seq<char> {
    lowercase_of(filename.skip(last_index(filename, '.') + 1))
}

/// The views of the lines of `v`.
pub open spec fn pair_views(v: Seq<(&'static str, &'static str)>) -> Seq<(Seq<char>, Seq<char>)> {
    v.map_values(|p: (&'static str, &'static str)| (p.0@, p.1@))
}

fn content_type_table() -> (v: Vec<(&'static str, &'static str)>)
    ensures
        pair_views(v@) == known_content_types(),
{
    let v = vec![
        ("pdf", "application/pdf"),
        ("txt", "text/plain"),
        ("html", "text/html"),
        ("json", "application/json"),
        ("xml", "application/xml"),
        ("zip", "application/zip"),
        ("jpg", "image/jpeg"),
        ("jpeg", "image/jpeg"),
        ("png", "image/png"),
        ("gif", "image/gif"),
        ("doc", "application/msword"),
        ("docx", "application/vnd.openxmlformats-officedocument.wordprocessingml.document"),
        ("xls", "application/vnd.ms-excel"),
        ("xlsx", "application/vnd.openxmlformats-officedocument.spreadsheetml.sheet"),
    ];
    assert(pair_views(v@) =~= known_content_types());
    v
}

/// The content type that the extension of `filename` suggests, or
/// `application/octet-stream` when the extension says nothing.
pub fn detect_content_type(filename: &str) -> (r: &'static str)
    ensures
        r@ == content_type_in(known_content_types(), trailing_extension(filename@)),
{
    let v = chars_of(filename);
    proof {
        lemma_last_index(v@, '.');
    }
    let from: usize = match find_last(&v, '.') {
        Some(k) => k + 1,
        None => 0,
    };
    let raw = string_of_range(&v, from, v.len());
    assert(v@.subrange(from as int, v.len() as int) =~= v@.skip(from as int));
    let ext = to_lowercase(raw.as_str());
    let table = content_type_table();
    let ghost t = known_content_types();
    let mut i: usize = 0;
    assert(t.skip(0) =~= t);
    while i < table.len()
        invariant
            i <= table.len(),
            ext@ == trailing_extension(filename@),
            t == known_content_types(),
            pair_views(table@) == t,
            content_type_in(t, ext@) == content_type_in(t.skip(i as int), ext@),
        decreases table.len() - i,
    {
        proof {
            assert(t.skip(i as int)[0] == t[i as int]);
            assert(t.skip(i as int).drop_first() =~= t.skip(i as int + 1));
            assert(t[i as int] == (table@[i as int].0@, table@[i as int].1@));
        }
        if str_eq(table[i].0, ext.as_str()) {
            return table[i].1;
        }
        i += 1;
    }
    assert(t.skip(table.len() as int) =~= Seq::empty());
    "application/octet-stream"
}

} // verus!
