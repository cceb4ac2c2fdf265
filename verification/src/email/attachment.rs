//! Judging an attachment by its declared content type.

use crate::error::MailflowError;
use crate::foreign::is_uuid_text;
use crate::text::{concat3, contains_seq, str_eq, str_has_prefix, views};
use crate::utils::sanitization::{
    all_chars, filename_char_allowed, filename_core, sanitize_filename_strict, sanitized_filename,
};
use vstd::prelude::*;

verus! {

/// Makes a filename safe; see
/// [`sanitize_filename_strict`](crate::utils::sanitization::sanitize_filename_strict).
pub fn sanitize_filename(filename: &str) -> (r: String)
    ensures
        exists|id: Seq<char>| is_uuid_text(id) && r@ == sanitized_filename(filename@, id),
        filename_core(filename@).len() > 0 ==> r@ == filename_core(filename@),
        all_chars(r@, |c: char| filename_char_allowed(c)),
        !contains_seq(r@, ".."@),
        0 < r@.len() <= 255,
{
    sanitize_filename_strict(filename)
}

/// Whether one of `prefixes` starts `content_type`.
pub open spec fn starts_with_one_of(prefixes: Seq<Seq<char>>, content_type: Seq<char>) -> bool {
    exists|i: int| 0 <= i < prefixes.len() && (#[trigger] prefixes[i]).is_prefix_of(content_type)
}

/// Whether the list of allowed types lets `content_type` in: an empty list
/// lets everything in; else one of its entries must start the type or be
/// `*`.
pub open spec fn type_allowed(allowed: Seq<Seq<char>>, content_type: Seq<char>) -> bool {
    allowed.len() == 0 || exists|i: int|
        0 <= i < allowed.len() && ((#[trigger] allowed[i]).is_prefix_of(content_type) || allowed[i]
            == "*"@)
}

/// Holds a declared content type against the configured lists: a type that a
/// blocked entry starts is rejected; then a type that the allowed list does
/// not let in.
pub fn validate_file_type(content_type: &str, allowed: &[String], blocked: &[String]) -> (r:
    Result<(), MailflowError>)
    ensures
        r is Ok <==> !starts_with_one_of(views(blocked@), content_type@) && type_allowed(
            views(allowed@),
            content_type@,
        ),
        r matches Err(e) ==> e is Validation && e.detail() == (if starts_with_one_of(
            views(blocked@),
            content_type@,
        ) {
            "File type "@ + content_type@ + " is blocked"@
        } else {
            "File type "@ + content_type@ + " is not allowed"@
        }),
{
    let mut i: usize = 0;
    while i < blocked.len()
        invariant
            i <= blocked.len(),
            forall|j: int|
                0 <= j < i ==> !(#[trigger] views(blocked@)[j]).is_prefix_of(content_type@),
        decreases blocked.len() - i,
    {
        assert(views(blocked@)[i as int] == blocked@[i as int]@);
        if str_has_prefix(content_type, blocked[i].as_str()) {
            return Err(
                MailflowError::Validation(concat3("File type ", content_type, " is blocked")),
            );
        }
        i += 1;
    }
    if allowed.len() == 0 {
        return Ok(());
    }
    let mut k: usize = 0;
    while k < allowed.len()
        invariant
            k <= allowed.len(),
            allowed.len() != 0,
            !starts_with_one_of(views(blocked@), content_type@),
            forall|j: int|
                0 <= j < k ==> !((#[trigger] views(allowed@)[j]).is_prefix_of(content_type@)
                    || views(allowed@)[j] == "*"@),
        decreases allowed.len() - k,
    {
        assert(views(allowed@)[k as int] == allowed@[k as int]@);
        if str_has_prefix(content_type, allowed[k].as_str()) || str_eq(allowed[k].as_str(), "*") {
            return Ok(());
        }
        k += 1;
    }
    Err(MailflowError::Validation(concat3("File type ", content_type, " is not allowed")))
}

} // verus!
