//! Calls into other crates, and into parts of the standard library that come
//! without a specification. Each contract here is believed, not proved; the
//! comment above it says what it claims of the code it calls.

pub mod mail_builder;
pub mod mime_parser;

use crate::models::email::Timestamp;
use crate::text::views;
use regex::Regex;
use vstd::prelude::*;

verus! {

/// Calls `String::push`, which appends the character to the string.
#[verifier::external_body]
pub(crate) fn push_char(s: &mut String, c: char)
    ensures
        final(s)@ == old(s)@.push(c),
{
    s.push(c)
}

/// What `char::is_alphanumeric` answers for `c`.
pub uninterp spec fn char_alphanumeric(c: char) -> bool;

/// Calls `char::is_alphanumeric`. The answer depends on the character alone.
#[verifier::external_body]
pub(crate) fn is_alphanumeric(c: char) -> (b: bool)
    ensures
        b == char_alphanumeric(c),
{
    c.is_alphanumeric()
}

/// What `str::to_lowercase` returns for the characters `s`.
pub uninterp spec fn lowercase_of(s: Seq<char>) -> Seq<char>;

/// Calls `str::to_lowercase`. The result depends on the characters alone.
#[verifier::external_body]
pub(crate) fn to_lowercase(s: &str) -> (r: String)
    ensures
        r@ == lowercase_of(s@),
{
    s.to_lowercase()
}

/// Whether `c` is one of `0`-`9`, `a`-`f`.
pub open spec fn lower_hex_digit(c: char) -> bool {
    ('0' <= c && c <= '9') || ('a' <= c && c <= 'f')
}

/// The shape of a UUID in hyphenated lower-case notation: 36 characters,
/// hyphens at positions 8, 13, 18 and 23, lower-case hexadecimal digits
/// elsewhere.
pub open spec fn is_uuid_text(s: Seq<char>) -> bool {
    &&& s.len() == 36
    &&& forall|i: int|
        0 <= i < 36 ==> if i == 8 || i == 13 || i == 18 || i == 23 {
            #[trigger] s[i] == '-'
        } else {
            lower_hex_digit(s[i])
        }
}

/// Calls `uuid::Uuid::new_v4` and renders the result with its `Display`,
/// which writes the hyphenated lower-case notation. Nothing is claimed of
/// which UUID comes back.
#[verifier::external_body]
pub(crate) fn new_uuid() -> (s: String)
    ensures
        is_uuid_text(s@),
{
    uuid::Uuid::new_v4().to_string()
}

/// The successive non-overlapping matches of the regular expression
/// `pattern` in `text`, as `regex::Regex::find_iter` yields them; `None`
/// when `pattern` is not a regular expression.
pub uninterp spec fn regex_matches(pattern: Seq<char>, text: Seq<char>) -> Option<Seq<Seq<char>>>;

/// The parts of `text` that the matches of `pattern` leave, as
/// `regex::Regex::split` yields them; `None` when `pattern` is not a regular
/// expression.
pub uninterp spec fn regex_gaps(pattern: Seq<char>, text: Seq<char>) -> Option<Seq<Seq<char>>>;

/// The text `gaps[0] fills[0] gaps[1] fills[1] ... gaps[n]`, for `n` fills
/// and `n + 1` gaps.
pub open spec fn interleave(gaps: Seq<Seq<char>>, fills: Seq<Seq<char>>) -> Seq<char>
    recommends
        gaps.len() == fills.len() + 1,
    decreases fills.len(),
{
    if fills.len() == 0 || gaps.len() == 0 {
        if gaps.len() == 0 {
            Seq::empty()
        } else {
            gaps[0]
        }
    } else {
        interleave(gaps.drop_last(), fills.drop_last()) + fills.last() + gaps.last()
    }
}

/// Compiles `pattern` with `regex::Regex::new` and collects the matches that
/// `Regex::find_iter` yields in `text`, each as its matched text.
#[verifier::external_body]
pub(crate) fn find_matches(pattern: &str, text: &str) -> (r: Option<Vec<String>>)
    ensures
        match r {
            Some(m) => regex_matches(pattern@, text@) == Some(views(m@)),
            None => regex_matches(pattern@, text@) is None,
        },
{
    let re = Regex::new(pattern).ok()?;
    Some(re.find_iter(text).map(|m| m.as_str().to_string()).collect())
}

/// Compiles `pattern` with `regex::Regex::new` and collects the pieces that
/// `Regex::split` yields for `text`. `split` walks the same matches as
/// `find_iter` and yields what lies before the first, between each two, and
/// after the last: one piece more than there are matches, and the pieces
/// and matches interleaved are the text again.
#[verifier::external_body]
pub(crate) fn split_around_matches(pattern: &str, text: &str) -> (r: Option<Vec<String>>)
    ensures
        match r {
            Some(g) => {
                &&& regex_gaps(pattern@, text@) == Some(views(g@))
                &&& regex_matches(pattern@, text@) is Some
                &&& g@.len() == regex_matches(pattern@, text@)->0.len() + 1
                &&& interleave(views(g@), regex_matches(pattern@, text@)->0) == text@
            },
            None => regex_gaps(pattern@, text@) is None && regex_matches(pattern@, text@) is None,
        },
{
    let re = Regex::new(pattern).ok()?;
    Some(re.split(text).map(|piece| piece.to_string()).collect())
}

/// Calls `rand::random::<u64>`. Nothing is claimed of the number that comes
/// back.
#[verifier::external_body]
pub(crate) fn random_u64() -> u64 {
    rand::random::<u64>()
}

/// The MD5 digest of `data`, as `md5::Md5::digest` computes it.
pub uninterp spec fn md5_of(data: Seq<u8>) -> Seq<u8>;

/// Calls `md5::Md5::digest` (from the `Digest` trait) and copies its
/// output, which is 16 bytes long and depends on the data alone.
#[verifier::external_body]
pub(crate) fn md5_digest(data: &[u8]) -> (r: Vec<u8>)
    ensures
        r@ == md5_of(data@),
        r@.len() == 16,
{
    <md5::Md5 as md5::Digest>::digest(data).to_vec()
}

/// Reads the clock with `chrono::Utc::now` and takes the seconds and
/// nanoseconds of the result. Nothing is claimed of the instant.
#[verifier::external_body]
pub(crate) fn utc_now() -> Timestamp {
    let now = chrono::Utc::now();
    Timestamp { seconds: now.timestamp(), nanos: now.timestamp_subsec_nanos() }
}

/// Whether `piece` stands in `whole` in one piece.
pub open spec fn is_piece_of(piece: Seq<char>, whole: Seq<char>) -> bool {
    exists|from: int, to: int| 0 <= from <= to <= whole.len() && piece == whole.subrange(from, to)
}

/// What `str::trim` returns for the characters `s`.
pub uninterp spec fn trimmed_of(s: Seq<char>) -> Seq<char>;

/// Calls `str::trim`, which removes leading and trailing whitespace. The
/// result depends on the characters alone, and is a piece of them.
#[verifier::external_body]
pub(crate) fn trim(s: &str) -> (r: String)
    ensures
        r@ == trimmed_of(s@),
        is_piece_of(r@, s@),
{
    s.trim().to_string()
}

} // verus!
