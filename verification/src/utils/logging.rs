//! Hiding personal data before text reaches a log or a dead-letter queue.

use crate::foreign::{find_matches, interleave, regex_gaps, regex_matches, split_around_matches};
use crate::text::{
    chars_of, concat2, concat3, decimal, decimal_string, find_first, find_last, find_second_segment,
    first_index, last_index, lemma_last_index, second_segment, string_of_range, views,
};
use vstd::prelude::*;
use vstd::string::StringSliceAdditionalSpecFns;

verus! {

/// The regular expression that finds address-like tokens in running text.
pub const ADDRESS_PATTERN: &'static str =
    "\\b[A-Za-z0-9._%+-]+@[A-Za-z0-9.-]+\\.[A-Z|a-z]{2,}\\b";

/// What takes the place of an address when all of it is hidden.
pub const FULL_MASK: &'static str = "***@***.***";

/// What takes the place of text that cannot be searched for addresses.
pub const OPAQUE_MASK: &'static str = "***";

/// An address-like token with its local part hidden: `***` and what follows
/// from the first `@` on.
pub open spec fn masked_local_part(token: Seq<char>) -> Seq<char> {
    let k = first_index(token, '@');
    if k < token.len() {
        "***"@ + token.skip(k)
    } else {
        "***@***"@
    }
}

/// Hides the local part of an address-like token.
pub fn mask_local_part(token: &str) -> (r: String)
    ensures
        r@ == masked_local_part(token@),
{
    let v = chars_of(token);
    let k = find_first(&v, '@');
    if k < v.len() {
        let tail = string_of_range(&v, k, v.len());
        assert(v@.subrange(k as int, v.len() as int) =~= v@.skip(k as int));
        concat2("***", tail.as_str())
    } else {
        "***@***".to_string()
    }
}

/// What is written in place of a local part does not depend on the local
/// part: two tokens that agree from their first `@` on are masked alike.
pub proof fn lemma_mask_hides_local_part(first: Seq<char>, second: Seq<char>, rest: Seq<char>)
    requires
        rest.len() > 0,
        rest[0] == '@',
        forall|i: int| 0 <= i < first.len() ==> first[i] != '@',
        forall|i: int| 0 <= i < second.len() ==> second[i] != '@',
    ensures
        masked_local_part(first + rest) == "***"@ + rest,
        masked_local_part(first + rest) == masked_local_part(second + rest),
{
    lemma_mask_of_local_and_rest(first, rest);
    lemma_mask_of_local_and_rest(second, rest);
}

proof fn lemma_mask_of_local_and_rest(local: Seq<char>, rest: Seq<char>)
    requires
        rest.len() > 0,
        rest[0] == '@',
        forall|i: int| 0 <= i < local.len() ==> local[i] != '@',
    ensures
        masked_local_part(local + rest) == "***"@ + rest,
{
    let token = local + rest;
    assert(token[local.len() as int] == rest[0]);
    assert forall|j: int| 0 <= j < local.len() implies token[j] != '@' by {
        assert(token[j] == local[j]);
    }
    crate::text::lemma_first_index_unique(token, '@', local.len() as int);
    assert(token.skip(local.len() as int) =~= rest);
}

/// The tokens of `tokens`, each with its local part hidden.
pub open spec fn masked_tokens(tokens: Seq<Seq<char>>) -> Seq<Seq<char>> {
    tokens.map_values(|t: Seq<char>| masked_local_part(t))
}

/// As many copies of `mask` as there are tokens.
pub open spec fn uniform_masks(tokens: Seq<Seq<char>>, mask: Seq<char>) -> Seq<Seq<char>> {
    tokens.map_values(|t: Seq<char>| mask)
}

/// Joins `gaps` and `fills` alternately, starting and ending with a gap.
pub fn weave(gaps: &Vec<String>, fills: &Vec<String>) -> (r: String)
    requires
        gaps@.len() == fills@.len() + 1,
    ensures
        r@ == interleave(views(gaps@), views(fills@)),
{
    let mut r = String::from_str(gaps[0].as_str());
    let ghost g = views(gaps@);
    let ghost f = views(fills@);
    assert(r@ == interleave(g.take(1), f.take(0)));
    let mut i: usize = 0;
    while i < fills.len()
        invariant
            i <= fills.len(),
            gaps@.len() == fills@.len() + 1,
            g == views(gaps@),
            f == views(fills@),
            r@ == interleave(g.take(i as int + 1), f.take(i as int)),
        decreases fills.len() - i,
    {
        r.append(fills[i].as_str());
        r.append(gaps[i + 1].as_str());
        proof {
            assert(g.take(i as int + 2).drop_last() =~= g.take(i as int + 1));
            assert(f.take(i as int + 1).drop_last() =~= f.take(i as int));
            assert(g.take(i as int + 2).last() == gaps@[i as int + 1]@);
            assert(f.take(i as int + 1).last() == fills@[i as int]@);
        }
        i += 1;
    }
    proof {
        assert(g.take(fills.len() as int + 1) =~= g);
        assert(f.take(fills.len() as int) =~= f);
    }
    r
}

/// The text made of `gaps` and of `tokens` with their local parts hidden.
pub fn weave_masked(gaps: &Vec<String>, tokens: &Vec<String>) -> (r: String)
    requires
        gaps@.len() == tokens@.len() + 1,
    ensures
        r@ == interleave(views(gaps@), masked_tokens(views(tokens@))),
{
    let mut masked: Vec<String> = Vec::new();
    let mut i: usize = 0;
    while i < tokens.len()
        invariant
            i <= tokens.len(),
            views(masked@) == masked_tokens(views(tokens@)).take(i as int),
        decreases tokens.len() - i,
    {
        let ghost before = masked@;
        let m = mask_local_part(tokens[i].as_str());
        masked.push(m);
        proof {
            let all = masked_tokens(views(tokens@));
            assert(views(masked@) =~= views(before).push(m@));
            assert(all.take(i as int).push(all[i as int]) =~= all.take(i as int + 1));
        }
        i += 1;
    }
    proof {
        let all = masked_tokens(views(tokens@));
        assert(all.take(tokens.len() as int) =~= all);
    }
    weave(gaps, &masked)
}

/// The text made of `gaps` with `mask` between each two.
pub fn weave_uniform(gaps: &Vec<String>, tokens: &Vec<String>, mask: &str) -> (r: String)
    requires
        gaps@.len() == tokens@.len() + 1,
    ensures
        r@ == interleave(views(gaps@), uniform_masks(views(tokens@), mask@)),
{
    let mut masked: Vec<String> = Vec::new();
    let mut i: usize = 0;
    while i < tokens.len()
        invariant
            i <= tokens.len(),
            views(masked@) == uniform_masks(views(tokens@), mask@).take(i as int),
        decreases tokens.len() - i,
    {
        let ghost before = masked@;
        let m = String::from_str(mask);
        masked.push(m);
        proof {
            let all = uniform_masks(views(tokens@), mask@);
            assert(views(masked@) =~= views(before).push(m@));
            assert(all.take(i as int).push(all[i as int]) =~= all.take(i as int + 1));
        }
        i += 1;
    }
    proof {
        let all = uniform_masks(views(tokens@), mask@);
        assert(all.take(tokens.len() as int) =~= all);
    }
    weave(gaps, &masked)
}

/// `text` with the local part of every address-like token hidden. The tokens
/// are the matches of [`ADDRESS_PATTERN`]; what lies between them is kept as
/// it is. Text that cannot be searched is hidden altogether.
pub open spec fn redaction_of(text: Seq<char>) -> Seq<char> {
    match (regex_gaps(ADDRESS_PATTERN@, text), regex_matches(ADDRESS_PATTERN@, text)) {
        (Some(gaps), Some(tokens)) => interleave(gaps, masked_tokens(tokens)),
        _ => OPAQUE_MASK@,
    }
}

/// `text` with every address-like token replaced by [`FULL_MASK`].
pub open spec fn full_redaction_of(text: Seq<char>) -> Seq<char> {
    match (regex_gaps(ADDRESS_PATTERN@, text), regex_matches(ADDRESS_PATTERN@, text)) {
        (Some(gaps), Some(tokens)) => interleave(gaps, uniform_masks(tokens, FULL_MASK@)),
        _ => OPAQUE_MASK@,
    }
}

/// The text before redaction is its gaps and tokens interleaved; the
/// redacted text is the same gaps with the masked tokens in place of the
/// tokens.
pub open spec fn redaction_replaces_tokens_only(text: Seq<char>, redacted: Seq<char>) -> bool {
    regex_gaps(ADDRESS_PATTERN@, text) matches Some(gaps) ==> regex_matches(
        ADDRESS_PATTERN@,
        text,
    ) matches Some(tokens) && gaps.len() == tokens.len() + 1 && text == interleave(gaps, tokens)
        && redacted == interleave(gaps, masked_tokens(tokens))
}

/// Hides the local part of every address in `text` and keeps the domain:
/// `user@example.com` becomes `***@example.com`.
pub fn redact_email(text: &str) -> (r: String)
    ensures
        r@ == redaction_of(text@),
        redaction_replaces_tokens_only(text@, r@),
{
    let gaps = match split_around_matches(ADDRESS_PATTERN, text) {
        Some(gaps) => gaps,
        None => {
            return OPAQUE_MASK.to_string();
        },
    };
    match find_matches(ADDRESS_PATTERN, text) {
        Some(tokens) => weave_masked(&gaps, &tokens),
        None => OPAQUE_MASK.to_string(),
    }
}

/// Replaces every address in `text` by `***@***.***`.
pub fn redact_email_full(text: &str) -> (r: String)
    ensures
        r@ == full_redaction_of(text@),
{
    let gaps = match split_around_matches(ADDRESS_PATTERN, text) {
        Some(gaps) => gaps,
        None => {
            return OPAQUE_MASK.to_string();
        },
    };
    match find_matches(ADDRESS_PATTERN, text) {
        Some(tokens) => weave_uniform(&gaps, &tokens, FULL_MASK),
        None => OPAQUE_MASK.to_string(),
    }
}

/// A subject as it may be logged: as it is when it has at most 6
/// characters, else its first 3 characters and its length.
pub open spec fn subject_preview(subject: Seq<char>) -> Seq<char> {
    if subject.len() <= 6 {
        subject
    } else {
        subject.take(3) + "...["@ + decimal(subject.len()) + " chars]"@
    }
}

/// Shortens a subject line for logging: a subject of more than 6 characters
/// is cut to its first 3, followed by its length.
pub fn redact_subject(subject: &str) -> (r: String)
    ensures
        r@ == subject_preview(subject@),
{
    let v = chars_of(subject);
    if v.len() <= 6 {
        String::from_str(subject)
    } else {
        let head = string_of_range(&v, 0, 3);
        assert(v@.subrange(0, 3) =~= v@.take(3));
        let mut r = concat3(head.as_str(), "...[", decimal_string(v.len() as u64).as_str());
        r.append(" chars]");
        r
    }
}

/// A body as it may be logged: its length in bytes, between brackets.
pub fn redact_body(body: &str) -> (r: String)
    ensures
        r@ == "["@ + decimal(body.spec_bytes().len()) + " bytes]"@,
{
    let n = body.as_bytes().len();
    concat3("[", decimal_string(n as u64).as_str(), " bytes]")
}

/// What follows the last `/` of `key`; all of `key` when it has none.
pub open spec fn last_path_segment(key: Seq<char>) -> Seq<char> {
    key.skip(last_index(key, '/') + 1)
}

/// A storage key as it may be logged: `.../` and its last segment.
pub fn sanitize_s3_key_for_log(key: &str) -> (r: String)
    ensures
        r@ == ".../"@ + last_path_segment(key@),
{
    let v = chars_of(key);
    proof {
        lemma_last_index(v@, '/');
    }
    let from: usize = match find_last(&v, '/') {
        Some(k) => k + 1,
        None => 0,
    };
    let tail = string_of_range(&v, from, v.len());
    assert(v@.subrange(from as int, v.len() as int) =~= v@.skip(from as int));
    concat2(".../", tail.as_str())
}

/// The domain of `email`: what lies between its first `@` and the next
/// one, or the end.
pub open spec fn domain_of(email: Seq<char>) -> Option<Seq<char>> {
    second_segment(email, '@')
}

/// The domain of `email`, or `unknown` when it has no `@`.
pub fn extract_domain(email: &str) -> (r: String)
    ensures
        r@ == match domain_of(email@) {
            Some(d) => d,
            None => "unknown"@,
        },
{
    match find_second_segment(email, '@') {
        Some(d) => d,
        None => "unknown".to_string(),
    }
}

/// What may be logged of a message.
#[derive(Debug, Clone, PartialEq, Eq)]
pub struct SafeEmailContext {
    pub message_id: String,
    pub from_domain: String,
    pub subject_preview: String,
}

/// What may be logged of a message: its id, the sender's domain and a
/// preview of the subject.
pub fn safe_email_context(message_id: &str, from: &str, subject: &str) -> (r: SafeEmailContext)
    ensures
        r.message_id@ == message_id@,
        r.from_domain@ == match domain_of(from@) {
            Some(d) => d,
            None => "unknown"@,
        },
        r.subject_preview@ == subject_preview(subject@),
{
    SafeEmailContext {
        message_id: String::from_str(message_id),
        from_domain: extract_domain(from),
        subject_preview: redact_subject(subject),
    }
}

} // verus!
