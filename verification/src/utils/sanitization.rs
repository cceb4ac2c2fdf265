//! Making untrusted text safe to use in storage keys and in markup.

use crate::foreign::{char_alphanumeric, is_alphanumeric, is_uuid_text, new_uuid};
use crate::utils::logging::{redact_email, redaction_of, redaction_replaces_tokens_only};
use crate::text::{
    chars_of, concat2, contains_char, contains_seq, contains_sub, find_first, occurs_at, push_all,
    string_of, string_of_range,
};
use vstd::prelude::*;
use vstd::string::StringSliceAdditionalSpecFns;

verus! {

/// What one character of markup becomes when it is escaped.
pub open spec fn html_escape(c: char) -> Seq<char> {
    if c == '<' {
        "&lt;"@
    } else if c == '>' {
        "&gt;"@
    } else {
        seq![c]
    }
}

/// `s` with every `<` and `>` escaped.
pub open spec fn escaped_html(s: Seq<char>) -> Seq<char>
    decreases s.len(),
{
    if s.len() == 0 {
        Seq::empty()
    } else {
        escaped_html(s.drop_last()) + html_escape(s.last())
    }
}

/// Escapes the angle brackets of `html`, so that it cannot open a tag.
pub fn sanitize_html(html: &str) -> (r: String)
    ensures
        r@ == escaped_html(html@),
{
    let v = chars_of(html);
    let mut out: Vec<char> = Vec::new();
    let mut i: usize = 0;
    while i < v.len()
        invariant
            i <= v.len(),
            out@ == escaped_html(v@.take(i as int)),
        decreases v.len() - i,
    {
        proof {
            assert(v@.take(i as int + 1).drop_last() =~= v@.take(i as int));
        }
        let c = v[i];
        if c == '<' {
            push_all(&mut out, "&lt;");
        } else if c == '>' {
            push_all(&mut out, "&gt;");
        } else {
            let ghost before = out@;
            out.push(c);
            assert(out@ =~= before + seq![c]);
        }
        i += 1;
    }
    assert(v@.take(v.len() as int) =~= v@);
    string_of(&out)
}

/// Hides the local part of every address in `text` and keeps the domain:
/// `user@example.com` becomes `***@example.com`.
pub fn redact_emails(text: &str) -> (r: String)
    ensures
        r@ == redaction_of(text@),
        redaction_replaces_tokens_only(text@, r@),
{
    redact_email(text)
}

/// The characters of `s` that `allowed` lets through, in order.
pub open spec fn keep(s: Seq<char>, allowed: spec_fn(char) -> bool) -> Seq<char>
    decreases s.len(),
{
    if s.len() == 0 {
        Seq::empty()
    } else if allowed(s.last()) {
        keep(s.drop_last(), allowed).push(s.last())
    } else {
        keep(s.drop_last(), allowed)
    }
}

/// Everything that `keep` lets through is allowed, and it lets through no
/// more than it was given.
pub proof fn lemma_keep(s: Seq<char>, allowed: spec_fn(char) -> bool)
    ensures
        keep(s, allowed).len() <= s.len(),
        forall|i: int| 0 <= i < keep(s, allowed).len() ==> allowed(#[trigger] keep(s, allowed)[i]),
    decreases s.len(),
{
    if s.len() > 0 {
        lemma_keep(s.drop_last(), allowed);
    }
}

/// What `keep` lets through of a prefix starts what it lets through of the
/// whole.
pub proof fn lemma_keep_prefix(s: Seq<char>, allowed: spec_fn(char) -> bool, n: int)
    requires
        0 <= n <= s.len(),
    ensures
        keep(s.take(n), allowed).is_prefix_of(keep(s, allowed)),
    decreases s.len() - n,
{
    if n == s.len() {
        assert(s.take(n) =~= s);
    } else {
        lemma_keep_prefix(s, allowed, n + 1);
        assert(s.take(n + 1).drop_last() =~= s.take(n));
    }
}

/// The first `limit` characters of `s`, or all of `s` when it has fewer.
pub open spec fn truncated(s: Seq<char>, limit: int) -> Seq<char> {
    if s.len() <= limit {
        s
    } else {
        s.take(limit)
    }
}

/// `s` without each `.` that directly follows another `.`.
pub open spec fn collapse_dots(s: Seq<char>) -> Seq<char>
    decreases s.len(),
{
    if s.len() == 0 {
        Seq::empty()
    } else if s.last() == '.' && s.len() >= 2 && s[s.len() - 2] == '.' {
        collapse_dots(s.drop_last())
    } else {
        collapse_dots(s.drop_last()).push(s.last())
    }
}

/// Whether no `.` of `s` directly follows another.
pub open spec fn no_double_dot(s: Seq<char>) -> bool {
    forall|i: int| 0 <= i < s.len() - 1 ==> !(#[trigger] s[i] == '.' && s[i + 1] == '.')
}

/// Whether every character of `s` satisfies `p`.
pub open spec fn all_chars(s: Seq<char>, p: spec_fn(char) -> bool) -> bool {
    forall|i: int| 0 <= i < s.len() ==> p(#[trigger] s[i])
}

/// What `collapse_dots` keeps and what it guarantees.
pub proof fn lemma_collapse_dots(s: Seq<char>, p: spec_fn(char) -> bool)
    requires
        all_chars(s, p),
    ensures
        no_double_dot(collapse_dots(s)),
        all_chars(collapse_dots(s), p),
        collapse_dots(s).len() <= s.len(),
        s.len() > 0 ==> collapse_dots(s).len() > 0 && collapse_dots(s).last() == s.last(),
    decreases s.len(),
{
    if s.len() > 0 {
        let front = s.drop_last();
        assert(all_chars(front, p)) by {
            assert forall|i: int| 0 <= i < front.len() implies p(#[trigger] front[i]) by {
                assert(front[i] == s[i]);
            }
        }
        lemma_collapse_dots(front, p);
        let r = collapse_dots(s);
        if s.last() == '.' && s.len() >= 2 && s[s.len() - 2] == '.' {
            assert(front.last() == '.');
        } else {
            let cf = collapse_dots(front);
            assert(r == cf.push(s.last()));
            assert forall|i: int| 0 <= i < r.len() - 1 implies !(#[trigger] r[i] == '.' && r[i + 1]
                == '.') by {
                if i < cf.len() - 1 {
                    assert(r[i] == cf[i] && r[i + 1] == cf[i + 1]);
                } else {
                    assert(r[i] == cf.last());
                    assert(cf.last() == front.last());
                    assert(front.last() == s[s.len() - 2]);
                }
            }
            assert forall|i: int| 0 <= i < r.len() implies p(#[trigger] r[i]) by {
                if i < cf.len() {
                    assert(r[i] == cf[i]);
                } else {
                    assert(r[i] == s.last());
                    assert(s.last() == s[s.len() - 1]);
                }
            }
        }
    }
}

/// The number of `.` at the start of `s`.
pub open spec fn leading_dots(s: Seq<char>) -> int
    decreases s.len(),
{
    if s.len() == 0 || s[0] != '.' {
        0
    } else {
        1 + leading_dots(s.drop_first())
    }
}

/// The number of `.` at the end of `s`.
pub open spec fn trailing_dots(s: Seq<char>) -> int
    decreases s.len(),
{
    if s.len() == 0 || s.last() != '.' {
        0
    } else {
        1 + trailing_dots(s.drop_last())
    }
}

/// What `leading_dots` counts.
pub proof fn lemma_leading_dots(s: Seq<char>)
    ensures
        0 <= leading_dots(s) <= s.len(),
        forall|i: int| 0 <= i < leading_dots(s) ==> s[i] == '.',
        leading_dots(s) < s.len() ==> s[leading_dots(s)] != '.',
    decreases s.len(),
{
    if s.len() > 0 && s[0] == '.' {
        lemma_leading_dots(s.drop_first());
        let k = leading_dots(s.drop_first());
        assert forall|i: int| 0 <= i < 1 + k implies s[i] == '.' by {
            if i > 0 {
                assert(s.drop_first()[i - 1] == s[i]);
            }
        }
        if 1 + k < s.len() {
            assert(s.drop_first()[k] == s[1 + k]);
        }
    }
}

/// What `trailing_dots` counts.
pub proof fn lemma_trailing_dots(s: Seq<char>)
    ensures
        0 <= trailing_dots(s) <= s.len(),
        forall|i: int| s.len() - trailing_dots(s) <= i < s.len() ==> s[i] == '.',
        trailing_dots(s) < s.len() ==> s[s.len() - trailing_dots(s) - 1] != '.',
    decreases s.len(),
{
    if s.len() > 0 && s.last() == '.' {
        lemma_trailing_dots(s.drop_last());
        let k = trailing_dots(s.drop_last());
        assert forall|i: int| s.len() - (1 + k) <= i < s.len() implies s[i] == '.' by {
            if i < s.len() - 1 {
                assert(s.drop_last()[i] == s[i]);
            }
        }
        if 1 + k < s.len() {
            assert(s.drop_last()[s.len() - 1 - k - 1] == s[s.len() - (1 + k) - 1]);
        }
    }
}

/// `s` without the dots at its start and at its end.
pub open spec fn trim_dots(s: Seq<char>) -> Seq<char> {
    let a = leading_dots(s);
    let b = s.len() - trailing_dots(s);
    if a < b {
        s.subrange(a, b)
    } else {
        Seq::empty()
    }
}

/// Trimming keeps what holds of every character and of every two neighbours.
pub proof fn lemma_trim_dots(s: Seq<char>, p: spec_fn(char) -> bool)
    requires
        all_chars(s, p),
    ensures
        all_chars(trim_dots(s), p),
        no_double_dot(s) ==> no_double_dot(trim_dots(s)),
        trim_dots(s).len() <= s.len(),
        trim_dots(s).len() > 0 ==> trim_dots(s)[0] != '.' && trim_dots(s).last() != '.',
{
    lemma_leading_dots(s);
    lemma_trailing_dots(s);
    let a = leading_dots(s);
    let b = s.len() - trailing_dots(s);
    let r = trim_dots(s);
    if a < b {
        assert forall|i: int| 0 <= i < r.len() implies p(#[trigger] r[i]) by {
            assert(r[i] == s[a + i]);
        }
        if no_double_dot(s) {
            assert forall|i: int| 0 <= i < r.len() - 1 implies !(#[trigger] r[i] == '.' && r[i + 1]
                == '.') by {
                assert(r[i] == s[a + i] && r[i + 1] == s[a + i + 1]);
            }
        }
        assert(r[0] == s[a]);
        assert(r.last() == s[b - 1]);
    }
}

fn trim_dots_of(v: &Vec<char>) -> (r: (usize, usize))
    ensures
        r.0 <= r.1 <= v.len(),
        v@.subrange(r.0 as int, r.1 as int) == trim_dots(v@),
{
    proof {
        lemma_leading_dots(v@);
        lemma_trailing_dots(v@);
    }
    let mut a: usize = 0;
    while a < v.len() && v[a] == '.'
        invariant
            a <= v.len(),
            forall|i: int| 0 <= i < a ==> v@[i] == '.',
        decreases v.len() - a,
    {
        a += 1;
    }
    let mut b: usize = v.len();
    while b > 0 && v[b - 1] == '.'
        invariant
            b <= v.len(),
            forall|i: int| b <= i < v.len() ==> v@[i] == '.',
        decreases b,
    {
        b -= 1;
    }
    assert(a == leading_dots(v@));
    assert(b == v.len() - trailing_dots(v@));
    if a < b {
        (a, b)
    } else {
        assert(v@.subrange(a as int, a as int) =~= Seq::<char>::empty());
        (a, a)
    }
}

/// Whether `c` may stand in a storage path component: alphanumeric or one of
/// `-`, `_`, `.`, `@`, and never a path separator.
pub open spec fn path_char_allowed(c: char) -> bool {
    c != '/' && c != '\\' && (char_alphanumeric(c) || c == '-' || c == '_' || c == '.' || c
        == '@')
}

/// The path component made from `input`: the allowed characters, at most 255
/// of them, runs of dots collapsed to one dot, dots trimmed from both ends.
pub open spec fn path_component(input: Seq<char>) -> Seq<char> {
    trim_dots(collapse_dots(truncated(keep(input, |c: char| path_char_allowed(c)), 255)))
}

/// A path component has no separator and no `..`, and is at most 255
/// characters long.
pub proof fn lemma_path_component_safe(input: Seq<char>)
    ensures
        !contains_char(path_component(input), '/'),
        !contains_char(path_component(input), '\\'),
        !contains_seq(path_component(input), ".."@),
        path_component(input).len() <= 255,
        all_chars(path_component(input), |c: char| path_char_allowed(c)),
{
    let p = |c: char| path_char_allowed(c);
    let kept = keep(input, p);
    lemma_keep(input, p);
    let cut = truncated(kept, 255);
    assert(all_chars(cut, p));
    lemma_collapse_dots(cut, p);
    let collapsed = collapse_dots(cut);
    lemma_trim_dots(collapsed, p);
    let r = path_component(input);
    assert(r == trim_dots(collapsed));
    lemma_no_double_dot(r);
    assert(!contains_char(r, '/')) by {
        if contains_char(r, '/') {
            let i = choose|i: int| 0 <= i < r.len() && r[i] == '/';
            assert(p(r[i]));
        }
    }
    assert(!contains_char(r, '\\')) by {
        if contains_char(r, '\\') {
            let i = choose|i: int| 0 <= i < r.len() && r[i] == '\\';
            assert(p(r[i]));
        }
    }
}

/// A text without two neighbouring dots does not hold `..`.
pub proof fn lemma_no_double_dot(s: Seq<char>)
    requires
        no_double_dot(s),
    ensures
        !contains_seq(s, ".."@),
{
    reveal_strlit("..");
    if contains_seq(s, ".."@) {
        let at = choose|at: int| occurs_at(s, ".."@, at);
        let w = s.subrange(at, at + 2);
        assert(w[0] == s[at] && w[1] == s[at + 1]);
        assert(s[at] == '.' && s[at + 1] == '.');
    }
}

/// Makes a message id, or any other untrusted text, safe to use as one
/// component of a storage key: keeps alphanumerics and `-`, `_`, `.`, `@`,
/// at most 255 of them; collapses runs of dots; trims dots from both ends.
/// The result holds no `/`, no `\` and no `..`.
pub fn sanitize_path_component(input: &str) -> (r: String)
    ensures
        r@ == path_component(input@),
        !contains_char(r@, '/'),
        !contains_char(r@, '\\'),
        !contains_seq(r@, ".."@),
        r@.len() <= 255,
{
    let ghost p = |c: char| path_char_allowed(c);
    let v = chars_of(input);
    let mut kept: Vec<char> = Vec::new();
    let mut i: usize = 0;
    while i < v.len() && kept.len() < 255
        invariant
            i <= v.len(),
            kept.len() <= 255,
            p == (|c: char| path_char_allowed(c)),
            kept@ == keep(v@.take(i as int), p),
        decreases v.len() - i,
    {
        proof {
            assert(v@.take(i as int + 1).drop_last() =~= v@.take(i as int));
        }
        let c = v[i];
        if c != '/' && c != '\\' && (is_alphanumeric(c) || c == '-' || c == '_' || c == '.' || c
            == '@') {
            kept.push(c);
        }
        i += 1;
    }
    proof {
        lemma_keep_prefix(v@, p, i as int);
        lemma_keep(v@, p);
        if i == v.len() {
            assert(v@.take(i as int) =~= v@);
        } else {
            assert(kept@ =~= keep(v@, p).take(255));
        }
        assert(kept@ == truncated(keep(v@, p), 255));
    }
    let mut collapsed: Vec<char> = Vec::new();
    let mut j: usize = 0;
    while j < kept.len()
        invariant
            j <= kept.len(),
            collapsed@ == collapse_dots(kept@.take(j as int)),
        decreases kept.len() - j,
    {
        proof {
            assert(kept@.take(j as int + 1).drop_last() =~= kept@.take(j as int));
        }
        let c = kept[j];
        if !(c == '.' && j >= 1 && kept[j - 1] == '.') {
            collapsed.push(c);
        }
        j += 1;
    }
    assert(kept@.take(kept.len() as int) =~= kept@);
    let (a, b) = trim_dots_of(&collapsed);
    proof {
        lemma_path_component_safe(input@);
    }
    string_of_range(&collapsed, a, b)
}

/// Whether `c` may stand in a sanitized filename: an ASCII letter or digit,
/// or one of `.`, `_`, `-`.
pub open spec fn filename_char_allowed(c: char) -> bool {
    ('a' <= c && c <= 'z') || ('A' <= c && c <= 'Z') || ('0' <= c && c <= '9') || c == '.' || c
        == '_' || c == '-'
}

/// `s` with each `..` replaced by `_`, scanning from the left.
pub open spec fn replace_double_dots(s: Seq<char>) -> Seq<char>
    decreases s.len(),
{
    if s.len() == 0 {
        Seq::empty()
    } else if s.len() >= 2 && s[0] == '.' && s[1] == '.' {
        seq!['_'] + replace_double_dots(s.skip(2))
    } else {
        seq![s[0]] + replace_double_dots(s.skip(1))
    }
}

/// What `replace_double_dots` keeps and what it guarantees.
pub proof fn lemma_replace_double_dots(s: Seq<char>)
    requires
        all_chars(s, |c: char| filename_char_allowed(c)),
    ensures
        no_double_dot(replace_double_dots(s)),
        all_chars(replace_double_dots(s), |c: char| filename_char_allowed(c)),
        replace_double_dots(s).len() <= s.len(),
        s.len() > 0 ==> replace_double_dots(s).len() > 0,
        s.len() > 0 && s[0] != '.' ==> replace_double_dots(s)[0] == s[0],
        s.len() >= 2 && s[0] == '.' && s[1] == '.' ==> replace_double_dots(s)[0] == '_',
    decreases s.len(),
{
    let p = |c: char| filename_char_allowed(c);
    if s.len() > 0 {
        let r = replace_double_dots(s);
        if s.len() >= 2 && s[0] == '.' && s[1] == '.' {
            let rest = s.skip(2);
            assert(all_chars(rest, p)) by {
                assert forall|i: int| 0 <= i < rest.len() implies p(#[trigger] rest[i]) by {
                    assert(rest[i] == s[i + 2]);
                }
            }
            lemma_replace_double_dots(rest);
            let rr = replace_double_dots(rest);
            assert(r == seq!['_'] + rr);
            assert forall|i: int| 0 <= i < r.len() implies p(#[trigger] r[i]) by {
                if i > 0 {
                    assert(r[i] == rr[i - 1]);
                }
            }
            assert forall|i: int| 0 <= i < r.len() - 1 implies !(#[trigger] r[i] == '.' && r[i + 1]
                == '.') by {
                if i > 0 {
                    assert(r[i] == rr[i - 1] && r[i + 1] == rr[i]);
                }
            }
        } else {
            let rest = s.skip(1);
            assert(all_chars(rest, p)) by {
                assert forall|i: int| 0 <= i < rest.len() implies p(#[trigger] rest[i]) by {
                    assert(rest[i] == s[i + 1]);
                }
            }
            lemma_replace_double_dots(rest);
            let rr = replace_double_dots(rest);
            assert(r == seq![s[0]] + rr);
            assert(p(s[0]));
            assert forall|i: int| 0 <= i < r.len() implies p(#[trigger] r[i]) by {
                if i > 0 {
                    assert(r[i] == rr[i - 1]);
                }
            }
            assert forall|i: int| 0 <= i < r.len() - 1 implies !(#[trigger] r[i] == '.' && r[i + 1]
                == '.') by {
                if i > 0 {
                    assert(r[i] == rr[i - 1] && r[i + 1] == rr[i]);
                } else if s[0] == '.' {
                    assert(rest.len() > 0);
                    assert(rest[0] == s[1]);
                    assert(r[1] == rr[0]);
                }
            }
        }
    }
}

/// The name made from `filename` before the fallback for an empty result:
/// the allowed characters, at most 255 of them, each `..` replaced by `_`,
/// dots trimmed from both ends.
pub open spec fn filename_core(filename: Seq<char>) -> Seq<char> {
    trim_dots(
        replace_double_dots(truncated(keep(filename, |c: char| filename_char_allowed(c)), 255)),
    )
}

/// The sanitized name of `filename`, given the identifier `fallback` to use
/// when nothing of `filename` is left.
pub open spec fn sanitized_filename(filename: Seq<char>, fallback: Seq<char>) -> Seq<char> {
    if filename_core(filename).len() == 0 {
        "file_"@ + fallback
    } else {
        filename_core(filename)
    }
}

/// A sanitized filename holds allowed characters only, never `..`, and is
/// not empty, whenever the fallback identifier is a UUID.
pub proof fn lemma_sanitized_filename_safe(filename: Seq<char>, fallback: Seq<char>)
    requires
        is_uuid_text(fallback),
    ensures
        all_chars(sanitized_filename(filename, fallback), |c: char| filename_char_allowed(c)),
        !contains_seq(sanitized_filename(filename, fallback), ".."@),
        sanitized_filename(filename, fallback).len() > 0,
        sanitized_filename(filename, fallback).len() <= 255,
        !contains_char(sanitized_filename(filename, fallback), '/'),
        !contains_char(sanitized_filename(filename, fallback), '\\'),
{
    let p = |c: char| filename_char_allowed(c);
    let r = sanitized_filename(filename, fallback);
    lemma_keep(filename, p);
    let cut = truncated(keep(filename, p), 255);
    assert(all_chars(cut, p));
    lemma_replace_double_dots(cut);
    lemma_trim_dots(replace_double_dots(cut), p);
    if filename_core(filename).len() == 0 {
        reveal_strlit("file_");
        let head = "file_"@;
        assert(r == head + fallback);
        assert forall|i: int| 0 <= i < r.len() implies p(#[trigger] r[i]) by {
            if i >= 5 {
                assert(r[i] == fallback[i - 5]);
                assert(fallback[i - 5] == '-' || crate::foreign::lower_hex_digit(fallback[i - 5]));
            }
        }
        assert forall|i: int| 0 <= i < r.len() - 1 implies !(#[trigger] r[i] == '.' && r[i + 1]
            == '.') by {
            assert(p(r[i]));
            if i >= 5 {
                assert(r[i] == fallback[i - 5]);
                assert(fallback[i - 5] == '-' || crate::foreign::lower_hex_digit(fallback[i - 5]));
            }
        }
    }
    lemma_no_double_dot(r);
    assert(!contains_char(r, '/')) by {
        if contains_char(r, '/') {
            let i = choose|i: int| 0 <= i < r.len() && r[i] == '/';
            assert(p(r[i]));
        }
    }
    assert(!contains_char(r, '\\')) by {
        if contains_char(r, '\\') {
            let i = choose|i: int| 0 <= i < r.len() && r[i] == '\\';
            assert(p(r[i]));
        }
    }
}

/// The sanitized name of `filename`, or `None` when nothing of it is left
/// after sanitizing.
pub fn sanitize_filename_core(filename: &str) -> (r: Option<String>)
    ensures
        match r {
            Some(name) => name@ == filename_core(filename@) && name@.len() > 0,
            None => filename_core(filename@).len() == 0,
        },
{
    let ghost p = |c: char| filename_char_allowed(c);
    let v = chars_of(filename);
    let mut kept: Vec<char> = Vec::new();
    let mut i: usize = 0;
    while i < v.len() && kept.len() < 255
        invariant
            i <= v.len(),
            kept.len() <= 255,
            p == (|c: char| filename_char_allowed(c)),
            kept@ == keep(v@.take(i as int), p),
        decreases v.len() - i,
    {
        proof {
            assert(v@.take(i as int + 1).drop_last() =~= v@.take(i as int));
        }
        let c = v[i];
        if (c >= 'a' && c <= 'z') || (c >= 'A' && c <= 'Z') || (c >= '0' && c <= '9') || c == '.'
            || c == '_' || c == '-' {
            kept.push(c);
        }
        i += 1;
    }
    proof {
        lemma_keep_prefix(v@, p, i as int);
        lemma_keep(v@, p);
        if i == v.len() {
            assert(v@.take(i as int) =~= v@);
        } else {
            assert(kept@ =~= keep(v@, p).take(255));
        }
        assert(kept@ == truncated(keep(v@, p), 255));
    }
    let mut replaced: Vec<char> = Vec::new();
    let mut j: usize = 0;
    proof {
        assert(kept@.skip(0) =~= kept@);
        assert(replaced@ + replace_double_dots(kept@) =~= replace_double_dots(kept@));
    }
    while j < kept.len()
        invariant
            j <= kept.len(),
            replaced@ + replace_double_dots(kept@.skip(j as int)) == replace_double_dots(kept@),
        decreases kept.len() - j,
    {
        let ghost before = replaced@;
        let ghost rest = kept@.skip(j as int);
        proof {
            assert(rest[0] == kept@[j as int]);
            if j + 1 < kept.len() {
                assert(rest[1] == kept@[j as int + 1]);
            }
        }
        if kept[j] == '.' && j + 1 < kept.len() && kept[j + 1] == '.' {
            replaced.push('_');
            proof {
                assert(rest.skip(2) =~= kept@.skip(j as int + 2));
                assert(replaced@ + replace_double_dots(kept@.skip(j as int + 2)) =~= before
                    + replace_double_dots(rest));
            }
            j += 2;
        } else {
            replaced.push(kept[j]);
            proof {
                assert(rest.skip(1) =~= kept@.skip(j as int + 1));
                assert(replaced@ + replace_double_dots(kept@.skip(j as int + 1)) =~= before
                    + replace_double_dots(rest));
            }
            j += 1;
        }
    }
    proof {
        assert(kept@.skip(kept.len() as int) =~= Seq::<char>::empty());
        assert(replaced@ + Seq::<char>::empty() =~= replaced@);
    }
    let (a, b) = trim_dots_of(&replaced);
    if a < b {
        Some(string_of_range(&replaced, a, b))
    } else {
        None
    }
}

/// Makes an attachment's filename safe: keeps ASCII letters, digits and
/// `.`, `_`, `-`, at most 255 of them; replaces each `..` by `_`; trims dots
/// from both ends; and, when nothing is left, names the file `file_` followed
/// by a fresh UUID. The result is never empty, holds allowed characters only
/// and never `..`.
pub fn sanitize_filename_strict(filename: &str) -> (r: String)
    ensures
        exists|id: Seq<char>| is_uuid_text(id) && r@ == sanitized_filename(filename@, id),
        filename_core(filename@).len() > 0 ==> r@ == filename_core(filename@),
        all_chars(r@, |c: char| filename_char_allowed(c)),
        !contains_seq(r@, ".."@),
        0 < r@.len() <= 255,
{
    match sanitize_filename_core(filename) {
        Some(name) => {
            proof {
                let id = witness_uuid();
                lemma_witness_uuid();
                lemma_sanitized_filename_safe(filename@, id);
                assert(name@ == sanitized_filename(filename@, id));
            }
            name
        },
        None => {
            let id = new_uuid();
            let name = concat2("file_", id.as_str());
            proof {
                lemma_sanitized_filename_safe(filename@, id@);
                assert(name@ == sanitized_filename(filename@, id@));
            }
            name
        },
    }
}

/// The all-zero UUID in hyphenated notation.
pub open spec fn witness_uuid() -> Seq<char> {
    Seq::new(36, |i: int| if i == 8 || i == 13 || i == 18 || i == 23 { '-' } else { '0' })
}

/// The all-zero UUID has the shape of a UUID.
pub proof fn lemma_witness_uuid()
    ensures
        is_uuid_text(witness_uuid()),
{
}

/// Whether `component` may be used as one component of a storage key, and
/// if not, why: it must not be empty, hold `..`, hold `/` or `\`, or be
/// longer than 1024 bytes.
pub open spec fn key_component_check(component: Seq<char>, byte_len: int) -> Result<(), Seq<char>> {
    if component.len() == 0 {
        Err("Component cannot be empty"@)
    } else if contains_seq(component, ".."@) {
        Err("Component cannot contain '..'"@)
    } else if contains_char(component, '/') || contains_char(component, '\\') {
        Err("Component cannot contain path separators"@)
    } else if byte_len > 1024 {
        Err("Component too long"@)
    } else {
        Ok(())
    }
}

/// Checks that `component` may be used as one component of a storage key.
pub fn validate_s3_key_component(component: &str) -> (r: Result<(), String>)
    ensures
        match r {
            Ok(()) => key_component_check(component@, component.spec_bytes().len() as int) == Ok::<
                (),
                Seq<char>,
            >(()),
            Err(m) => key_component_check(component@, component.spec_bytes().len() as int)
                == Err::<(), Seq<char>>(m@),
        },
{
    let v = chars_of(component);
    if v.len() == 0 {
        return Err("Component cannot be empty".to_string());
    }
    let dots = chars_of("..");
    if contains_sub(&v, &dots) {
        return Err("Component cannot contain '..'".to_string());
    }
    let slash = find_first(&v, '/');
    let backslash = find_first(&v, '\\');
    proof {
        crate::text::lemma_first_index(v@, '/');
        crate::text::lemma_first_index(v@, '\\');
    }
    if slash < v.len() || backslash < v.len() {
        return Err("Component cannot contain path separators".to_string());
    }
    if component.as_bytes().len() > 1024 {
        return Err("Component too long".to_string());
    }
    proof {
        assert(!contains_char(v@, '/'));
        assert(!contains_char(v@, '\\'));
        assert(!contains_seq(v@, ".."@));
        assert(component.spec_bytes().len() <= 1024);
    }
    Ok(())
}

} // verus!
