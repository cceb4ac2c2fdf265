//! Checks on addresses and sizes.

use crate::error::MailflowError;
use crate::text::{
    chars_of, concat2, decimal, decimal_string, find_first, find_last, first_index, last_index,
    lemma_first_index, lemma_last_index,
};
use vstd::prelude::*;

verus! {

/// Whether `c` is an ASCII letter.
pub open spec fn ascii_letter(c: char) -> bool {
    ('a' <= c && c <= 'z') || ('A' <= c && c <= 'Z')
}

/// Whether `c` is an ASCII letter or digit.
pub open spec fn ascii_alphanumeric(c: char) -> bool {
    ascii_letter(c) || ('0' <= c && c <= '9')
}

/// The three kinds of character that an address is made of.
#[derive(Debug, Clone, Copy, PartialEq, Eq, Structural)]
pub enum CharClass {
    /// Letters, digits and `.`, `_`, `%`, `+`, `-`: the local part.
    Local,
    /// Letters, digits and `.`, `-`: the domain before its last label.
    Domain,
    /// Letters: the last label of the domain.
    Letter,
}

impl CharClass {
    /// Whether the class holds `c`.
    pub open spec fn admits(self, c: char) -> bool {
        match self {
            CharClass::Local => ascii_alphanumeric(c) || c == '.' || c == '_' || c == '%' || c
                == '+' || c == '-',
            CharClass::Domain => ascii_alphanumeric(c) || c == '.' || c == '-',
            CharClass::Letter => ascii_letter(c),
        }
    }

    /// Whether the class holds `c`.
    pub fn holds(self, c: char) -> (b: bool)
        ensures
            b == self.admits(c),
    {
        let letter = (c >= 'a' && c <= 'z') || (c >= 'A' && c <= 'Z');
        let alnum = letter || (c >= '0' && c <= '9');
        match self {
            CharClass::Local => alnum || c == '.' || c == '_' || c == '%' || c == '+' || c == '-',
            CharClass::Domain => alnum || c == '.' || c == '-',
            CharClass::Letter => letter,
        }
    }
}

/// Whether every character of `s[from..to]` is of class `class`.
pub open spec fn range_in_class(s: Seq<char>, from: int, to: int, class: CharClass) -> bool {
    forall|i: int| from <= i < to ==> class.admits(#[trigger] s[i])
}

/// Whether `s` reads as an address with its `@` at `at` and the dot before
/// its last label at `dot`: a local part of one or more local characters,
/// `@`, one or more domain characters, `.`, and two or more letters.
pub open spec fn splits_as_address(s: Seq<char>, at: int, dot: int) -> bool {
    &&& 1 <= at
    &&& at + 2 <= dot
    &&& dot + 3 <= s.len()
    &&& s[at] == '@'
    &&& s[dot] == '.'
    &&& range_in_class(s, 0, at, CharClass::Local)
    &&& range_in_class(s, at + 1, dot, CharClass::Domain)
    &&& range_in_class(s, dot + 1, s.len() as int, CharClass::Letter)
}

/// The address grammar: `local@domain.tld`, where `local` is one or more of
/// letters, digits, `.`, `_`, `%`, `+`, `-`; `domain` is one or more of
/// letters, digits, `.`, `-`; and `tld` is two or more letters.
pub open spec fn is_email_address(s: Seq<char>) -> bool {
    exists|at: int, dot: int| splits_as_address(s, at, dot)
}

/// An address splits in one way only: at its first `@` and its last `.`.
pub proof fn lemma_split_unique(s: Seq<char>, at: int, dot: int)
    requires
        splits_as_address(s, at, dot),
    ensures
        at == first_index(s, '@'),
        dot == last_index(s, '.'),
{
    lemma_first_index(s, '@');
    lemma_last_index(s, '.');
    let a = first_index(s, '@');
    let d = last_index(s, '.');
    if a < at {
        assert(CharClass::Local.admits(s[a]));
    }
    if d > dot {
        assert(CharClass::Letter.admits(s[d]));
    }
}

fn in_class(v: &Vec<char>, from: usize, to: usize, class: CharClass) -> (b: bool)
    requires
        from <= to <= v.len(),
    ensures
        b == range_in_class(v@, from as int, to as int, class),
{
    let mut i: usize = from;
    while i < to
        invariant
            from <= i <= to <= v.len(),
            range_in_class(v@, from as int, i as int, class),
        decreases to - i,
    {
        if !class.holds(v[i]) {
            return false;
        }
        i += 1;
    }
    true
}

/// Whether `email` is written in the address grammar.
pub fn is_valid_email_address(email: &str) -> (b: bool)
    ensures
        b == is_email_address(email@),
{
    let v = chars_of(email);
    let at = find_first(&v, '@');
    let last_dot = find_last(&v, '.');
    proof {
        lemma_first_index(v@, '@');
        lemma_last_index(v@, '.');
        if is_email_address(v@) {
            let (a, d) = choose|a: int, d: int| splits_as_address(v@, a, d);
            lemma_split_unique(v@, a, d);
        }
    }
    match last_dot {
        None => false,
        Some(dot) => {
            if at < 1 || at >= v.len() || dot < at || dot - at < 2 || v.len() - dot < 3 {
                return false;
            }
            let ok = in_class(&v, 0, at, CharClass::Local) && in_class(
                &v,
                at + 1,
                dot,
                CharClass::Domain,
            ) && in_class(&v, dot + 1, v.len(), CharClass::Letter);
            proof {
                if ok {
                    assert(splits_as_address(v@, at as int, dot as int));
                }
            }
            ok
        },
    }
}

/// Accepts `email` when it is written in the address grammar.
pub fn validate_email_address(email: &str) -> (r: Result<(), MailflowError>)
    ensures
        r is Ok <==> is_email_address(email@),
        r matches Err(e) ==> e is Validation && e.detail() == "Invalid email address: "@ + email@,
{
    if is_valid_email_address(email) {
        Ok(())
    } else {
        Err(MailflowError::Validation(concat2("Invalid email address: ", email)))
    }
}

/// Accepts an attachment of `size` bytes when `size` is at most `max_size`.
pub fn validate_attachment_size(size: usize, max_size: usize) -> (r: Result<(), MailflowError>)
    ensures
        r is Ok <==> size <= max_size,
        r matches Err(e) ==> e is Validation && e.detail() == "Attachment size "@ + decimal(
            size as nat,
        ) + " exceeds maximum "@ + decimal(max_size as nat),
{
    if size <= max_size {
        Ok(())
    } else {
        let mut m = concat2("Attachment size ", decimal_string(size as u64).as_str());
        m.append(" exceeds maximum ");
        m.append(decimal_string(max_size as u64).as_str());
        Err(MailflowError::Validation(m))
    }
}

} // verus!
