//! Character-level helpers shared by the rest of the crate.
//!
//! Strings are modelled by their view, a `Seq<char>`. The executable helpers
//! here work on `Vec<char>` snapshots so that indexing is constant time, and
//! convert to and from `String` at the edges.

use crate::foreign::push_char;
use vstd::prelude::*;

verus! {

/// The characters of `s`, in order.
pub fn chars_of(s: &str) -> (v: Vec<char>)
    ensures
        v@ == s@,
{
    let mut v: Vec<char> = Vec::new();
    for c in it: s.chars()
        invariant
            v@ == it.seq().take(it.index() as int),
            it.seq() == s@,
    {
        v.push(c);
    }
    v
}

/// The string made of the characters `v[from..to]`.
pub fn string_of_range(v: &Vec<char>, from: usize, to: usize) -> (s: String)
    requires
        from <= to <= v.len(),
    ensures
        s@ == v@.subrange(from as int, to as int),
{
    let mut s = String::new();
    let mut i: usize = from;
    while i < to
        invariant
            from <= i <= to <= v.len(),
            s@ == v@.subrange(from as int, i as int),
        decreases to - i,
    {
        push_char(&mut s, v[i]);
        assert(v@.subrange(from as int, i as int).push(v@[i as int]) =~= v@.subrange(
            from as int,
            i as int + 1,
        ));
        i += 1;
    }
    s
}

/// The string made of the characters of `v`.
pub fn string_of(v: &Vec<char>) -> (s: String)
    ensures
        s@ == v@,
{
    let s = string_of_range(v, 0, v.len());
    assert(v@.subrange(0, v.len() as int) =~= v@);
    s
}

/// Whether two strings hold the same characters.
pub fn str_eq(a: &str, b: &str) -> (same: bool)
    ensures
        same == (a@ == b@),
{
    let x = chars_of(a);
    let y = chars_of(b);
    chars_eq(&x, &y)
}

/// Whether two character vectors hold the same characters.
pub fn chars_eq(x: &Vec<char>, y: &Vec<char>) -> (same: bool)
    ensures
        same == (x@ == y@),
{
    if x.len() != y.len() {
        return false;
    }
    let mut i: usize = 0;
    while i < x.len()
        invariant
            i <= x.len(),
            x.len() == y.len(),
            forall|j: int| 0 <= j < i ==> x@[j] == y@[j],
        decreases x.len() - i,
    {
        if x[i] != y[i] {
            return false;
        }
        i += 1;
    }
    assert(x@ =~= y@);
    true
}

/// `a` followed by `b`.
pub fn concat2(a: &str, b: &str) -> (s: String)
    ensures
        s@ == a@ + b@,
{
    let mut s = String::from_str(a);
    s.append(b);
    s
}

/// `a`, `b` and `c` joined in that order.
pub fn concat3(a: &str, b: &str, c: &str) -> (s: String)
    ensures
        s@ == a@ + b@ + c@,
{
    let mut s = String::from_str(a);
    s.append(b);
    s.append(c);
    s
}

/// Appends the characters of `s` to `out`.
pub fn push_all(out: &mut Vec<char>, s: &str)
    ensures
        final(out)@ == old(out)@ + s@,
{
    let v = chars_of(s);
    let ghost start = out@;
    let mut i: usize = 0;
    while i < v.len()
        invariant
            i <= v.len(),
            out@ == start + v@.take(i as int),
        decreases v.len() - i,
    {
        out.push(v[i]);
        assert(start + v@.take(i as int + 1) =~= (start + v@.take(i as int)).push(v@[i as int]));
        i += 1;
    }
    assert(v@.take(v.len() as int) =~= v@);
}

/// The position of the first `c` in `s`, or `s.len()` when there is none.
pub open spec fn first_index(s: Seq<char>, c: char) -> int
    decreases s.len(),
{
    if s.len() == 0 {
        0
    } else if s[0] == c {
        0
    } else {
        1 + first_index(s.drop_first(), c)
    }
}

/// `first_index` is the least position that holds `c`.
pub proof fn lemma_first_index(s: Seq<char>, c: char)
    ensures
        0 <= first_index(s, c) <= s.len(),
        first_index(s, c) < s.len() ==> s[first_index(s, c)] == c,
        forall|j: int| 0 <= j < first_index(s, c) ==> s[j] != c,
    decreases s.len(),
{
    if s.len() > 0 && s[0] != c {
        lemma_first_index(s.drop_first(), c);
        let k = first_index(s.drop_first(), c);
        assert forall|j: int| 0 <= j < 1 + k implies s[j] != c by {
            if j > 0 {
                assert(s.drop_first()[j - 1] == s[j]);
            }
        }
    }
}

/// Any position that holds `c` with none before it is `first_index`.
pub proof fn lemma_first_index_unique(s: Seq<char>, c: char, k: int)
    requires
        0 <= k <= s.len(),
        k < s.len() ==> s[k] == c,
        forall|j: int| 0 <= j < k ==> s[j] != c,
    ensures
        first_index(s, c) == k,
{
    lemma_first_index(s, c);
}

/// The position of the first `c` in `v`, or `v.len()` when there is none.
pub fn find_first(v: &Vec<char>, c: char) -> (k: usize)
    ensures
        k == first_index(v@, c),
        k <= v.len(),
{
    let mut i: usize = 0;
    while i < v.len()
        invariant
            i <= v.len(),
            forall|j: int| 0 <= j < i ==> v@[j] != c,
        decreases v.len() - i,
    {
        if v[i] == c {
            proof {
                lemma_first_index_unique(v@, c, i as int);
            }
            return i;
        }
        i += 1;
    }
    proof {
        lemma_first_index_unique(v@, c, i as int);
    }
    i
}

/// The position of the last `c` in `s`, or `-1` when there is none.
pub open spec fn last_index(s: Seq<char>, c: char) -> int
    decreases s.len(),
{
    if s.len() == 0 {
        -1
    } else if s.last() == c {
        s.len() - 1
    } else {
        last_index(s.drop_last(), c)
    }
}

/// `last_index` is the greatest position that holds `c`.
pub proof fn lemma_last_index(s: Seq<char>, c: char)
    ensures
        -1 <= last_index(s, c) < s.len(),
        last_index(s, c) >= 0 ==> s[last_index(s, c)] == c,
        forall|j: int| last_index(s, c) < j < s.len() ==> s[j] != c,
    decreases s.len(),
{
    if s.len() > 0 && s.last() != c {
        lemma_last_index(s.drop_last(), c);
        let k = last_index(s.drop_last(), c);
        assert forall|j: int| k < j < s.len() implies s[j] != c by {
            if j < s.len() - 1 {
                assert(s.drop_last()[j] == s[j]);
            }
        }
    }
}

/// Any position that holds `c` with none after it is `last_index`.
pub proof fn lemma_last_index_unique(s: Seq<char>, c: char, k: int)
    requires
        -1 <= k < s.len(),
        k >= 0 ==> s[k] == c,
        forall|j: int| k < j < s.len() ==> s[j] != c,
    ensures
        last_index(s, c) == k,
{
    lemma_last_index(s, c);
}

/// The position of the last `c` in `v`, if there is one.
pub fn find_last(v: &Vec<char>, c: char) -> (k: Option<usize>)
    ensures
        match k {
            Some(i) => i == last_index(v@, c) && i < v.len(),
            None => last_index(v@, c) == -1,
        },
{
    let mut i: usize = v.len();
    while i > 0
        invariant
            i <= v.len(),
            forall|j: int| i <= j < v.len() ==> v@[j] != c,
        decreases i,
    {
        i -= 1;
        if v[i] == c {
            proof {
                lemma_last_index_unique(v@, c, i as int);
            }
            return Some(i);
        }
    }
    proof {
        lemma_last_index_unique(v@, c, -1);
    }
    None
}

/// Whether `pat` occurs in `s` at position `at`.
pub open spec fn occurs_at(s: Seq<char>, pat: Seq<char>, at: int) -> bool {
    0 <= at && at + pat.len() <= s.len() && s.subrange(at, at + pat.len()) == pat
}

/// Whether `pat` occurs somewhere in `s`.
pub open spec fn contains_seq(s: Seq<char>, pat: Seq<char>) -> bool {
    exists|at: int| occurs_at(s, pat, at)
}

/// Whether `c` occurs in `s`.
pub open spec fn contains_char(s: Seq<char>, c: char) -> bool {
    exists|i: int| 0 <= i < s.len() && s[i] == c
}

/// Whether `pat` occurs in `v` at position `at`.
pub fn matches_at(v: &Vec<char>, pat: &Vec<char>, at: usize) -> (hit: bool)
    ensures
        hit == occurs_at(v@, pat@, at as int),
{
    if pat.len() > v.len() || at > v.len() - pat.len() {
        return false;
    }
    let mut i: usize = 0;
    while i < pat.len()
        invariant
            i <= pat.len(),
            at + pat.len() <= v.len(),
            forall|j: int| 0 <= j < i ==> v@[at + j] == pat@[j],
        decreases pat.len() - i,
    {
        if v[at + i] != pat[i] {
            assert(v@.subrange(at as int, at + pat.len())[i as int] != pat@[i as int]);
            return false;
        }
        i += 1;
    }
    assert(v@.subrange(at as int, at + pat.len()) =~= pat@);
    true
}

/// Whether `v` starts with `pat`.
pub fn has_prefix(v: &Vec<char>, pat: &Vec<char>) -> (hit: bool)
    ensures
        hit == pat@.is_prefix_of(v@),
{
    let hit = matches_at(v, pat, 0);
    proof {
        if pat@.len() <= v@.len() {
            assert(v@.subrange(0, pat@.len() as int) =~= v@.take(pat@.len() as int));
            if pat@.is_prefix_of(v@) {
                assert(v@.subrange(0, pat@.len() as int) =~= pat@);
            }
        }
    }
    hit
}

/// Whether `s` starts with `pat`.
pub fn str_has_prefix(s: &str, pat: &str) -> (hit: bool)
    ensures
        hit == pat@.is_prefix_of(s@),
{
    let v = chars_of(s);
    let p = chars_of(pat);
    has_prefix(&v, &p)
}

/// Whether `pat` occurs somewhere in `v`.
pub fn contains_sub(v: &Vec<char>, pat: &Vec<char>) -> (hit: bool)
    ensures
        hit == contains_seq(v@, pat@),
{
    if pat.len() > v.len() {
        return false;
    }
    let limit: usize = v.len() - pat.len();
    let mut at: usize = 0;
    while at < limit
        invariant
            pat.len() <= v.len(),
            limit == v.len() - pat.len(),
            at <= limit,
            forall|k: int| 0 <= k < at ==> !occurs_at(v@, pat@, k),
        decreases limit - at,
    {
        if matches_at(v, pat, at) {
            return true;
        }
        at += 1;
    }
    matches_at(v, pat, limit)
}

/// Whether `pat` occurs somewhere in `s`.
pub fn str_contains(s: &str, pat: &str) -> (hit: bool)
    ensures
        hit == contains_seq(s@, pat@),
{
    let v = chars_of(s);
    let p = chars_of(pat);
    contains_sub(&v, &p)
}

/// The character that writes the decimal digit `d`.
pub open spec fn digit_char(d: nat) -> char
    recommends
        d < 10,
{
    (48 + d) as u8 as char
}

/// The decimal notation of `n`, without sign or leading zeros.
pub open spec fn decimal(n: nat) -> Seq<char>
    decreases n,
{
    if n < 10 {
        seq![digit_char(n)]
    } else {
        decimal(n / 10).push(digit_char(n % 10))
    }
}

fn digit(d: u64) -> (c: char)
    requires
        d < 10,
    ensures
        c == digit_char(d as nat),
{
    (48u8 + d as u8) as char
}

/// The decimal notation of `n`.
pub fn decimal_string(n: u64) -> (s: String)
    ensures
        s@ == decimal(n as nat),
{
    let mut v: Vec<char> = Vec::new();
    v.push(digit(n % 10));
    let mut rest: u64 = n / 10;
    while rest > 0
        invariant
            decimal(n as nat) == (if rest > 0 {
                decimal(rest as nat)
            } else {
                Seq::<char>::empty()
            }) + v@,
        decreases rest,
    {
        let d = digit(rest % 10);
        let ghost before = v@;
        v.insert(0, d);
        proof {
            assert(v@ =~= seq![d] + before);
            if rest >= 10 {
                assert(decimal(rest as nat) + before =~= decimal((rest / 10) as nat) + v@);
            } else {
                assert(decimal(rest as nat) + before =~= Seq::<char>::empty() + v@);
            }
        }
        rest = rest / 10;
    }
    assert(Seq::<char>::empty() + v@ =~= v@);
    string_of(&v)
}

/// The views of the strings of `v`, in order.
pub open spec fn views(v: Seq<String>) -> Seq<Seq<char>> {
    v.map_values(|s: String| s@)
}

/// The view of an optional string.
pub open spec fn opt_view(o: Option<String>) -> Option<Seq<char>> {
    match o {
        Some(s) => Some(s@),
        None => None,
    }
}

/// A copy of an optional string.
pub fn copy_opt(o: &Option<String>) -> (r: Option<String>)
    ensures
        r == *o,
{
    match o {
        Some(s) => Some(s.clone()),
        None => None,
    }
}

/// A copy of a list of strings.
pub fn copy_strings(v: &Vec<String>) -> (r: Vec<String>)
    ensures
        r@ == v@,
{
    let mut r: Vec<String> = Vec::new();
    let mut i: usize = 0;
    while i < v.len()
        invariant
            i <= v.len(),
            r@ == v@.take(i as int),
        decreases v.len() - i,
    {
        r.push(v[i].clone());
        assert(v@.take(i as int).push(v@[i as int]) =~= v@.take(i as int + 1));
        i += 1;
    }
    assert(v@.take(v.len() as int) =~= v@);
    r
}

/// A copy of a byte buffer.
pub fn copy_bytes(v: &Vec<u8>) -> (r: Vec<u8>)
    ensures
        r@ == v@,
{
    let mut r: Vec<u8> = Vec::new();
    let mut i: usize = 0;
    while i < v.len()
        invariant
            i <= v.len(),
            r@ == v@.take(i as int),
        decreases v.len() - i,
    {
        r.push(v[i]);
        assert(v@.take(i as int).push(v@[i as int]) =~= v@.take(i as int + 1));
        i += 1;
    }
    assert(v@.take(v.len() as int) =~= v@);
    r
}

/// Whether one of the strings of `v` holds the characters `s`.
pub fn list_contains(v: &Vec<String>, s: &str) -> (hit: bool)
    ensures
        hit == views(v@).contains(s@),
{
    let mut i: usize = 0;
    while i < v.len()
        invariant
            i <= v.len(),
            forall|j: int| 0 <= j < i ==> views(v@)[j] != s@,
        decreases v.len() - i,
    {
        if str_eq(v[i].as_str(), s) {
            assert(views(v@)[i as int] == s@);
            return true;
        }
        i += 1;
    }
    false
}

/// What lies between the first `sep` of `s` and the next one, or the end;
/// none when `s` holds no `sep`.
pub open spec fn second_segment(s: Seq<char>, sep: char) -> Option<Seq<char>> {
    let a = first_index(s, sep);
    if a >= s.len() {
        None
    } else {
        let rest = s.skip(a + 1);
        Some(rest.take(first_index(rest, sep)))
    }
}

/// What lies between the first `sep` of `s` and the next one, or the end.
pub fn find_second_segment(s: &str, sep: char) -> (r: Option<String>)
    ensures
        opt_view(r) == second_segment(s@, sep),
{
    let v = chars_of(s);
    let a = find_first(&v, sep);
    if a >= v.len() {
        return None;
    }
    let ghost rest = v@.skip(a as int + 1);
    let mut b: usize = a + 1;
    while b < v.len() && v[b] != sep
        invariant
            a + 1 <= b <= v.len(),
            rest == v@.skip(a as int + 1),
            forall|j: int| 0 <= j < b - (a + 1) ==> rest[j] != sep,
        decreases v.len() - b,
    {
        assert(rest[b - (a + 1)] == v@[b as int]);
        b += 1;
    }
    proof {
        if b < v.len() {
            assert(rest[b - (a + 1)] == v@[b as int]);
        }
        lemma_first_index_unique(rest, sep, b - (a + 1));
        assert(v@.subrange(a as int + 1, b as int) =~= rest.take(b - (a + 1)));
    }
    Some(string_of_range(&v, a + 1, b))
}

/// The lower-case hexadecimal digit of value `d`.
pub open spec fn hex_digit_char(d: nat) -> char
    recommends
        d < 16,
{
    if d < 10 {
        (48 + d) as u8 as char
    } else {
        (87 + d) as u8 as char
    }
}

/// The bytes of `data` in lower-case hexadecimal notation, two digits each.
pub open spec fn hex_lower(data: Seq<u8>) -> Seq<char>
    decreases data.len(),
{
    if data.len() == 0 {
        Seq::empty()
    } else {
        hex_lower(data.drop_last()).push(hex_digit_char((data.last() / 16) as nat)).push(
            hex_digit_char((data.last() % 16) as nat),
        )
    }
}

/// Hexadecimal notation writes two digits per byte.
pub proof fn lemma_hex_lower_len(data: Seq<u8>)
    ensures
        hex_lower(data).len() == 2 * data.len(),
    decreases data.len(),
{
    if data.len() > 0 {
        lemma_hex_lower_len(data.drop_last());
    }
}

fn hex_digit(d: u8) -> (c: char)
    requires
        d < 16,
    ensures
        c == hex_digit_char(d as nat),
{
    if d < 10 {
        (48u8 + d) as char
    } else {
        (87u8 + d) as char
    }
}

/// The bytes of `data` in lower-case hexadecimal notation.
pub fn hex_string(data: &Vec<u8>) -> (s: String)
    ensures
        s@ == hex_lower(data@),
        s@.len() == 2 * data@.len(),
{
    let mut out: Vec<char> = Vec::new();
    let mut i: usize = 0;
    while i < data.len()
        invariant
            i <= data.len(),
            out@ == hex_lower(data@.take(i as int)),
        decreases data.len() - i,
    {
        proof {
            assert(data@.take(i as int + 1).drop_last() =~= data@.take(i as int));
        }
        let b = data[i];
        out.push(hex_digit(b / 16));
        out.push(hex_digit(b % 16));
        i += 1;
    }
    proof {
        assert(data@.take(data.len() as int) =~= data@);
        lemma_hex_lower_len(data@);
    }
    string_of(&out)
}

/// The pieces of `s` between the occurrences of `sep`: one piece more than
/// there are occurrences.
pub open spec fn pieces(s: Seq<char>, sep: char) -> Seq<Seq<char>>
    decreases s.len(),
{
    let k = first_index(s, sep);
    if k >= s.len() || k < 0 {
        seq![s]
    } else {
        seq![s.take(k)] + pieces(s.skip(k + 1), sep)
    }
}

/// The pieces of `s` between the occurrences of `sep`.
pub fn split_on(s: &str, sep: char) -> (r: Vec<String>)
    ensures
        views(r@) == pieces(s@, sep),
{
    let v = chars_of(s);
    let mut out: Vec<String> = Vec::new();
    let mut start: usize = 0;
    let mut i: usize = 0;
    proof {
        assert(v@.skip(0) =~= v@);
        assert(views(out@) + pieces(v@, sep) =~= pieces(v@, sep));
    }
    while i < v.len()
        invariant
            start <= i <= v.len(),
            forall|j: int| start <= j < i ==> v@[j] != sep,
            views(out@) + pieces(v@.skip(start as int), sep) == pieces(v@, sep),
        decreases v.len() - i,
    {
        if v[i] == sep {
            let ghost before = out@;
            let ghost rest = v@.skip(start as int);
            let piece = string_of_range(&v, start, i);
            out.push(piece);
            proof {
                assert forall|j: int| 0 <= j < i - start implies rest[j] != sep by {
                    assert(rest[j] == v@[start + j]);
                }
                assert(rest[i - start] == sep);
                lemma_first_index_unique(rest, sep, i - start);
                assert(rest.take(i - start) =~= v@.subrange(start as int, i as int));
                assert(rest.skip(i - start + 1) =~= v@.skip(i as int + 1));
                assert(views(out@) =~= views(before).push(piece@));
                assert(views(out@) + pieces(v@.skip(i as int + 1), sep) =~= views(before) + pieces(
                    rest,
                    sep,
                ));
            }
            start = i + 1;
        }
        i += 1;
    }
    let ghost before = out@;
    let ghost rest = v@.skip(start as int);
    let piece = string_of_range(&v, start, v.len());
    out.push(piece);
    proof {
        assert forall|j: int| 0 <= j < rest.len() implies rest[j] != sep by {
            assert(rest[j] == v@[start + j]);
        }
        lemma_first_index_unique(rest, sep, rest.len() as int);
        assert(rest =~= v@.subrange(start as int, v.len() as int));
        assert(views(out@) =~= views(before).push(piece@));
        assert(views(out@) =~= views(before) + pieces(rest, sep));
    }
    out
}

/// Whether `c` is a decimal digit.
pub open spec fn is_digit(c: char) -> bool {
    '0' <= c && c <= '9'
}

/// The number that the decimal digits `digits` write.
pub open spec fn digits_value(digits: Seq<char>) -> nat
    decreases digits.len(),
{
    if digits.len() == 0 {
        0
    } else {
        digits_value(digits.drop_last()) * 10 + ((digits.last() as u32 - 48) as nat)
    }
}

/// The digits of a number written in decimal, after an optional `+`.
pub open spec fn unsigned_digits(s: Seq<char>) -> Seq<char> {
    if s.len() > 0 && s[0] == '+' {
        s.skip(1)
    } else {
        s
    }
}

/// The number that `s` writes in decimal: an optional `+` and one or more
/// digits, and no more than fits in 64 bits; none for any other text.
pub open spec fn parsed_decimal(s: Seq<char>) -> Option<nat> {
    let digits = unsigned_digits(s);
    if digits.len() > 0 && (forall|i: int| 0 <= i < digits.len() ==> is_digit(#[trigger] digits[i]))
        && digits_value(digits) <= u64::MAX {
        Some(digits_value(digits))
    } else {
        None
    }
}

/// A number never gets smaller when digits are added to it.
pub proof fn lemma_digits_value_grows(digits: Seq<char>, n: int)
    requires
        0 <= n <= digits.len(),
        forall|i: int| 0 <= i < digits.len() ==> is_digit(#[trigger] digits[i]),
    ensures
        digits_value(digits.take(n)) <= digits_value(digits),
    decreases digits.len() - n,
{
    if n == digits.len() {
        assert(digits.take(n) =~= digits);
    } else {
        lemma_digits_value_grows(digits, n + 1);
        assert(digits.take(n + 1).drop_last() =~= digits.take(n));
        assert(is_digit(digits[n]));
        assert(digits.take(n + 1).last() == digits[n]);
    }
}

/// The number that `s` writes in decimal.
pub fn parse_decimal(s: &str) -> (r: Option<u64>)
    ensures
        match r {
            Some(n) => parsed_decimal(s@) == Some(n as nat),
            None => parsed_decimal(s@) is None,
        },
{
    let v = chars_of(s);
    let start: usize = if v.len() > 0 && v[0] == '+' {
        1
    } else {
        0
    };
    let ghost digits = unsigned_digits(v@);
    assert(digits =~= v@.skip(start as int));
    if start == v.len() {
        return None;
    }
    let mut n: u64 = 0;
    let mut i: usize = start;
    assert(digits.take(0) =~= Seq::<char>::empty());
    while i < v.len()
        invariant
            start <= i <= v.len(),
            start < v.len(),
            v@ == s@,
            digits == unsigned_digits(v@),
            digits == v@.skip(start as int),
            forall|j: int| 0 <= j < i - start ==> is_digit(#[trigger] digits[j]),
            n == digits_value(digits.take(i - start)),
        decreases v.len() - i,
    {
        let c = v[i];
        assert(digits[i - start] == c);
        if !(c >= '0' && c <= '9') {
            assert(!is_digit(digits[i - start]));
            return None;
        }
        let d: u64 = (c as u32 - 48) as u64;
        proof {
            assert(digits.take(i - start + 1).drop_last() =~= digits.take(i - start));
            assert(digits.take(i - start + 1).last() == c);
        }
        if n > (u64::MAX - d) / 10 {
            proof {
                let upto = digits.take(i - start + 1);
                assert(digits_value(upto) == n * 10 + d);
                assert(digits_value(upto) > u64::MAX);
                if forall|j: int| 0 <= j < digits.len() ==> is_digit(#[trigger] digits[j]) {
                    lemma_digits_value_grows(digits, i - start + 1);
                }
            }
            return None;
        }
        n = n * 10 + d;
        i += 1;
    }
    assert(digits.take(v.len() - start) =~= digits);
    Some(n)
}

} // verus!
