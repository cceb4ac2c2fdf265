//! Remembering which correlation ids were processed, for a while.

use crate::error::MailflowError;
use crate::text::str_eq;
use vstd::prelude::*;

verus! {

/// The instant at which a record made at `now` with a lifetime of `ttl`
/// seconds expires; never later than the last instant there is.
pub open spec fn expiry_at(now: i64, ttl: u64) -> int {
    if now + ttl > i64::MAX {
        i64::MAX as int
    } else {
        now + ttl
    }
}

/// The instant at which a record made at `now` with a lifetime of
/// `ttl_seconds` expires.
pub fn expiry(now: i64, ttl_seconds: u64) -> (r: i64)
    ensures
        r == expiry_at(now, ttl_seconds),
{
    let sum: i128 = now as i128 + ttl_seconds as i128;
    if sum > i64::MAX as i128 {
        i64::MAX
    } else {
        sum as i64
    }
}

/// Whether a record that expires at `expires_at`, if there is one, still
/// counts at `now`.
pub fn still_counts(expires_at: Option<i64>, now: i64) -> (b: bool)
    ensures
        b == (expires_at is Some && expires_at->0 > now),
{
    match expires_at {
        Some(at) => at > now,
        None => false,
    }
}

/// Whether `records` holds a record for `key` that has not expired at `now`.
/// A record past its expiry counts as absent.
pub open spec fn live(records: Map<Seq<char>, int>, key: Seq<char>, now: i64) -> bool {
    records.contains_key(key) && records[key] > now
}

/// The records after one of lifetime `ttl` is made for `key` at `now`.
pub open spec fn recorded(records: Map<Seq<char>, int>, key: Seq<char>, ttl: u64, now: i64) -> Map<
    Seq<char>,
    int,
> {
    records.insert(key, expiry_at(now, ttl))
}

/// The records after a combined check and record: unchanged when `key` is
/// live, with a fresh record for `key` otherwise.
pub open spec fn checked_and_recorded(
    records: Map<Seq<char>, int>,
    key: Seq<char>,
    ttl: u64,
    now: i64,
) -> Map<Seq<char>, int> {
    if live(records, key, now) {
        records
    } else {
        recorded(records, key, ttl, now)
    }
}

/// After a correlation id is checked and recorded for the first time, a
/// second check finds it for as long as the lifetime lasts, and no longer.
pub proof fn lemma_second_check_within_lifetime(
    records: Map<Seq<char>, int>,
    key: Seq<char>,
    ttl: u64,
    first: i64,
    second: i64,
)
    requires
        !live(records, key, first),
        first + ttl <= i64::MAX,
    ensures
        live(checked_and_recorded(records, key, ttl, first), key, second) <==> second < first + ttl,
{
}

/// A store of processed correlation ids.
pub trait IdempotencyService {
    /// The expiry of each correlation id on record.
    spec fn records(&self) -> Map<Seq<char>, int>;

    /// Whether the store answers every call. One that lives in memory
    /// does; one that is reached over a network may fail at any call.
    spec fn dependable(&self) -> bool;

    /// Whether `correlation_id` was recorded and has not expired at `now`.
    fn is_duplicate(&self, correlation_id: &str, now: i64) -> (r: Result<bool, MailflowError>)
        ensures
            self.dependable() ==> r is Ok,
            r matches Ok(found) ==> found == live(self.records(), correlation_id@, now),
    ;

    /// Records `correlation_id` at `now` for `ttl_seconds`.
    fn record(&mut self, correlation_id: &str, ttl_seconds: u64, now: i64) -> (r: Result<
        (),
        MailflowError,
    >)
        ensures
            old(self).dependable() ==> r is Ok,
            final(self).dependable() == old(self).dependable(),
            r is Ok ==> final(self).records() == recorded(
                old(self).records(),
                correlation_id@,
                ttl_seconds,
                now,
            ),
            r is Err ==> final(self).records() == old(self).records(),
    ;

    /// Checks and records in one step; the answer is whether
    /// `correlation_id` was there before. A dependable store always
    /// answers; with another, a failed call leaves the records as they
    /// were.
    fn check_and_record(&mut self, correlation_id: &str, ttl_seconds: u64, now: i64) -> (r: Result<
        bool,
        MailflowError,
    >)
        ensures
            old(self).dependable() ==> r is Ok,
            final(self).dependable() == old(self).dependable(),
            r matches Ok(found) ==> found == live(old(self).records(), correlation_id@, now)
                && final(self).records() == checked_and_recorded(
                old(self).records(),
                correlation_id@,
                ttl_seconds,
                now,
            ),
            r is Err ==> final(self).records() == old(self).records(),
    {
        match self.is_duplicate(correlation_id, now) {
            Ok(true) => Ok(true),
            Ok(false) => match self.record(correlation_id, ttl_seconds, now) {
                Ok(()) => Ok(false),
                Err(e) => Err(e),
            },
            Err(e) => Err(e),
        }
    }
}

/// The expiry that the entries `s` give each key: that of the last entry
/// for the key.
pub open spec fn expiries(s: Seq<(String, i64)>) -> Map<Seq<char>, int>
    decreases s.len(),
{
    if s.len() == 0 {
        Map::empty()
    } else {
        expiries(s.drop_last()).insert(s.last().0@, s.last().1 as int)
    }
}

/// The last entry for a key decides its expiry; a key without entry has
/// none.
pub proof fn lemma_expiries(s: Seq<(String, i64)>, key: Seq<char>, at: int)
    requires
        -1 <= at < s.len(),
        at >= 0 ==> s[at].0@ == key,
        forall|j: int| at < j < s.len() ==> s[j].0@ != key,
    ensures
        at >= 0 ==> expiries(s).contains_key(key) && expiries(s)[key] == s[at].1,
        at < 0 ==> !expiries(s).contains_key(key),
    decreases s.len(),
{
    if s.len() > 0 {
        if at < s.len() - 1 {
            let front = s.drop_last();
            assert forall|j: int| at < j < front.len() implies front[j].0@ != key by {
                assert(front[j] == s[j]);
            }
            if at >= 0 {
                assert(front[at] == s[at]);
            }
            lemma_expiries(front, key, at);
        }
    }
}

/// A store of processed correlation ids that lives in memory.
#[derive(Debug, Clone, PartialEq, Eq)]
pub struct InMemoryIdempotencyService {
    entries: Vec<(String, i64)>,
}

impl InMemoryIdempotencyService {
    /// An empty store.
    pub fn new() -> (r: Self)
        ensures
            r.records() == Map::<Seq<char>, int>::empty(),
    {
        InMemoryIdempotencyService { entries: Vec::new() }
    }
}

impl Default for InMemoryIdempotencyService {
    fn default() -> (r: Self)
        ensures
            r.records() == Map::<Seq<char>, int>::empty(),
    {
        InMemoryIdempotencyService::new()
    }
}

impl IdempotencyService for InMemoryIdempotencyService {
    closed spec fn records(&self) -> Map<Seq<char>, int> {
        expiries(self.entries@)
    }

    open spec fn dependable(&self) -> bool {
        true
    }

    fn is_duplicate(&self, correlation_id: &str, now: i64) -> (r: Result<bool, MailflowError>)
        ensures
            r is Ok,
    {
        let mut i: usize = self.entries.len();
        while i > 0
            invariant
                i <= self.entries.len(),
                forall|j: int| i <= j < self.entries.len() ==> self.entries@[j].0@ != correlation_id@,
            decreases i,
        {
            i -= 1;
            if str_eq(self.entries[i].0.as_str(), correlation_id) {
                proof {
                    lemma_expiries(self.entries@, correlation_id@, i as int);
                }
                return Ok(still_counts(Some(self.entries[i].1), now));
            }
        }
        proof {
            lemma_expiries(self.entries@, correlation_id@, -1);
        }
        Ok(false)
    }

    fn record(&mut self, correlation_id: &str, ttl_seconds: u64, now: i64) -> (r: Result<
        (),
        MailflowError,
    >)
        ensures
            r is Ok,
    {
        let expires_at = expiry(now, ttl_seconds);
        let ghost before = self.entries@;
        self.entries.push((String::from_str(correlation_id), expires_at));
        assert(self.entries@.drop_last() =~= before);
        assert(self.entries@.last().0@ == correlation_id@);
        Ok(())
    }

    fn check_and_record(&mut self, correlation_id: &str, ttl_seconds: u64, now: i64) -> (r: Result<
        bool,
        MailflowError,
    >)
        ensures
            r is Ok,
    {
        match self.is_duplicate(correlation_id, now) {
            Ok(true) => Ok(true),
            Ok(false) => match self.record(correlation_id, ttl_seconds, now) {
                Ok(()) => Ok(false),
                Err(e) => Err(e),
            },
            Err(e) => Err(e),
        }
    }
}

} // verus!
