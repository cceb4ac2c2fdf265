//! Limiting how many messages a sender may send within a window of time.
//!
//! Windows are fixed and aligned: the window of an instant starts at the
//! last multiple of the window length.

use crate::error::MailflowError;
use crate::text::{concat2, decimal, decimal_string, str_eq};
use vstd::prelude::*;

verus! {

/// Seconds that a counter outlives its window.
pub const COUNTER_TTL_BUFFER_SECONDS: u64 = 3600;

/// The start of the window that holds `now`.
pub open spec fn window_start(now: u64, window_seconds: u64) -> int
    recommends
        window_seconds > 0,
{
    (now / window_seconds) * window_seconds
}

/// The instant until which the counter of the window that holds `now` is
/// kept: the end of the window and an hour more, and never later than the
/// last instant there is.
pub open spec fn counter_expiry(now: u64, window_seconds: u64) -> int
    recommends
        window_seconds > 0,
{
    let end = window_start(now, window_seconds) + window_seconds + COUNTER_TTL_BUFFER_SECONDS;
    if end > u64::MAX {
        u64::MAX as int
    } else {
        end
    }
}

/// The counter of one sender in one window.
#[derive(Debug, Clone, PartialEq, Eq)]
pub struct RateBucket {
    pub sender: String,
    pub window_start: u64,
    pub count: u32,
    pub expires_at: u64,
}

/// The window that holds `now`: its start and the expiry of its counter.
pub fn rate_window(now: u64, window_seconds: u64) -> (r: (u64, u64))
    requires
        window_seconds > 0,
    ensures
        r.0 == window_start(now, window_seconds),
        r.1 == counter_expiry(now, window_seconds),
        r.0 <= now < r.0 + window_seconds,
{
    proof {
        assert((now / window_seconds) * window_seconds <= now && now < (now / window_seconds)
            * window_seconds + window_seconds) by (nonlinear_arith)
            requires
                window_seconds > 0,
        ;
    }
    let start = (now / window_seconds) * window_seconds;
    let end: u128 = start as u128 + window_seconds as u128 + COUNTER_TTL_BUFFER_SECONDS as u128;
    let expiry: u64 = if end > u64::MAX as u128 {
        u64::MAX
    } else {
        end as u64
    };
    (start, expiry)
}

/// The message of a refusal.
pub open spec fn limit_message(sender: Seq<char>, count: nat, limit: nat, window_seconds: nat) -> Seq<
    char,
> {
    "Sender "@ + sender + " exceeded rate limit: "@ + decimal(count) + " emails in "@ + decimal(
        window_seconds,
    ) + " seconds (limit: "@ + decimal(limit) + ")"@
}

/// Judges the count of a sender after it was incremented for the message at
/// hand: more than `limit` in the window is refused with `RateLimit`.
pub fn check_count(sender: &str, count: u32, limit: u32, window_seconds: u64) -> (r: Result<
    (),
    MailflowError,
>)
    ensures
        r is Ok <==> count <= limit,
        r matches Err(e) ==> e is RateLimit && e.detail() == limit_message(
            sender@,
            count as nat,
            limit as nat,
            window_seconds as nat,
        ),
{
    if count <= limit {
        return Ok(());
    }
    let mut m = concat2("Sender ", sender);
    m.append(" exceeded rate limit: ");
    m.append(decimal_string(count as u64).as_str());
    m.append(" emails in ");
    m.append(decimal_string(window_seconds).as_str());
    m.append(" seconds (limit: ");
    m.append(decimal_string(limit as u64).as_str());
    m.append(")");
    Err(MailflowError::RateLimit(m))
}

/// A limiter of senders.
pub trait RateLimiter {
    /// `Ok` when `sender` is within `limit` messages per `window_seconds`,
    /// `RateLimit` when it is over.
    fn check_rate_limit(&self, sender: &str, limit: u32, window_seconds: u64) -> (r: Result<
        (),
        MailflowError,
    >)
        ensures
            r matches Err(e) ==> e is RateLimit,
    ;
}

/// A limiter that lets every sender in, or none.
#[derive(Debug, Clone, Copy, PartialEq, Eq, Structural)]
pub struct MockRateLimiter {
    allow: bool,
}

impl MockRateLimiter {
    /// Whether the limiter lets senders in.
    pub closed spec fn allows(&self) -> bool {
        self.allow
    }

    pub fn new(allow: bool) -> (r: Self)
        ensures
            r.allows() == allow,
    {
        MockRateLimiter { allow }
    }

    /// A limiter that lets every sender in.
    pub fn allow_all() -> (r: Self)
        ensures
            r.allows(),
    {
        MockRateLimiter { allow: true }
    }

    /// A limiter that lets no sender in.
    pub fn block_all() -> (r: Self)
        ensures
            !r.allows(),
    {
        MockRateLimiter { allow: false }
    }
}

impl RateLimiter for MockRateLimiter {
    fn check_rate_limit(&self, _sender: &str, _limit: u32, _window_seconds: u64) -> (r: Result<
        (),
        MailflowError,
    >)
        ensures
            r is Ok <==> self.allows(),
            r matches Err(e) ==> e.detail() == "Mock rate limit exceeded"@,
    {
        if self.allow {
            Ok(())
        } else {
            Err(MailflowError::RateLimit("Mock rate limit exceeded".to_string()))
        }
    }
}

/// Whether `bucket` is the counter of `sender` in the window that starts at
/// `start`.
pub open spec fn counts_for(bucket: RateBucket, sender: Seq<char>, start: int) -> bool {
    bucket.sender@ == sender && bucket.window_start == start
}

/// The count that the buckets `s` hold for `sender` in the window that
/// starts at `start`: that of the first such bucket, or 0.
pub open spec fn count_in(s: Seq<RateBucket>, sender: Seq<char>, start: int) -> nat
    decreases s.len(),
{
    if s.len() == 0 {
        0
    } else if counts_for(s[0], sender, start) {
        s[0].count as nat
    } else {
        count_in(s.drop_first(), sender, start)
    }
}

/// Two lists of buckets that agree on the counters of a sender and window,
/// the second having none of them beyond the length of the first, hold the
/// same count for them.
pub proof fn lemma_count_in_alike(a: Seq<RateBucket>, b: Seq<RateBucket>, sender: Seq<char>, start: int)
    requires
        a.len() <= b.len(),
        forall|j: int|
            0 <= j < a.len() ==> (counts_for(a[j], sender, start) <==> counts_for(
                b[j],
                sender,
                start,
            )) && (counts_for(a[j], sender, start) ==> a[j].count == b[j].count),
        forall|j: int| a.len() <= j < b.len() ==> !counts_for(b[j], sender, start),
    ensures
        count_in(a, sender, start) == count_in(b, sender, start),
    decreases b.len(),
{
    if a.len() == 0 {
        assert forall|j: int| 0 <= j < b.len() implies !(b[j].sender@ == sender
            && b[j].window_start == start) by {
            assert(!counts_for(b[j], sender, start));
        }
        lemma_count_in_skip(b, sender, start, b.len() as int);
        assert(b.skip(b.len() as int) =~= Seq::<RateBucket>::empty());
    } else if !counts_for(a[0], sender, start) {
        let x = a.drop_first();
        let y = b.drop_first();
        assert forall|j: int| 0 <= j < x.len() implies (counts_for(x[j], sender, start)
            <==> counts_for(y[j], sender, start)) && (counts_for(x[j], sender, start) ==> x[j].count
            == y[j].count) by {
            assert(x[j] == a[j + 1] && y[j] == b[j + 1]);
        }
        assert forall|j: int| x.len() <= j < y.len() implies !counts_for(y[j], sender, start) by {
            assert(y[j] == b[j + 1]);
        }
        lemma_count_in_alike(x, y, sender, start);
    }
}

/// The instant until which the buckets `s` keep the counter of `sender` in
/// the window that starts at `start`: that of the first such bucket, if
/// there is one.
pub open spec fn expiry_in(s: Seq<RateBucket>, sender: Seq<char>, start: int) -> Option<int>
    decreases s.len(),
{
    if s.len() == 0 {
        None
    } else if counts_for(s[0], sender, start) {
        Some(s[0].expires_at as int)
    } else {
        expiry_in(s.drop_first(), sender, start)
    }
}

/// The first bucket that counts for a sender and window gives the expiry
/// of their counter.
pub proof fn lemma_expiry_in(s: Seq<RateBucket>, sender: Seq<char>, start: int, n: int)
    requires
        0 <= n < s.len(),
        forall|j: int| 0 <= j < n ==> !counts_for(s[j], sender, start),
        counts_for(s[n], sender, start),
    ensures
        expiry_in(s, sender, start) == Some(s[n].expires_at as int),
    decreases n,
{
    if n > 0 {
        let rest = s.drop_first();
        assert forall|j: int| 0 <= j < n - 1 implies !counts_for(rest[j], sender, start) by {
            assert(rest[j] == s[j + 1]);
        }
        assert(rest[n - 1] == s[n]);
        assert(!counts_for(s[0], sender, start));
        lemma_expiry_in(rest, sender, start, n - 1);
    }
}

/// A limiter that counts in memory.
#[derive(Debug, Clone, PartialEq, Eq)]
pub struct FixedWindowRateLimiter {
    buckets: Vec<RateBucket>,
}

impl FixedWindowRateLimiter {
    /// The counters.
    pub closed spec fn buckets(&self) -> Seq<RateBucket> {
        self.buckets@
    }

    /// A limiter that has counted nothing.
    pub fn new() -> (r: Self)
        ensures
            r.buckets().len() == 0,
    {
        FixedWindowRateLimiter { buckets: Vec::new() }
    }

    /// Counts one message of `sender` at `now` and judges the count: the
    /// message is let in while the count of its window, this message
    /// counted, is at most `limit`. The counter is kept until an hour
    /// after the end of the window.
    pub fn check(&mut self, sender: &str, limit: u32, window_seconds: u64, now: u64) -> (r: Result<
        (),
        MailflowError,
    >)
        requires
            window_seconds > 0,
        ensures
            ({
                let start = window_start(now, window_seconds);
                let before = count_in(old(self).buckets(), sender@, start);
                let after = if before < u32::MAX {
                    before + 1
                } else {
                    before
                };
                &&& count_in(final(self).buckets(), sender@, start) == after
                &&& expiry_in(final(self).buckets(), sender@, start) == Some(
                    counter_expiry(now, window_seconds),
                )
                &&& forall|other: Seq<char>, window: int|
                    !(other == sender@ && window == start) ==> #[trigger] count_in(
                        final(self).buckets(),
                        other,
                        window,
                    ) == count_in(old(self).buckets(), other, window)
                &&& r is Ok <==> after <= limit
                &&& r matches Err(e) ==> e is RateLimit && e.detail() == limit_message(
                    sender@,
                    after,
                    limit as nat,
                    window_seconds as nat,
                )
            }),
    {
        let (start, expiry) = rate_window(now, window_seconds);
        let ghost old_buckets = self.buckets@;
        let mut i: usize = 0;
        while i < self.buckets.len()
            invariant
                i <= self.buckets.len(),
                window_seconds > 0,
                start == window_start(now, window_seconds),
                expiry == counter_expiry(now, window_seconds),
                old_buckets == old(self).buckets(),
                self.buckets@ == old_buckets,
                forall|j: int|
                    0 <= j < i ==> !(old_buckets[j].sender@ == sender@ && old_buckets[j].window_start
                        == start),
            decreases self.buckets.len() - i,
        {
            if self.buckets[i].window_start == start && str_eq(
                self.buckets[i].sender.as_str(),
                sender,
            ) {
                let before = self.buckets[i].count;
                let after: u32 = if before < u32::MAX {
                    before + 1
                } else {
                    before
                };
                let bucket = RateBucket {
                    sender: String::from_str(sender),
                    window_start: start,
                    count: after,
                    expires_at: expiry,
                };
                self.buckets.set(i, bucket);
                proof {
                    lemma_count_in_skip(old_buckets, sender@, start as int, i as int);
                    assert(old_buckets.skip(i as int)[0] == old_buckets[i as int]);
                    assert forall|j: int| 0 <= j < i implies !(self.buckets@[j].sender@ == sender@
                        && self.buckets@[j].window_start == start) by {
                        assert(self.buckets@[j] == old_buckets[j]);
                    }
                    lemma_count_in_skip(self.buckets@, sender@, start as int, i as int);
                    assert(self.buckets@.skip(i as int)[0] == bucket);
                    assert(count_in(old_buckets.skip(i as int), sender@, start as int) == before);
                    assert(count_in(self.buckets@.skip(i as int), sender@, start as int) == after);
                    let now_buckets = self.buckets@;
                    assert(now_buckets[i as int] == bucket);
                    assert forall|j: int| 0 <= j < i implies !counts_for(
                        now_buckets[j],
                        sender@,
                        start as int,
                    ) by {
                        assert(now_buckets[j] == old_buckets[j]);
                    }
                    lemma_expiry_in(now_buckets, sender@, start as int, i as int);
                    assert forall|other: Seq<char>, window: int|
                        !(other == sender@ && window == start) implies #[trigger] count_in(
                        now_buckets,
                        other,
                        window,
                    ) == count_in(old_buckets, other, window) by {
                        assert forall|j: int| 0 <= j < old_buckets.len() implies (counts_for(
                            old_buckets[j],
                            other,
                            window,
                        ) <==> counts_for(now_buckets[j], other, window)) && (counts_for(
                            old_buckets[j],
                            other,
                            window,
                        ) ==> old_buckets[j].count == now_buckets[j].count) by {
                            if j != i {
                                assert(now_buckets[j] == old_buckets[j]);
                            }
                        }
                        lemma_count_in_alike(old_buckets, now_buckets, other, window);
                    }
                }
                return check_count(sender, after, limit, window_seconds);
            }
            i += 1;
        }
        let bucket = RateBucket {
            sender: String::from_str(sender),
            window_start: start,
            count: 1,
            expires_at: expiry,
        };
        self.buckets.push(bucket);
        proof {
            lemma_count_in_push(old_buckets, bucket, sender@, start as int);
            let now_buckets = self.buckets@;
            assert(now_buckets[old_buckets.len() as int] == bucket);
            assert forall|j: int| 0 <= j < old_buckets.len() implies !counts_for(
                now_buckets[j],
                sender@,
                start as int,
            ) by {
                assert(now_buckets[j] == old_buckets[j]);
            }
            lemma_expiry_in(now_buckets, sender@, start as int, old_buckets.len() as int);
            assert forall|other: Seq<char>, window: int|
                !(other == sender@ && window == start) implies #[trigger] count_in(
                now_buckets,
                other,
                window,
            ) == count_in(old_buckets, other, window) by {
                assert forall|j: int| 0 <= j < old_buckets.len() implies (counts_for(
                    old_buckets[j],
                    other,
                    window,
                ) <==> counts_for(now_buckets[j], other, window)) && (counts_for(
                    old_buckets[j],
                    other,
                    window,
                ) ==> old_buckets[j].count == now_buckets[j].count) by {
                    assert(now_buckets[j] == old_buckets[j]);
                }
                assert(now_buckets[old_buckets.len() as int] == bucket);
                lemma_count_in_alike(old_buckets, now_buckets, other, window);
            }
        }
        check_count(sender, 1, limit, window_seconds)
    }
}

/// Buckets of other senders and windows do not count.
pub proof fn lemma_count_in_skip(s: Seq<RateBucket>, sender: Seq<char>, start: int, n: int)
    requires
        0 <= n <= s.len(),
        forall|j: int| 0 <= j < n ==> !(s[j].sender@ == sender && s[j].window_start == start),
    ensures
        count_in(s, sender, start) == count_in(s.skip(n), sender, start),
    decreases n,
{
    if n == 0 {
        assert(s.skip(0) =~= s);
    } else {
        let rest = s.drop_first();
        assert forall|j: int| 0 <= j < n - 1 implies !(rest[j].sender@ == sender
            && rest[j].window_start == start) by {
            assert(rest[j] == s[j + 1]);
        }
        lemma_count_in_skip(rest, sender, start, n - 1);
        assert(rest.skip(n - 1) =~= s.skip(n));
    }
}

/// A new bucket at the end counts for a sender and window that had none.
pub proof fn lemma_count_in_push(s: Seq<RateBucket>, bucket: RateBucket, sender: Seq<char>, start: int)
    requires
        bucket.sender@ == sender,
        bucket.window_start == start,
        forall|j: int| 0 <= j < s.len() ==> !(s[j].sender@ == sender && s[j].window_start == start),
    ensures
        count_in(s, sender, start) == 0,
        count_in(s.push(bucket), sender, start) == bucket.count,
    decreases s.len(),
{
    if s.len() == 0 {
        assert(s.push(bucket)[0] == bucket);
    } else {
        let rest = s.drop_first();
        assert forall|j: int| 0 <= j < rest.len() implies !(rest[j].sender@ == sender
            && rest[j].window_start == start) by {
            assert(rest[j] == s[j + 1]);
        }
        lemma_count_in_push(rest, bucket, sender, start);
        assert(s.push(bucket).drop_first() =~= rest.push(bucket));
        assert(s.push(bucket)[0] == s[0]);
    }
}

} // verus!
