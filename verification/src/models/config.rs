//! The routing configuration: loaded once per process and read-only after.

use crate::text::{concat2, concat3, str_eq, str_has_prefix, views};
use vstd::prelude::*;

verus! {

/// Where the mail of one application goes.
#[derive(Debug, Clone, PartialEq, Eq)]
pub struct AppRouting {
    pub queue_url: String,
    pub enabled: bool,
    pub aliases: Vec<String>,
}

/// The mathematical content of an [`AppRouting`].
pub ghost struct AppRoutingView {
    pub queue_url: Seq<char>,
    pub enabled: bool,
    pub aliases: Seq<Seq<char>>,
}

impl View for AppRouting {
    type V = AppRoutingView;

    open spec fn view(&self) -> AppRoutingView {
        AppRoutingView {
            queue_url: self.queue_url@,
            enabled: self.enabled,
            aliases: views(self.aliases@),
        }
    }
}

/// One line of the routing table.
#[derive(Debug, Clone, PartialEq, Eq)]
pub struct RouteEntry {
    pub app_name: String,
    pub route: AppRouting,
}

/// The routes by application name. No name occurs twice; the order of the
/// lines is the order in which they were first inserted.
#[derive(Debug, Clone, PartialEq, Eq)]
pub struct RoutingTable {
    entries: Vec<RouteEntry>,
}

/// Whether no application name occurs twice in `t`.
pub open spec fn distinct_names(t: Seq<(Seq<char>, AppRoutingView)>) -> bool {
    forall|i: int, j: int| 0 <= i < j < t.len() ==> t[i].0 != t[j].0
}

/// The position of the line for `name` in `t`, or `t.len()`.
pub open spec fn position_of(t: Seq<(Seq<char>, AppRoutingView)>, name: Seq<char>) -> int
    decreases t.len(),
{
    if t.len() == 0 {
        0
    } else if t[0].0 == name {
        0
    } else {
        1 + position_of(t.drop_first(), name)
    }
}

/// `position_of` is the least position whose line is named `name`.
pub proof fn lemma_position_of(t: Seq<(Seq<char>, AppRoutingView)>, name: Seq<char>)
    ensures
        0 <= position_of(t, name) <= t.len(),
        position_of(t, name) < t.len() ==> t[position_of(t, name)].0 == name,
        forall|j: int| 0 <= j < position_of(t, name) ==> t[j].0 != name,
    decreases t.len(),
{
    if t.len() > 0 && t[0].0 != name {
        lemma_position_of(t.drop_first(), name);
        let k = position_of(t.drop_first(), name);
        assert forall|j: int| 0 <= j < 1 + k implies t[j].0 != name by {
            if j > 0 {
                assert(t.drop_first()[j - 1] == t[j]);
            }
        }
    }
}

impl View for RoutingTable {
    type V = Seq<(Seq<char>, AppRoutingView)>;

    closed spec fn view(&self) -> Seq<(Seq<char>, AppRoutingView)> {
        self.entries@.map_values(|e: RouteEntry| (e.app_name@, e.route@))
    }
}

impl RoutingTable {
    /// The invariant of the table: no name occurs twice. Every table made by
    /// [`RoutingTable::new`] and [`RoutingTable::insert`] has it.
    pub open spec fn well_formed(&self) -> bool {
        distinct_names(self@)
    }

    /// An empty table.
    pub fn new() -> (t: Self)
        ensures
            t@.len() == 0,
            t.well_formed(),
    {
        RoutingTable { entries: Vec::new() }
    }

    /// The number of lines.
    pub fn len(&self) -> (n: usize)
        ensures
            n == self@.len(),
    {
        self.entries.len()
    }

    /// Whether the table has no line.
    pub fn is_empty(&self) -> (b: bool)
        ensures
            b == (self@.len() == 0),
    {
        self.entries.len() == 0
    }

    /// The line at position `i`.
    pub fn entry(&self, i: usize) -> (e: &RouteEntry)
        requires
            i < self@.len(),
        ensures
            (e.app_name@, e.route@) == self@[i as int],
    {
        &self.entries[i]
    }

    fn find(&self, name: &str) -> (k: usize)
        ensures
            k == position_of(self@, name@),
            k <= self@.len(),
    {
        let mut i: usize = 0;
        while i < self.entries.len()
            invariant
                i <= self.entries.len(),
                forall|j: int| 0 <= j < i ==> self@[j].0 != name@,
            decreases self.entries.len() - i,
        {
            if str_eq(self.entries[i].app_name.as_str(), name) {
                proof {
                    assert(self@[i as int].0 == name@);
                    lemma_position_of(self@, name@);
                }
                return i;
            }
            i += 1;
        }
        proof {
            lemma_position_of(self@, name@);
        }
        i
    }

    /// The route of the application `name`, if the table has one.
    pub fn get(&self, name: &str) -> (r: Option<&AppRouting>)
        ensures
            match r {
                Some(route) => position_of(self@, name@) < self@.len() && route@
                    == self@[position_of(self@, name@)].1,
                None => position_of(self@, name@) == self@.len(),
            },
    {
        let k = self.find(name);
        if k < self.entries.len() {
            Some(&self.entries[k].route)
        } else {
            None
        }
    }

    /// Whether the table has a line for `name`.
    pub fn contains_key(&self, name: &str) -> (b: bool)
        ensures
            b == (position_of(self@, name@) < self@.len()),
    {
        self.find(name) < self.entries.len()
    }

    /// Sets the route of `name`: replaces the line that is there, or adds one
    /// at the end.
    pub fn insert(&mut self, name: String, route: AppRouting)
        ensures
            ({
                let k = position_of(old(self)@, name@);
                if k < old(self)@.len() {
                    final(self)@ == old(self)@.update(k, (name@, route@))
                } else {
                    final(self)@ == old(self)@.push((name@, route@))
                }
            }),
            old(self).well_formed() ==> final(self).well_formed(),
    {
        proof {
            lemma_position_of(self@, name@);
        }
        let k = self.find(name.as_str());
        let ghost before = self@;
        let ghost line = (name@, route@);
        if k < self.entries.len() {
            self.entries.set(k, RouteEntry { app_name: name, route });
            assert(self@ =~= before.update(k as int, line));
        } else {
            self.entries.push(RouteEntry { app_name: name, route });
            assert(self@ =~= before.push(line));
        }
    }
}

/// Limits and storage of attachments.
#[derive(Debug, Clone, PartialEq, Eq)]
pub struct AttachmentConfig {
    pub bucket: String,
    /// Lifetime of presigned URLs, in seconds.
    pub presigned_url_expiration: u64,
    /// Largest attachment, in bytes.
    pub max_size: usize,
    pub allowed_types: Vec<String>,
    pub blocked_types: Vec<String>,
    pub scan_for_malware: bool,
}

/// What the security policy enforces.
#[derive(Debug, Clone, PartialEq, Eq)]
pub struct SecurityConfig {
    pub require_spf: bool,
    pub require_dkim: bool,
    pub require_dmarc: bool,
    pub max_emails_per_sender_per_hour: u32,
    /// Sender domains that are let in; empty lets every domain in.
    pub allowed_sender_domains: Vec<String>,
}

/// Retention periods, in days.
#[derive(Debug, Clone, Copy, PartialEq, Eq, Structural)]
pub struct RetentionConfig {
    pub raw_emails: u32,
    pub attachments: u32,
    pub logs: u32,
}

/// The whole configuration.
#[derive(Debug, Clone, PartialEq, Eq)]
pub struct MailflowConfig {
    pub version: String,
    pub domains: Vec<String>,
    pub routing: RoutingTable,
    pub default_queue: String,
    pub unknown_queue: String,
    pub attachments: AttachmentConfig,
    pub security: SecurityConfig,
    pub retention: RetentionConfig,
}

/// Whether `url` has the scheme and host prefix of a queue URL.
pub open spec fn valid_queue_url(url: Seq<char>) -> bool {
    "https://sqs."@.is_prefix_of(url)
}

/// The position of the first line of `t` whose queue URL is not valid, or
/// `t.len()`.
pub open spec fn first_bad_route(t: Seq<(Seq<char>, AppRoutingView)>) -> int
    decreases t.len(),
{
    if t.len() == 0 {
        0
    } else if !valid_queue_url(t[0].1.queue_url) {
        0
    } else {
        1 + first_bad_route(t.drop_first())
    }
}

/// `first_bad_route` is the least position with a queue URL that is not valid.
pub proof fn lemma_first_bad_route(t: Seq<(Seq<char>, AppRoutingView)>)
    ensures
        0 <= first_bad_route(t) <= t.len(),
        first_bad_route(t) < t.len() ==> !valid_queue_url(t[first_bad_route(t)].1.queue_url),
        forall|j: int| 0 <= j < first_bad_route(t) ==> valid_queue_url(t[j].1.queue_url),
    decreases t.len(),
{
    if t.len() > 0 && valid_queue_url(t[0].1.queue_url) {
        lemma_first_bad_route(t.drop_first());
        let k = first_bad_route(t.drop_first());
        assert forall|j: int| 0 <= j < 1 + k implies valid_queue_url(t[j].1.queue_url) by {
            if j > 0 {
                assert(t.drop_first()[j - 1] == t[j]);
            }
        }
    }
}

impl MailflowConfig {
    /// The outcome of validation: `Ok`, or the message of the first rule that
    /// the configuration breaks. The rules, in order: at least one domain; a
    /// default queue that is empty or a valid queue URL; a valid queue URL on
    /// every route; a bucket for attachments; a positive attachment size
    /// limit; a positive hourly limit per sender.
    pub open spec fn validation(self) -> Result<(), Seq<char>> {
        let bad = first_bad_route(self.routing@);
        if self.domains@.len() == 0 {
            Err("No domains configured"@)
        } else if self.default_queue@.len() > 0 && !valid_queue_url(self.default_queue@) {
            Err("Invalid default queue URL: "@ + self.default_queue@)
        } else if bad < self.routing@.len() {
            Err(
                "Invalid queue URL for app "@ + self.routing@[bad].0 + ": "@
                    + self.routing@[bad].1.queue_url,
            )
        } else if self.attachments.bucket@.len() == 0 {
            Err("Attachments bucket not configured"@)
        } else if self.attachments.max_size == 0 {
            Err("Attachments max_size must be > 0"@)
        } else if self.security.max_emails_per_sender_per_hour == 0 {
            Err("Max emails per sender per hour must be > 0"@)
        } else {
            Ok(())
        }
    }

    /// Checks the configuration at load and names the first broken rule.
    pub fn validate(&self) -> (r: Result<(), String>)
        ensures
            match r {
                Ok(()) => self.validation() == Ok::<(), Seq<char>>(()),
                Err(m) => self.validation() == Err::<(), Seq<char>>(m@),
            },
    {
        if self.domains.len() == 0 {
            return Err("No domains configured".to_string());
        }
        if !self.default_queue.as_str().is_empty() && !str_has_prefix(
            self.default_queue.as_str(),
            "https://sqs.",
        ) {
            return Err(concat2("Invalid default queue URL: ", self.default_queue.as_str()));
        }
        let mut i: usize = 0;
        while i < self.routing.len()
            invariant
                i <= self.routing@.len(),
                self.domains@.len() != 0,
                self.default_queue@.len() == 0 || valid_queue_url(self.default_queue@),
                forall|j: int| 0 <= j < i ==> valid_queue_url(self.routing@[j].1.queue_url),
            decreases self.routing@.len() - i,
        {
            let e = self.routing.entry(i);
            if !str_has_prefix(e.route.queue_url.as_str(), "https://sqs.") {
                let head = concat3("Invalid queue URL for app ", e.app_name.as_str(), ": ");
                let message = concat2(head.as_str(), e.route.queue_url.as_str());
                proof {
                    lemma_first_bad_route(self.routing@);
                    assert(!valid_queue_url(self.routing@[i as int].1.queue_url));
                    assert(first_bad_route(self.routing@) == i);
                    assert(message@ =~= "Invalid queue URL for app "@ + self.routing@[i as int].0
                        + ": "@ + self.routing@[i as int].1.queue_url);
                }
                return Err(message);
            }
            i += 1;
        }
        proof {
            lemma_first_bad_route(self.routing@);
        }
        if self.attachments.bucket.as_str().is_empty() {
            return Err("Attachments bucket not configured".to_string());
        }
        if self.attachments.max_size == 0 {
            return Err("Attachments max_size must be > 0".to_string());
        }
        if self.security.max_emails_per_sender_per_hour == 0 {
            return Err("Max emails per sender per hour must be > 0".to_string());
        }
        Ok(())
    }
}

} // verus!
