//! From an application name to its queue.

use crate::error::MailflowError;
use crate::models::config::{position_of, AppRoutingView, MailflowConfig};
use crate::text::{concat2, list_contains};
use vstd::prelude::*;

verus! {

/// The queue of the line named `app`, if that line is enabled.
pub open spec fn direct_match(t: Seq<(Seq<char>, AppRoutingView)>, app: Seq<char>) -> Option<
    Seq<char>,
> {
    let k = position_of(t, app);
    if k < t.len() && t[k].1.enabled {
        Some(t[k].1.queue_url)
    } else {
        None
    }
}

/// The position of the first enabled line of `t` that lists `app` among its
/// aliases, or `t.len()`.
pub open spec fn first_alias(t: Seq<(Seq<char>, AppRoutingView)>, app: Seq<char>) -> int
    decreases t.len(),
{
    if t.len() == 0 {
        0
    } else if t[0].1.enabled && t[0].1.aliases.contains(app) {
        0
    } else {
        1 + first_alias(t.drop_first(), app)
    }
}

/// `first_alias` is the least position of an enabled line with the alias.
pub proof fn lemma_first_alias(t: Seq<(Seq<char>, AppRoutingView)>, app: Seq<char>)
    ensures
        0 <= first_alias(t, app) <= t.len(),
        first_alias(t, app) < t.len() ==> t[first_alias(t, app)].1.enabled && t[first_alias(
            t,
            app,
        )].1.aliases.contains(app),
        forall|j: int|
            0 <= j < first_alias(t, app) ==> !(t[j].1.enabled && t[j].1.aliases.contains(app)),
    decreases t.len(),
{
    if t.len() > 0 && !(t[0].1.enabled && t[0].1.aliases.contains(app)) {
        lemma_first_alias(t.drop_first(), app);
        let k = first_alias(t.drop_first(), app);
        assert forall|j: int| 0 <= j < 1 + k implies !(t[j].1.enabled && t[j].1.aliases.contains(
            app,
        )) by {
            if j > 0 {
                assert(t.drop_first()[j - 1] == t[j]);
            }
        }
    }
}

/// The queue that `app` resolves to in the table `t`: that of its own line if
/// enabled; otherwise that of the first enabled line with `app` as an alias;
/// otherwise none.
pub open spec fn resolved(t: Seq<(Seq<char>, AppRoutingView)>, app: Seq<char>) -> Option<
    Seq<char>,
> {
    match direct_match(t, app) {
        Some(url) => Some(url),
        None => {
            let k = first_alias(t, app);
            if k < t.len() {
                Some(t[k].1.queue_url)
            } else {
                None
            }
        },
    }
}

/// Resolves application names against a configuration.
#[derive(Debug, Clone, PartialEq, Eq)]
pub struct QueueResolver {
    config: MailflowConfig,
}

impl QueueResolver {
    /// The routing table that the resolver reads.
    pub closed spec fn table(&self) -> Seq<(Seq<char>, AppRoutingView)> {
        self.config.routing@
    }

    /// The queue for mail that names no known application.
    pub closed spec fn fallback(&self) -> Seq<char> {
        self.config.default_queue@
    }

    pub fn new(config: MailflowConfig) -> (r: Self)
        ensures
            r.table() == config.routing@,
            r.fallback() == config.default_queue@,
    {
        QueueResolver { config }
    }

    /// The queue of the application `app_name`, or a `Routing` error when no
    /// enabled route carries that name or alias.
    pub fn resolve(&self, app_name: &str) -> (r: Result<String, MailflowError>)
        ensures
            match r {
                Ok(url) => resolved(self.table(), app_name@) == Some(url@),
                Err(e) => resolved(self.table(), app_name@) is None && e
                    == MailflowError::Routing(e->Routing_0) && e.detail()
                    == "No queue configured for app: "@ + app_name@,
            },
    {
        match self.config.routing.get(app_name) {
            Some(route) => {
                if route.enabled {
                    return Ok(route.queue_url.clone());
                }
            },
            None => {},
        }
        let mut i: usize = 0;
        while i < self.config.routing.len()
            invariant
                i <= self.table().len(),
                direct_match(self.table(), app_name@) is None,
                forall|j: int|
                    0 <= j < i ==> !(self.table()[j].1.enabled && self.table()[j].1.aliases.contains(
                        app_name@,
                    )),
            decreases self.table().len() - i,
        {
            let e = self.config.routing.entry(i);
            if e.route.enabled && list_contains(&e.route.aliases, app_name) {
                proof {
                    lemma_first_alias(self.table(), app_name@);
                }
                return Ok(e.route.queue_url.clone());
            }
            i += 1;
        }
        proof {
            lemma_first_alias(self.table(), app_name@);
        }
        Err(MailflowError::Routing(concat2("No queue configured for app: ", app_name)))
    }

    /// The queue for mail that names no known application.
    pub fn default_queue(&self) -> (q: &str)
        ensures
            q@ == self.fallback(),
    {
        self.config.default_queue.as_str()
    }
}

} // verus!
