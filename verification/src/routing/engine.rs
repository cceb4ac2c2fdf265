//! The routing decision for a whole message.

use crate::error::MailflowError;
use crate::models::config::{AppRoutingView, MailflowConfig};
use crate::models::email::{addresses_of, Email, EmailAddress};
use crate::routing::resolver::{resolved, QueueResolver};
use crate::routing::rules::{app_name_of, extract_app_name, RouteDestination};
use crate::text::{list_contains, views};
use vstd::prelude::*;

verus! {

/// The application names of `acc` followed by those that the addresses
/// `addrs` name and that did not occur before, in order of first occurrence.
pub open spec fn extend_names(acc: Seq<Seq<char>>, addrs: Seq<Seq<char>>) -> Seq<Seq<char>>
    decreases addrs.len(),
{
    if addrs.len() == 0 {
        acc
    } else {
        let before = extend_names(acc, addrs.drop_last());
        match app_name_of(addrs.last()) {
            Some(name) => if before.contains(name) {
                before
            } else {
                before.push(name)
            },
            None => before,
        }
    }
}

/// Scanning `a + b` is scanning `a` and then `b`.
pub proof fn lemma_extend_names_concat(acc: Seq<Seq<char>>, a: Seq<Seq<char>>, b: Seq<Seq<char>>)
    ensures
        extend_names(acc, a + b) == extend_names(extend_names(acc, a), b),
    decreases b.len(),
{
    if b.len() == 0 {
        assert(a + b =~= a);
    } else {
        assert((a + b).drop_last() =~= a + b.drop_last());
        assert((a + b).last() == b.last());
        lemma_extend_names_concat(acc, a, b.drop_last());
    }
}

/// The applications that the recipients name, each once, in order of first
/// occurrence.
pub open spec fn app_names(recipients: Seq<Seq<char>>) -> Seq<Seq<char>> {
    extend_names(Seq::empty(), recipients)
}

/// The destination of mail for `app`: its resolved queue under its own name,
/// or the default queue under the name `default`.
pub open spec fn destination_of(
    t: Seq<(Seq<char>, AppRoutingView)>,
    default_queue: Seq<char>,
    app: Seq<char>,
) -> (Seq<char>, Seq<char>) {
    match resolved(t, app) {
        Some(url) => (app, url),
        None => ("default"@, default_queue),
    }
}

/// The destinations of mail to `recipients`: one per named application, or
/// the default queue alone when no application is named.
pub open spec fn routes_of(
    t: Seq<(Seq<char>, AppRoutingView)>,
    default_queue: Seq<char>,
    recipients: Seq<Seq<char>>,
) -> Seq<(Seq<char>, Seq<char>)> {
    let names = app_names(recipients);
    if names.len() == 0 {
        seq![("default"@, default_queue)]
    } else {
        names.map_values(|app: Seq<char>| destination_of(t, default_queue, app))
    }
}

/// Every message has at least one destination.
pub proof fn lemma_routes_nonempty(
    t: Seq<(Seq<char>, AppRoutingView)>,
    default_queue: Seq<char>,
    recipients: Seq<Seq<char>>,
)
    ensures
        routes_of(t, default_queue, recipients).len() >= 1,
{
}

/// The destinations depend on the routing table, the default queue and the
/// recipient addresses alone: two messages with the same recipients get the
/// same destinations under the same configuration.
pub proof fn lemma_routes_depend_on_recipients_only(
    config: MailflowConfig,
    first: Email,
    second: Email,
)
    requires
        first.recipients() == second.recipients(),
    ensures
        routes_of(config.routing@, config.default_queue@, first.recipients()) == routes_of(
            config.routing@,
            config.default_queue@,
            second.recipients(),
        ),
{
}

/// The destinations as their views.
pub open spec fn destination_views(v: Seq<RouteDestination>) -> Seq<(Seq<char>, Seq<char>)> {
    v.map_values(|d: RouteDestination| d@)
}

/// Something that decides where a message goes.
pub trait Router {
    /// The destinations of `email`: at least one.
    fn route(&self, email: &Email) -> (r: Result<Vec<RouteDestination>, MailflowError>)
        ensures
            r matches Ok(routes) ==> routes@.len() >= 1,
    ;
}

/// Decides where a message goes by its recipients and the routing table.
#[derive(Debug, Clone, PartialEq, Eq)]
pub struct MailflowRouter {
    resolver: QueueResolver,
}

impl MailflowRouter {
    /// The routing table that the router reads.
    pub closed spec fn table(&self) -> Seq<(Seq<char>, AppRoutingView)> {
        self.resolver.table()
    }

    /// The queue for mail that names no known application.
    pub closed spec fn fallback(&self) -> Seq<char> {
        self.resolver.fallback()
    }

    pub fn new(config: MailflowConfig) -> (r: Self)
        ensures
            r.table() == config.routing@,
            r.fallback() == config.default_queue@,
    {
        MailflowRouter { resolver: QueueResolver::new(config) }
    }

    fn collect(list: &Vec<EmailAddress>, names: &mut Vec<String>)
        ensures
            views(final(names)@) == extend_names(views(old(names)@), addresses_of(list@)),
    {
        let ghost start = views(names@);
        let ghost addrs = addresses_of(list@);
        let mut i: usize = 0;
        while i < list.len()
            invariant
                i <= list.len(),
                addrs == addresses_of(list@),
                views(names@) == extend_names(start, addrs.take(i as int)),
            decreases list.len() - i,
        {
            proof {
                assert(addrs.take(i as int + 1).drop_last() =~= addrs.take(i as int));
                assert(addrs.take(i as int + 1).last() == list@[i as int].address@);
            }
            match extract_app_name(list[i].address.as_str()) {
                Some(name) => {
                    if !list_contains(names, name.as_str()) {
                        let ghost before = names@;
                        names.push(name);
                        assert(views(names@) =~= views(before).push(name@));
                    }
                },
                None => {},
            }
            i += 1;
        }
        assert(addrs.take(list.len() as int) =~= addrs);
    }

    /// The applications that the recipients of `email` name, each once, in
    /// order of first occurrence over `to`, `cc` and `bcc`.
    pub fn extract_app_names(email: &Email) -> (names: Vec<String>)
        ensures
            views(names@) == app_names(email.recipients()),
    {
        let mut names: Vec<String> = Vec::new();
        assert(views(names@) =~= Seq::<Seq<char>>::empty());
        Self::collect(&email.to, &mut names);
        Self::collect(&email.cc, &mut names);
        Self::collect(&email.bcc, &mut names);
        proof {
            let e = Seq::<Seq<char>>::empty();
            let to = addresses_of(email.to@);
            let cc = addresses_of(email.cc@);
            let bcc = addresses_of(email.bcc@);
            lemma_extend_names_concat(e, to, cc);
            lemma_extend_names_concat(e, to + cc, bcc);
        }
        names
    }

    /// The destinations of `email`: for each application that a recipient
    /// names, its queue, or the default queue under the name `default` when
    /// the name does not resolve; the default queue alone when no recipient
    /// names an application. Never empty, never an error.
    pub fn route(&self, email: &Email) -> (r: Result<Vec<RouteDestination>, MailflowError>)
        ensures
            r is Ok,
            destination_views(r->Ok_0@) == routes_of(
                self.table(),
                self.fallback(),
                email.recipients(),
            ),
            r->Ok_0@.len() >= 1,
    {
        let names = Self::extract_app_names(email);
        let mut destinations: Vec<RouteDestination> = Vec::new();
        if names.len() == 0 {
            destinations.push(
                RouteDestination {
                    app_name: "default".to_string(),
                    queue_url: self.resolver.default_queue().to_string(),
                },
            );
            assert(destination_views(destinations@) =~= seq![("default"@, self.fallback())]);
            return Ok(destinations);
        }
        let ghost t = self.table();
        let ghost dq = self.fallback();
        let ghost all = views(names@).map_values(|app: Seq<char>| destination_of(t, dq, app));
        let mut i: usize = 0;
        while i < names.len()
            invariant
                i <= names.len(),
                t == self.table(),
                dq == self.fallback(),
                all == views(names@).map_values(|app: Seq<char>| destination_of(t, dq, app)),
                destination_views(destinations@) == all.take(i as int),
            decreases names.len() - i,
        {
            let ghost before = destinations@;
            let d = match self.resolver.resolve(names[i].as_str()) {
                Ok(queue_url) => RouteDestination { app_name: names[i].clone(), queue_url },
                Err(_) => RouteDestination {
                    app_name: "default".to_string(),
                    queue_url: self.resolver.default_queue().to_string(),
                },
            };
            assert(d@ == all[i as int]);
            destinations.push(d);
            assert(destination_views(destinations@) =~= destination_views(before).push(d@));
            assert(all.take(i as int).push(all[i as int]) =~= all.take(i as int + 1));
            i += 1;
        }
        assert(all.take(names.len() as int) =~= all);
        Ok(destinations)
    }
}

impl Router for MailflowRouter {
    fn route(&self, email: &Email) -> (r: Result<Vec<RouteDestination>, MailflowError>)
        ensures
            r is Ok,
            destination_views(r->Ok_0@) == routes_of(
                self.table(),
                self.fallback(),
                email.recipients(),
            ),
    {
        MailflowRouter::route(self, email)
    }
}

} // verus!
