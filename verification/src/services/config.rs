//! The configuration of the process, made from the values of its
//! environment. Reading the environment is the caller's.

use crate::error::MailflowError;
use crate::foreign::{trim, trimmed_of};
use crate::models::config::{
    position_of, AppRouting, AppRoutingView, AttachmentConfig, MailflowConfig, RetentionConfig,
    RoutingTable, SecurityConfig,
};
use crate::text::{concat2, pieces, split_on, views};
use vstd::prelude::*;

verus! {

/// Lifetime of presigned URLs in a configuration made from the environment:
/// 7 days, in seconds.
pub const ENV_PRESIGNED_URL_EXPIRATION: u64 = 604800;

/// Largest attachment in a configuration made from the environment: 35 MiB.
pub const ENV_MAX_ATTACHMENT_SIZE: usize = 36700160;

/// Messages per sender per hour in a configuration made from the
/// environment.
pub const ENV_MAX_EMAILS_PER_SENDER_PER_HOUR: u32 = 100;

/// A source of the configuration.
pub trait ConfigProvider {
    /// The configuration.
    fn get_config(&self) -> Result<&MailflowConfig, MailflowError>;

    /// Reloads the configuration, where it can change.
    fn refresh(&mut self) -> Result<(), MailflowError>;
}

/// The pieces of `list`, trimmed, without those that are empty once
/// trimmed.
pub open spec fn trimmed_nonempty(list: Seq<Seq<char>>) -> Seq<Seq<char>>
    decreases list.len(),
{
    if list.len() == 0 {
        Seq::empty()
    } else if trimmed_of(list.last()).len() == 0 {
        trimmed_nonempty(list.drop_last())
    } else {
        trimmed_nonempty(list.drop_last()).push(trimmed_of(list.last()))
    }
}

/// The domains that a comma-separated list names.
pub open spec fn domain_list(text: Seq<char>) -> Seq<Seq<char>> {
    trimmed_nonempty(pieces(text, ','))
}

/// The domains that a comma-separated list names: its pieces, trimmed,
/// without the empty ones.
pub fn parse_domain_list(text: &str) -> (r: Vec<String>)
    ensures
        views(r@) == domain_list(text@),
{
    let parts = split_on(text, ',');
    let ghost all = views(parts@);
    let mut out: Vec<String> = Vec::new();
    assert(views(out@) =~= Seq::empty());
    let mut i: usize = 0;
    while i < parts.len()
        invariant
            i <= parts.len(),
            all == views(parts@),
            views(out@) == trimmed_nonempty(all.take(i as int)),
        decreases parts.len() - i,
    {
        proof {
            assert(all.take(i as int + 1).drop_last() =~= all.take(i as int));
            assert(all.take(i as int + 1).last() == parts@[i as int]@);
        }
        let t = trim(parts[i].as_str());
        if !t.as_str().is_empty() {
            let ghost before = out@;
            out.push(t);
            assert(views(out@) =~= views(before).push(trimmed_of(parts@[i as int]@)));
        }
        i += 1;
    }
    assert(all.take(parts.len() as int) =~= all);
    out
}

/// The route of an application that the environment names: its queue,
/// enabled, without aliases.
pub open spec fn env_route(queue_url: Seq<char>) -> AppRoutingView {
    AppRoutingView { queue_url, enabled: true, aliases: Seq::empty() }
}

/// The routing table that the pairs of application and queue make, each
/// pair set in turn.
pub open spec fn table_of(pairs: Seq<(String, String)>) -> Seq<(Seq<char>, AppRoutingView)>
    decreases pairs.len(),
{
    if pairs.len() == 0 {
        Seq::empty()
    } else {
        let before = table_of(pairs.drop_last());
        let name = pairs.last().0@;
        let k = position_of(before, name);
        if k < before.len() {
            before.update(k, (name, env_route(pairs.last().1@)))
        } else {
            before.push((name, env_route(pairs.last().1@)))
        }
    }
}

/// The routing table that the pairs of application and queue make.
pub fn build_routing(pairs: &Vec<(String, String)>) -> (table: RoutingTable)
    ensures
        table@ == table_of(pairs@),
        table.well_formed(),
{
    let mut table = RoutingTable::new();
    assert(table@ =~= table_of(pairs@.take(0)));
    let mut i: usize = 0;
    while i < pairs.len()
        invariant
            i <= pairs.len(),
            table.well_formed(),
            table@ == table_of(pairs@.take(i as int)),
        decreases pairs.len() - i,
    {
        proof {
            assert(pairs@.take(i as int + 1).drop_last() =~= pairs@.take(i as int));
            assert(pairs@.take(i as int + 1).last() == pairs@[i as int]);
        }
        let route = AppRouting {
            queue_url: pairs[i].1.clone(),
            enabled: true,
            aliases: Vec::new(),
        };
        assert(route@ == env_route(pairs@[i as int].1@)) by {
            assert(views(route.aliases@) =~= Seq::<Seq<char>>::empty());
        }
        table.insert(pairs[i].0.clone(), route);
        i += 1;
    }
    assert(pairs@.take(pairs.len() as int) =~= pairs@);
    table
}

/// The configuration that the environment names, before it is checked.
pub open spec fn env_config_is(
    config: MailflowConfig,
    routing: Seq<(String, String)>,
    allowed_domains: Option<String>,
    default_queue: Option<String>,
    raw_bucket: String,
) -> bool {
    &&& config.version@ == "1.0"@
    &&& views(config.domains@) == domain_list(
        match allowed_domains {
            Some(d) => d@,
            None => Seq::empty(),
        },
    )
    &&& config.routing@ == table_of(routing)
    &&& config.default_queue@ == (match default_queue {
        Some(q) => q@,
        None => Seq::empty(),
    })
    &&& config.unknown_queue@ == config.default_queue@
    &&& config.attachments.bucket@ == raw_bucket@
    &&& config.attachments.presigned_url_expiration == ENV_PRESIGNED_URL_EXPIRATION
    &&& config.attachments.max_size == ENV_MAX_ATTACHMENT_SIZE
    &&& config.attachments.allowed_types@.len() == 0
    &&& views(config.attachments.blocked_types@) == seq!["application/x-executable"@]
    &&& !config.attachments.scan_for_malware
    &&& !config.security.require_spf
    &&& !config.security.require_dkim
    &&& !config.security.require_dmarc
    &&& config.security.max_emails_per_sender_per_hour == ENV_MAX_EMAILS_PER_SENDER_PER_HOUR
    &&& config.security.allowed_sender_domains@.len() == 0
    &&& config.retention == (RetentionConfig { raw_emails: 7, attachments: 30, logs: 30 })
}

/// The configuration made from the values of the environment.
#[derive(Debug, Clone, PartialEq, Eq)]
pub struct EnvConfigProvider {
    config: MailflowConfig,
}

impl EnvConfigProvider {
    /// The configuration that the provider holds.
    pub closed spec fn config(&self) -> MailflowConfig {
        self.config
    }

    /// Makes the configuration from the values of the environment:
    /// `routing_map` is what `ROUTING_MAP` holds, read as pairs of
    /// application and queue, or why it could not be read;
    /// `allowed_domains` is `ALLOWED_DOMAINS`; `default_queue` is
    /// `DEFAULT_QUEUE_URL`; `raw_bucket` is `RAW_EMAILS_BUCKET`. A missing
    /// or unreadable routing map, a missing bucket, and a configuration
    /// that does not pass [`MailflowConfig::validate`] are rejected with
    /// `Config`.
    pub fn from_values(
        routing_map: Option<Result<Vec<(String, String)>, String>>,
        allowed_domains: Option<String>,
        default_queue: Option<String>,
        raw_bucket: Option<String>,
    ) -> (r: Result<Self, MailflowError>)
        ensures
            match r {
                Ok(provider) => {
                    &&& routing_map matches Some(Ok(pairs))
                    &&& raw_bucket matches Some(bucket)
                    &&& env_config_is(
                        provider.config(),
                        pairs@,
                        allowed_domains,
                        default_queue,
                        bucket,
                    )
                    &&& provider.config().validation() is Ok
                    &&& provider.config().routing.well_formed()
                },
                Err(e) => {
                    &&& e is Config
                    &&& match routing_map {
                        None => e.detail() == "Missing ROUTING_MAP env var"@,
                        Some(Err(why)) => e.detail() == "Invalid ROUTING_MAP JSON: "@ + why@,
                        Some(Ok(pairs)) => match raw_bucket {
                            None => e.detail() == "Missing RAW_EMAILS_BUCKET"@,
                            Some(bucket) => exists|config: MailflowConfig|
                                {
                                    &&& env_config_is(
                                        config,
                                        pairs@,
                                        allowed_domains,
                                        default_queue,
                                        bucket,
                                    )
                                    &&& config.validation() is Err
                                    &&& e.detail() == "Invalid configuration: "@
                                        + config.validation()->Err_0
                                },
                        },
                    }
                },
            },
    {
        let pairs = match routing_map {
            None => {
                return Err(MailflowError::Config("Missing ROUTING_MAP env var".to_string()));
            },
            Some(Err(why)) => {
                return Err(
                    MailflowError::Config(concat2("Invalid ROUTING_MAP JSON: ", why.as_str())),
                );
            },
            Some(Ok(pairs)) => pairs,
        };
        let domains = match &allowed_domains {
            Some(d) => parse_domain_list(d.as_str()),
            None => parse_domain_list(""),
        };
        let queue = match &default_queue {
            Some(q) => q.clone(),
            None => String::new(),
        };
        let bucket = match raw_bucket {
            Some(bucket) => bucket,
            None => {
                return Err(MailflowError::Config("Missing RAW_EMAILS_BUCKET".to_string()));
            },
        };
        let mut blocked_types: Vec<String> = Vec::new();
        blocked_types.push("application/x-executable".to_string());
        assert(views(blocked_types@) =~= seq!["application/x-executable"@]);
        proof {
            reveal_strlit("");
            assert(""@ =~= Seq::<char>::empty());
        }
        let config = MailflowConfig {
            version: "1.0".to_string(),
            domains,
            routing: build_routing(&pairs),
            default_queue: queue.clone(),
            unknown_queue: queue,
            attachments: AttachmentConfig {
                bucket: bucket.clone(),
                presigned_url_expiration: ENV_PRESIGNED_URL_EXPIRATION,
                max_size: ENV_MAX_ATTACHMENT_SIZE,
                allowed_types: Vec::new(),
                blocked_types,
                scan_for_malware: false,
            },
            security: SecurityConfig {
                require_spf: false,
                require_dkim: false,
                require_dmarc: false,
                max_emails_per_sender_per_hour: ENV_MAX_EMAILS_PER_SENDER_PER_HOUR,
                allowed_sender_domains: Vec::new(),
            },
            retention: RetentionConfig { raw_emails: 7, attachments: 30, logs: 30 },
        };
        assert(env_config_is(config, pairs@, allowed_domains, default_queue, bucket));
        match config.validate() {
            Ok(()) => Ok(EnvConfigProvider { config }),
            Err(why) => Err(
                MailflowError::Config(concat2("Invalid configuration: ", why.as_str())),
            ),
        }
    }
}

impl ConfigProvider for EnvConfigProvider {
    fn get_config(&self) -> (r: Result<&MailflowConfig, MailflowError>)
        ensures
            r is Ok,
            *r->Ok_0 == self.config(),
    {
        Ok(&self.config)
    }

    fn refresh(&mut self) -> (r: Result<(), MailflowError>)
        ensures
            r is Ok,
            final(self).config() == old(self).config(),
    {
        Ok(())
    }
}

} // verus!
