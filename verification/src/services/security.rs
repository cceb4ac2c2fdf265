//! The security policy: what the verdicts of the SMTP gateway, the size of a
//! message and the domain of its sender let through.

use crate::constants::MAX_EMAIL_SIZE_BYTES;
use crate::error::MailflowError;
use crate::foreign::{lowercase_of, to_lowercase};
use crate::models::config::SecurityConfig;
use crate::models::events::{SesEventRecord, Verdict};
use crate::text::{concat2, concat3, decimal, decimal_string, find_second_segment, str_eq, views};
use crate::utils::logging::{domain_of, redact_email, redaction_of};
use vstd::prelude::*;

verus! {

/// Whether a verdict is there and says `PASS`.
pub open spec fn passed(v: Option<Verdict>) -> bool {
    v is Some && v->0.status@ == "PASS"@
}

/// Whether a verdict is there and says something other than `PASS`.
pub open spec fn present_and_not_passed(v: Option<Verdict>) -> bool {
    v is Some && v->0.status@ != "PASS"@
}

/// Whether a verdict is there and says `FAIL`.
pub open spec fn failed(v: Option<Verdict>) -> bool {
    v is Some && v->0.status@ == "FAIL"@
}

/// Why the verdicts of `record` do not pass under `config`, if they
/// do not: SPF is required and did not pass; else DKIM is required and did
/// not pass; else a virus verdict is there and is not a pass. A spam verdict
/// rejects nothing.
pub open spec fn verdict_objection(config: SecurityConfig, record: SesEventRecord) -> Option<
    Seq<char>,
> {
    let receipt = record.ses.receipt;
    if config.require_spf && !passed(receipt.spf_verdict) {
        Some("Email failed SPF verification"@)
    } else if config.require_dkim && !passed(receipt.dkim_verdict) {
        Some("Email failed DKIM verification"@)
    } else if present_and_not_passed(receipt.virus_verdict) {
        Some("Email failed virus scan"@)
    } else {
        None
    }
}

/// Whether one of `allowed`, in lower case, is `domain` in lower case.
pub open spec fn domain_listed(allowed: Seq<Seq<char>>, domain: Seq<char>) -> bool {
    exists|i: int| 0 <= i < allowed.len() && lowercase_of(#[trigger] allowed[i]) == lowercase_of(domain)
}

/// What the policy says of a sender.
pub ghost enum SenderVerdict {
    Allowed,
    /// The address has no `@`.
    Malformed,
    /// The domain, in lower case, is not on the list.
    NotListed(Seq<char>),
}

/// The policy on sender domains: an empty list lets every sender in; else the
/// address must have a domain, and the domain must be on the list, case
/// ignored.
pub open spec fn sender_verdict(allowed: Seq<Seq<char>>, sender: Seq<char>) -> SenderVerdict {
    if allowed.len() == 0 {
        SenderVerdict::Allowed
    } else {
        match domain_of(sender) {
            None => SenderVerdict::Malformed,
            Some(domain) => if domain_listed(allowed, domain) {
                SenderVerdict::Allowed
            } else {
                SenderVerdict::NotListed(lowercase_of(domain))
            },
        }
    }
}

fn verdict_is(v: &Option<Verdict>, status: &str) -> (b: bool)
    ensures
        b == (*v is Some && v->0.status@ == status@),
{
    match v {
        Some(verdict) => str_eq(verdict.status.as_str(), status),
        None => false,
    }
}

/// Applies the security policy of a configuration.
#[derive(Debug, Clone, PartialEq, Eq)]
pub struct SecurityValidator {
    security_config: SecurityConfig,
}

impl SecurityValidator {
    /// The policy that the validator applies.
    pub closed spec fn policy(&self) -> SecurityConfig {
        self.security_config
    }

    pub fn new(security_config: SecurityConfig) -> (r: Self)
        ensures
            r.policy() == security_config,
    {
        SecurityValidator { security_config }
    }

    /// Holds the verdicts of the SMTP gateway against the policy: rejects
    /// with `Validation` when a required check did not pass or a virus
    /// verdict is not a pass.
    pub fn validate_ses_verdicts(&self, record: &SesEventRecord) -> (r: Result<(), MailflowError>)
        ensures
            match r {
                Ok(()) => verdict_objection(self.policy(), *record) is None,
                Err(e) => e is Validation && verdict_objection(self.policy(), *record) == Some(
                    e.detail(),
                ),
            },
    {
        let receipt = &record.ses.receipt;
        if self.security_config.require_spf && !verdict_is(&receipt.spf_verdict, "PASS") {
            return Err(MailflowError::Validation("Email failed SPF verification".to_string()));
        }
        if self.security_config.require_dkim && !verdict_is(&receipt.dkim_verdict, "PASS") {
            return Err(MailflowError::Validation("Email failed DKIM verification".to_string()));
        }
        match &receipt.virus_verdict {
            Some(verdict) => {
                if !str_eq(verdict.status.as_str(), "PASS") {
                    return Err(MailflowError::Validation("Email failed virus scan".to_string()));
                }
            },
            None => {},
        }
        Ok(())
    }

    /// Whether the gateway marked the message as spam. Spam is not rejected;
    /// the mark travels with the envelope.
    pub fn is_marked_spam(&self, record: &SesEventRecord) -> (b: bool)
        ensures
            b == failed(record.ses.receipt.spam_verdict),
    {
        verdict_is(&record.ses.receipt.spam_verdict, "FAIL")
    }

    /// Rejects a raw message of more than 40 MiB with `Validation`.
    pub fn validate_email_size(&self, size_bytes: usize) -> (r: Result<(), MailflowError>)
        ensures
            r is Ok <==> size_bytes <= MAX_EMAIL_SIZE_BYTES,
            r matches Err(e) ==> e is Validation && e.detail() == "Email size "@ + decimal(
                size_bytes as nat,
            ) + " exceeds maximum "@ + decimal(MAX_EMAIL_SIZE_BYTES as nat),
    {
        if size_bytes > MAX_EMAIL_SIZE_BYTES {
            let mut m = concat2("Email size ", decimal_string(size_bytes as u64).as_str());
            m.append(" exceeds maximum ");
            m.append(decimal_string(MAX_EMAIL_SIZE_BYTES as u64).as_str());
            return Err(MailflowError::Validation(m));
        }
        Ok(())
    }

    /// Holds the domain of the sender against the list of allowed domains,
    /// case ignored. An empty list allows every sender; an address without
    /// `@` is rejected.
    pub fn validate_sender_domain(&self, sender_email: &str) -> (r: Result<(), MailflowError>)
        ensures
            r is Ok <==> sender_verdict(
                views(self.policy().allowed_sender_domains@),
                sender_email@,
            ) is Allowed,
            r matches Err(e) ==> e is Validation && e.detail() == (match sender_verdict(
                views(self.policy().allowed_sender_domains@),
                sender_email@,
            ) {
                SenderVerdict::Allowed => Seq::empty(),
                SenderVerdict::Malformed => "Invalid email address format: "@ + redaction_of(
                    sender_email@,
                ),
                SenderVerdict::NotListed(domain) => "Sender domain '"@ + domain
                    + "' is not in the allowlist"@,
            }),
    {
        let allowed = &self.security_config.allowed_sender_domains;
        if allowed.len() == 0 {
            return Ok(());
        }
        let domain = match find_second_segment(sender_email, '@') {
            Some(domain) => to_lowercase(domain.as_str()),
            None => {
                let hidden = redact_email(sender_email);
                return Err(
                    MailflowError::Validation(
                        concat2("Invalid email address format: ", hidden.as_str()),
                    ),
                );
            },
        };
        let ghost list = views(allowed@);
        let ghost raw = domain_of(sender_email@)->0;
        let mut i: usize = 0;
        while i < allowed.len()
            invariant
                i <= allowed.len(),
                list == views(allowed@),
                allowed == &self.security_config.allowed_sender_domains,
                domain_of(sender_email@) == Some(raw),
                domain@ == lowercase_of(raw),
                forall|j: int| 0 <= j < i ==> lowercase_of(#[trigger] list[j]) != lowercase_of(raw),
            decreases allowed.len() - i,
        {
            let candidate = to_lowercase(allowed[i].as_str());
            assert(list[i as int] == allowed@[i as int]@);
            if str_eq(candidate.as_str(), domain.as_str()) {
                assert(domain_listed(list, raw));
                return Ok(());
            }
            i += 1;
        }
        Err(
            MailflowError::Validation(
                concat3("Sender domain '", domain.as_str(), "' is not in the allowlist"),
            ),
        )
    }

    /// Whether the sender is trusted. No reputation is kept: every sender is.
    pub fn is_trusted_sender(&self, _sender: &str) -> (b: bool)
        ensures
            b,
    {
        true
    }
}

} // verus!
