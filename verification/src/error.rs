//! The error taxonomy and its retry classification.

use crate::text::concat2;
use vstd::prelude::*;

verus! {

/// A failure of one of the pipelines: its kind and a human-readable message.
#[derive(Debug, Clone, PartialEq, Eq)]
pub enum MailflowError {
    EmailParsing(String),
    Routing(String),
    Storage(String),
    Queue(String),
    Ses(String),
    Config(String),
    Validation(String),
    Idempotency(String),
    RateLimit(String),
    Lambda(String),
    Unknown(String),
}

impl MailflowError {
    /// Whether a later attempt at the same operation may succeed.
    pub open spec fn retriable(self) -> bool {
        self is Storage || self is Queue || self is Ses || self is Idempotency
    }

    /// The message carried by the error, as characters.
    pub open spec fn detail(self) -> Seq<char> {
        match self {
            MailflowError::EmailParsing(m) => m@,
            MailflowError::Routing(m) => m@,
            MailflowError::Storage(m) => m@,
            MailflowError::Queue(m) => m@,
            MailflowError::Ses(m) => m@,
            MailflowError::Config(m) => m@,
            MailflowError::Validation(m) => m@,
            MailflowError::Idempotency(m) => m@,
            MailflowError::RateLimit(m) => m@,
            MailflowError::Lambda(m) => m@,
            MailflowError::Unknown(m) => m@,
        }
    }

    /// The words that introduce the message when the error is rendered.
    pub open spec fn label(self) -> Seq<char> {
        match self {
            MailflowError::EmailParsing(_) => "Email parsing error: "@,
            MailflowError::Routing(_) => "Routing error: "@,
            MailflowError::Storage(_) => "Storage error: "@,
            MailflowError::Queue(_) => "Queue error: "@,
            MailflowError::Ses(_) => "SES error: "@,
            MailflowError::Config(_) => "Configuration error: "@,
            MailflowError::Validation(_) => "Validation error: "@,
            MailflowError::Idempotency(_) => "Idempotency error: "@,
            MailflowError::RateLimit(_) => "Rate limit exceeded: "@,
            MailflowError::Lambda(_) => "Lambda runtime error: "@,
            MailflowError::Unknown(_) => "Unknown error: "@,
        }
    }

    /// The rendered error: its label followed by its message.
    pub open spec fn rendered(self) -> Seq<char> {
        self.label() + self.detail()
    }

    /// Whether a later attempt at the same operation may succeed. Storage,
    /// queue, relay and idempotency-store failures are transient; every other
    /// kind is permanent for the record at hand.
    pub fn is_retriable(&self) -> (r: bool)
        ensures
            r == self.retriable(),
    {
        match self {
            MailflowError::Storage(_) => true,
            MailflowError::Queue(_) => true,
            MailflowError::Ses(_) => true,
            MailflowError::Idempotency(_) => true,
            MailflowError::Config(_) => false,
            MailflowError::Validation(_) => false,
            MailflowError::EmailParsing(_) => false,
            MailflowError::Routing(_) => false,
            MailflowError::RateLimit(_) => false,
            MailflowError::Lambda(_) => false,
            MailflowError::Unknown(_) => false,
        }
    }

    /// The message carried by the error.
    pub fn message(&self) -> (m: &str)
        ensures
            m@ == self.detail(),
    {
        match self {
            MailflowError::EmailParsing(m) => m.as_str(),
            MailflowError::Routing(m) => m.as_str(),
            MailflowError::Storage(m) => m.as_str(),
            MailflowError::Queue(m) => m.as_str(),
            MailflowError::Ses(m) => m.as_str(),
            MailflowError::Config(m) => m.as_str(),
            MailflowError::Validation(m) => m.as_str(),
            MailflowError::Idempotency(m) => m.as_str(),
            MailflowError::RateLimit(m) => m.as_str(),
            MailflowError::Lambda(m) => m.as_str(),
            MailflowError::Unknown(m) => m.as_str(),
        }
    }

    /// Renders the error as its label followed by its message.
    pub fn to_string(&self) -> (s: String)
        ensures
            s@ == self.rendered(),
    {
        match self {
            MailflowError::EmailParsing(m) => concat2("Email parsing error: ", m.as_str()),
            MailflowError::Routing(m) => concat2("Routing error: ", m.as_str()),
            MailflowError::Storage(m) => concat2("Storage error: ", m.as_str()),
            MailflowError::Queue(m) => concat2("Queue error: ", m.as_str()),
            MailflowError::Ses(m) => concat2("SES error: ", m.as_str()),
            MailflowError::Config(m) => concat2("Configuration error: ", m.as_str()),
            MailflowError::Validation(m) => concat2("Validation error: ", m.as_str()),
            MailflowError::Idempotency(m) => concat2("Idempotency error: ", m.as_str()),
            MailflowError::RateLimit(m) => concat2("Rate limit exceeded: ", m.as_str()),
            MailflowError::Lambda(m) => concat2("Lambda runtime error: ", m.as_str()),
            MailflowError::Unknown(m) => concat2("Unknown error: ", m.as_str()),
        }
    }

    /// A copy of the error.
    pub fn copy(&self) -> (r: Self)
        ensures
            r == *self,
    {
        match self {
            MailflowError::EmailParsing(m) => MailflowError::EmailParsing(m.clone()),
            MailflowError::Routing(m) => MailflowError::Routing(m.clone()),
            MailflowError::Storage(m) => MailflowError::Storage(m.clone()),
            MailflowError::Queue(m) => MailflowError::Queue(m.clone()),
            MailflowError::Ses(m) => MailflowError::Ses(m.clone()),
            MailflowError::Config(m) => MailflowError::Config(m.clone()),
            MailflowError::Validation(m) => MailflowError::Validation(m.clone()),
            MailflowError::Idempotency(m) => MailflowError::Idempotency(m.clone()),
            MailflowError::RateLimit(m) => MailflowError::RateLimit(m.clone()),
            MailflowError::Lambda(m) => MailflowError::Lambda(m.clone()),
            MailflowError::Unknown(m) => MailflowError::Unknown(m.clone()),
        }
    }
}

} // verus!
