//! From recipients to the queues of the applications they name.

pub mod engine;
pub mod resolver;
pub mod rules;

pub use engine::{MailflowRouter, Router};
pub use resolver::QueueResolver;
pub use rules::{extract_app_name, RouteDestination};
