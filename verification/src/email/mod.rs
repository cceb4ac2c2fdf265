//! Reading and writing RFC 5322 messages.

pub mod attachment;
pub mod composer;
pub mod mime;
pub mod parser;

pub use composer::{EmailComposer, LettreEmailComposer};
pub use mime::detect_content_type;
pub use parser::{EmailParser, MailParserEmailParser};
