//! The two dispatchers and what they share.
//!
//! A dispatcher does no I/O. It is told what happened and answers with
//! what to do next; the caller does it and reports back.

pub mod common;
pub mod inbound;
pub mod outbound;
pub mod ses;
