//! What the pipelines need to know of a queue's answers.

use crate::text::{contains_seq, str_contains};
use vstd::prelude::*;

verus! {

/// The words by which a queue service says that a queue does not exist.
pub const NON_EXISTENT_QUEUE: &'static str = "NonExistentQueue";

/// Whether the failure of a question about a queue says that the queue does
/// not exist. Such a failure is an answer, `false`, not an error.
pub fn says_queue_is_missing(failure: &str) -> (b: bool)
    ensures
        b == contains_seq(failure@, NON_EXISTENT_QUEUE@),
{
    str_contains(failure, NON_EXISTENT_QUEUE)
}

} // verus!
