//! The record kept for one past invocation.

use vstd::prelude::*;
use crate::cli::Cli;

verus! {

/// One history record: the reconstructed command line, and, while in
/// memory, the intent it came from.  Only the command line is persisted.
pub struct HistoryEntry {
    pub command: String,
    pub cli: Option<Cli>,
}

} // verus!
