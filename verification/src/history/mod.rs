//! Request history: the record type, where the history lives, the list
//! transforms, and the command-line reconstruction.

pub mod command;
pub mod dirs;
pub mod storage;
pub mod types;

use vstd::prelude::*;
use crate::cli::Cli;

pub use self::types::HistoryEntry;
pub use self::dirs::get_history_dir;
pub use self::storage::get_history_file_path;

verus! {

/// Build the command line for an intent, without the proxy-bypass and
/// timing switches of the longer form.
pub fn command_from_cli(cli: &Cli) -> (r: String)
    ensures
        r@ == command::spec_command(cli, false),
{
    command::command_text(cli, false)
}

} // verus!
