//! The pure half of history persistence: the file path, and the
//! transforms applied to the record list.  Reading and writing the file
//! happens outside.

use vstd::prelude::*;
use super::dirs::{get_history_dir, spec_history_dir};
use super::types::HistoryEntry;
use crate::cli::Cli;
use crate::urlparse::clone_string;
use vstd::string::StringExecFns;

verus! {

/// The history file: `<history dir>/rcurl.req`.
pub open spec fn spec_history_file_path(home: Option<Seq<char>>) -> Seq<char> {
    spec_history_dir(home) + "/rcurl.req"@
}

/// Path of the history file.
pub fn get_history_file_path(home: Option<&str>) -> (r: String)
    ensures
        r@ == spec_history_file_path(match home {
            Some(h) => Some(h@),
            None => None,
        }),
{
    let mut out = get_history_dir(home);
    out.append("/rcurl.req");
    proof {
        assert(out@ =~= spec_history_file_path(match home {
            Some(h) => Some(h@),
            None => None,
        }));
    }
    out
}

/// The command lines of a record list, for display.
pub fn history_commands(entries: &Vec<HistoryEntry>) -> (r: Vec<String>)
    ensures
        r@.len() == entries@.len(),
        forall|j: int| 0 <= j < r@.len() ==> r@[j]@ == entries@[j].command@,
{
    let mut out: Vec<String> = Vec::new();
    let n = entries.len();
    let mut i: usize = 0;
    while i < n
        invariant
            0 <= i <= n,
            n == entries@.len(),
            out@.len() == i,
            forall|j: int| 0 <= j < i ==> out@[j]@ == entries@[j].command@,
        decreases n - i,
    {
        out.push(clone_string(&entries[i].command));
        i = i + 1;
    }
    out
}

/// The records whose command differs from the given one, in their
/// original order.
pub open spec fn spec_kept(history: Seq<HistoryEntry>, command: Seq<char>) -> Seq<HistoryEntry> {
    history.filter(|h: HistoryEntry| h.command@ != command)
}

/// Bring a just-issued command to the front of the list: any record with
/// the same command line leaves, everything else keeps its order, and a
/// fresh record stands first.
pub fn upsert_entry(history: Vec<HistoryEntry>, command: &str, cli: Cli) -> (r: Vec<HistoryEntry>)
    ensures
        r@.len() >= 1,
        r@[0].command@ == command@,
        r@[0].cli is Some,
        r@.skip(1) == spec_kept(history@, command@),
{
    let ghost orig = history@;
    let mut rest = history;
    let mut out: Vec<HistoryEntry> = Vec::new();
    let mut cmd = String::new();
    cmd.append(command);
    proof {
        assert(cmd@ =~= command@);
    }
    out.push(HistoryEntry { command: cmd, cli: Some(cli) });
    let total: usize = rest.len();
    let mut done: usize = 0;
    proof {
        reveal(Seq::filter);
        assert(orig.subrange(0, 0) =~= Seq::<HistoryEntry>::empty());
        assert(out@.skip(1) =~= spec_kept(orig.subrange(0, 0), command@));
        assert(rest@ =~= orig.subrange(0, orig.len() as int));
    }
    while rest.len() > 0
        invariant
            total == orig.len(),
            done + rest@.len() == orig.len(),
            rest@ == orig.subrange(done as int, orig.len() as int),
            out@.len() >= 1,
            out@[0].command@ == command@,
            out@[0].cli is Some,
            out@.skip(1) == spec_kept(orig.subrange(0, done as int), command@),
        decreases rest@.len(),
    {
        let e = rest.remove(0);
        proof {
            assert(orig.subrange(done as int, orig.len() as int)[0] == orig[done as int]);
            assert(e == orig[done as int]);
        }
        let keep = !crate::strutil::str_eq(e.command.as_str(), command);
        proof {
            reveal(Seq::filter);
            let sub1 = orig.subrange(0, done + 1);
            assert(sub1.drop_last() =~= orig.subrange(0, done as int));
            assert(sub1.last() == orig[done as int]);
        }
        if keep {
            out.push(e);
            proof {
                reveal(Seq::filter);
                assert(out@.skip(1) =~= spec_kept(orig.subrange(0, done + 1), command@));
            }
        } else {
            proof {
                reveal(Seq::filter);
                assert(out@.skip(1) =~= spec_kept(orig.subrange(0, done + 1), command@));
            }
        }
        done = done + 1;
        proof {
            assert(rest@ =~= orig.subrange(done as int, orig.len() as int));
        }
    }
    proof {
        assert(orig.subrange(0, orig.len() as int) =~= orig);
    }
    out
}

/// The list as persisted: the same command lines, with the in-memory
/// intents stripped.
pub fn strip_for_save(entries: &Vec<HistoryEntry>) -> (r: Vec<HistoryEntry>)
    ensures
        r@.len() == entries@.len(),
        forall|j: int|
            0 <= j < r@.len() ==> r@[j].command@ == entries@[j].command@ && r@[j].cli is None,
{
    let mut out: Vec<HistoryEntry> = Vec::new();
    let n = entries.len();
    let mut i: usize = 0;
    while i < n
        invariant
            0 <= i <= n,
            n == entries@.len(),
            out@.len() == i,
            forall|j: int|
                0 <= j < i ==> out@[j].command@ == entries@[j].command@ && out@[j].cli is None,
        decreases n - i,
    {
        out.push(HistoryEntry { command: clone_string(&entries[i].command), cli: None });
        i = i + 1;
    }
    out
}

} // verus!
