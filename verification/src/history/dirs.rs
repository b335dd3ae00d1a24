//! Where the history lives on disk, from an injected home directory.

use vstd::prelude::*;
use vstd::string::StringExecFns;

verus! {

/// The history directory: `<home>/.rcurl`, falling back to the current
/// directory when no home is known.
pub open spec fn spec_history_dir(home: Option<Seq<char>>) -> Seq<char> {
    (match home {
        Some(h) => h,
        None => "."@,
    }) + "/.rcurl"@
}

/// Path of the directory holding the history file.
pub fn get_history_dir(home: Option<&str>) -> (r: String)
    ensures
        r@ == spec_history_dir(match home {
            Some(h) => Some(h@),
            None => None,
        }),
{
    let mut out = String::new();
    match home {
        Some(h) => out.append(h),
        None => out.append("."),
    }
    out.append("/.rcurl");
    proof {
        assert(out@ =~= spec_history_dir(match home {
            Some(h) => Some(h@),
            None => None,
        }));
    }
    out
}

} // verus!
