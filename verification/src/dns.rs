//! Small computations of the name-lookup report.  The lookup itself and
//! the clock are outside; their values are handed in.

use vstd::prelude::*;

verus! {

/// A query identifier derived from the clock's sub-second nanoseconds.
pub fn rand_id(nanos: u32) -> (r: u16)
    ensures
        r == nanos % 0xffff,
{
    (nanos % 0xffffu32) as u16
}

/// A rough size estimate for a reply with this many answer records.
pub fn estimate_msg_size(answer_count: usize) -> (r: usize)
    requires
        answer_count <= (usize::MAX - 32) / 16,
    ensures
        r == 32 + answer_count * 16,
{
    32 + answer_count * 16
}

} // verus!
