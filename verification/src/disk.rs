//! Display-width accounting for the disk listing: wide characters take
//! two terminal columns, and long names are cut to fit with an ellipsis.
//! Walking the file system happens outside.

use vstd::prelude::*;
use vstd::string::StrSliceExecFns;
use vstd::string::StringExecFns;

verus! {

/// Columns one character takes: one for ASCII, two for anything else.
pub open spec fn char_width(c: char) -> int {
    if (c as u32) < 128 {
        1
    } else {
        2
    }
}

/// Columns a text takes on the terminal.
pub open spec fn spec_width(s: Seq<char>) -> int
    decreases s.len(),
{
    if s.len() == 0 {
        0
    } else {
        spec_width(s.drop_last()) + char_width(s.last())
    }
}

/// Measure the display width of a text.
pub fn display_width(s: &str) -> (r: usize)
    requires
        s@.len() <= usize::MAX / 2,
    ensures
        r == spec_width(s@),
{
    let slen = s.unicode_len();
    let mut w: usize = 0;
    let mut i: usize = 0;
    while i < slen
        invariant
            0 <= i <= slen,
            slen == s@.len(),
            slen <= usize::MAX / 2,
            w == spec_width(s@.subrange(0, i as int)),
            w <= 2 * i,
        decreases slen - i,
    {
        let c = s.get_char(i);
        proof {
            assert(s@.subrange(0, i + 1).drop_last() =~= s@.subrange(0, i as int));
        }
        if (c as u32) < 128 {
            w = w + 1;
        } else {
            w = w + 2;
        }
        i = i + 1;
    }
    proof {
        assert(s@.subrange(0, slen as int) =~= s@);
    }
    w
}

/// The longest prefix that fits in the given number of columns, taken
/// character by character from the left.
pub open spec fn spec_take_width(s: Seq<char>, max: int) -> Seq<char>
    decreases s.len(),
{
    if s.len() == 0 {
        Seq::<char>::empty()
    } else if char_width(s[0]) > max {
        Seq::<char>::empty()
    } else {
        seq![s[0]] + spec_take_width(s.drop_first(), max - char_width(s[0]))
    }
}

/// A name cut to fit: the whole name when it fits the width, else the
/// part that leaves room for the ellipsis, with the ellipsis appended.
pub open spec fn spec_truncated(s: Seq<char>, max: int) -> Seq<char> {
    let p = spec_take_width(s, max);
    if p.len() == s.len() {
        p
    } else {
        spec_take_width(p, max - 3) + "..."@
    }
}

fn take_width(s: &str, max: usize) -> (r: String)
    ensures
        r@ == spec_take_width(s@, max as int),
        r@.len() <= s@.len(),
        r@.len() == s@.len() || spec_take_width(s@, max as int).len() < s@.len(),
{
    let slen = s.unicode_len();
    let mut out = String::new();
    let mut used: usize = 0;
    let mut i: usize = 0;
    proof {
        assert(s@.subrange(0, slen as int) =~= s@);
        assert(out@ + spec_take_width(s@.subrange(0, slen as int), max - 0) =~= spec_take_width(
            s@,
            max as int,
        ));
    }
    while i < slen
        invariant
            0 <= i <= slen,
            slen == s@.len(),
            used <= max,
            out@.len() == i,
            out@ + spec_take_width(s@.subrange(i as int, slen as int), max - used) == spec_take_width(
                s@,
                max as int,
            ),
        decreases slen - i,
    {
        let c = s.get_char(i);
        let w: usize = if (c as u32) < 128 {
            1
        } else {
            2
        };
        if w > max - used {
            proof {
                let rest = s@.subrange(i as int, slen as int);
                assert(rest[0] == s@[i as int]);
                assert(spec_take_width(rest, max - used) =~= Seq::<char>::empty());
                assert(out@ =~= spec_take_width(s@, max as int));
            }
            return out;
        }
        out.push(c);
        used = used + w;
        proof {
            let rest = s@.subrange(i as int, slen as int);
            let rest2 = s@.subrange(i + 1, slen as int);
            assert(rest[0] == s@[i as int]);
            assert(rest.drop_first() =~= rest2);
            assert(spec_take_width(rest, max - (used - w)) == seq![s@[i as int]]
                + spec_take_width(rest2, max - used));
            assert(out@ + spec_take_width(rest2, max - used) =~= spec_take_width(
                s@,
                max as int,
            ));
        }
        i = i + 1;
    }
    proof {
        assert(s@.subrange(slen as int, slen as int) =~= Seq::<char>::empty());
        assert(out@ =~= spec_take_width(s@, max as int));
    }
    out
}

/// Cut a name to fit the given display width, appending an ellipsis
/// when anything had to go.
pub fn truncate_for_display(s: &str, max_width: usize) -> (r: String)
    requires
        max_width >= 3,
    ensures
        r@ == spec_truncated(s@, max_width as int),
{
    let p = take_width(s, max_width);
    let plen = p.as_str().unicode_len();
    let slen = s.unicode_len();
    if plen == slen {
        return p;
    }
    let mut out = take_width(p.as_str(), max_width - 3);
    out.append("...");
    proof {
        assert(out@ =~= spec_truncated(s@, max_width as int));
    }
    out
}

} // verus!
