//! Verified helpers over `&str` and `String`: equality, prefix/suffix and
//! substring search, trimming, case folding for ASCII, and the numeric
//! parsers the pipeline needs (decimal and hexadecimal).

use vstd::prelude::*;

verus! {

/// Relies on std's `String::push`: appends exactly the given character to
/// the end of the string.
pub assume_specification[ String::push ](s: &mut String, c: char)
    ensures
        final(s)@ == old(s)@.push(c),
;

/// `p` is an initial segment of `s`.
pub open spec fn is_prefix_of(p: Seq<char>, s: Seq<char>) -> bool {
    p.len() <= s.len() && s.subrange(0, p.len() as int) == p
}

/// `p` is a final segment of `s`.
pub open spec fn is_suffix_of(p: Seq<char>, s: Seq<char>) -> bool {
    p.len() <= s.len() && s.subrange(s.len() - p.len(), s.len() as int) == p
}

/// Index of the first occurrence of `c` in `s`; `s.len()` when absent.
pub open spec fn first_index(s: Seq<char>, c: char) -> int
    decreases s.len(),
{
    if s.len() == 0 {
        0
    } else if s[0] == c {
        0
    } else {
        1 + first_index(s.drop_first(), c)
    }
}

pub proof fn lemma_first_index(s: Seq<char>, c: char)
    ensures
        0 <= first_index(s, c) <= s.len(),
        first_index(s, c) < s.len() ==> s[first_index(s, c)] == c,
        forall|j: int| 0 <= j < first_index(s, c) ==> s[j] != c,
    decreases s.len(),
{
    if s.len() > 0 && s[0] != c {
        lemma_first_index(s.drop_first(), c);
        assert forall|j: int| 0 <= j < first_index(s, c) implies s[j] != c by {
            if j > 0 {
                assert(s.drop_first()[j - 1] == s[j]);
            }
        }
    }
}

/// `first_index` is pinned down by its characteristic properties.
pub proof fn lemma_first_index_unique(s: Seq<char>, c: char, i: int)
    requires
        0 <= i <= s.len(),
        i < s.len() ==> s[i] == c,
        forall|j: int| 0 <= j < i ==> s[j] != c,
    ensures
        first_index(s, c) == i,
    decreases s.len(),
{
    if s.len() == 0 {
    } else if s[0] == c {
    } else {
        assert(s[0] != c);
        assert(i >= 1);
        assert forall|j: int| 0 <= j < i - 1 implies s.drop_first()[j] != c by {
            assert(s.drop_first()[j] == s[j + 1]);
        }
        lemma_first_index_unique(s.drop_first(), c, i - 1);
    }
}

/// Equality of two string slices, decided character by character.
pub fn str_eq(a: &str, b: &str) -> (r: bool)
    ensures
        r == (a@ == b@),
{
    let alen = a.unicode_len();
    let blen = b.unicode_len();
    if alen != blen {
        return false;
    }
    let mut i: usize = 0;
    while i < alen
        invariant
            0 <= i <= alen,
            alen == a@.len(),
            alen == b@.len(),
            forall|j: int| 0 <= j < i ==> a@[j] == b@[j],
        decreases alen - i,
    {
        if a.get_char(i) != b.get_char(i) {
            assert(a@[i as int] != b@[i as int]);
            return false;
        }
        i = i + 1;
    }
    proof {
        assert(a@ =~= b@);
    }
    true
}

/// Whether `p` begins `s`.
pub fn starts_with(s: &str, p: &str) -> (r: bool)
    ensures
        r == is_prefix_of(p@, s@),
{
    let plen = p.unicode_len();
    let slen = s.unicode_len();
    if plen > slen {
        return false;
    }
    let mut i: usize = 0;
    while i < plen
        invariant
            0 <= i <= plen,
            plen == p@.len(),
            slen == s@.len(),
            plen <= slen,
            forall|j: int| 0 <= j < i ==> s@[j] == p@[j],
        decreases plen - i,
    {
        if s.get_char(i) != p.get_char(i) {
            assert(s@.subrange(0, plen as int)[i as int] != p@[i as int]);
            return false;
        }
        i = i + 1;
    }
    proof {
        assert(s@.subrange(0, plen as int) =~= p@);
    }
    true
}

/// Whether `p` ends `s`.
pub fn ends_with(s: &str, p: &str) -> (r: bool)
    ensures
        r == is_suffix_of(p@, s@),
{
    let plen = p.unicode_len();
    let slen = s.unicode_len();
    if plen > slen {
        return false;
    }
    let off = slen - plen;
    let mut i: usize = 0;
    while i < plen
        invariant
            0 <= i <= plen,
            plen == p@.len(),
            slen == s@.len(),
            off == slen - plen,
            forall|j: int| 0 <= j < i ==> s@[off + j] == p@[j],
        decreases plen - i,
    {
        if s.get_char(off + i) != p.get_char(i) {
            assert(s@.subrange(off as int, slen as int)[i as int] != p@[i as int]);
            return false;
        }
        i = i + 1;
    }
    proof {
        assert(s@.subrange(off as int, slen as int) =~= p@);
    }
    true
}

/// First position of `c` in `s`, if any.
pub fn find_char(s: &str, c: char) -> (r: Option<usize>)
    ensures
        match r {
            Some(i) => i == first_index(s@, c) && i < s@.len(),
            None => first_index(s@, c) == s@.len(),
        },
{
    let slen = s.unicode_len();
    let mut i: usize = 0;
    while i < slen
        invariant
            0 <= i <= slen,
            slen == s@.len(),
            forall|j: int| 0 <= j < i ==> s@[j] != c,
        decreases slen - i,
    {
        if s.get_char(i) == c {
            proof {
                lemma_first_index_unique(s@, c, i as int);
            }
            return Some(i);
        }
        i = i + 1;
    }
    proof {
        lemma_first_index_unique(s@, c, slen as int);
    }
    None
}

/// `p` occurs in `s` starting at position `i`.
pub open spec fn matches_at(s: Seq<char>, p: Seq<char>, i: int) -> bool {
    0 <= i && i + p.len() <= s.len() && s.subrange(i, i + p.len()) == p
}

/// `p` occurs somewhere in `s`.
pub open spec fn contains_seq(s: Seq<char>, p: Seq<char>) -> bool {
    exists|i: int| matches_at(s, p, i)
}

fn matches_at_exec(s: &str, p: &str, i: usize) -> (r: bool)
    requires
        i + p@.len() <= s@.len(),
    ensures
        r == matches_at(s@, p@, i as int),
{
    let slen = s.unicode_len();
    let plen = p.unicode_len();
    let mut k: usize = 0;
    while k < plen
        invariant
            0 <= k <= plen,
            plen == p@.len(),
            slen == s@.len(),
            i + plen <= slen,
            forall|j: int| 0 <= j < k ==> s@[i + j] == p@[j],
        decreases plen - k,
    {
        if s.get_char(i + k) != p.get_char(k) {
            assert(s@.subrange(i as int, i + plen)[k as int] != p@[k as int]);
            return false;
        }
        k = k + 1;
    }
    proof {
        assert(s@.subrange(i as int, i + plen) =~= p@);
    }
    true
}

/// First position at which `p` occurs in `s`, if any.
pub fn find_str(s: &str, p: &str) -> (r: Option<usize>)
    ensures
        match r {
            Some(i) => matches_at(s@, p@, i as int) && forall|j: int|
                0 <= j < i ==> !matches_at(s@, p@, j),
            None => !contains_seq(s@, p@),
        },
{
    let slen = s.unicode_len();
    let plen = p.unicode_len();
    if plen == 0 {
        proof {
            assert(s@.subrange(0, 0) =~= p@);
        }
        return Some(0);
    }
    if plen > slen {
        return None;
    }
    let last = slen - plen;
    let mut i: usize = 0;
    while i <= last
        invariant
            0 <= i <= last + 1,
            last == slen - plen,
            slen == s@.len(),
            plen == p@.len(),
            1 <= plen <= slen,
            forall|j: int| 0 <= j < i ==> !matches_at(s@, p@, j),
        decreases last + 1 - i,
    {
        if matches_at_exec(s, p, i) {
            return Some(i);
        }
        i = i + 1;
    }
    proof {
        assert forall|j: int| !matches_at(s@, p@, j) by {
            if 0 <= j < i as int {
                assert(!matches_at(s@, p@, j));
            } else if j >= i as int {
                assert(j + p@.len() > s@.len());
            }
        }
    }
    None
}

/// Whether `p` occurs in `s`.
pub fn contains_str(s: &str, p: &str) -> (r: bool)
    ensures
        r == contains_seq(s@, p@),
{
    find_str(s, p).is_some()
}

/// Characters discarded by trimming.
pub open spec fn is_space(c: char) -> bool {
    c == ' ' || c == '\t' || c == '\r' || c == '\n'
}

/// Number of whitespace characters that begin `s`.
pub open spec fn leading_spaces(s: Seq<char>) -> int
    decreases s.len(),
{
    if s.len() == 0 {
        0
    } else if !is_space(s[0]) {
        0
    } else {
        1 + leading_spaces(s.drop_first())
    }
}

pub proof fn lemma_leading_spaces_unique(s: Seq<char>, i: int)
    requires
        0 <= i <= s.len(),
        forall|j: int| 0 <= j < i ==> is_space(s[j]),
        i < s.len() ==> !is_space(s[i]),
    ensures
        leading_spaces(s) == i,
    decreases s.len(),
{
    if s.len() == 0 {
    } else if !is_space(s[0]) {
    } else {
        assert(i >= 1);
        assert forall|j: int| 0 <= j < i - 1 implies is_space(s.drop_first()[j]) by {
            assert(s.drop_first()[j] == s[j + 1]);
        }
        lemma_leading_spaces_unique(s.drop_first(), i - 1);
    }
}

/// What remains of `s` after removing leading whitespace.
pub open spec fn spec_trim_start(s: Seq<char>) -> Seq<char> {
    s.subrange(leading_spaces(s), s.len() as int)
}

/// Number of whitespace characters that end `s`.
pub open spec fn trailing_spaces(s: Seq<char>) -> int
    decreases s.len(),
{
    if s.len() == 0 {
        0
    } else if !is_space(s.last()) {
        0
    } else {
        1 + trailing_spaces(s.drop_last())
    }
}

pub proof fn lemma_trailing_spaces_unique(s: Seq<char>, j: int)
    requires
        0 <= j <= s.len(),
        forall|k: int| j <= k < s.len() ==> is_space(s[k]),
        j > 0 ==> !is_space(s[j - 1]),
    ensures
        trailing_spaces(s) == s.len() - j,
    decreases s.len(),
{
    if s.len() == 0 {
    } else if !is_space(s.last()) {
        assert(j == s.len());
    } else {
        assert(j < s.len());
        assert forall|k: int| j <= k < s.drop_last().len() implies is_space(s.drop_last()[k]) by {
            assert(s.drop_last()[k] == s[k]);
        }
        lemma_trailing_spaces_unique(s.drop_last(), j);
    }
}

/// What remains of `s` after removing leading and trailing whitespace.
pub open spec fn spec_trim(s: Seq<char>) -> Seq<char> {
    let a = leading_spaces(s);
    let b = s.len() - trailing_spaces(s);
    if a <= b {
        s.subrange(a, b)
    } else {
        Seq::<char>::empty()
    }
}

/// Copy of `s` without its leading whitespace.
pub fn trim_start(s: &str) -> (r: String)
    ensures
        r@ == spec_trim_start(s@),
{
    let slen = s.unicode_len();
    let mut i: usize = 0;
    while i < slen
        invariant
            0 <= i <= slen,
            slen == s@.len(),
            forall|j: int| 0 <= j < i ==> is_space(s@[j]),
        decreases slen - i,
    {
        let c = s.get_char(i);
        if !(c == ' ' || c == '\t' || c == '\r' || c == '\n') {
            proof {
                lemma_leading_spaces_unique(s@, i as int);
            }
            let sub = s.substring_char(i, slen);
            return sub.to_owned();
        }
        i = i + 1;
    }
    proof {
        lemma_leading_spaces_unique(s@, slen as int);
        assert(spec_trim_start(s@) =~= Seq::<char>::empty());
    }
    String::new()
}

fn is_space_at(s: &str, i: usize) -> (r: bool)
    requires
        i < s@.len(),
    ensures
        r == is_space(s@[i as int]),
{
    let c = s.get_char(i);
    c == ' ' || c == '\t' || c == '\r' || c == '\n'
}

/// Copy of `s` without leading or trailing whitespace.
pub fn trim(s: &str) -> (r: String)
    ensures
        r@ == spec_trim(s@),
{
    let slen = s.unicode_len();
    let mut i: usize = 0;
    while i < slen && is_space_at(s, i)
        invariant
            0 <= i <= slen,
            slen == s@.len(),
            forall|k: int| 0 <= k < i ==> is_space(s@[k]),
        decreases slen - i,
    {
        i = i + 1;
    }
    let mut j: usize = slen;
    while j > i && is_space_at(s, j - 1)
        invariant
            i <= j <= slen,
            slen == s@.len(),
            forall|k: int| 0 <= k < i ==> is_space(s@[k]),
            i < slen ==> !is_space(s@[i as int]),
            forall|k: int| j <= k < slen ==> is_space(s@[k]),
        decreases j,
    {
        j = j - 1;
    }
    let sub = s.substring_char(i, j);
    proof {
        let iv = i as int;
        let jv = j as int;
        if iv == jv {
            // the loops only meet when the whole string is whitespace
            assert(iv == slen as int);
            lemma_leading_spaces_unique(s@, iv);
            lemma_trailing_spaces_unique(s@, 0);
            assert(sub@ =~= spec_trim(s@));
        } else {
            assert(!is_space(s@[iv]));
            assert(!is_space(s@[jv - 1]));
            lemma_leading_spaces_unique(s@, iv);
            lemma_trailing_spaces_unique(s@, jv);
            assert(spec_trim(s@) == s@.subrange(iv, jv));
        }
    }
    sub.to_owned()
}

/// Segments of `s` between occurrences of `sep`; always at least one
/// segment, and empty segments are kept.
pub open spec fn split_seq(s: Seq<char>, sep: char) -> Seq<Seq<char>>
    decreases s.len(),
{
    if s.len() == 0 {
        seq![Seq::<char>::empty()]
    } else if s[0] == sep {
        seq![Seq::<char>::empty()] + split_seq(s.drop_first(), sep)
    } else {
        let rest = split_seq(s.drop_first(), sep);
        seq![seq![s[0]] + rest[0]] + rest.drop_first()
    }
}

pub proof fn lemma_split_len(s: Seq<char>, sep: char)
    ensures
        split_seq(s, sep).len() >= 1,
    decreases s.len(),
{
    if s.len() > 0 {
        lemma_split_len(s.drop_first(), sep);
    }
}

/// The head of the split is everything before the first separator, and
/// the rest is the split of everything after it.
pub proof fn lemma_split_first(s: Seq<char>, sep: char)
    ensures
        first_index(s, sep) == s.len() ==> split_seq(s, sep) == seq![s],
        first_index(s, sep) < s.len() ==> split_seq(s, sep) == seq![
            s.subrange(0, first_index(s, sep)),
        ] + split_seq(s.subrange(first_index(s, sep) + 1, s.len() as int), sep),
    decreases s.len(),
{
    lemma_first_index(s, sep);
    if s.len() == 0 {
        assert(split_seq(s, sep) =~~= seq![s]);
    } else if s[0] == sep {
        assert(first_index(s, sep) == 0);
        assert(s.subrange(0, 0) =~= Seq::<char>::empty());
        assert(s.subrange(1, s.len() as int) =~= s.drop_first());
    } else {
        let fi = first_index(s, sep);
        assert(fi == 1 + first_index(s.drop_first(), sep));
        lemma_split_first(s.drop_first(), sep);
        lemma_split_len(s.drop_first(), sep);
        let d = s.drop_first();
        let fid = first_index(d, sep);
        if fid == d.len() {
            assert(fi == s.len());
            let rest = split_seq(d, sep);
            let res = split_seq(s, sep);
            assert(res == seq![seq![s[0]] + rest[0]] + rest.drop_first());
            assert(rest == seq![d]);
            assert(rest.drop_first() =~= Seq::<Seq<char>>::empty());
            assert(res.len() == 1);
            assert(res[0] == seq![s[0]] + rest[0]);
            assert(seq![s[0]] + rest[0] =~= s);
            assert(res =~= seq![s]);
        } else {
            assert(split_seq(d, sep) == seq![d.subrange(0, fid)] + split_seq(
                d.subrange(fid + 1, d.len() as int),
                sep,
            ));
            assert(seq![s[0]] + split_seq(d, sep)[0] =~= s.subrange(0, fi)) by {
                assert(split_seq(d, sep)[0] == d.subrange(0, fid));
                assert forall|k: int| 0 <= k < fi implies (seq![s[0]] + d.subrange(0, fid))[k]
                    == s.subrange(0, fi)[k] by {
                    if k > 0 {
                        assert(d.subrange(0, fid)[k - 1] == s[k]);
                    }
                }
            }
            assert(d.subrange(fid + 1, d.len() as int) =~= s.subrange(fi + 1, s.len() as int));
            assert(split_seq(s, sep) =~= seq![s.subrange(0, fi)] + split_seq(
                s.subrange(fi + 1, s.len() as int),
                sep,
            )) by {
                let rest = split_seq(d, sep);
                assert(split_seq(s, sep) == seq![seq![s[0]] + rest[0]] + rest.drop_first());
                assert(rest.drop_first() =~= split_seq(s.subrange(fi + 1, s.len() as int), sep));
            }
        }
    }
}

/// Split a string at every occurrence of `sep`.
pub fn split_str(s: &str, sep: char) -> (r: Vec<String>)
    ensures
        r@.len() == split_seq(s@, sep).len(),
        forall|k: int| 0 <= k < r@.len() ==> r@[k]@ == split_seq(s@, sep)[k],
{
    let slen = s.unicode_len();
    let mut parts: Vec<String> = Vec::new();
    let mut pos: usize = 0;
    proof {
        assert(s@.subrange(0, slen as int) =~= s@);
    }
    loop
        invariant
            0 <= pos <= slen,
            slen == s@.len(),
            split_seq(s@, sep).len() == parts@.len() + split_seq(
                s@.subrange(pos as int, slen as int),
                sep,
            ).len(),
            forall|k: int|
                0 <= k < parts@.len() ==> parts@[k]@ == split_seq(s@, sep)[k],
            forall|k: int|
                0 <= k < split_seq(s@.subrange(pos as int, slen as int), sep).len()
                    ==> split_seq(s@, sep)[parts@.len() + k] == split_seq(
                    s@.subrange(pos as int, slen as int),
                    sep,
                )[k],
        decreases slen - pos + 1,
    {
        let rem = s.substring_char(pos, slen);
        let ghost remv = s@.subrange(pos as int, slen as int);
        proof {
            lemma_split_first(remv, sep);
            lemma_split_len(remv, sep);
        }
        match find_char(rem, sep) {
            Some(fi) => {
                let seg = rem.substring_char(0, fi);
                let ghost old_parts = parts@;
                parts.push(seg.to_owned());
                proof {
                    let nextv = s@.subrange(pos + fi + 1, slen as int);
                    assert(remv.subrange(0, fi as int) == seg@);
                    assert(remv.subrange(fi + 1, remv.len() as int) =~= nextv);
                    assert(split_seq(remv, sep) == seq![seg@] + split_seq(nextv, sep));
                    assert(split_seq(s@, sep)[old_parts.len() as int] == split_seq(
                        remv,
                        sep,
                    )[0]);
                    assert(split_seq(remv, sep)[0] == seg@);
                    assert forall|k: int|
                        0 <= k < split_seq(nextv, sep).len() implies split_seq(s@, sep)[parts@.len()
                        + k] == split_seq(nextv, sep)[k] by {
                        assert(split_seq(remv, sep)[1 + k] == split_seq(nextv, sep)[k]);
                        assert(split_seq(s@, sep)[old_parts.len() + (1 + k)] == split_seq(
                            remv,
                            sep,
                        )[1 + k]);
                    }
                }
                pos = pos + fi + 1;
            },
            None => {
                let ghost old_parts = parts@;
                parts.push(rem.to_owned());
                proof {
                    assert(split_seq(remv, sep) == seq![remv]);
                    assert(split_seq(s@, sep)[old_parts.len() as int] == split_seq(
                        remv,
                        sep,
                    )[0]);
                    assert(split_seq(remv, sep)[0] == remv);
                }
                return parts;
            },
        }
    }
}

/// ASCII lower-casing of a single character; anything outside `A`..`Z`
/// is kept as it is.
pub open spec fn lower_char(c: char) -> char {
    if 'A' <= c <= 'Z' {
        ((c as u8) + 0x20) as char
    } else {
        c
    }
}

/// ASCII lower-casing of a character sequence.
pub open spec fn lower_seq(s: Seq<char>) -> Seq<char> {
    s.map_values(|c: char| lower_char(c))
}

fn lower_char_exec(c: char) -> (r: char)
    ensures
        r == lower_char(c),
{
    if 'A' <= c && c <= 'Z' {
        (((c as u8) + 0x20) as char)
    } else {
        c
    }
}

/// ASCII lower-casing of a string; characters outside `A`..`Z` are kept.
pub fn ascii_lower(s: &str) -> (r: String)
    ensures
        r@ == lower_seq(s@),
{
    let slen = s.unicode_len();
    let mut out = String::new();
    let mut i: usize = 0;
    while i < slen
        invariant
            0 <= i <= slen,
            slen == s@.len(),
            out@ == lower_seq(s@).subrange(0, i as int),
        decreases slen - i,
    {
        let c = lower_char_exec(s.get_char(i));
        out.push(c);
        proof {
            assert(out@ =~= lower_seq(s@).subrange(0, i + 1));
        }
        i = i + 1;
    }
    proof {
        assert(out@ =~= lower_seq(s@));
    }
    out
}

/// Whether `c` is a decimal digit.
pub open spec fn is_digit(c: char) -> bool {
    '0' <= c <= '9'
}

/// Numeric value of a decimal digit.
pub open spec fn digit_value(c: char) -> int {
    c as int - '0' as int
}

pub open spec fn all_digits(s: Seq<char>) -> bool {
    forall|j: int| 0 <= j < s.len() ==> is_digit(s[j])
}

/// Value of a sequence of decimal digits, most significant first.
pub open spec fn dec_value(s: Seq<char>) -> int
    decreases s.len(),
{
    if s.len() == 0 {
        0
    } else {
        dec_value(s.drop_last()) * 10 + digit_value(s.last())
    }
}

pub proof fn lemma_dec_value_nonneg(s: Seq<char>)
    requires
        all_digits(s),
    ensures
        dec_value(s) >= 0,
    decreases s.len(),
{
    if s.len() > 0 {
        assert(all_digits(s.drop_last()));
        lemma_dec_value_nonneg(s.drop_last());
    }
}

/// Extending a digit string on the right can only increase its value.
pub proof fn lemma_dec_value_prefix_le(s: Seq<char>, i: int, j: int)
    requires
        all_digits(s),
        0 <= i <= j <= s.len(),
    ensures
        dec_value(s.subrange(0, i)) <= dec_value(s.subrange(0, j)),
    decreases j - i,
{
    if i < j {
        lemma_dec_value_prefix_le(s, i, j - 1);
        let a = s.subrange(0, j - 1);
        let b = s.subrange(0, j);
        assert(b.drop_last() =~= a);
        assert(all_digits(a));
        lemma_dec_value_nonneg(a);
        assert(dec_value(b) == dec_value(a) * 10 + digit_value(s[j - 1]));
        assert(dec_value(a) * 10 >= dec_value(a));
    }
}

/// Parse an unsigned decimal number; `None` on an empty string, a
/// non-digit, or a value above `u64::MAX`.
pub fn parse_u64_dec(s: &str) -> (r: Option<u64>)
    ensures
        match r {
            Some(v) => s@.len() > 0 && all_digits(s@) && v == dec_value(s@),
            None => s@.len() == 0 || !all_digits(s@) || dec_value(s@) > u64::MAX,
        },
{
    let slen = s.unicode_len();
    if slen == 0 {
        return None;
    }
    let mut acc: u64 = 0;
    let mut i: usize = 0;
    while i < slen
        invariant
            0 <= i <= slen,
            slen == s@.len(),
            forall|j: int| 0 <= j < i ==> is_digit(s@[j]),
            acc == dec_value(s@.subrange(0, i as int)),
        decreases slen - i,
    {
        let c = s.get_char(i);
        if !('0' <= c && c <= '9') {
            return None;
        }
        let d: u64 = (c as u8 - 0x30) as u64;
        assert(d == digit_value(c));
        proof {
            assert(s@.subrange(0, i + 1).drop_last() =~= s@.subrange(0, i as int));
        }
        if acc > (u64::MAX - d) / 10 {
            proof {
                let part = s@.subrange(0, i + 1);
                assert(dec_value(part) == acc * 10 + d);
                assert(dec_value(part) > u64::MAX);
                if all_digits(s@) && dec_value(s@) <= u64::MAX {
                    lemma_dec_value_prefix_le(s@, i + 1, slen as int);
                    assert(s@.subrange(0, slen as int) =~= s@);
                    assert(dec_value(part) <= dec_value(s@));
                }
            }
            return None;
        }
        acc = acc * 10 + d;
        i = i + 1;
    }
    proof {
        assert(s@.subrange(0, slen as int) =~= s@);
    }
    Some(acc)
}

/// Whether `c` is a hexadecimal digit.
pub open spec fn is_hex_digit(c: char) -> bool {
    ('0' <= c <= '9') || ('a' <= c <= 'f') || ('A' <= c <= 'F')
}

/// Numeric value of a hexadecimal digit.
pub open spec fn hex_digit_value(c: char) -> int {
    if '0' <= c <= '9' {
        c as int - '0' as int
    } else if 'a' <= c <= 'f' {
        c as int - 'a' as int + 10
    } else {
        c as int - 'A' as int + 10
    }
}

pub open spec fn all_hex_digits(s: Seq<char>) -> bool {
    forall|j: int| 0 <= j < s.len() ==> is_hex_digit(s[j])
}

/// Value of a sequence of hexadecimal digits, most significant first.
pub open spec fn hex_value(s: Seq<char>) -> int
    decreases s.len(),
{
    if s.len() == 0 {
        0
    } else {
        hex_value(s.drop_last()) * 16 + hex_digit_value(s.last())
    }
}

pub proof fn lemma_hex_value_nonneg(s: Seq<char>)
    requires
        all_hex_digits(s),
    ensures
        hex_value(s) >= 0,
    decreases s.len(),
{
    if s.len() > 0 {
        assert(all_hex_digits(s.drop_last()));
        lemma_hex_value_nonneg(s.drop_last());
    }
}

pub proof fn lemma_hex_value_prefix_le(s: Seq<char>, i: int, j: int)
    requires
        all_hex_digits(s),
        0 <= i <= j <= s.len(),
    ensures
        hex_value(s.subrange(0, i)) <= hex_value(s.subrange(0, j)),
    decreases j - i,
{
    if i < j {
        lemma_hex_value_prefix_le(s, i, j - 1);
        let a = s.subrange(0, j - 1);
        let b = s.subrange(0, j);
        assert(b.drop_last() =~= a);
        assert(all_hex_digits(a));
        lemma_hex_value_nonneg(a);
        assert(hex_value(b) == hex_value(a) * 16 + hex_digit_value(s[j - 1]));
        assert(hex_value(a) * 16 >= hex_value(a));
    }
}

fn hex_digit_exec(c: char) -> (r: Option<u32>)
    ensures
        match r {
            Some(v) => is_hex_digit(c) && v == hex_digit_value(c),
            None => !is_hex_digit(c),
        },
{
    if '0' <= c && c <= '9' {
        Some((c as u8 - 0x30) as u32)
    } else if 'a' <= c && c <= 'f' {
        Some((c as u8 - 0x61) as u32 + 10)
    } else if 'A' <= c && c <= 'F' {
        Some((c as u8 - 0x41) as u32 + 10)
    } else {
        None
    }
}

/// Parse an unsigned hexadecimal number into a `u32`; `None` on an empty
/// string, a non-hex character, or a value above `u32::MAX`.
pub fn parse_u32_hex(s: &str) -> (r: Option<u32>)
    ensures
        match r {
            Some(v) => s@.len() > 0 && all_hex_digits(s@) && v == hex_value(s@),
            None => s@.len() == 0 || !all_hex_digits(s@) || hex_value(s@) > u32::MAX,
        },
{
    let slen = s.unicode_len();
    if slen == 0 {
        return None;
    }
    let mut acc: u32 = 0;
    let mut i: usize = 0;
    while i < slen
        invariant
            0 <= i <= slen,
            slen == s@.len(),
            forall|j: int| 0 <= j < i ==> is_hex_digit(s@[j]),
            acc == hex_value(s@.subrange(0, i as int)),
        decreases slen - i,
    {
        let c = s.get_char(i);
        let d = match hex_digit_exec(c) {
            Some(d) => d,
            None => {
                return None;
            },
        };
        proof {
            assert(s@.subrange(0, i + 1).drop_last() =~= s@.subrange(0, i as int));
        }
        if acc > (u32::MAX - d) / 16 {
            proof {
                let part = s@.subrange(0, i + 1);
                assert(hex_value(part) == acc * 16 + d);
                assert(hex_value(part) > u32::MAX);
                if all_hex_digits(s@) && hex_value(s@) <= u32::MAX {
                    lemma_hex_value_prefix_le(s@, i + 1, slen as int);
                    assert(s@.subrange(0, slen as int) =~= s@);
                }
            }
            return None;
        }
        acc = acc * 16 + d;
        i = i + 1;
    }
    proof {
        assert(s@.subrange(0, slen as int) =~= s@);
    }
    Some(acc)
}

/// Decimal digit character for a value below ten.
pub open spec fn digit_char(v: int) -> char {
    (('0' as u8) + v as u8) as char
}

/// Decimal rendering of a non-negative number, most significant digit
/// first.
pub open spec fn spec_dec_str(n: int) -> Seq<char>
    decreases n,
{
    if n <= 0 {
        seq![digit_char(0)]
    } else if n < 10 {
        seq![digit_char(n)]
    } else {
        spec_dec_str(n / 10).push(digit_char(n % 10))
    }
}

/// The decimal rendering evaluates back to the number it renders.
pub proof fn lemma_dec_str_value(n: int)
    requires
        n >= 0,
    ensures
        all_digits(spec_dec_str(n)),
        dec_value(spec_dec_str(n)) == n,
        spec_dec_str(n).len() > 0,
    decreases n,
{
    if n < 10 {
        let s = spec_dec_str(n);
        assert(s.len() == 1);
        assert(s.drop_last() =~= Seq::<char>::empty());
        assert(dec_value(Seq::<char>::empty()) == 0);
        assert(dec_value(s) == dec_value(s.drop_last()) * 10 + digit_value(s.last()));
    } else {
        lemma_dec_str_value(n / 10);
        let s = spec_dec_str(n);
        assert(s.drop_last() =~= spec_dec_str(n / 10));
        assert(s.last() == digit_char(n % 10));
        assert(digit_value(digit_char(n % 10)) == n % 10);
        assert(dec_value(s) == (n / 10) * 10 + n % 10);
    }
}

/// Render a number in decimal.
pub fn u64_to_dec(n: u64) -> (r: String)
    ensures
        r@ == spec_dec_str(n as int),
{
    let mut digits: Vec<char> = Vec::new();
    let mut m: u64 = n;
    if m == 0 {
        let mut out = String::new();
        out.push('0');
        proof {
            assert(out@ =~= spec_dec_str(0));
        }
        return out;
    }
    while m > 0
        invariant
            0 <= m <= n,
            n > 0,
            spec_dec_str(n as int) == if m > 0 {
                spec_dec_str(m as int) + digits@.reverse()
            } else {
                digits@.reverse()
            },
        decreases m,
    {
        let d: u8 = (m % 10) as u8;
        let c: char = ((0x30u8 + d) as char);
        assert(c == digit_char(m as int % 10));
        digits.push(c);
        proof {
            let mi = m as int;
            if mi >= 10 {
                assert(spec_dec_str(mi) == spec_dec_str(mi / 10).push(digit_char(mi % 10)));
                assert(digits@.reverse() =~= seq![digit_char(mi % 10)] + digits@.drop_last().reverse());
                assert(spec_dec_str(mi / 10) + digits@.reverse() =~= spec_dec_str(mi)
                    + digits@.drop_last().reverse());
            } else {
                assert(spec_dec_str(mi) == seq![digit_char(mi)]);
                assert(digits@.reverse() =~= seq![digit_char(mi)] + digits@.drop_last().reverse());
                assert(digits@.reverse() =~= spec_dec_str(mi) + digits@.drop_last().reverse());
            }
        }
        m = m / 10;
    }
    let mut out = String::new();
    let mut k: usize = digits.len();
    while k > 0
        invariant
            0 <= k <= digits@.len(),
            out@ == digits@.reverse().subrange(0, digits@.len() - k),
        decreases k,
    {
        let c = digits[k - 1];
        out.push(c);
        proof {
            assert(digits@.reverse()[digits@.len() - k] == digits@[k - 1]);
            assert(out@ =~= digits@.reverse().subrange(0, digits@.len() - (k - 1)));
        }
        k = k - 1;
    }
    proof {
        assert(out@ =~= digits@.reverse());
    }
    out
}

} // verus!
