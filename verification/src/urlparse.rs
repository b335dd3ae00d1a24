//! A URL model for the request pipeline: scheme, host, optional port,
//! path and query, parsed from and rendered back to text, with redirect
//! `Location` resolution against the current URL.

use vstd::prelude::*;
use crate::strutil::{
    all_digits, dec_value, digit_value, first_index, is_digit, lemma_dec_str_value,
    lemma_first_index, lemma_first_index_unique, spec_dec_str, contains_seq, matches_at,
    find_char, find_str, str_eq, u64_to_dec, parse_u64_dec,
};
use vstd::string::StrSliceExecFns;
use vstd::string::StringExecFns;

verus! {

/// One parsed URL: everything the pipeline reads of a target.
pub struct UrlParts {
    pub scheme: String,
    pub host: String,
    pub port: Option<u16>,
    pub path: String,
    pub query: Option<String>,
}

/// Mathematical image of a `UrlParts`.
pub struct UrlView {
    pub scheme: Seq<char>,
    pub host: Seq<char>,
    pub port: Option<u16>,
    pub path: Seq<char>,
    pub query: Option<Seq<char>>,
}

impl View for UrlParts {
    type V = UrlView;

    open spec fn view(&self) -> UrlView {
        UrlView {
            scheme: self.scheme@,
            host: self.host@,
            port: self.port,
            path: self.path@,
            query: match self.query {
                Some(q) => Some(q@),
                None => None,
            },
        }
    }
}

/// Characters a scheme may hold: anything but the three separators.
pub open spec fn plain_char(c: char) -> bool {
    c != ':' && c != '/' && c != '?'
}

/// A URL the pipeline will work with: non-empty scheme and host free of
/// separators, and a path that begins with `/` and carries no query part.
pub open spec fn well_formed(u: UrlView) -> bool {
    &&& u.scheme.len() > 0
    &&& forall|j: int| 0 <= j < u.scheme.len() ==> plain_char(u.scheme[j])
    &&& u.host.len() > 0
    &&& forall|j: int| 0 <= j < u.host.len() ==> plain_char(u.host[j])
    &&& u.path.len() > 0
    &&& u.path[0] == '/'
    &&& forall|j: int| 0 <= j < u.path.len() ==> u.path[j] != '?'
}

/// Index of the first `/` or `?` in `s`; `s.len()` when absent.
pub open spec fn first_stop(s: Seq<char>) -> int
    decreases s.len(),
{
    if s.len() == 0 {
        0
    } else if s[0] == '/' || s[0] == '?' {
        0
    } else {
        1 + first_stop(s.drop_first())
    }
}

pub proof fn lemma_first_stop_unique(s: Seq<char>, i: int)
    requires
        0 <= i <= s.len(),
        i < s.len() ==> (s[i] == '/' || s[i] == '?'),
        forall|j: int| 0 <= j < i ==> !(s[j] == '/' || s[j] == '?'),
    ensures
        first_stop(s) == i,
    decreases s.len(),
{
    if s.len() == 0 {
    } else if s[0] == '/' || s[0] == '?' {
    } else {
        assert(i >= 1);
        assert forall|j: int| 0 <= j < i - 1 implies !(s.drop_first()[j] == '/'
            || s.drop_first()[j] == '?') by {
            assert(s.drop_first()[j] == s[j + 1]);
        }
        lemma_first_stop_unique(s.drop_first(), i - 1);
    }
}

fn find_stop(s: &str) -> (r: usize)
    ensures
        r == first_stop(s@),
        r <= s@.len(),
        r < s@.len() ==> (s@[r as int] == '/' || s@[r as int] == '?'),
        forall|j: int| 0 <= j < r ==> !(s@[j] == '/' || s@[j] == '?'),
{
    let slen = s.unicode_len();
    let mut i: usize = 0;
    while i < slen
        invariant
            0 <= i <= slen,
            slen == s@.len(),
            forall|j: int| 0 <= j < i ==> !(s@[j] == '/' || s@[j] == '?'),
        decreases slen - i,
    {
        let c = s.get_char(i);
        if c == '/' || c == '?' {
            proof {
                lemma_first_stop_unique(s@, i as int);
            }
            return i;
        }
        i = i + 1;
    }
    proof {
        lemma_first_stop_unique(s@, slen as int);
    }
    slen
}

/// Index of the last occurrence of `c` in `s`; `-1` when absent.
pub open spec fn last_index_of(s: Seq<char>, c: char) -> int
    decreases s.len(),
{
    if s.len() == 0 {
        -1
    } else if s.last() == c {
        s.len() - 1
    } else {
        last_index_of(s.drop_last(), c)
    }
}

pub proof fn lemma_last_index_unique(s: Seq<char>, c: char, i: int)
    requires
        0 <= i < s.len(),
        s[i] == c,
        forall|j: int| i < j < s.len() ==> s[j] != c,
    ensures
        last_index_of(s, c) == i,
    decreases s.len(),
{
    if s.last() == c {
        assert(i == s.len() - 1);
    } else {
        assert(i < s.len() - 1);
        assert forall|j: int| i < j < s.drop_last().len() implies s.drop_last()[j] != c by {
            assert(s.drop_last()[j] == s[j]);
        }
        lemma_last_index_unique(s.drop_last(), c, i);
    }
}

pub fn rfind_char(s: &str, c: char) -> (r: Option<usize>)
    ensures
        match r {
            Some(i) => i < s@.len() && i == last_index_of(s@, c) && s@[i as int] == c,
            None => forall|j: int| 0 <= j < s@.len() ==> s@[j] != c,
        },
{
    let slen = s.unicode_len();
    let mut k: usize = slen;
    while k > 0
        invariant
            0 <= k <= slen,
            slen == s@.len(),
            forall|j: int| k <= j < slen ==> s@[j] != c,
        decreases k,
    {
        if s.get_char(k - 1) == c {
            proof {
                lemma_last_index_unique(s@, c, k - 1);
            }
            return Some(k - 1);
        }
        k = k - 1;
    }
    None
}

/// Parse of a URL string into its parts.  `None` when there is no
/// `scheme://` prefix, the scheme or host is empty or holds a separator,
/// or the port is not a decimal number up to 65535.
pub open spec fn spec_parse_url(s: Seq<char>) -> Option<UrlView> {
    let ci = first_index(s, ':');
    if ci == 0 || ci >= s.len() {
        None
    } else if !(ci + 2 < s.len() && s[ci + 1] == '/' && s[ci + 2] == '/') {
        None
    } else if exists|j: int| 0 <= j < ci && !plain_char(s[j]) {
        None
    } else {
        let scheme = s.subrange(0, ci);
        let rest = s.subrange(ci + 3, s.len() as int);
        let ai = first_stop(rest);
        let authority = rest.subrange(0, ai);
        let hi = first_index(authority, ':');
        let host = authority.subrange(0, hi);
        if host.len() == 0 {
            None
        } else if hi < authority.len() && {
            let portstr = authority.subrange(hi + 1, ai);
            portstr.len() == 0 || !all_digits(portstr) || dec_value(portstr) > 65535
        } {
            None
        } else {
            let port: Option<u16> = if hi < authority.len() {
                Some(dec_value(authority.subrange(hi + 1, ai)) as u16)
            } else {
                None
            };
            let tail = rest.subrange(ai, rest.len() as int);
            let qi = first_index(tail, '?');
            let rawpath = tail.subrange(0, qi);
            let path = if rawpath.len() == 0 {
                seq!['/']
            } else {
                rawpath
            };
            let query: Option<Seq<char>> = if qi < tail.len() {
                Some(tail.subrange(qi + 1, tail.len() as int))
            } else {
                None
            };
            Some(UrlView { scheme, host, port, path, query })
        }
    }
}

/// Rendering of an optional explicit port.
pub open spec fn spec_port_str(port: Option<u16>) -> Seq<char> {
    match port {
        Some(p) => seq![':'] + spec_dec_str(p as int),
        None => Seq::<char>::empty(),
    }
}

/// Rendering of an optional query.
pub open spec fn spec_query_str(q: Option<Seq<char>>) -> Seq<char> {
    match q {
        Some(qs) => seq!['?'] + qs,
        None => Seq::<char>::empty(),
    }
}

/// Rendering of a URL back to text.
pub open spec fn spec_url_str(u: UrlView) -> Seq<char> {
    u.scheme + seq![':', '/', '/'] + u.host + spec_port_str(u.port) + u.path + spec_query_str(
        u.query,
    )
}

/// Parse a URL from text; exactly `spec_parse_url` on the view.
pub fn parse_url(s: &str) -> (r: Option<UrlParts>)
    ensures
        match r {
            Some(u) => spec_parse_url(s@) == Some(u@) && well_formed(u@),
            None => spec_parse_url(s@) is None,
        },
{
    let slen = s.unicode_len();
    let ci = match find_char(s, ':') {
        Some(i) => i,
        None => {
            return None;
        },
    };
    if ci == 0 {
        return None;
    }
    if slen - ci < 3 {
        return None;
    }
    if !(s.get_char(ci + 1) == '/' && s.get_char(ci + 2) == '/') {
        return None;
    }
    let scheme = s.substring_char(0, ci);
    // the first `:` is at ci, so the scheme holds no `:`; refuse `/` and `?`
    let mut j: usize = 0;
    while j < ci
        invariant
            0 <= j <= ci,
            ci < s@.len(),
            slen == s@.len(),
            ci == first_index(s@, ':'),
            forall|k: int| 0 <= k < j ==> plain_char(s@[k]),
        decreases ci - j,
    {
        let c = s.get_char(j);
        if c == '/' || c == '?' {
            proof {
                assert(!plain_char(s@[j as int]));
                assert(exists|k: int| 0 <= k < ci && !plain_char(s@[k]));
            }
            return None;
        }
        proof {
            lemma_first_index(s@, ':');
        }
        j = j + 1;
    }
    let rest = s.substring_char(ci + 3, slen);
    let ai = find_stop(rest);
    let authority = rest.substring_char(0, ai);
    let alen = authority.unicode_len();
    let (host_end, port): (usize, Option<u16>) = match find_char(authority, ':') {
        Some(hi) => {
            let portstr = authority.substring_char(hi + 1, alen);
            match parse_u64_dec(portstr) {
                Some(v) if v <= 65535 => {
                    proof {
                        assert(authority@.subrange(hi + 1, alen as int) == portstr@);
                    }
                    (hi, Some(v as u16))
                },
                _ => {
                    return None;
                },
            }
        },
        None => (alen, None),
    };
    let host = authority.substring_char(0, host_end);
    if host.unicode_len() == 0 {
        return None;
    }
    let rlen = rest.unicode_len();
    let tail = rest.substring_char(ai, rlen);
    let tlen = tail.unicode_len();
    let (rawpath_end, query): (usize, Option<String>) = match find_char(tail, '?') {
        Some(qi) => (qi, Some(tail.substring_char(qi + 1, tlen).to_owned())),
        None => (tlen, None),
    };
    let rawpath = tail.substring_char(0, rawpath_end);
    let path: String = if rawpath.unicode_len() == 0 {
        let mut p = String::new();
        p.push('/');
        proof {
            assert(p@ =~= seq!['/']);
        }
        p
    } else {
        rawpath.to_owned()
    };
    let u = UrlParts {
        scheme: scheme.to_owned(),
        host: host.to_owned(),
        port,
        path,
        query,
    };
    proof {
        lemma_first_index(s@, ':');
        let sv = s@;
        let civ = ci as int;
        let restv = sv.subrange(civ + 3, sv.len() as int);
        assert(restv == rest@);
        let aiv = first_stop(restv);
        assert(aiv == ai as int);
        let authv = restv.subrange(0, aiv);
        assert(authv == authority@);
        lemma_first_index(authv, ':');
        let hiv = first_index(authv, ':');
        assert(hiv == host_end as int);
        assert(authv.subrange(0, hiv) == host@);
        let tailv = restv.subrange(aiv, restv.len() as int);
        assert(tailv == tail@);
        lemma_first_index(tailv, '?');
        let qiv = first_index(tailv, '?');
        assert(qiv == rawpath_end as int);
        assert(tailv.subrange(0, qiv) == rawpath@);
        assert(spec_parse_url(sv) == Some(u@));
        // the parsed URL is well formed
        assert forall|k: int| 0 <= k < u@.host.len() implies plain_char(u@.host[k]) by {
            assert(authv[k] == u@.host[k]);
            assert(restv[k] != '/' && restv[k] != '?');
            if hiv < authv.len() {
                lemma_first_index(authv, ':');
            }
        }
        if rawpath@.len() > 0 {
            assert(u@.path == tailv.subrange(0, qiv));
            assert(tailv[0] == restv[aiv]);
            assert forall|k: int| 0 <= k < u@.path.len() implies u@.path[k] != '?' by {
                assert(u@.path[k] == tailv[k]);
            }
        }
    }
    Some(u)
}

/// Render a URL; exactly `spec_url_str` of the view.
pub fn url_to_string(u: &UrlParts) -> (r: String)
    ensures
        r@ == spec_url_str(u@),
{
    let mut out = String::new();
    out.append(u.scheme.as_str());
    out.push(':');
    out.push('/');
    out.push('/');
    out.append(u.host.as_str());
    match &u.port {
        Some(p) => {
            out.push(':');
            let d = u64_to_dec(*p as u64);
            out.append(d.as_str());
        },
        None => {},
    }
    out.append(u.path.as_str());
    match &u.query {
        Some(q) => {
            out.push('?');
            out.append(q.as_str());
        },
        None => {},
    }
    proof {
        assert(out@ =~= spec_url_str(u@));
    }
    out
}

/// Port used on the wire: the explicit one, else 443 for `https`, else 80.
pub open spec fn spec_effective_port(u: UrlView) -> u16 {
    match u.port {
        Some(p) => p,
        None => if u.scheme == "https"@ {
            443
        } else {
            80
        },
    }
}

/// Port used on the wire: the explicit one, else 443 for `https`, else 80.
pub fn effective_port(u: &UrlParts) -> (r: u16)
    ensures
        r == spec_effective_port(u@),
{
    match &u.port {
        Some(p) => *p,
        None => {
            if str_eq(u.scheme.as_str(), "https") {
                443
            } else {
                80
            }
        },
    }
}

/// Resolution of a `Location` value against the current URL.
///
/// A location holding `://` is taken as absolute and parsed on its own.
/// One beginning with `/` keeps scheme, host and port and replaces path
/// and query.  Anything else replaces the last segment of the current
/// path.  Dot segments (`..`) are kept as they are, not collapsed.
pub open spec fn spec_resolve(cur: UrlView, loc: Seq<char>) -> Option<UrlView> {
    if contains_seq(loc, seq![':', '/', '/']) {
        spec_parse_url(loc)
    } else {
        let qi = first_index(loc, '?');
        let rawpath = loc.subrange(0, qi);
        let query: Option<Seq<char>> = if qi < loc.len() {
            Some(loc.subrange(qi + 1, loc.len() as int))
        } else {
            None
        };
        let path = if rawpath.len() > 0 && rawpath[0] == '/' {
            rawpath
        } else {
            let base = cur.path.subrange(0, last_index_of(cur.path, '/') + 1);
            base + rawpath
        };
        Some(UrlView { scheme: cur.scheme, host: cur.host, port: cur.port, path, query })
    }
}

/// Resolve a `Location` against the current URL; exactly `spec_resolve`.
///
/// A relative location never fails and keeps scheme, host and port of the
/// current URL, so each hop of a redirect chain is resolved against the
/// URL reached so far, not against the original one.
pub fn resolve_location(cur: &UrlParts, loc: &str) -> (r: Option<UrlParts>)
    requires
        well_formed(cur@),
    ensures
        match r {
            Some(u) => spec_resolve(cur@, loc@) == Some(u@) && well_formed(u@),
            None => spec_resolve(cur@, loc@) is None,
        },
        !contains_seq(loc@, seq![':', '/', '/']) ==> r is Some && r.unwrap()@.scheme
            == cur@.scheme && r.unwrap()@.host == cur@.host && r.unwrap()@.port == cur@.port,
{
    let sep: &str = "://";
    proof {
        reveal_strlit("://");
        assert(sep@ =~= seq![':', '/', '/']);
    }
    if find_str(loc, sep).is_some() {
        return parse_url(loc);
    }
    let llen = loc.unicode_len();
    let (rawpath_end, query): (usize, Option<String>) = match find_char(loc, '?') {
        Some(qi) => (qi, Some(loc.substring_char(qi + 1, llen).to_owned())),
        None => (llen, None),
    };
    let rawpath = loc.substring_char(0, rawpath_end);
    let rplen = rawpath.unicode_len();
    let path: String = if rplen > 0 && rawpath.get_char(0) == '/' {
        rawpath.to_owned()
    } else {
        let plen = u_path_str(cur).unicode_len();
        let li = match rfind_char(u_path_str(cur), '/') {
            Some(i) => i,
            None => {
                proof {
                    assert(cur@.path[0] == '/');
                }
                0
            },
        };
        assert(li < plen);
        let base = u_path_str(cur).substring_char(0, li + 1);
        let mut p = base.to_owned();
        p.append(rawpath);
        p
    };
    let u = UrlParts {
        scheme: clone_string(&cur.scheme),
        host: clone_string(&cur.host),
        port: cur.port,
        path,
        query,
    };
    proof {
        let locv = loc@;
        lemma_first_index(locv, '?');
        let qiv = first_index(locv, '?');
        assert(qiv == rawpath_end as int);
        assert(locv.subrange(0, qiv) == rawpath@);
        if !(rawpath@.len() > 0 && rawpath@[0] == '/') {
            let cp = cur@.path;
            let liv = last_index_of(cp, '/');
            assert(u@.path == cp.subrange(0, liv + 1) + rawpath@);
            assert(cp[0] == '/');
            lemma_last_index_bounds(cp, '/');
            assert(u@.path[0] == cp.subrange(0, liv + 1)[0]);
        }
        assert(spec_resolve(cur@, loc@) == Some(u@));
        assert forall|k: int| 0 <= k < u@.path.len() implies u@.path[k] != '?' by {
            let cp = cur@.path;
            let liv = last_index_of(cp, '/');
            let qiv2 = first_index(loc@, '?');
            if rawpath@.len() > 0 && rawpath@[0] == '/' {
            } else {
                if k < liv + 1 {
                    assert(u@.path[k] == cp[k]);
                } else {
                    assert(u@.path[k] == rawpath@[k - (liv + 1)]);
                }
            }
        }
    }
    Some(u)
}

/// The last `/` of a string that starts with `/` is a real index.
proof fn lemma_last_index_bounds(s: Seq<char>, c: char)
    requires
        s.len() > 0,
        s[0] == c,
    ensures
        0 <= last_index_of(s, c) < s.len(),
        s[last_index_of(s, c)] == c,
    decreases s.len(),
{
    if s.last() == c {
    } else {
        assert(s.len() > 1);
        assert(s.drop_last()[0] == c);
        lemma_last_index_bounds(s.drop_last(), c);
    }
}

fn u_path_str(u: &UrlParts) -> (r: &str)
    ensures
        r@ == u@.path,
{
    u.path.as_str()
}

/// Value-preserving copy of a `String`.
pub fn clone_string(s: &String) -> (r: String)
    ensures
        r@ == s@,
{
    s.clone()
}

/// Rendering a well-formed URL and parsing the text back yields the very
/// same URL, so a URL that has gone through any number of hops of
/// resolution and re-rendering stays stable.
pub proof fn lemma_url_roundtrip(u: UrlView)
    requires
        well_formed(u),
    ensures
        spec_parse_url(spec_url_str(u)) == Some(u),
{
    let s = spec_url_str(u);
    let sl = u.scheme.len() as int;
    let ports = spec_port_str(u.port);
    let querys = spec_query_str(u.query);
    let rest_expect = u.host + ports + u.path + querys;
    let authority_expect = u.host + ports;

    if u.port is Some {
        lemma_dec_str_value(u.port.unwrap() as int);
    }

    // the first ':' of s is right after the scheme
    assert forall|j: int| 0 <= j < sl implies s[j] != ':' by {
        assert(s[j] == u.scheme[j]);
    }
    assert(s[sl] == ':');
    lemma_first_index_unique(s, ':', sl);
    assert(s[sl + 1] == '/');
    assert(s[sl + 2] == '/');
    assert forall|j: int| 0 <= j < sl implies plain_char(s[j]) by {
        assert(s[j] == u.scheme[j]);
    }
    assert(s.subrange(0, sl) =~= u.scheme);
    let rest = s.subrange(sl + 3, s.len() as int);
    assert(rest =~= rest_expect);

    // the first '/' or '?' of rest is right after the authority
    let al = authority_expect.len() as int;
    assert forall|j: int| 0 <= j < al implies !(rest[j] == '/' || rest[j] == '?') by {
        if j < u.host.len() {
            assert(rest[j] == u.host[j]);
        } else {
            assert(rest[j] == ports[j - u.host.len()]);
            let pj = j - u.host.len();
            if pj == 0 {
                assert(ports[0] == ':');
            } else {
                let ds = spec_dec_str(u.port.unwrap() as int);
                assert(ports[pj] == ds[pj - 1]);
                assert(is_digit(ds[pj - 1]));
            }
        }
    }
    assert(rest[al] == u.path[0]);
    lemma_first_stop_unique(rest, al);
    let authority = rest.subrange(0, al);
    assert(authority =~= authority_expect);

    // the first ':' of the authority splits host and port
    let hl = u.host.len() as int;
    assert forall|j: int| 0 <= j < hl implies authority[j] != ':' by {
        assert(authority[j] == u.host[j]);
    }
    if u.port is Some {
        assert(authority[hl] == ':');
        lemma_first_index_unique(authority, ':', hl);
        let portstr = authority.subrange(hl + 1, al);
        let ds = spec_dec_str(u.port.unwrap() as int);
        assert(portstr =~= ds);
        assert(dec_value(portstr) == u.port.unwrap() as int);
    } else {
        lemma_first_index_unique(authority, ':', hl);
        assert(authority.subrange(0, hl) =~= u.host);
    }
    assert(authority.subrange(0, hl) =~= u.host);

    // the first '?' after the authority ends the path
    let tail = rest.subrange(al, rest.len() as int);
    assert(tail =~= u.path + querys);
    let pl = u.path.len() as int;
    assert forall|j: int| 0 <= j < pl implies tail[j] != '?' by {
        assert(tail[j] == u.path[j]);
    }
    if u.query is Some {
        assert(tail[pl] == '?');
        lemma_first_index_unique(tail, '?', pl);
        assert(tail.subrange(pl + 1, tail.len() as int) =~= u.query.unwrap());
    } else {
        assert(tail.len() == pl);
        lemma_first_index_unique(tail, '?', pl);
    }
    assert(tail.subrange(0, pl) =~= u.path);

    let parsed = spec_parse_url(s).unwrap();
    assert(parsed.scheme == u.scheme);
    assert(parsed.host == u.host);
    assert(parsed.port == u.port);
    assert(parsed.path == u.path);
    assert(parsed.query == u.query);
}


/// Without an occurrence, the last index is before the start.
pub proof fn lemma_last_index_none(s: Seq<char>, c: char)
    requires
        forall|j: int| 0 <= j < s.len() ==> s[j] != c,
    ensures
        last_index_of(s, c) == -1,
    decreases s.len(),
{
    if s.len() > 0 {
        assert forall|j: int| 0 <= j < s.drop_last().len() implies s.drop_last()[j] != c by {
            assert(s.drop_last()[j] == s[j]);
        }
        lemma_last_index_none(s.drop_last(), c);
    }
}

} // verus!
