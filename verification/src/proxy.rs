//! Proxy resolution: which proxy applies to a request, the no-proxy
//! bypass rules, and the CONNECT tunnel handshake texts.
//!
//! Environment configuration is injected as plain values, so every
//! decision here is a pure function of its arguments.

use vstd::prelude::*;
use crate::strutil::{
    dec_value, first_index, is_prefix_of, is_suffix_of, lemma_split_len, spec_dec_str,
    spec_trim, split_seq, split_str, starts_with, str_eq, trim, u64_to_dec, ends_with,
};
use crate::urlparse::{parse_url, spec_parse_url, UrlView};
use vstd::string::StrSliceExecFns;
use vstd::string::StringExecFns;

verus! {

/// Proxy-related environment configuration, read once per invocation and
/// handed in as plain values.  Each field mirrors one environment
/// variable.
pub struct ProxyEnv {
    pub https_proxy: Option<String>,
    pub https_proxy_lower: Option<String>,
    pub http_proxy: Option<String>,
    pub http_proxy_lower: Option<String>,
    pub all_proxy: Option<String>,
    pub all_proxy_lower: Option<String>,
    pub no_proxy: Option<String>,
    pub no_proxy_lower: Option<String>,
}

/// Mathematical image of a `ProxyEnv`.
pub struct ProxyEnvView {
    pub https_proxy: Option<Seq<char>>,
    pub https_proxy_lower: Option<Seq<char>>,
    pub http_proxy: Option<Seq<char>>,
    pub http_proxy_lower: Option<Seq<char>>,
    pub all_proxy: Option<Seq<char>>,
    pub all_proxy_lower: Option<Seq<char>>,
    pub no_proxy: Option<Seq<char>>,
    pub no_proxy_lower: Option<Seq<char>>,
}

pub open spec fn view_opt(o: Option<String>) -> Option<Seq<char>> {
    match o {
        Some(s) => Some(s@),
        None => None,
    }
}

impl View for ProxyEnv {
    type V = ProxyEnvView;

    open spec fn view(&self) -> ProxyEnvView {
        ProxyEnvView {
            https_proxy: view_opt(self.https_proxy),
            https_proxy_lower: view_opt(self.https_proxy_lower),
            http_proxy: view_opt(self.http_proxy),
            http_proxy_lower: view_opt(self.http_proxy_lower),
            all_proxy: view_opt(self.all_proxy),
            all_proxy_lower: view_opt(self.all_proxy_lower),
            no_proxy: view_opt(self.no_proxy),
            no_proxy_lower: view_opt(self.no_proxy_lower),
        }
    }
}

/// The first configured value of a chain of variables.
pub open spec fn first_some2(a: Option<Seq<char>>, b: Option<Seq<char>>) -> Option<Seq<char>> {
    match a {
        Some(v) => Some(v),
        None => b,
    }
}

/// The proxy variable chosen for a scheme: the scheme-specific variable
/// first (upper case before lower case), then the catch-all.
pub open spec fn spec_proxy_var(scheme: Seq<char>, env: ProxyEnvView) -> Option<Seq<char>> {
    let specific = if scheme == "https"@ {
        first_some2(env.https_proxy, env.https_proxy_lower)
    } else {
        first_some2(env.http_proxy, env.http_proxy_lower)
    };
    first_some2(specific, first_some2(env.all_proxy, env.all_proxy_lower))
}

/// The `host:port` address derived from one proxy variable value: for an
/// `http`/`https` proxy URL the host with its explicit or default port;
/// for a value that is no URL, the value itself; for any other proxy
/// scheme, nothing (unsupported, not an error).
pub open spec fn spec_proxy_addr(v: Seq<char>) -> Option<Seq<char>> {
    match spec_parse_url(v) {
        Some(u) => if u.scheme == "http"@ {
            Some(u.host + seq![':'] + spec_dec_str(port_or(u, 80) as int))
        } else if u.scheme == "https"@ {
            Some(u.host + seq![':'] + spec_dec_str(port_or(u, 443) as int))
        } else {
            None
        },
        None => Some(v),
    }
}

pub open spec fn port_or(u: UrlView, d: u16) -> u16 {
    match u.port {
        Some(p) => p,
        None => d,
    }
}

/// The proxy address for a request of the given scheme, or `None` when
/// no proxy is configured or the configured one is unsupported.
pub open spec fn spec_proxy_from_env(scheme: Seq<char>, env: ProxyEnvView) -> Option<Seq<char>> {
    match spec_proxy_var(scheme, env) {
        Some(v) => spec_proxy_addr(v),
        None => None,
    }
}

fn clone_opt_string(o: &Option<String>) -> (r: Option<String>)
    ensures
        view_opt(r) == view_opt(*o),
{
    match o {
        Some(s) => Some(crate::urlparse::clone_string(s)),
        None => None,
    }
}

/// Derive the proxy address for a scheme from the injected environment.
pub fn get_proxy_from_env(scheme: &str, env: &ProxyEnv) -> (r: Option<String>)
    ensures
        view_opt(r) == spec_proxy_from_env(scheme@, env@),
{
    let var: Option<String> = if str_eq(scheme, "https") {
        match &env.https_proxy {
            Some(v) => Some(crate::urlparse::clone_string(v)),
            None => match &env.https_proxy_lower {
                Some(v) => Some(crate::urlparse::clone_string(v)),
                None => match &env.all_proxy {
                    Some(v) => Some(crate::urlparse::clone_string(v)),
                    None => clone_opt_string(&env.all_proxy_lower),
                },
            },
        }
    } else {
        match &env.http_proxy {
            Some(v) => Some(crate::urlparse::clone_string(v)),
            None => match &env.http_proxy_lower {
                Some(v) => Some(crate::urlparse::clone_string(v)),
                None => match &env.all_proxy {
                    Some(v) => Some(crate::urlparse::clone_string(v)),
                    None => clone_opt_string(&env.all_proxy_lower),
                },
            },
        }
    };
    let v = match var {
        Some(v) => v,
        None => {
            return None;
        },
    };
    match parse_url(v.as_str()) {
        Some(u) => {
            let default: u16 = if str_eq(u.scheme.as_str(), "http") {
                80
            } else if str_eq(u.scheme.as_str(), "https") {
                443
            } else {
                return None;
            };
            let port = match u.port {
                Some(p) => p,
                None => default,
            };
            let mut out = crate::urlparse::clone_string(&u.host);
            out.push(':');
            let d = u64_to_dec(port as u64);
            out.append(d.as_str());
            proof {
                assert(out@ =~= u@.host + seq![':'] + spec_dec_str(port as int));
            }
            Some(out)
        },
        None => Some(v),
    }
}

/// One bypass pattern applied to a host: a pattern beginning with `.`
/// matches any host it ends, and the bare domain itself; any other
/// pattern must match the host exactly.
pub open spec fn pattern_matches(pat: Seq<char>, host: Seq<char>) -> bool {
    if pat.len() > 0 && pat[0] == '.' {
        is_suffix_of(pat, host) || host == pat.subrange(1, pat.len() as int)
    } else {
        host == pat
    }
}

/// Whether the no-proxy list releases this host from the proxy: some
/// comma-separated entry, once trimmed, is non-empty and matches.
pub open spec fn spec_bypass(no_proxy: Seq<char>, host: Seq<char>) -> bool {
    exists|k: int|
        0 <= k < split_seq(no_proxy, ',').len() && {
            let pat = spec_trim(#[trigger] split_seq(no_proxy, ',')[k]);
            pat.len() > 0 && pattern_matches(pat, host)
        }
}

fn pattern_matches_exec(pat: &str, host: &str) -> (r: bool)
    ensures
        r == pattern_matches(pat@, host@),
{
    let plen = pat.unicode_len();
    if plen > 0 && pat.get_char(0) == '.' {
        if ends_with(host, pat) {
            return true;
        }
        let bare = pat.substring_char(1, plen);
        str_eq(host, bare)
    } else {
        str_eq(host, pat)
    }
}

/// Whether the request should skip the proxy, from the target host and
/// the no-proxy list.  A missing host or list never bypasses.
pub fn should_bypass_proxy(host: Option<&str>, no_proxy: Option<&str>) -> (r: bool)
    ensures
        r == (host is Some && no_proxy is Some && spec_bypass(
            no_proxy.unwrap()@,
            host.unwrap()@,
        )),
{
    let h = match host {
        Some(h) => h,
        None => {
            return false;
        },
    };
    let np = match no_proxy {
        Some(np) => np,
        None => {
            return false;
        },
    };
    let parts = split_str(np, ',');
    let n = parts.len();
    let mut k: usize = 0;
    while k < n
        invariant
            0 <= k <= n,
            n == parts@.len(),
            n == split_seq(np@, ',').len(),
            no_proxy is Some && no_proxy.unwrap()@ == np@,
            host is Some && host.unwrap()@ == h@,
            forall|j: int| 0 <= j < n ==> parts@[j]@ == split_seq(np@, ',')[j],
            forall|j: int|
                0 <= j < k ==> !{
                    let pat = spec_trim(#[trigger] split_seq(np@, ',')[j]);
                    pat.len() > 0 && pattern_matches(pat, h@)
                },
        decreases n - k,
    {
        let pat = trim(parts[k].as_str());
        if pat.as_str().unicode_len() > 0 {
            if pattern_matches_exec(pat.as_str(), h) {
                proof {
                    let j = k as int;
                    assert(parts@[j]@ == split_seq(np@, ',')[j]);
                    assert(pat@ == spec_trim(split_seq(np@, ',')[j]));
                    assert(pat@.len() > 0 && pattern_matches(pat@, h@));
                    assert(0 <= j < split_seq(np@, ',').len() && {
                        let patv = spec_trim(#[trigger] split_seq(np@, ',')[j]);
                        patv.len() > 0 && pattern_matches(patv, h@)
                    });
                    assert(spec_bypass(np@, h@));
                }
                return true;
            }
        }
        k = k + 1;
    }
    false
}

/// How the transport reaches the origin: directly, through a CONNECT
/// tunnel, or through a forward proxy that sees the absolute request URI.
pub enum ProxyPlan {
    NoProxy,
    Tunnel { proxy_addr: String },
    ForwardProxy { proxy_addr: String },
}

/// Mathematical image of a `ProxyPlan`.
pub enum ProxyPlanView {
    NoProxy,
    Tunnel { proxy_addr: Seq<char> },
    ForwardProxy { proxy_addr: Seq<char> },
}

impl View for ProxyPlan {
    type V = ProxyPlanView;

    open spec fn view(&self) -> ProxyPlanView {
        match self {
            ProxyPlan::NoProxy => ProxyPlanView::NoProxy,
            ProxyPlan::Tunnel { proxy_addr } => ProxyPlanView::Tunnel { proxy_addr: proxy_addr@ },
            ProxyPlan::ForwardProxy { proxy_addr } => ProxyPlanView::ForwardProxy {
                proxy_addr: proxy_addr@,
            },
        }
    }
}

/// The plan a request must follow: bypass checks first (explicit flag,
/// then the no-proxy list), then the configured proxy, tunneled for an
/// `https` target and forwarded for anything else.
pub open spec fn spec_proxy_plan(
    scheme: Seq<char>,
    host: Option<Seq<char>>,
    noproxy_flag: bool,
    env: ProxyEnvView,
) -> ProxyPlanView {
    if noproxy_flag {
        ProxyPlanView::NoProxy
    } else if match (host, first_some2(env.no_proxy, env.no_proxy_lower)) {
        (Some(h), Some(np)) => spec_bypass(np, h),
        _ => false,
    } {
        ProxyPlanView::NoProxy
    } else {
        match spec_proxy_from_env(scheme, env) {
            Some(addr) => if scheme == "https"@ {
                ProxyPlanView::Tunnel { proxy_addr: addr }
            } else {
                ProxyPlanView::ForwardProxy { proxy_addr: addr }
            },
            None => ProxyPlanView::NoProxy,
        }
    }
}

/// Decide the proxy plan for one request.
pub fn resolve_proxy_plan(
    scheme: &str,
    host: Option<&str>,
    noproxy_flag: bool,
    env: &ProxyEnv,
) -> (r: ProxyPlan)
    ensures
        r@ == spec_proxy_plan(
            scheme@,
            match host {
                Some(h) => Some(h@),
                None => None,
            },
            noproxy_flag,
            env@,
        ),
{
    if noproxy_flag {
        return ProxyPlan::NoProxy;
    }
    let np: Option<&str> = match &env.no_proxy {
        Some(v) => Some(v.as_str()),
        None => match &env.no_proxy_lower {
            Some(v) => Some(v.as_str()),
            None => None,
        },
    };
    if should_bypass_proxy(host, np) {
        return ProxyPlan::NoProxy;
    }
    match get_proxy_from_env(scheme, env) {
        Some(addr) => {
            if str_eq(scheme, "https") {
                ProxyPlan::Tunnel { proxy_addr: addr }
            } else {
                ProxyPlan::ForwardProxy { proxy_addr: addr }
            }
        },
        None => ProxyPlan::NoProxy,
    }
}

/// The CONNECT request sent to a proxy for the given origin.
pub open spec fn spec_connect_request(host: Seq<char>, port: u16) -> Seq<char> {
    "CONNECT "@ + host + seq![':'] + spec_dec_str(port as int) + " HTTP/1.1\r\nHost: "@ + host
        + seq![':'] + spec_dec_str(port as int) + "\r\nProxy-Connection: Keep-Alive\r\n\r\n"@
}

/// Render the CONNECT request for the given origin.
pub fn connect_request(host: &str, port: u16) -> (r: String)
    ensures
        r@ == spec_connect_request(host@, port),
{
    let mut out = String::new();
    out.append("CONNECT ");
    out.append(host);
    out.push(':');
    let d = u64_to_dec(port as u64);
    out.append(d.as_str());
    out.append(" HTTP/1.1\r\nHost: ");
    out.append(host);
    out.push(':');
    out.append(d.as_str());
    out.append("\r\nProxy-Connection: Keep-Alive\r\n\r\n");
    proof {
        assert(out@ =~= spec_connect_request(host@, port));
    }
    out
}

/// A CONNECT answer accepted as tunnel establishment: the status line
/// begins `HTTP/1.1 200` or `HTTP/1.0 200`.  Anything else — a 407, a
/// 5xx, garbage — is a tunnel failure.
pub open spec fn spec_connect_ok(line: Seq<char>) -> bool {
    is_prefix_of("HTTP/1.1 200"@, line) || is_prefix_of("HTTP/1.0 200"@, line)
}

/// Decide whether a CONNECT response line establishes the tunnel.
pub fn connect_response_ok(line: &str) -> (r: bool)
    ensures
        r == spec_connect_ok(line@),
{
    starts_with(line, "HTTP/1.1 200") || starts_with(line, "HTTP/1.0 200")
}

/// The response-header bytes are complete: the buffer ends `\r\n\r\n`.
pub open spec fn spec_headers_complete(buf: Seq<u8>) -> bool {
    buf.len() >= 4 && buf.subrange(buf.len() - 4, buf.len() as int) == seq![
        13u8,
        10u8,
        13u8,
        10u8,
    ]
}

/// Whether the byte buffer read so far holds the whole response header.
pub fn headers_complete(buf: &Vec<u8>) -> (r: bool)
    ensures
        r == spec_headers_complete(buf@),
{
    let n = buf.len();
    if n < 4 {
        return false;
    }
    let r = buf[n - 4] == 13u8 && buf[n - 3] == 10u8 && buf[n - 2] == 13u8 && buf[n - 1] == 10u8;
    proof {
        let tailv = buf@.subrange(n - 4, n as int);
        assert(tailv.len() == 4);
        assert(tailv[0] == buf@[n - 4]);
        assert(tailv[1] == buf@[n - 3]);
        assert(tailv[2] == buf@[n - 2]);
        assert(tailv[3] == buf@[n - 1]);
        if r {
            assert(tailv =~= seq![13u8, 10u8, 13u8, 10u8]);
        } else {
            assert(tailv != seq![13u8, 10u8, 13u8, 10u8]);
        }
    }
    r
}

/// A connector that forwards the whole request through an HTTP proxy;
/// it holds only the proxy's `host:port` address.
#[derive(Clone)]
pub struct HttpForwardProxyConnector {
    pub proxy_addr: String,
}

impl HttpForwardProxyConnector {
    pub fn new(proxy_addr: String) -> (r: Self)
        ensures
            r.proxy_addr@ == proxy_addr@,
    {
        Self { proxy_addr }
    }
}

} // verus!
