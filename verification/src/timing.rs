//! Phase timing for one request: DNS, TCP connect, TLS handshake and the
//! whole pipeline, each a start/end pair.  A phase's duration exists only
//! when both ends were recorded; an incomplete phase reports nothing
//! rather than zero.

use vstd::prelude::*;
use crate::strutil::{spec_dec_str, u64_to_dec};
use vstd::string::StrSliceExecFns;
use vstd::string::StringExecFns;

verus! {

/// Relies on std's `SystemTime::now`: the wall clock in milliseconds
/// since the Unix epoch, or zero if the clock sits before the epoch.
/// Nothing can be promised of the value.
#[verifier::external_body]
fn now_millis() -> u64 {
    match std::time::SystemTime::now().duration_since(std::time::SystemTime::UNIX_EPOCH) {
        Ok(d) => d.as_millis() as u64,
        Err(_) => 0,
    }
}

/// Start/end timestamps, in milliseconds, for each measured phase of one
/// request.  A missing timestamp means the phase was not observed.
pub struct RequestTimings {
    pub dns_start: Option<u64>,
    pub dns_end: Option<u64>,
    pub tcp_connect_start: Option<u64>,
    pub tcp_connect_end: Option<u64>,
    pub tls_start: Option<u64>,
    pub tls_end: Option<u64>,
    pub total_start: Option<u64>,
    pub total_end: Option<u64>,
}

/// Duration of one phase: defined only when both ends were recorded; a
/// clock that moved backwards yields zero rather than failing.
pub open spec fn spec_duration(start: Option<u64>, end: Option<u64>) -> Option<u64> {
    match (start, end) {
        (Some(s), Some(e)) => if e >= s {
            Some((e - s) as u64)
        } else {
            Some(0u64)
        },
        _ => None,
    }
}

fn duration_between(start: &Option<u64>, end: &Option<u64>) -> (r: Option<u64>)
    ensures
        r == spec_duration(*start, *end),
{
    match (start, end) {
        (Some(s), Some(e)) => if *e >= *s {
            Some(*e - *s)
        } else {
            Some(0)
        },
        _ => None,
    }
}

impl RequestTimings {
    /// A recorder with no phase observed yet.
    pub fn new() -> (r: Self)
        ensures
            r.dns_start is None,
            r.dns_end is None,
            r.tcp_connect_start is None,
            r.tcp_connect_end is None,
            r.tls_start is None,
            r.tls_end is None,
            r.total_start is None,
            r.total_end is None,
    {
        RequestTimings {
            dns_start: None,
            dns_end: None,
            tcp_connect_start: None,
            tcp_connect_end: None,
            tls_start: None,
            tls_end: None,
            total_start: None,
            total_end: None,
        }
    }

    /// Mark the start of the whole pipeline; other phases are untouched.
    pub fn start_total(&mut self)
        ensures
            final(self).total_start is Some,
            final(self).total_end == old(self).total_end,
            final(self).dns_start == old(self).dns_start,
            final(self).dns_end == old(self).dns_end,
            final(self).tcp_connect_start == old(self).tcp_connect_start,
            final(self).tcp_connect_end == old(self).tcp_connect_end,
            final(self).tls_start == old(self).tls_start,
            final(self).tls_end == old(self).tls_end,
    {
        self.total_start = Some(now_millis());
    }

    /// Mark the end of the whole pipeline; other phases are untouched.
    pub fn end_total(&mut self)
        ensures
            final(self).total_end is Some,
            final(self).total_start == old(self).total_start,
            final(self).dns_start == old(self).dns_start,
            final(self).dns_end == old(self).dns_end,
            final(self).tcp_connect_start == old(self).tcp_connect_start,
            final(self).tcp_connect_end == old(self).tcp_connect_end,
            final(self).tls_start == old(self).tls_start,
            final(self).tls_end == old(self).tls_end,
    {
        self.total_end = Some(now_millis());
    }

    /// Mark the start of DNS resolution; other phases are untouched.
    pub fn start_dns(&mut self)
        ensures
            final(self).dns_start is Some,
            final(self).dns_end == old(self).dns_end,
            final(self).tcp_connect_start == old(self).tcp_connect_start,
            final(self).tcp_connect_end == old(self).tcp_connect_end,
            final(self).tls_start == old(self).tls_start,
            final(self).tls_end == old(self).tls_end,
            final(self).total_start == old(self).total_start,
            final(self).total_end == old(self).total_end,
    {
        self.dns_start = Some(now_millis());
    }

    /// Mark the end of DNS resolution; other phases are untouched.
    pub fn end_dns(&mut self)
        ensures
            final(self).dns_end is Some,
            final(self).dns_start == old(self).dns_start,
            final(self).tcp_connect_start == old(self).tcp_connect_start,
            final(self).tcp_connect_end == old(self).tcp_connect_end,
            final(self).tls_start == old(self).tls_start,
            final(self).tls_end == old(self).tls_end,
            final(self).total_start == old(self).total_start,
            final(self).total_end == old(self).total_end,
    {
        self.dns_end = Some(now_millis());
    }

    /// Mark the start of the TCP connect; other phases are untouched.
    pub fn start_tcp_connect(&mut self)
        ensures
            final(self).tcp_connect_start is Some,
            final(self).tcp_connect_end == old(self).tcp_connect_end,
            final(self).dns_start == old(self).dns_start,
            final(self).dns_end == old(self).dns_end,
            final(self).tls_start == old(self).tls_start,
            final(self).tls_end == old(self).tls_end,
            final(self).total_start == old(self).total_start,
            final(self).total_end == old(self).total_end,
    {
        self.tcp_connect_start = Some(now_millis());
    }

    /// Mark the end of the TCP connect; other phases are untouched.
    pub fn end_tcp_connect(&mut self)
        ensures
            final(self).tcp_connect_end is Some,
            final(self).tcp_connect_start == old(self).tcp_connect_start,
            final(self).dns_start == old(self).dns_start,
            final(self).dns_end == old(self).dns_end,
            final(self).tls_start == old(self).tls_start,
            final(self).tls_end == old(self).tls_end,
            final(self).total_start == old(self).total_start,
            final(self).total_end == old(self).total_end,
    {
        self.tcp_connect_end = Some(now_millis());
    }

    /// Mark the start of the TLS handshake; other phases are untouched.
    pub fn start_tls(&mut self)
        ensures
            final(self).tls_start is Some,
            final(self).tls_end == old(self).tls_end,
            final(self).dns_start == old(self).dns_start,
            final(self).dns_end == old(self).dns_end,
            final(self).tcp_connect_start == old(self).tcp_connect_start,
            final(self).tcp_connect_end == old(self).tcp_connect_end,
            final(self).total_start == old(self).total_start,
            final(self).total_end == old(self).total_end,
    {
        self.tls_start = Some(now_millis());
    }

    /// Mark the end of the TLS handshake; other phases are untouched.
    pub fn end_tls(&mut self)
        ensures
            final(self).tls_end is Some,
            final(self).tls_start == old(self).tls_start,
            final(self).dns_start == old(self).dns_start,
            final(self).dns_end == old(self).dns_end,
            final(self).tcp_connect_start == old(self).tcp_connect_start,
            final(self).tcp_connect_end == old(self).tcp_connect_end,
            final(self).total_start == old(self).total_start,
            final(self).total_end == old(self).total_end,
    {
        self.tls_end = Some(now_millis());
    }


    /// The human-readable time breakdown: one line per phase, each either
    /// a padded millisecond count or `N/A` for an unmeasured phase.
    pub fn report(&self) -> (r: String)
        ensures
            r@ == spec_timing_report(self),
    {
        let mut out = String::new();
        out.append("\nTime breakdown:\n");
        let ghost mut g: Seq<char> = "\nTime breakdown:\n"@;
        proof {
            assert(out@ =~= g);
        }
        let d = self.dns_duration();
        append_timing_line(&mut out, "  DNS lookup:      ", d);
        proof {
            g = g + spec_timing_line("  DNS lookup:      "@, spec_duration(self.dns_start, self.dns_end));
        }
        let d = self.tcp_connect_duration();
        append_timing_line(&mut out, "  TCP connect:     ", d);
        proof {
            g = g + spec_timing_line(
                "  TCP connect:     "@,
                spec_duration(self.tcp_connect_start, self.tcp_connect_end),
            );
        }
        let d = self.tls_duration();
        append_timing_line(&mut out, "  TLS handshake:   ", d);
        proof {
            g = g + spec_timing_line("  TLS handshake:   "@, spec_duration(self.tls_start, self.tls_end));
        }
        let d = self.total_duration();
        append_timing_line(&mut out, "  Total time:      ", d);
        proof {
            g = g + spec_timing_line("  Total time:      "@, spec_duration(self.total_start, self.total_end));
            assert(out@ == g);
            assert(g == spec_timing_report(self));
        }
        out
    }

    /// Milliseconds spent on DNS, when both ends were recorded.
    pub fn dns_duration(&self) -> (r: Option<u64>)
        ensures
            r == spec_duration(self.dns_start, self.dns_end),
    {
        duration_between(&self.dns_start, &self.dns_end)
    }

    /// Milliseconds spent on the TCP connect, when both ends were
    /// recorded.
    pub fn tcp_connect_duration(&self) -> (r: Option<u64>)
        ensures
            r == spec_duration(self.tcp_connect_start, self.tcp_connect_end),
    {
        duration_between(&self.tcp_connect_start, &self.tcp_connect_end)
    }

    /// Milliseconds spent on the TLS handshake, when both ends were
    /// recorded.
    pub fn tls_duration(&self) -> (r: Option<u64>)
        ensures
            r == spec_duration(self.tls_start, self.tls_end),
    {
        duration_between(&self.tls_start, &self.tls_end)
    }

    /// Milliseconds from pipeline start to materialization, when both
    /// ends were recorded.
    pub fn total_duration(&self) -> (r: Option<u64>)
        ensures
            r == spec_duration(self.total_start, self.total_end),
    {
        duration_between(&self.total_start, &self.total_end)
    }
}


/// `n` spaces.
pub open spec fn spec_spaces(n: int) -> Seq<char>
    decreases n,
{
    if n <= 0 {
        Seq::<char>::empty()
    } else {
        spec_spaces(n - 1) + seq![' ']
    }
}

/// `s` padded on the left with spaces to eight columns.
pub open spec fn spec_pad8(s: Seq<char>) -> Seq<char> {
    if s.len() >= 8 {
        s
    } else {
        spec_spaces(8 - s.len()) + s
    }
}

fn pad8(s: &str) -> (r: String)
    ensures
        r@ == spec_pad8(s@),
{
    let slen = s.unicode_len();
    let mut out = String::new();
    if slen < 8 {
        let need = 8 - slen;
        let mut k: usize = 0;
        while k < need
            invariant
                0 <= k <= need,
                out@ == spec_spaces(k as int),
            decreases need - k,
        {
            out.push(' ');
            k = k + 1;
        }
    }
    out.append(s);
    proof {
        assert(out@ =~= spec_pad8(s@));
    }
    out
}

/// One line of the report: the label, then the milliseconds padded to
/// eight columns, or `N/A` for a phase that was not measured.
pub open spec fn spec_timing_line(label: Seq<char>, d: Option<u64>) -> Seq<char> {
    label + (match d {
        Some(ms) => spec_pad8(spec_dec_str(ms as int)) + " ms"@,
        None => "N/A"@,
    }) + "\n"@
}

fn append_timing_line(out: &mut String, label: &str, d: Option<u64>)
    ensures
        final(out)@ == old(out)@ + spec_timing_line(label@, d),
{
    out.append(label);
    match d {
        Some(ms) => {
            let digits = u64_to_dec(ms);
            let padded = pad8(digits.as_str());
            out.append(padded.as_str());
            out.append(" ms");
        },
        None => {
            out.append("N/A");
        },
    }
    out.append("\n");
    proof {
        assert(out@ =~= old(out)@ + spec_timing_line(label@, d));
    }
}

/// The rendered timing report.
pub open spec fn spec_timing_report(t: &RequestTimings) -> Seq<char> {
    "\nTime breakdown:\n"@ + spec_timing_line(
        "  DNS lookup:      "@,
        spec_duration(t.dns_start, t.dns_end),
    ) + spec_timing_line(
        "  TCP connect:     "@,
        spec_duration(t.tcp_connect_start, t.tcp_connect_end),
    ) + spec_timing_line(
        "  TLS handshake:   "@,
        spec_duration(t.tls_start, t.tls_end),
    ) + spec_timing_line("  Total time:      "@, spec_duration(t.total_start, t.total_end))
}

/// Per-connection timing summary, as the connection layer reports it.
/// Phases the transport could not observe separately stay unset.
pub struct ConnectionTimings {
    pub dns_duration_ms: Option<u128>,
    pub tcp_connect_duration_ms: Option<u128>,
    pub tls_handshake_duration_ms: Option<u128>,
    pub total_duration_ms: u128,
}

impl ConnectionTimings {
    /// A summary with nothing measured.
    pub fn new() -> (r: Self)
        ensures
            r.dns_duration_ms is None,
            r.tcp_connect_duration_ms is None,
            r.tls_handshake_duration_ms is None,
            r.total_duration_ms == 0,
    {
        ConnectionTimings {
            dns_duration_ms: None,
            tcp_connect_duration_ms: None,
            tls_handshake_duration_ms: None,
            total_duration_ms: 0,
        }
    }
}

} // verus!
