//! The redirect loop's decision logic: what one response means for the
//! next hop, and the bounded loop itself, driven over the sequence of
//! response heads a server returns.

use vstd::prelude::*;
use crate::urlparse::{resolve_location, spec_resolve, well_formed, UrlParts, UrlView};
use crate::MAX_REDIRECTS;

verus! {

/// The part of a response the redirect loop reads: the status code and
/// the `Location` header, when present.
pub struct ResponseHead {
    pub status: u16,
    pub location: Option<String>,
}

/// Mathematical image of a `ResponseHead`.
pub struct ResponseHeadView {
    pub status: u16,
    pub location: Option<Seq<char>>,
}

impl View for ResponseHead {
    type V = ResponseHeadView;

    open spec fn view(&self) -> ResponseHeadView {
        ResponseHeadView {
            status: self.status,
            location: match self.location {
                Some(l) => Some(l@),
                None => None,
            },
        }
    }
}

/// The redirection status class.
pub open spec fn is_redirect_status(s: u16) -> bool {
    300 <= s < 400
}

/// What the loop does after one exchange.
pub enum HopDecision {
    /// Not a redirect: this response is final and goes to materialization.
    Finish,
    /// A redirect with a resolvable `Location`: continue at this URL.
    Follow(UrlParts),
    /// A redirect without a `Location` header: a protocol error, never
    /// retried.
    MissingLocation,
    /// A redirect whose `Location` cannot be resolved to a URL.
    BadLocation,
}

/// Mathematical image of a `HopDecision`.
pub enum HopDecisionView {
    Finish,
    Follow(UrlView),
    MissingLocation,
    BadLocation,
}

impl View for HopDecision {
    type V = HopDecisionView;

    open spec fn view(&self) -> HopDecisionView {
        match self {
            HopDecision::Finish => HopDecisionView::Finish,
            HopDecision::Follow(u) => HopDecisionView::Follow(u@),
            HopDecision::MissingLocation => HopDecisionView::MissingLocation,
            HopDecision::BadLocation => HopDecisionView::BadLocation,
        }
    }
}

/// The decision for one response at one current URL.
pub open spec fn spec_hop_decision(cur: UrlView, head: ResponseHeadView) -> HopDecisionView {
    if !is_redirect_status(head.status) {
        HopDecisionView::Finish
    } else {
        match head.location {
            None => HopDecisionView::MissingLocation,
            Some(loc) => match spec_resolve(cur, loc) {
                Some(u) => HopDecisionView::Follow(u),
                None => HopDecisionView::BadLocation,
            },
        }
    }
}

/// Decide what one response means: a response outside the 3xx class is
/// final; a 3xx without `Location` fails at once; a 3xx with one follows
/// the `Location` resolved against the current URL.
pub fn hop_decision(cur: &UrlParts, head: &ResponseHead) -> (r: HopDecision)
    requires
        well_formed(cur@),
    ensures
        r@ == spec_hop_decision(cur@, head@),
        r@ matches HopDecisionView::Follow(u) ==> well_formed(u),
{
    if !(300 <= head.status && head.status < 400) {
        return HopDecision::Finish;
    }
    match &head.location {
        None => HopDecision::MissingLocation,
        Some(loc) => match resolve_location(cur, loc.as_str()) {
            Some(u) => HopDecision::Follow(u),
            None => HopDecision::BadLocation,
        },
    }
}

/// A response head that lets the loop continue: a redirect whose
/// `Location` is present and resolvable against the given URL.
pub open spec fn follows(cur: UrlView, head: ResponseHeadView) -> bool {
    spec_hop_decision(cur, head) is Follow
}

/// The URL the loop holds before hop `i`, given the script of response
/// heads; `None` once the loop would have stopped earlier.
pub open spec fn spec_hop_url(start: UrlView, rs: Seq<ResponseHeadView>, i: int) -> Option<UrlView>
    decreases i,
{
    if i <= 0 {
        Some(start)
    } else {
        match spec_hop_url(start, rs, i - 1) {
            None => None,
            Some(u) => match spec_hop_decision(u, rs[i - 1]) {
                HopDecisionView::Follow(next) => Some(next),
                _ => None,
            },
        }
    }
}

/// How one whole run of the redirect loop ended.
pub enum RedirectOutcome {
    /// The response of hop `hop` was final.
    Final { hop: usize },
    /// The response of hop `hop` was a redirect without `Location`.
    MissingLocation { hop: usize },
    /// The response of hop `hop` carried a `Location` that did not
    /// resolve.
    BadLocation { hop: usize },
    /// Every allowed exchange was a well-formed redirect: the budget is
    /// exhausted and no further request is sent.
    TooManyRedirects,
}

/// Run the redirect loop over a script of response heads, `rs[i]` being
/// the server's answer to the `i`-th request.  Returns the outcome, the
/// number of exchanges performed, and the URL of the last request.
///
/// At most `MAX_REDIRECTS` exchanges ever happen, however many redirects
/// the script holds; the loop never sends an eleventh request.
pub fn run_redirects(start: &UrlParts, rs: &Vec<ResponseHead>) -> (r: (
    RedirectOutcome,
    usize,
    UrlParts,
))
    requires
        well_formed(start@),
        rs@.len() >= MAX_REDIRECTS as int,
    ensures
        r.1 <= MAX_REDIRECTS as int,
        r.1 >= 1,
        well_formed(r.2@),
        match r.0 {
            RedirectOutcome::TooManyRedirects => spec_hop_url(
                start@,
                rs@.map_values(|h: ResponseHead| h@),
                MAX_REDIRECTS as int,
            ) == Some(r.2@),
            _ => spec_hop_url(start@, rs@.map_values(|h: ResponseHead| h@), r.1 - 1) == Some(
                r.2@,
            ),
        },
        match r.0 {
            RedirectOutcome::Final { hop } => {
                &&& hop + 1 == r.1
                &&& !is_redirect_status(rs@[hop as int]@.status)
                &&& forall|j: int|
                    0 <= j < hop ==> follows(
                        spec_hop_url(start@, rs@.map_values(|h: ResponseHead| h@), j).unwrap(),
                        rs@[j]@,
                    )
            },
            RedirectOutcome::MissingLocation { hop } => {
                &&& hop + 1 == r.1
                &&& is_redirect_status(rs@[hop as int]@.status)
                &&& rs@[hop as int]@.location is None
            },
            RedirectOutcome::BadLocation { hop } => {
                &&& hop + 1 == r.1
                &&& is_redirect_status(rs@[hop as int]@.status)
                &&& rs@[hop as int]@.location is Some
            },
            RedirectOutcome::TooManyRedirects => {
                &&& r.1 == MAX_REDIRECTS as int
                &&& forall|j: int|
                    0 <= j < MAX_REDIRECTS as int ==> follows(
                        spec_hop_url(start@, rs@.map_values(|h: ResponseHead| h@), j).unwrap(),
                        rs@[j]@,
                    )
            },
        },
{
    let ghost rsv = rs@.map_values(|h: ResponseHead| h@);
    let mut cur: UrlParts = clone_url(start);
    let mut hop: usize = 0;
    let max = MAX_REDIRECTS as usize;
    while hop < max
        invariant
            0 <= hop <= max,
            max == MAX_REDIRECTS as int,
            rs@.len() >= max,
            rsv == rs@.map_values(|h: ResponseHead| h@),
            well_formed(cur@),
            spec_hop_url(start@, rsv, hop as int) == Some(cur@),
            well_formed(start@),
            forall|j: int| 0 <= j < hop ==> follows(
                spec_hop_url(start@, rsv, j).unwrap(),
                rsv[j],
            ),
        decreases max - hop,
    {
        let head = &rs[hop];
        proof {
            assert(rsv[hop as int] == rs@[hop as int]@);
        }
        match hop_decision(&cur, head) {
            HopDecision::Finish => {
                return (RedirectOutcome::Final { hop }, hop + 1, cur);
            },
            HopDecision::Follow(next) => {
                proof {
                    assert(spec_hop_decision(cur@, rsv[hop as int]) == HopDecisionView::Follow(
                        next@,
                    ));
                    assert(spec_hop_url(start@, rsv, hop + 1) == Some(next@));
                }
                cur = next;
                hop = hop + 1;
            },
            HopDecision::MissingLocation => {
                return (RedirectOutcome::MissingLocation { hop }, hop + 1, cur);
            },
            HopDecision::BadLocation => {
                return (RedirectOutcome::BadLocation { hop }, hop + 1, cur);
            },
        }
    }
    (RedirectOutcome::TooManyRedirects, max, cur)
}

/// Value-preserving copy of a URL.
pub fn clone_url(u: &UrlParts) -> (r: UrlParts)
    ensures
        r@ == u@,
{
    UrlParts {
        scheme: crate::urlparse::clone_string(&u.scheme),
        host: crate::urlparse::clone_string(&u.host),
        port: u.port,
        path: crate::urlparse::clone_string(&u.path),
        query: match &u.query {
            Some(q) => Some(crate::urlparse::clone_string(q)),
            None => None,
        },
    }
}

} // verus!
