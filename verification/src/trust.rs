//! The trust policy for TLS handshakes: a thin decision layer over the
//! underlying chain verifier.  The cryptographic check itself happens
//! outside; its outcome is handed in and only the decision is made here.

use vstd::prelude::*;

verus! {

/// The outcome of evaluating one presented certificate chain.
pub enum TrustDecision {
    Accept,
    AcceptWithWarning { reason: String },
    Reject { reason: String },
}

/// Mathematical image of a `TrustDecision`.
pub enum TrustDecisionView {
    Accept,
    AcceptWithWarning { reason: Seq<char> },
    Reject { reason: Seq<char> },
}

impl View for TrustDecision {
    type V = TrustDecisionView;

    open spec fn view(&self) -> TrustDecisionView {
        match self {
            TrustDecision::Accept => TrustDecisionView::Accept,
            TrustDecision::AcceptWithWarning { reason } => TrustDecisionView::AcceptWithWarning {
                reason: reason@,
            },
            TrustDecision::Reject { reason } => TrustDecisionView::Reject { reason: reason@ },
        }
    }
}

/// The per-invocation trust policy: how chatty to be, and whether chain
/// validation is switched off.  Validation is never skipped by default;
/// the flag must be set explicitly.
#[derive(Debug)]
pub struct TrustPolicy {
    pub verbosity: u8,
    pub skip_validate: bool,
}

impl TrustPolicy {
    pub fn new(verbosity: u8, skip_validate: bool) -> (r: Self)
        ensures
            r.verbosity == verbosity,
            r.skip_validate == skip_validate,
    {
        TrustPolicy { verbosity, skip_validate }
    }

    /// Whether the end-entity certificate's fields are printed before the
    /// decision is made.  They are printed even when the decision will be
    /// to accept.
    pub fn wants_diagnostics(&self) -> (r: bool)
        ensures
            r == (self.verbosity >= 1),
    {
        self.verbosity >= 1
    }

    /// The trust decision for one handshake, given the inner verifier's
    /// outcome on the same chain.  With the skip flag set every chain is
    /// accepted, whatever the inner verifier said of it; without it the
    /// inner verdict stands: a chain it rejected is rejected with the
    /// same reason, and only a chain it accepted is accepted.
    pub fn evaluate(&self, base: Result<(), String>) -> (r: TrustDecision)
        ensures
            self.skip_validate ==> r@ is Accept,
            !self.skip_validate ==> r@ == match base {
                Ok(_) => TrustDecisionView::Accept,
                Err(e) => TrustDecisionView::Reject { reason: e@ },
            },
    {
        if self.skip_validate {
            TrustDecision::Accept
        } else {
            match base {
                Ok(_) => TrustDecision::Accept,
                Err(reason) => TrustDecision::Reject { reason },
            }
        }
    }
}

} // verus!
