//! Marker types for the connection layer.  The I/O they drive lives
//! outside; the types themselves carry the configuration the pipeline
//! decided on.

use vstd::prelude::*;

verus! {

/// A resolver that reports every address it resolves before handing the
/// addresses on.  Resolution itself is I/O and happens outside; the type
/// carries no state.
pub struct DnsLoggingResolver;

impl DnsLoggingResolver {
    pub fn new() -> DnsLoggingResolver {
        DnsLoggingResolver
    }
}

} // verus!
