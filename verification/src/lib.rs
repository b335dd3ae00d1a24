//! A verified model of a command-line HTTP client's request pipeline.
//!
//! The library covers the decision logic of the pipeline: URL handling and
//! redirect resolution, proxy selection and bypass rules, trust policy for
//! TLS handshakes, request building, response materialization, and phase
//! timing.  I/O (sockets, TLS, files, the terminal) lives outside; the
//! functions here take plain values in and hand plain values back.

pub mod certinfo;
pub mod cli;
pub mod connector;
pub mod disk;
pub mod dns;
pub mod history;
pub mod materialize;
pub mod port;
pub mod proxy;
pub mod redirect;
pub mod request;
pub mod strutil;
pub mod timing;
pub mod trust;
pub mod urlparse;
pub mod whois;

use vstd::prelude::*;

verus! {

/// Largest number of request/response exchanges one invocation may perform
/// while following redirects.
pub const MAX_REDIRECTS: u8 = 10;

} // verus!
