//! The per-invocation request intent: everything the command line said,
//! as plain values.  Argument parsing itself happens outside; this type
//! is what the pipeline reads.

use vstd::prelude::*;

verus! {

/// One invocation's intent.  Built once from the command line; the
/// pipeline never changes it — only the effective URL moves during the
/// redirect loop.
pub struct Cli {
    /// The request URL.
    pub url: Option<String>,
    /// Explicit method override; wins over every inferred method except
    /// the headers-only one.
    pub method_option: Option<String>,
    /// Literal request body.
    pub body_option: Option<String>,
    /// Multipart form fields, each `name=content` or `name=@file`.
    pub form_option: Vec<String>,
    /// Extra headers, each `name:value`.
    pub headers: Vec<String>,
    /// Path of a PEM bundle that replaces the system trust store.
    pub certificate_path_option: Option<String>,
    /// `user:password` for protocols that authenticate.
    pub authority_option: Option<String>,
    /// User-Agent to send instead of the default.
    pub user_agent_option: Option<String>,
    /// Cookie header value.
    pub cookie_option: Option<String>,
    /// Referrer URL.
    pub refer_option: Option<String>,
    /// Write the body to this file instead of the terminal.
    pub file_path_option: Option<String>,
    /// Upload this local file as the request body.
    pub uploadfile_option: Option<String>,
    /// Command sent to the server before transfer.
    pub quote_option: Option<String>,
    /// Accept any server certificate; never the default.
    pub skip_certificate_validate: bool,
    /// Ask only for the response status line and headers.
    pub header_option: bool,
    /// Byte range to retrieve.
    pub range_option: Option<String>,
    /// Verbosity: 0 quiet, 1 debug, 2 and above trace.
    pub verbosity: u8,
    /// Negotiate HTTP/2 besides HTTP/1.1.
    pub http2: bool,
    /// Speak HTTP/2 without negotiation.
    pub http2_prior_knowledge: bool,
    /// Skip any configured proxy for this request.
    pub noproxy: bool,
    /// Record and report phase timings.
    pub time: bool,
}

impl Cli {
    /// An intent with nothing set: a plain GET once a URL is given.
    pub fn new() -> (r: Cli)
        ensures
            r.url is None,
            r.method_option is None,
            r.body_option is None,
            r.form_option@.len() == 0,
            r.headers@.len() == 0,
            r.certificate_path_option is None,
            r.authority_option is None,
            r.user_agent_option is None,
            r.cookie_option is None,
            r.refer_option is None,
            r.file_path_option is None,
            r.uploadfile_option is None,
            r.quote_option is None,
            !r.skip_certificate_validate,
            !r.header_option,
            r.range_option is None,
            r.verbosity == 0,
            !r.http2,
            !r.http2_prior_knowledge,
            !r.noproxy,
            !r.time,
    {
        Cli {
            url: None,
            method_option: None,
            body_option: None,
            form_option: Vec::new(),
            headers: Vec::new(),
            certificate_path_option: None,
            authority_option: None,
            user_agent_option: None,
            cookie_option: None,
            refer_option: None,
            file_path_option: None,
            uploadfile_option: None,
            quote_option: None,
            skip_certificate_validate: false,
            header_option: false,
            range_option: None,
            verbosity: 0,
            http2: false,
            http2_prior_knowledge: false,
            noproxy: false,
            time: false,
        }
    }
}

} // verus!
