//! Response materialization decisions: headers-only printing, streaming
//! to a file with progress accounting, or buffering for the terminal
//! under a hard size ceiling.

use vstd::prelude::*;
use crate::strutil::{all_digits, dec_value, parse_u64_dec};
use vstd::string::StrSliceExecFns;

verus! {

/// Largest body, in bytes, ever printed to the terminal.  Downloads to a
/// file are not subject to it.
pub const TERMINAL_BODY_CEILING: u64 = 104857600;

/// The value of a `Content-Length` header, when it is a plain decimal
/// number that fits an unsigned 64-bit integer.
pub open spec fn spec_content_length(cl: Option<Seq<char>>) -> Option<u64> {
    match cl {
        Some(s) => if s.len() > 0 && all_digits(s) && dec_value(s) <= u64::MAX {
            Some(dec_value(s) as u64)
        } else {
            None
        },
        None => None,
    }
}

/// Parse a `Content-Length` header value.
pub fn parse_content_length(cl: &Option<String>) -> (r: Option<u64>)
    ensures
        r == spec_content_length(match cl {
            Some(s) => Some(s@),
            None => None,
        }),
{
    match cl {
        Some(s) => parse_u64_dec(s.as_str()),
        None => None,
    }
}

/// How the final response is rendered.
pub enum MaterializePlan {
    /// Print the status line and headers; the body is not read.
    HeadersOnly,
    /// Stream the body to this file, in chunks, with progress accounting
    /// against the expected length (zero when the header is missing or
    /// unreadable).  The file is created or truncated, never appended.
    StreamToFile { path: String, expected_len: u64 },
    /// Buffer the whole body and print it as text.
    BufferAndPrint,
    /// The declared body exceeds the terminal ceiling and no file was
    /// given: refuse with a guidance error; nothing reaches the terminal.
    RefuseTooLarge,
}

/// Mathematical image of a `MaterializePlan`.
pub enum MaterializePlanView {
    HeadersOnly,
    StreamToFile { path: Seq<char>, expected_len: u64 },
    BufferAndPrint,
    RefuseTooLarge,
}

impl View for MaterializePlan {
    type V = MaterializePlanView;

    open spec fn view(&self) -> MaterializePlanView {
        match self {
            MaterializePlan::HeadersOnly => MaterializePlanView::HeadersOnly,
            MaterializePlan::StreamToFile { path, expected_len } => {
                MaterializePlanView::StreamToFile {
                    path: path@,
                    expected_len: *expected_len,
                }
            },
            MaterializePlan::BufferAndPrint => MaterializePlanView::BufferAndPrint,
            MaterializePlan::RefuseTooLarge => MaterializePlanView::RefuseTooLarge,
        }
    }
}

/// The materialization plan: headers-only wins over everything and never
/// reads the body; a file sink streams whatever the declared length; a
/// terminal sink takes the body only under the ceiling.
pub open spec fn spec_materialize_plan(
    header_only: bool,
    file_path: Option<Seq<char>>,
    content_length: Option<Seq<char>>,
) -> MaterializePlanView {
    if header_only {
        MaterializePlanView::HeadersOnly
    } else {
        match file_path {
            Some(p) => MaterializePlanView::StreamToFile {
                path: p,
                expected_len: match spec_content_length(content_length) {
                    Some(n) => n,
                    None => 0,
                },
            },
            None => match spec_content_length(content_length) {
                Some(n) => if n > TERMINAL_BODY_CEILING {
                    MaterializePlanView::RefuseTooLarge
                } else {
                    MaterializePlanView::BufferAndPrint
                },
                None => MaterializePlanView::BufferAndPrint,
            },
        }
    }
}

/// Decide how to materialize the final response.
pub fn plan_materialization(
    header_only: bool,
    file_path: &Option<String>,
    content_length: &Option<String>,
) -> (r: MaterializePlan)
    ensures
        r@ == spec_materialize_plan(
            header_only,
            match file_path {
                Some(p) => Some(p@),
                None => None,
            },
            match content_length {
                Some(c) => Some(c@),
                None => None,
            },
        ),
{
    if header_only {
        return MaterializePlan::HeadersOnly;
    }
    let cl = parse_content_length(content_length);
    match file_path {
        Some(p) => MaterializePlan::StreamToFile {
            path: crate::urlparse::clone_string(p),
            expected_len: match cl {
                Some(n) => n,
                None => 0,
            },
        },
        None => match cl {
            Some(n) => if n > TERMINAL_BODY_CEILING {
                MaterializePlan::RefuseTooLarge
            } else {
                MaterializePlan::BufferAndPrint
            },
            None => MaterializePlan::BufferAndPrint,
        },
    }
}

/// What happens to a buffered body at the terminal: valid text is
/// printed; anything else produces a warning pointing at the file sink,
/// and the invocation still ends successfully — content is withheld, not
/// failed.
pub enum PrintAction {
    PrintBody,
    WarnNotUtf8,
}

/// Decide the terminal action from the body's UTF-8 validity.
pub fn terminal_print_action(utf8_ok: bool) -> (r: PrintAction)
    ensures
        utf8_ok ==> r is PrintBody,
        !utf8_ok ==> r is WarnNotUtf8,
{
    if utf8_ok {
        PrintAction::PrintBody
    } else {
        PrintAction::WarnNotUtf8
    }
}

/// Download progress: how many bytes have been counted against the
/// expected total.  The position never passes the total, so a progress
/// bar driven by it reaches its end exactly at completion.
pub struct ProgressState {
    pub downloaded: u64,
    pub total: u64,
}

pub open spec fn min_u64(a: int, b: int) -> int {
    if a <= b {
        a
    } else {
        b
    }
}

impl ProgressState {
    pub fn new(total: u64) -> (r: Self)
        ensures
            r.downloaded == 0,
            r.total == total,
    {
        ProgressState { downloaded: 0, total }
    }

    /// Count one chunk.  The position is clamped to the total, and the
    /// result says whether this very chunk completed the download — true
    /// at most once over any run.
    pub fn advance(&mut self, chunk: u64) -> (completed_now: bool)
        ensures
            final(self).total == old(self).total,
            final(self).downloaded == min_u64(old(self).downloaded + chunk, old(self).total as int),
            completed_now == (old(self).downloaded < old(self).total && final(self).downloaded
                == final(self).total),
    {
        let before = self.downloaded;
        if before >= self.total || chunk >= self.total - before {
            self.downloaded = self.total;
        } else {
            self.downloaded = before + chunk;
        }
        before < self.total && self.downloaded == self.total
    }
}

/// Sum of a sequence of chunk lengths.
pub open spec fn sum_chunks(s: Seq<u64>) -> int
    decreases s.len(),
{
    if s.len() == 0 {
        0
    } else {
        sum_chunks(s.drop_last()) + s.last()
    }
}

pub proof fn lemma_sum_chunks_nonneg(s: Seq<u64>)
    ensures
        sum_chunks(s) >= 0,
    decreases s.len(),
{
    if s.len() > 0 {
        lemma_sum_chunks_nonneg(s.drop_last());
    }
}

/// Run the progress accounting over a whole download.  Returns the final
/// position and how many times the bar completed: the position is the
/// sum of the chunks clamped to the total, and completion is reported
/// exactly once when the chunks cover a non-empty total, never else.
pub fn run_download(total: u64, chunks: &Vec<u64>) -> (r: (u64, usize))
    ensures
        r.0 == min_u64(sum_chunks(chunks@), total as int),
        r.1 == if total > 0 && sum_chunks(chunks@) >= total as int {
            1int
        } else {
            0int
        },
{
    let mut st = ProgressState::new(total);
    let mut completions: usize = 0;
    let mut i: usize = 0;
    let n = chunks.len();
    proof {
        assert(chunks@.subrange(0, 0) =~= Seq::<u64>::empty());
    }
    while i < n
        invariant
            0 <= i <= n,
            n == chunks@.len(),
            st.total == total,
            st.downloaded == min_u64(sum_chunks(chunks@.subrange(0, i as int)), total as int),
            completions == if total > 0 && sum_chunks(chunks@.subrange(0, i as int))
                >= total as int {
                1int
            } else {
                0int
            },
        decreases n - i,
    {
        let c = chunks[i];
        proof {
            assert(chunks@.subrange(0, i + 1).drop_last() =~= chunks@.subrange(0, i as int));
            lemma_sum_chunks_nonneg(chunks@.subrange(0, i as int));
        }
        let done = st.advance(c);
        if done {
            completions = completions + 1;
        }
        i = i + 1;
    }
    proof {
        assert(chunks@.subrange(0, n as int) =~= chunks@);
    }
    (st.downloaded, completions)
}

} // verus!
