//! Reconstruction of the command line from an intent, for the history
//! store.  Single quotes inside values are shell-escaped.

use vstd::prelude::*;
use crate::cli::Cli;
use vstd::string::StrSliceExecFns;
use vstd::string::StringExecFns;

verus! {

/// Shell escape of a value placed inside single quotes: every `'`
/// becomes `'\''`, everything else is kept.
pub open spec fn spec_escape(s: Seq<char>) -> Seq<char>
    decreases s.len(),
{
    if s.len() == 0 {
        Seq::<char>::empty()
    } else {
        spec_escape(s.drop_last()) + (if s.last() == '\'' {
            seq!['\'', '\\', '\'', '\'']
        } else {
            seq![s.last()]
        })
    }
}

/// Escape a value for a single-quoted shell argument.
pub fn escape_squote(s: &str) -> (r: String)
    ensures
        r@ == spec_escape(s@),
{
    let mut out = String::new();
    let slen = s.unicode_len();
    let mut i: usize = 0;
    while i < slen
        invariant
            0 <= i <= slen,
            slen == s@.len(),
            out@ == spec_escape(s@.subrange(0, i as int)),
        decreases slen - i,
    {
        let c = s.get_char(i);
        proof {
            assert(s@.subrange(0, i + 1).drop_last() =~= s@.subrange(0, i as int));
        }
        if c == '\'' {
            out.push('\'');
            out.push('\\');
            out.push('\'');
            out.push('\'');
        } else {
            out.push(c);
        }
        proof {
            assert(out@ =~= spec_escape(s@.subrange(0, i + 1)));
        }
        i = i + 1;
    }
    proof {
        assert(s@.subrange(0, slen as int) =~= s@);
    }
    out
}

/// An optional single-quoted argument: the flag text (which ends with
/// the opening quote), the escaped value, and the closing quote.
pub open spec fn quoted_opt(flag: Seq<char>, v: Option<String>) -> Seq<char> {
    match v {
        Some(s) => flag + spec_escape(s@) + seq!['\''],
        None => Seq::<char>::empty(),
    }
}

/// A repeated single-quoted argument, once per list item, in order.
pub open spec fn quoted_list(flag: Seq<char>, items: Seq<String>) -> Seq<char>
    decreases items.len(),
{
    if items.len() == 0 {
        Seq::<char>::empty()
    } else {
        quoted_list(flag, items.drop_last()) + flag + spec_escape(items.last()@) + seq!['\'']
    }
}

/// A bare flag repeated `n` times.
pub open spec fn rep_flag(flag: Seq<char>, n: int) -> Seq<char>
    decreases n,
{
    if n <= 0 {
        Seq::<char>::empty()
    } else {
        rep_flag(flag, n - 1) + flag
    }
}

/// The bare-flag piece: the text when the flag is set, else nothing.
pub open spec fn flag_piece(b: bool, text: Seq<char>) -> Seq<char> {
    if b {
        text
    } else {
        Seq::<char>::empty()
    }
}

/// The method-override piece.
pub open spec fn method_piece(m: Option<String>) -> Seq<char> {
    match m {
        Some(s) => " -X "@ + s@,
        None => Seq::<char>::empty(),
    }
}

/// The trailing URL piece.
pub open spec fn url_piece(u: Option<String>) -> Seq<char> {
    match u {
        Some(s) => seq![' '] + s@,
        None => Seq::<char>::empty(),
    }
}

/// The command line that reproduces an intent, flag by flag in a fixed
/// order, ending with the URL.  When `with_proxy_time_flags` is set the
/// proxy-bypass and timing switches are included as well.
pub open spec fn spec_command(cli: &Cli, with_proxy_time_flags: bool) -> Seq<char> {
    "rcurl"@ + method_piece(cli.method_option) + quoted_opt(" -d '"@, cli.body_option)
        + quoted_list(" -F '"@, cli.form_option@) + quoted_list(" -H '"@, cli.headers@)
        + quoted_opt(" -c '"@, cli.certificate_path_option) + quoted_opt(
        " -u '"@,
        cli.authority_option,
    ) + quoted_opt(" -A '"@, cli.user_agent_option) + quoted_opt(" -b '"@, cli.cookie_option)
        + quoted_opt(" -e '"@, cli.refer_option) + quoted_opt(" -o '"@, cli.file_path_option)
        + quoted_opt(" -T '"@, cli.uploadfile_option) + quoted_opt(" -Q '"@, cli.quote_option)
        + flag_piece(cli.skip_certificate_validate, " -k"@) + flag_piece(
        cli.header_option,
        " -I"@,
    ) + quoted_opt(" -r '"@, cli.range_option) + rep_flag(" -v"@, cli.verbosity as int)
        + flag_piece(cli.http2, " --http2"@) + flag_piece(
        cli.http2_prior_knowledge,
        " --http2-prior-knowledge"@,
    ) + flag_piece(with_proxy_time_flags && cli.noproxy, " --noproxy"@) + flag_piece(
        with_proxy_time_flags && cli.time,
        " --time"@,
    ) + url_piece(cli.url)
}

fn append_method(out: &mut String, m: &Option<String>)
    ensures
        final(out)@ == old(out)@ + method_piece(*m),
{
    match m {
        Some(s) => {
            out.append(" -X ");
            out.append(s.as_str());
            proof {
                assert(out@ =~= old(out)@ + method_piece(*m));
            }
        },
        None => {
            proof {
                assert(out@ =~= old(out)@ + method_piece(*m));
            }
        },
    }
}

fn append_if(out: &mut String, b: bool, text: &str)
    ensures
        final(out)@ == old(out)@ + flag_piece(b, text@),
{
    if b {
        out.append(text);
    } else {
        proof {
            assert(out@ =~= old(out)@ + flag_piece(b, text@));
        }
    }
}

fn append_url(out: &mut String, u: &Option<String>)
    ensures
        final(out)@ == old(out)@ + url_piece(*u),
{
    match u {
        Some(s) => {
            out.push(' ');
            out.append(s.as_str());
            proof {
                assert(out@ =~= old(out)@ + url_piece(*u));
            }
        },
        None => {
            proof {
                assert(out@ =~= old(out)@ + url_piece(*u));
            }
        },
    }
}

fn append_quoted_opt(out: &mut String, flag: &str, v: &Option<String>)
    ensures
        final(out)@ == old(out)@ + quoted_opt(flag@, *v),
{
    match v {
        Some(s) => {
            out.append(flag);
            let e = escape_squote(s.as_str());
            out.append(e.as_str());
            out.push('\'');
            proof {
                assert(out@ =~= old(out)@ + quoted_opt(flag@, *v));
            }
        },
        None => {
            proof {
                assert(out@ =~= old(out)@ + quoted_opt(flag@, *v));
            }
        },
    }
}

fn append_quoted_list(out: &mut String, flag: &str, items: &Vec<String>)
    ensures
        final(out)@ == old(out)@ + quoted_list(flag@, items@),
{
    let n = items.len();
    let mut i: usize = 0;
    proof {
        assert(items@.subrange(0, 0) =~= Seq::<String>::empty());
        assert(out@ =~= old(out)@ + quoted_list(flag@, items@.subrange(0, 0)));
    }
    while i < n
        invariant
            0 <= i <= n,
            n == items@.len(),
            out@ == old(out)@ + quoted_list(flag@, items@.subrange(0, i as int)),
        decreases n - i,
    {
        out.append(flag);
        let e = escape_squote(items[i].as_str());
        out.append(e.as_str());
        out.push('\'');
        proof {
            assert(items@.subrange(0, i + 1).drop_last() =~= items@.subrange(0, i as int));
            assert(items@.subrange(0, i + 1).last() == items@[i as int]);
            assert(out@ =~= old(out)@ + quoted_list(flag@, items@.subrange(0, i + 1)));
        }
        i = i + 1;
    }
    proof {
        assert(items@.subrange(0, n as int) =~= items@);
    }
}

fn append_rep_flag(out: &mut String, flag: &str, n: u8)
    ensures
        final(out)@ == old(out)@ + rep_flag(flag@, n as int),
{
    let mut k: u8 = 0;
    proof {
        assert(out@ =~= old(out)@ + rep_flag(flag@, 0));
    }
    while k < n
        invariant
            0 <= k <= n,
            out@ == old(out)@ + rep_flag(flag@, k as int),
        decreases n - k,
    {
        out.append(flag);
        proof {
            assert(out@ =~= old(out)@ + rep_flag(flag@, k as int + 1));
        }
        k = k + 1;
    }
}

/// Build the full command line for an intent, proxy-bypass and timing
/// switches included.
pub fn command_from_cli(cli: &Cli) -> (r: String)
    ensures
        r@ == spec_command(cli, true),
{
    command_text(cli, true)
}

/// The shared rendering behind the two history entry points.
pub fn command_text(cli: &Cli, with_proxy_time_flags: bool) -> (r: String)
    ensures
        r@ == spec_command(cli, with_proxy_time_flags),
{
    let mut out = String::new();
    out.append("rcurl");
    let ghost mut g: Seq<char> = "rcurl"@;
    proof {
        assert(out@ =~= g);
    }
    append_method(&mut out, &cli.method_option);
    proof {
        g = g + method_piece(cli.method_option);
    }
    append_quoted_opt(&mut out, " -d '", &cli.body_option);
    proof {
        g = g + quoted_opt(" -d '"@, cli.body_option);
    }
    append_quoted_list(&mut out, " -F '", &cli.form_option);
    proof {
        g = g + quoted_list(" -F '"@, cli.form_option@);
    }
    append_quoted_list(&mut out, " -H '", &cli.headers);
    proof {
        g = g + quoted_list(" -H '"@, cli.headers@);
    }
    append_quoted_opt(&mut out, " -c '", &cli.certificate_path_option);
    proof {
        g = g + quoted_opt(" -c '"@, cli.certificate_path_option);
    }
    append_quoted_opt(&mut out, " -u '", &cli.authority_option);
    proof {
        g = g + quoted_opt(" -u '"@, cli.authority_option);
    }
    append_quoted_opt(&mut out, " -A '", &cli.user_agent_option);
    proof {
        g = g + quoted_opt(" -A '"@, cli.user_agent_option);
    }
    append_quoted_opt(&mut out, " -b '", &cli.cookie_option);
    proof {
        g = g + quoted_opt(" -b '"@, cli.cookie_option);
    }
    append_quoted_opt(&mut out, " -e '", &cli.refer_option);
    proof {
        g = g + quoted_opt(" -e '"@, cli.refer_option);
    }
    append_quoted_opt(&mut out, " -o '", &cli.file_path_option);
    proof {
        g = g + quoted_opt(" -o '"@, cli.file_path_option);
    }
    append_quoted_opt(&mut out, " -T '", &cli.uploadfile_option);
    proof {
        g = g + quoted_opt(" -T '"@, cli.uploadfile_option);
    }
    append_quoted_opt(&mut out, " -Q '", &cli.quote_option);
    proof {
        g = g + quoted_opt(" -Q '"@, cli.quote_option);
    }
    append_if(&mut out, cli.skip_certificate_validate, " -k");
    proof {
        g = g + flag_piece(cli.skip_certificate_validate, " -k"@);
    }
    append_if(&mut out, cli.header_option, " -I");
    proof {
        g = g + flag_piece(cli.header_option, " -I"@);
    }
    append_quoted_opt(&mut out, " -r '", &cli.range_option);
    proof {
        g = g + quoted_opt(" -r '"@, cli.range_option);
    }
    append_rep_flag(&mut out, " -v", cli.verbosity);
    proof {
        g = g + rep_flag(" -v"@, cli.verbosity as int);
    }
    append_if(&mut out, cli.http2, " --http2");
    proof {
        g = g + flag_piece(cli.http2, " --http2"@);
    }
    append_if(&mut out, cli.http2_prior_knowledge, " --http2-prior-knowledge");
    proof {
        g = g + flag_piece(cli.http2_prior_knowledge, " --http2-prior-knowledge"@);
    }
    append_if(&mut out, with_proxy_time_flags && cli.noproxy, " --noproxy");
    proof {
        g = g + flag_piece(with_proxy_time_flags && cli.noproxy, " --noproxy"@);
    }
    append_if(&mut out, with_proxy_time_flags && cli.time, " --time");
    proof {
        g = g + flag_piece(with_proxy_time_flags && cli.time, " --time"@);
    }
    append_url(&mut out, &cli.url);
    proof {
        g = g + url_piece(cli.url);
        assert(out@ == g);
        assert(g == spec_command(cli, with_proxy_time_flags));
    }
    out
}

} // verus!
