//! The request builder: method inference, baseline and user headers,
//! form-field parsing, and the multipart document.
//!
//! Reading upload files is I/O and happens outside; their bytes are
//! handed in.  The multipart boundary nonce comes from the form encoder
//! through one trusted call; everything built on it is verified.

use vstd::prelude::*;
use crate::cli::Cli;
use crate::strutil::{
    first_index, is_prefix_of, lemma_first_index, lower_seq, spec_trim_start, ascii_lower,
    find_char, starts_with, str_eq, trim_start,
};
use crate::urlparse::{clone_string, last_index_of};
use vstd::string::StrSliceExecFns;
use vstd::string::StringExecFns;
use vstd::utf8::encode_utf8;

verus! {

/// What was wrong with the command line; reported before any network
/// activity.
#[derive(Debug)]
pub enum InputError {
    /// A header option without the `name:value` separator.
    MalformedHeader,
    /// A form option without the `name=content` separator.
    MalformedFormField,
    /// An upload path that names no file.
    MissingFileName,
}

/// The User-Agent sent when none is given.
pub open spec fn spec_default_user_agent() -> Seq<char> {
    "rcurl/0.1.0"@
}

/// One wire exchange, ready for framing: the method, the headers in
/// final order, and the body bytes.
pub struct RequestPlan {
    pub method: String,
    pub headers: Vec<(String, String)>,
    pub body: Vec<u8>,
}

/// The method, by the fixed precedence: headers-only wins over an
/// explicit override, which wins over the form (POST), the upload (PUT)
/// and the body (POST); without any of those the method is GET.
pub open spec fn spec_method(
    header_only: bool,
    method_override: Option<Seq<char>>,
    has_form: bool,
    has_upload: bool,
    has_body: bool,
) -> Seq<char> {
    if header_only {
        "HEAD"@
    } else if method_override is Some {
        method_override.unwrap()
    } else if has_form {
        "POST"@
    } else if has_upload {
        "PUT"@
    } else if has_body {
        "POST"@
    } else {
        "GET"@
    }
}

/// Infer the method for one request.
pub fn resolve_method(cli: &Cli, has_form: bool) -> (r: String)
    ensures
        r@ == spec_method(
            cli.header_option,
            match cli.method_option {
                Some(m) => Some(m@),
                None => None,
            },
            has_form,
            cli.uploadfile_option is Some,
            cli.body_option is Some,
        ),
{
    if cli.header_option {
        return "HEAD".to_owned();
    }
    match &cli.method_option {
        Some(m) => {
            return clone_string(m);
        },
        None => {},
    }
    if has_form {
        "POST".to_owned()
    } else if cli.uploadfile_option.is_some() {
        "PUT".to_owned()
    } else if cli.body_option.is_some() {
        "POST".to_owned()
    } else {
        "GET".to_owned()
    }
}

/// A parsed header line: the name lower-cased, the value with leading
/// whitespace removed; nothing when the separator is missing.
pub open spec fn spec_header_parse(line: Seq<char>) -> Option<(Seq<char>, Seq<char>)> {
    let ci = first_index(line, ':');
    if ci >= line.len() {
        None
    } else {
        Some(
            (
                lower_seq(line.subrange(0, ci)),
                spec_trim_start(line.subrange(ci + 1, line.len() as int)),
            ),
        )
    }
}

/// Parse one `name:value` header option.  A line without the separator
/// is a hard input error.
pub fn parse_header_line(line: &str) -> (r: Result<(String, String), InputError>)
    ensures
        match r {
            Ok(p) => spec_header_parse(line@) == Some((p.0@, p.1@)),
            Err(e) => spec_header_parse(line@) is None && e is MalformedHeader,
        },
{
    let llen = line.unicode_len();
    match find_char(line, ':') {
        Some(ci) => {
            let name = ascii_lower(line.substring_char(0, ci));
            let value = trim_start(line.substring_char(ci + 1, llen));
            Ok((name, value))
        },
        None => Err(InputError::MalformedHeader),
    }
}

/// View of a header list.
pub open spec fn headers_view(hs: Seq<(String, String)>) -> Seq<(Seq<char>, Seq<char>)> {
    hs.map_values(|p: (String, String)| (p.0@, p.1@))
}

/// Index of the first header with this name; the length when absent.
pub open spec fn first_key(hs: Seq<(Seq<char>, Seq<char>)>, name: Seq<char>) -> int
    decreases hs.len(),
{
    if hs.len() == 0 {
        0
    } else if hs[0].0 == name {
        0
    } else {
        1 + first_key(hs.drop_first(), name)
    }
}

pub proof fn lemma_first_key_unique(hs: Seq<(Seq<char>, Seq<char>)>, name: Seq<char>, i: int)
    requires
        0 <= i <= hs.len(),
        i < hs.len() ==> hs[i].0 == name,
        forall|j: int| 0 <= j < i ==> hs[j].0 != name,
    ensures
        first_key(hs, name) == i,
    decreases hs.len(),
{
    if hs.len() == 0 {
    } else if hs[0].0 == name {
    } else {
        assert(i >= 1);
        assert forall|j: int| 0 <= j < i - 1 implies hs.drop_first()[j].0 != name by {
            assert(hs.drop_first()[j] == hs[j + 1]);
        }
        lemma_first_key_unique(hs.drop_first(), name, i - 1);
    }
}

/// A header applied to a list: the first header of the same name gets
/// the new value; a new name is appended.
pub open spec fn spec_upsert_one(
    hs: Seq<(Seq<char>, Seq<char>)>,
    name: Seq<char>,
    value: Seq<char>,
) -> Seq<(Seq<char>, Seq<char>)> {
    let i = first_key(hs, name);
    if i < hs.len() {
        hs.update(i, (name, value))
    } else {
        hs.push((name, value))
    }
}

/// The user's header options applied in order to a starting list;
/// nothing when any of them is malformed.
pub open spec fn spec_apply_user(
    hs: Seq<(Seq<char>, Seq<char>)>,
    lines: Seq<String>,
) -> Option<Seq<(Seq<char>, Seq<char>)>>
    decreases lines.len(),
{
    if lines.len() == 0 {
        Some(hs)
    } else {
        match spec_apply_user(hs, lines.drop_last()) {
            None => None,
            Some(h2) => match spec_header_parse(lines.last()@) {
                None => None,
                Some(p) => Some(spec_upsert_one(h2, p.0, p.1)),
            },
        }
    }
}

/// Apply one parsed header to the list.
fn upsert_header(hs: &mut Vec<(String, String)>, name: String, value: String)
    ensures
        headers_view(final(hs)@) == spec_upsert_one(headers_view(old(hs)@), name@, value@),
{
    let n = hs.len();
    let mut i: usize = 0;
    while i < n
        invariant
            0 <= i <= n,
            n == hs@.len(),
            hs@ == old(hs)@,
            forall|j: int| 0 <= j < i ==> #[trigger] old(hs)@[j].0@ != name@,
        decreases n - i,
    {
        if str_eq(hs[i].0.as_str(), name.as_str()) {
            proof {
                assert(headers_view(old(hs)@)[i as int].0 == name@);
                lemma_first_key_unique(headers_view(old(hs)@), name@, i as int);
            }
            let _old = hs.remove(i);
            hs.insert(i, (name, value));
            proof {
                assert(headers_view(hs@) =~= spec_upsert_one(headers_view(old(hs)@), name@, value@));
            }
            return ;
        }
        proof {
            assert(headers_view(old(hs)@)[i as int].0 == old(hs)@[i as int].0@);
        }
        i = i + 1;
    }
    proof {
        assert forall|j: int| 0 <= j < headers_view(old(hs)@).len() implies #[trigger] headers_view(
            old(hs)@,
        )[j].0 != name@ by {
            assert(headers_view(old(hs)@)[j].0 == old(hs)@[j].0@);
        }
        lemma_first_key_unique(headers_view(old(hs)@), name@, n as int);
    }
    hs.push((name, value));
    proof {
        assert(headers_view(hs@) =~= spec_upsert_one(headers_view(old(hs)@), name@, value@));
    }
}

/// The baseline headers, before the user's own: the content type when
/// one is implied, `Accept: */*`, the User-Agent, and the cookie when
/// given.  User headers may override any of them by name.
pub open spec fn spec_baseline(
    ct: Option<Seq<char>>,
    ua: Seq<char>,
    cookie: Option<Seq<char>>,
) -> Seq<(Seq<char>, Seq<char>)> {
    (match ct {
        Some(c) => seq![("content-type"@, c)],
        None => Seq::<(Seq<char>, Seq<char>)>::empty(),
    }) + seq![("accept"@, "*/*"@), ("user-agent"@, ua)] + (match cookie {
        Some(c) => seq![("cookie"@, c)],
        None => Seq::<(Seq<char>, Seq<char>)>::empty(),
    })
}

/// One form part, file contents already read.
pub struct FormPart {
    pub name: String,
    pub filename: Option<String>,
    pub content_type: Option<String>,
    pub data: Vec<u8>,
}

/// Mathematical image of a `FormPart`.
pub struct FormPartView {
    pub name: Seq<char>,
    pub filename: Option<Seq<char>>,
    pub content_type: Option<Seq<char>>,
    pub data: Seq<u8>,
}

impl View for FormPart {
    type V = FormPartView;

    open spec fn view(&self) -> FormPartView {
        FormPartView {
            name: self.name@,
            filename: match self.filename {
                Some(f) => Some(f@),
                None => None,
            },
            content_type: match self.content_type {
                Some(c) => Some(c@),
                None => None,
            },
            data: self.data@,
        }
    }
}

/// The optional filename parameter of a part header.
pub open spec fn spec_filename_piece(f: Option<Seq<char>>) -> Seq<u8> {
    match f {
        Some(fv) => encode_utf8("; filename=\""@) + encode_utf8(fv) + encode_utf8("\""@),
        None => Seq::<u8>::empty(),
    }
}

/// The optional content-type line of a part header.
pub open spec fn spec_ct_piece(c: Option<Seq<char>>) -> Seq<u8> {
    match c {
        Some(cv) => encode_utf8("Content-Type: "@) + encode_utf8(cv) + encode_utf8("\r\n"@),
        None => Seq::<u8>::empty(),
    }
}

/// The bytes of one part: the boundary line, the disposition header
/// with the optional filename, the optional content type, a blank line,
/// the data, and a line break.
pub open spec fn spec_part(b: Seq<char>, p: FormPartView) -> Seq<u8> {
    encode_utf8("--"@) + encode_utf8(b) + encode_utf8("\r\n"@) + encode_utf8(
        "Content-Disposition: form-data; name=\""@,
    ) + encode_utf8(p.name) + encode_utf8("\""@) + spec_filename_piece(p.filename) + encode_utf8(
        "\r\n"@,
    ) + spec_ct_piece(p.content_type) + encode_utf8("\r\n"@) + p.data + encode_utf8("\r\n"@)
}

/// The bytes of a list of parts, in order.
pub open spec fn spec_parts(b: Seq<char>, ps: Seq<FormPartView>) -> Seq<u8>
    decreases ps.len(),
{
    if ps.len() == 0 {
        Seq::<u8>::empty()
    } else {
        spec_parts(b, ps.drop_last()) + spec_part(b, ps.last())
    }
}

/// A whole multipart document: every part, then the closing boundary.
pub open spec fn spec_multipart(b: Seq<char>, ps: Seq<FormPartView>) -> Seq<u8> {
    spec_parts(b, ps) + encode_utf8("--"@) + encode_utf8(b) + encode_utf8("--\r\n"@)
}

/// Append a string's UTF-8 bytes.
fn append_str_bytes(out: &mut Vec<u8>, s: &str)
    ensures
        final(out)@ == old(out)@ + encode_utf8(s@),
{
    let b = s.as_bytes_vec();
    append_bytes(out, &b);
}

/// Append raw bytes.
fn append_bytes(out: &mut Vec<u8>, b: &Vec<u8>)
    ensures
        final(out)@ == old(out)@ + b@,
{
    let n = b.len();
    let mut i: usize = 0;
    while i < n
        invariant
            0 <= i <= n,
            n == b@.len(),
            out@ == old(out)@ + b@.subrange(0, i as int),
        decreases n - i,
    {
        out.push(b[i]);
        proof {
            assert(out@ =~= old(out)@ + b@.subrange(0, i + 1));
        }
        i = i + 1;
    }
    proof {
        assert(b@.subrange(0, n as int) =~= b@);
    }
}

fn append_filename_piece(out: &mut Vec<u8>, f: &Option<String>)
    ensures
        final(out)@ == old(out)@ + spec_filename_piece(match f {
            Some(fv) => Some(fv@),
            None => None,
        }),
{
    match f {
        Some(fv) => {
            append_str_bytes(out, "; filename=\"");
            append_str_bytes(out, fv.as_str());
            append_str_bytes(out, "\"");
            proof {
                assert(out@ =~= old(out)@ + spec_filename_piece(Some(fv@)));
            }
        },
        None => {
            proof {
                assert(out@ =~= old(out)@ + spec_filename_piece(None));
            }
        },
    }
}

fn append_ct_piece(out: &mut Vec<u8>, c: &Option<String>)
    ensures
        final(out)@ == old(out)@ + spec_ct_piece(match c {
            Some(cv) => Some(cv@),
            None => None,
        }),
{
    match c {
        Some(cv) => {
            append_str_bytes(out, "Content-Type: ");
            append_str_bytes(out, cv.as_str());
            append_str_bytes(out, "\r\n");
            proof {
                assert(out@ =~= old(out)@ + spec_ct_piece(Some(cv@)));
            }
        },
        None => {
            proof {
                assert(out@ =~= old(out)@ + spec_ct_piece(None));
            }
        },
    }
}

/// Encode a multipart document from its boundary and parts.
#[verifier::rlimit(100)]
pub fn encode_multipart(boundary: &str, parts: &Vec<FormPart>) -> (r: Vec<u8>)
    ensures
        r@ == spec_multipart(boundary@, parts@.map_values(|p: FormPart| p@)),
{
    let ghost psv = parts@.map_values(|p: FormPart| p@);
    let mut out: Vec<u8> = Vec::new();
    let n = parts.len();
    let mut i: usize = 0;
    proof {
        assert(psv.subrange(0, 0) =~= Seq::<FormPartView>::empty());
        assert(out@ =~= spec_parts(boundary@, psv.subrange(0, 0)));
    }
    while i < n
        invariant
            0 <= i <= n,
            n == parts@.len(),
            psv == parts@.map_values(|p: FormPart| p@),
            out@ == spec_parts(boundary@, psv.subrange(0, i as int)),
        decreases n - i,
    {
        let ghost g0 = out@;
        let p = &parts[i];
        append_str_bytes(&mut out, "--");
        let ghost mut gp: Seq<u8> = encode_utf8("--"@);
        append_str_bytes(&mut out, boundary);
        proof {
            assert(out@ =~= g0 + (gp + encode_utf8(boundary@)));
            gp = gp + encode_utf8(boundary@);
        }
        append_str_bytes(&mut out, "\r\n");
        proof {
            assert(out@ =~= g0 + (gp + encode_utf8("\r\n"@)));
            gp = gp + encode_utf8("\r\n"@);
        }
        append_str_bytes(&mut out, "Content-Disposition: form-data; name=\"");
        proof {
            assert(out@ =~= g0 + (gp + encode_utf8("Content-Disposition: form-data; name=\""@)));
            gp = gp + encode_utf8("Content-Disposition: form-data; name=\""@);
        }
        append_str_bytes(&mut out, p.name.as_str());
        proof {
            assert(out@ =~= g0 + (gp + encode_utf8(p@.name)));
            gp = gp + encode_utf8(p@.name);
        }
        append_str_bytes(&mut out, "\"");
        proof {
            assert(out@ =~= g0 + (gp + encode_utf8("\""@)));
            gp = gp + encode_utf8("\""@);
        }
        append_filename_piece(&mut out, &p.filename);
        proof {
            assert(out@ =~= g0 + (gp + spec_filename_piece(p@.filename)));
            gp = gp + spec_filename_piece(p@.filename);
        }
        append_str_bytes(&mut out, "\r\n");
        proof {
            assert(out@ =~= g0 + (gp + encode_utf8("\r\n"@)));
            gp = gp + encode_utf8("\r\n"@);
        }
        append_ct_piece(&mut out, &p.content_type);
        proof {
            assert(out@ =~= g0 + (gp + spec_ct_piece(p@.content_type)));
            gp = gp + spec_ct_piece(p@.content_type);
        }
        append_str_bytes(&mut out, "\r\n");
        proof {
            assert(out@ =~= g0 + (gp + encode_utf8("\r\n"@)));
            gp = gp + encode_utf8("\r\n"@);
        }
        append_bytes(&mut out, &p.data);
        proof {
            assert(out@ =~= g0 + (gp + p@.data));
            gp = gp + p@.data;
        }
        append_str_bytes(&mut out, "\r\n");
        proof {
            assert(out@ =~= g0 + (gp + encode_utf8("\r\n"@)));
            gp = gp + encode_utf8("\r\n"@);
        }
        proof {
            assert(psv[i as int] == p@);
            assert(gp == spec_part(boundary@, psv[i as int]));
            assert(psv.subrange(0, i + 1).drop_last() =~= psv.subrange(0, i as int));
            assert(psv.subrange(0, i + 1).last() == psv[i as int]);
        }
        i = i + 1;
    }
    proof {
        assert(psv.subrange(0, n as int) =~= psv);
    }
    let ghost g1 = out@;
    append_str_bytes(&mut out, "--");
    append_str_bytes(&mut out, boundary);
    proof {
        assert(out@ =~= g1 + (encode_utf8("--"@) + encode_utf8(boundary@)));
    }
    append_str_bytes(&mut out, "--\r\n");
    proof {
        assert(out@ =~= g1 + (encode_utf8("--"@) + encode_utf8(boundary@) + encode_utf8(
            "--\r\n"@,
        )));
        assert(out@ == spec_multipart(boundary@, psv));
    }
    out
}

/// The fixed beginning of the content type that carries the boundary.
pub open spec fn spec_multipart_prefix() -> Seq<char> {
    "multipart/form-data; boundary="@
}

/// Relies on form_data_builder's `FormData`: its content-type header is
/// the fixed multipart prefix followed by a 68-character boundary nonce
/// built from the clock and a random string, drawn from base64 text
/// padded with `-`, so it never holds a line break or a double quote.
/// Aborts only if the clock sits before the Unix epoch.
#[verifier::external_body]
fn draw_content_type() -> (r: String)
    ensures
        is_prefix_of(spec_multipart_prefix(), r@),
        r@.len() == spec_multipart_prefix().len() + 68,
        forall|j: int|
            spec_multipart_prefix().len() <= j < r@.len() ==> r@[j] != '\r' && r@[j] != '\n'
                && r@[j] != '"',
{
    form_data_builder::FormData::new(Vec::new()).content_type_header()
}

/// A fresh boundary-bearing multipart content type, one per form.
pub fn multipart_content_type() -> (r: String)
    ensures
        is_prefix_of(spec_multipart_prefix(), r@),
        r@.len() == spec_multipart_prefix().len() + 68,
        forall|j: int|
            spec_multipart_prefix().len() <= j < r@.len() ==> r@[j] != '\r' && r@[j] != '\n'
                && r@[j] != '"',
{
    draw_content_type()
}

/// The boundary carried by a multipart content type: what follows the
/// fixed prefix.
pub fn boundary_of_content_type(ct: &str) -> (r: Option<String>)
    ensures
        match r {
            Some(b) => is_prefix_of(spec_multipart_prefix(), ct@) && b@ == ct@.subrange(
                spec_multipart_prefix().len() as int,
                ct@.len() as int,
            ),
            None => !is_prefix_of(spec_multipart_prefix(), ct@),
        },
{
    let prefix: &str = "multipart/form-data; boundary=";
    proof {
        reveal_strlit("multipart/form-data; boundary=");
    }
    if starts_with(ct, prefix) {
        let plen = prefix.unicode_len();
        let clen = ct.unicode_len();
        Some(ct.substring_char(plen, clen).to_owned())
    } else {
        None
    }
}


/// A form option, parsed: either a literal field or a file reference
/// whose contents are still to be read.
pub enum ParsedFormField {
    Field { name: String, value: String },
    FilePath { name: String, path: String },
}

/// `s` without any `@` characters.
pub open spec fn spec_strip_at(s: Seq<char>) -> Seq<char>
    decreases s.len(),
{
    if s.len() == 0 {
        Seq::<char>::empty()
    } else {
        spec_strip_at(s.drop_last()) + (if s.last() == '@' {
            Seq::<char>::empty()
        } else {
            seq![s.last()]
        })
    }
}

fn strip_at(s: &str) -> (r: String)
    ensures
        r@ == spec_strip_at(s@),
{
    let mut out = String::new();
    let slen = s.unicode_len();
    let mut i: usize = 0;
    while i < slen
        invariant
            0 <= i <= slen,
            slen == s@.len(),
            out@ == spec_strip_at(s@.subrange(0, i as int)),
        decreases slen - i,
    {
        let c = s.get_char(i);
        proof {
            assert(s@.subrange(0, i + 1).drop_last() =~= s@.subrange(0, i as int));
        }
        if c != '@' {
            out.push(c);
        }
        proof {
            assert(out@ =~= spec_strip_at(s@.subrange(0, i + 1)));
        }
        i = i + 1;
    }
    proof {
        assert(s@.subrange(0, slen as int) =~= s@);
    }
    out
}

/// A parsed form option: the name before the first `=`; a value whose
/// first character is `@` names a file (with every `@` removed, as the
/// attachment syntax writes one).  No `=` at all is a hard input error.
pub open spec fn spec_form_parse(s: Seq<char>) -> Option<(Seq<char>, bool, Seq<char>)> {
    let ei = first_index(s, '=');
    if ei >= s.len() {
        None
    } else {
        let v = s.subrange(ei + 1, s.len() as int);
        if v.len() > 0 && v[0] == '@' {
            Some((s.subrange(0, ei), true, spec_strip_at(v)))
        } else {
            Some((s.subrange(0, ei), false, v))
        }
    }
}

/// Parse one `name=content` form option.
pub fn parse_form_field(s: &str) -> (r: Result<ParsedFormField, InputError>)
    ensures
        match r {
            Ok(f) => match f {
                ParsedFormField::Field { name, value } => spec_form_parse(s@) == Some(
                    (name@, false, value@),
                ),
                ParsedFormField::FilePath { name, path } => spec_form_parse(s@) == Some(
                    (name@, true, path@),
                ),
            },
            Err(e) => spec_form_parse(s@) is None && e is MalformedFormField,
        },
{
    let slen = s.unicode_len();
    match find_char(s, '=') {
        Some(ei) => {
            let name = s.substring_char(0, ei).to_owned();
            let v = s.substring_char(ei + 1, slen);
            let vlen = v.unicode_len();
            if vlen > 0 && v.get_char(0) == '@' {
                Ok(ParsedFormField::FilePath { name, path: strip_at(v) })
            } else {
                Ok(ParsedFormField::Field { name, value: v.to_owned() })
            }
        },
        None => Err(InputError::MalformedFormField),
    }
}

/// The file name within a path: what follows the last `/`.  A path that
/// ends in `/` names no file.
pub open spec fn spec_file_name(path: Seq<char>) -> Seq<char> {
    path.subrange(last_index_of(path, '/') + 1, path.len() as int)
}

/// The name of the file a path points at; an error when there is none.
pub fn file_name_of(path: &str) -> (r: Result<String, InputError>)
    ensures
        match r {
            Ok(n) => n@ == spec_file_name(path@) && n@.len() > 0,
            Err(e) => spec_file_name(path@).len() == 0 && e is MissingFileName,
        },
{
    let plen = path.unicode_len();
    let start = match crate::urlparse::rfind_char(path, '/') {
        Some(i) => i + 1,
        None => {
            proof {
                crate::urlparse::lemma_last_index_none(path@, '/');
            }
            0
        },
    };
    if start >= plen {
        return Err(InputError::MissingFileName);
    }
    Ok(path.substring_char(start, plen).to_owned())
}

/// The content type guessed for a path, by its extension alone.
pub uninterp spec fn mime_of_path(path: Seq<char>) -> Seq<char>;

/// Relies on mime_guess's `from_path`: the guess reads only the path's
/// extension, and an unknown one falls back to `application/octet-stream`.
#[verifier::external_body]
fn guess_mime(path: &str) -> (r: String)
    ensures
        r@ == mime_of_path(path@),
{
    mime_guess::from_path(path)
        .first()
        .unwrap_or(mime_guess::mime::APPLICATION_OCTET_STREAM)
        .to_string()
}

/// The form part for a file attachment: named by the file, typed by the
/// guessed content type, holding the bytes read from disk.
pub fn form_part_for_file(name: String, path: &str, data: Vec<u8>) -> (r: Result<
    FormPart,
    InputError,
>)
    ensures
        match r {
            Ok(p) => {
                &&& p@.name == name@
                &&& p@.filename == Some(spec_file_name(path@))
                &&& p@.content_type == Some(mime_of_path(path@))
                &&& p@.data == data@
                &&& spec_file_name(path@).len() > 0
            },
            Err(e) => spec_file_name(path@).len() == 0 && e is MissingFileName,
        },
{
    let filename = match file_name_of(path) {
        Ok(n) => n,
        Err(e) => {
            return Err(e);
        },
    };
    let mime = guess_mime(path);
    Ok(FormPart { name, filename: Some(filename), content_type: Some(mime), data })
}

/// The form part for a literal field: no filename, no content type.
pub fn form_part_for_field(name: String, value: &str) -> (r: FormPart)
    ensures
        r@.name == name@,
        r@.filename is None,
        r@.content_type is None,
        r@.data == encode_utf8(value@),
{
    let data = value.as_bytes_vec();
    FormPart { name, filename: None, content_type: None, data }
}

/// The implied content type: the boundary-bearing multipart one for a
/// form, the form-urlencoded one for a literal body, none otherwise.
pub open spec fn spec_implied_ct(
    has_form: bool,
    multipart_ct: Option<Seq<char>>,
    has_body: bool,
) -> Option<Seq<char>> {
    if has_form {
        multipart_ct
    } else if has_body {
        Some("application/x-www-form-urlencoded"@)
    } else {
        None
    }
}

/// The body bytes: the multipart document for a form, the literal body,
/// the upload bytes, or nothing, in that order of precedence.
pub open spec fn spec_plan_body(
    has_form: bool,
    boundary: Seq<char>,
    parts: Seq<FormPartView>,
    body_opt: Option<Seq<char>>,
    upload: Option<Seq<u8>>,
) -> Seq<u8> {
    if has_form {
        spec_multipart(boundary, parts)
    } else {
        match body_opt {
            Some(b) => encode_utf8(b),
            None => match upload {
                Some(u) => u,
                None => Seq::<u8>::empty(),
            },
        }
    }
}

/// Build the wire-ready plan for one hop: the inferred method, the
/// baseline headers with the user's applied over them, and the body.
///
/// The form parts are the parsed form options, file contents already
/// read; `multipart_ct` is the content type drawn for this form, whose
/// boundary the document will carry.  The upload bytes are the contents
/// of the upload file, read outside.
pub fn build_request_plan(
    cli: &Cli,
    upload_bytes: Option<Vec<u8>>,
    form_parts: &Vec<FormPart>,
    multipart_ct: Option<String>,
) -> (r: Result<RequestPlan, InputError>)
    requires
        form_parts@.len() > 0 ==> multipart_ct is Some && is_prefix_of(
            spec_multipart_prefix(),
            multipart_ct.unwrap()@,
        ),
        cli.uploadfile_option is Some ==> upload_bytes is Some,
    ensures
        ({
            let has_form = form_parts@.len() > 0;
            let mct = match multipart_ct {
                Some(c) => Some(c@),
                None => None,
            };
            let base = spec_baseline(
                spec_implied_ct(has_form, mct, cli.body_option is Some),
                match cli.user_agent_option {
                    Some(u) => u@,
                    None => spec_default_user_agent(),
                },
                match cli.cookie_option {
                    Some(c) => Some(c@),
                    None => None,
                },
            );
            match r {
                Ok(plan) => {
                    &&& plan.method@ == spec_method(
                        cli.header_option,
                        match cli.method_option {
                            Some(m) => Some(m@),
                            None => None,
                        },
                        has_form,
                        cli.uploadfile_option is Some,
                        cli.body_option is Some,
                    )
                    &&& spec_apply_user(base, cli.headers@) == Some(headers_view(plan.headers@))
                    &&& plan.body@ == spec_plan_body(
                        has_form,
                        match multipart_ct {
                            Some(c) => c@.subrange(
                                spec_multipart_prefix().len() as int,
                                c@.len() as int,
                            ),
                            None => Seq::<char>::empty(),
                        },
                        form_parts@.map_values(|p: FormPart| p@),
                        match cli.body_option {
                            Some(b) => Some(b@),
                            None => None,
                        },
                        match upload_bytes {
                            Some(u) => Some(u@),
                            None => None,
                        },
                    )
                },
                Err(e) => spec_apply_user(base, cli.headers@) is None && e is MalformedHeader,
            }
        }),
{
    let has_form = form_parts.len() > 0;
    let method = resolve_method(cli, has_form);

    // baseline headers
    let mut headers: Vec<(String, String)> = Vec::new();
    if has_form {
        let ct = match &multipart_ct {
            Some(c) => clone_string(c),
            None => {
                proof {
                    assert(false);
                }
                String::new()
            },
        };
        headers.push(("content-type".to_owned(), ct));
    } else if cli.body_option.is_some() {
        headers.push(
            ("content-type".to_owned(), "application/x-www-form-urlencoded".to_owned()),
        );
    }
    headers.push(("accept".to_owned(), "*/*".to_owned()));
    let ua = match &cli.user_agent_option {
        Some(u) => clone_string(u),
        None => "rcurl/0.1.0".to_owned(),
    };
    headers.push(("user-agent".to_owned(), ua));
    match &cli.cookie_option {
        Some(c) => {
            headers.push(("cookie".to_owned(), clone_string(c)));
        },
        None => {},
    }
    let ghost base = spec_baseline(
        spec_implied_ct(
            has_form,
            match &multipart_ct {
                Some(c) => Some(c@),
                None => None,
            },
            cli.body_option is Some,
        ),
        match &cli.user_agent_option {
            Some(u) => u@,
            None => spec_default_user_agent(),
        },
        match &cli.cookie_option {
            Some(c) => Some(c@),
            None => None,
        },
    );
    proof {
        assert(headers_view(headers@) =~= base);
    }

    // user headers, in order, overriding by name
    let hn = cli.headers.len();
    let mut hi: usize = 0;
    proof {
        assert(cli.headers@.subrange(0, 0) =~= Seq::<String>::empty());
    }
    while hi < hn
        invariant
            0 <= hi <= hn,
            hn == cli.headers@.len(),
            spec_apply_user(base, cli.headers@.subrange(0, hi as int)) == Some(
                headers_view(headers@),
            ),
            base == spec_baseline(
                spec_implied_ct(
                    form_parts@.len() > 0,
                    match &multipart_ct {
                        Some(c) => Some(c@),
                        None => None,
                    },
                    cli.body_option is Some,
                ),
                match &cli.user_agent_option {
                    Some(u) => u@,
                    None => spec_default_user_agent(),
                },
                match &cli.cookie_option {
                    Some(c) => Some(c@),
                    None => None,
                },
            ),
        decreases hn - hi,
    {
        let line = &cli.headers[hi];
        proof {
            assert(cli.headers@.subrange(0, hi + 1).drop_last() =~= cli.headers@.subrange(
                0,
                hi as int,
            ));
            assert(cli.headers@.subrange(0, hi + 1).last() == cli.headers@[hi as int]);
        }
        match parse_header_line(line.as_str()) {
            Ok((name, value)) => {
                upsert_header(&mut headers, name, value);
            },
            Err(e) => {
                proof {
                    lemma_apply_user_fails(base, cli.headers@, hi as int);
                }
                return Err(e);
            },
        }
        hi = hi + 1;
    }
    proof {
        assert(cli.headers@.subrange(0, hn as int) =~= cli.headers@);
    }

    // body
    let body: Vec<u8> = if has_form {
        let ct = match &multipart_ct {
            Some(c) => c,
            None => {
                proof {
                    assert(false);
                }
                return Err(InputError::MalformedHeader);
            },
        };
        match boundary_of_content_type(ct.as_str()) {
            Some(b) => encode_multipart(b.as_str(), form_parts),
            None => {
                proof {
                    assert(false);
                }
                return Err(InputError::MalformedHeader);
            },
        }
    } else {
        match &cli.body_option {
            Some(b) => b.as_str().as_bytes_vec(),
            None => match upload_bytes {
                Some(u) => u,
                None => Vec::new(),
            },
        }
    };

    Ok(RequestPlan { method, headers, body })
}

/// Once some prefix of the header options fails to parse, applying the
/// whole list fails.
proof fn lemma_apply_user_fails(
    base: Seq<(Seq<char>, Seq<char>)>,
    lines: Seq<String>,
    i: int,
)
    requires
        0 <= i < lines.len(),
        spec_header_parse(lines[i]@) is None || spec_apply_user(
            base,
            lines.subrange(0, i),
        ) is None,
    ensures
        spec_apply_user(base, lines) is None,
    decreases lines.len(),
{
    if lines.len() > 0 {
        if i == lines.len() - 1 {
            assert(lines.subrange(0, lines.len() - 1) =~= lines.drop_last());
            assert(lines.last() == lines[i]);
        } else {
            assert(lines.drop_last()[i] == lines[i]);
            assert(lines.drop_last().subrange(0, i) =~= lines.subrange(0, i));
            lemma_apply_user_fails(base, lines.drop_last(), i);
        }
    }
}

} // verus!
