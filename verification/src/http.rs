//! The HTTP exchange, textual side: serializing the one request this
//! library sends, and decomposing raw response text into a status code,
//! headers, and a body. Only a missing or unparsable status line is a
//! hard failure; a header line without a colon is skipped, and any status
//! code yields a response for the caller to judge.

use vstd::prelude::*;

use crate::text::{
    find_from, is_blank_line, joined_from, lemma_find_from, lines_from, parsed_u16, tokens_from,
    trimmed,
};

verus! {

/// Failure of one request/response exchange.
#[derive(Clone, Copy, PartialEq, Eq, Structural, Debug)]
pub enum ExchangeError {
    /// The request could not be written in full.
    WriteFailed,
    /// The response bytes could not be read.
    ReadFailed,
    /// The response has no syntactically valid status line.
    MalformedStatusLine,
}

/// One parsed response: the status code, the headers in order of arrival
/// with names as received, and the body verbatim.
#[derive(Debug)]
pub struct HttpResponse {
    pub status: u16,
    pub headers: Vec<(String, String)>,
    pub body: String,
}

/// The mathematical shape of a parsed response.
pub ghost struct ResponseModel {
    pub status: u16,
    pub headers: Seq<(Seq<char>, Seq<char>)>,
    pub body: Seq<char>,
}

impl View for HttpResponse {
    type V = ResponseModel;

    open spec fn view(&self) -> ResponseModel {
        ResponseModel {
            status: self.status,
            headers: self.headers.deep_view(),
            body: self.body@,
        }
    }
}

/// A header line split at its first colon: name and value, each with
/// surrounding blanks trimmed; nothing when the line has no colon.
pub open spec fn header_of(l: Seq<char>) -> Option<(Seq<char>, Seq<char>)> {
    let j = find_from(l, 0, ':');
    if j < l.len() {
        Some((trimmed(l.take(j)), trimmed(l.skip(j + 1))))
    } else {
        None
    }
}

/// Index of the first blank line at or after `i`; `lines.len()` when
/// there is none.
pub open spec fn blank_from(lines: Seq<Seq<char>>, i: int) -> int
    decreases lines.len() - i,
{
    if i < 0 || i >= lines.len() {
        lines.len() as int
    } else if is_blank_line(lines[i]) {
        i
    } else {
        blank_from(lines, i + 1)
    }
}

/// The headers among `lines` from `i` up to the first blank line: each
/// line with a colon contributes its name/value pair, the rest are
/// skipped.
pub open spec fn headers_from(lines: Seq<Seq<char>>, i: int) -> Seq<(Seq<char>, Seq<char>)>
    decreases lines.len() - i,
{
    if i < 0 || i >= lines.len() || is_blank_line(lines[i]) {
        Seq::empty()
    } else {
        (match header_of(lines[i]) {
            Some(h) => seq![h],
            None => Seq::empty(),
        }) + headers_from(lines, i + 1)
    }
}

/// What parsing a status line yields: its blank-separated tokens read as
/// a version, a decimal status code, and a reason (the remaining tokens,
/// joined by single spaces); nothing when there are fewer than three
/// tokens or the status token is not an unsigned sixteen-bit numeral.
pub open spec fn status_line_of(l: Seq<char>) -> Option<(u16, Seq<char>, Seq<char>)> {
    let toks = tokens_from(l, 0);
    if toks.len() >= 3 {
        match parsed_u16(toks[1]) {
            Some(v) => Some((v, toks[0], joined_from(toks, 2, seq![' ']))),
            None => None,
        }
    } else {
        None
    }
}

/// The body of a response: every line after the first blank line past
/// the status line, rejoined by newlines; empty when no blank line ends
/// the headers.
pub open spec fn body_of(lines: Seq<Seq<char>>) -> Seq<char> {
    joined_from(lines, blank_from(lines, 1) + 1, seq!['\n'])
}

/// What parsing a whole raw response yields: nothing without a valid
/// status line, else the status code, the headers up to the first blank
/// line, and the body after it.
pub open spec fn response_of(s: Seq<char>) -> Option<ResponseModel> {
    let lines = lines_from(s, 0);
    if lines.len() == 0 {
        None
    } else {
        match status_line_of(lines[0]) {
            Some(st) => Some(
                ResponseModel {
                    status: st.0,
                    headers: headers_from(lines, 1),
                    body: body_of(lines),
                },
            ),
            None => None,
        }
    }
}

/// Split a header line at its first colon into a trimmed name and value;
/// a line with no colon yields nothing.
pub fn parse_header(header_line: &str) -> (r: Option<(String, String)>)
    ensures
        match r {
            Some(h) => header_of(header_line@) == Some((h.0@, h.1@)),
            None => header_of(header_line@) is None,
        },
{
    let n: usize = header_line.unicode_len();
    let j = crate::text::find_char_from(header_line, 0, ':');
    proof {
        lemma_find_from(header_line@, 0, ':');
    }
    if j == n {
        return None;
    }
    let name = crate::text::trim_str(header_line.substring_char(0, j));
    let value = crate::text::trim_str(header_line.substring_char(j + 1, n));
    proof {
        assert(header_line@.subrange(0, j as int) =~= header_line@.take(j as int));
        assert(header_line@.subrange(j + 1, n as int) =~= header_line@.skip(j + 1));
    }
    Some((name, value))
}

/// Parse a status line: at least three blank-separated tokens, read as
/// version, decimal status code, and reason; the reason is the remaining
/// tokens joined by single spaces.
pub fn parse_status_line(status_line: &str) -> (r: Option<(u16, String, String)>)
    ensures
        match r {
            Some(t) => status_line_of(status_line@) == Some((t.0, t.1@, t.2@)),
            None => status_line_of(status_line@) is None,
        },
{
    let toks = crate::text::split_tokens(status_line);
    if toks.len() < 3 {
        return None;
    }
    proof {
        assert(toks.deep_view()[1] == toks@[1]@);
        assert(toks.deep_view()[0] == toks@[0]@);
    }
    let status = match crate::text::parse_u16(toks[1].as_str()) {
        Some(v) => v,
        None => {
            return None;
        },
    };
    let version = String::from_str(toks[0].as_str());
    let reason = crate::text::join_with(&toks, 2, " ");
    proof {
        reveal_strlit(" ");
        assert(" "@ =~= seq![' ']);
    }
    Some((status, version, reason))
}

/// Whether a line is blank: nothing but blanks in it.
fn line_blank(l: &String) -> (b: bool)
    ensures
        b == is_blank_line(l@),
{
    let t = crate::text::trim_str(l.as_str());
    t.as_str().is_empty()
}

/// Decompose raw response text: the first line must parse as a status
/// line, the lines up to the first blank line are headers (lenient: a
/// line without a colon is skipped), and the rest, rejoined, is the
/// body. Any status code yields a response; only a missing or unparsable
/// status line fails.
pub fn parse_http_response(response: &str) -> (r: Result<HttpResponse, ExchangeError>)
    ensures
        match r {
            Ok(resp) => response_of(response@) == Some(resp@),
            Err(e) => response_of(response@) is None && e == ExchangeError::MalformedStatusLine,
        },
{
    let lines = crate::text::split_lines(response);
    let ghost model = lines.deep_view();
    let n: usize = lines.len();
    if n == 0 {
        return Err(ExchangeError::MalformedStatusLine);
    }
    proof {
        assert(model[0] == lines@[0]@);
    }
    let first = match parse_status_line(lines[0].as_str()) {
        Some(t) => t,
        None => {
            return Err(ExchangeError::MalformedStatusLine);
        },
    };
    let status = first.0;
    let mut headers: Vec<(String, String)> = Vec::new();
    let mut i: usize = 1;
    while i < n && !line_blank(&lines[i])
        invariant
            1 <= i <= n,
            n == lines@.len(),
            model == lines.deep_view(),
            headers_from(model, 1) == headers.deep_view() + headers_from(model, i as int),
            blank_from(model, 1) == blank_from(model, i as int),
        decreases n - i,
    {
        proof {
            assert(model[i as int] == lines@[i as int]@);
        }
        match parse_header(lines[i].as_str()) {
            Some(h) => {
                headers.push(h);
                proof {
                    assert(headers_from(model, 1) =~= headers.deep_view() + headers_from(
                        model,
                        i + 1,
                    ));
                }
            },
            None => {
                proof {
                    assert(headers_from(model, 1) =~= headers.deep_view() + headers_from(
                        model,
                        i + 1,
                    ));
                }
            },
        }
        i = i + 1;
    }
    proof {
        if i < n {
            assert(model[i as int] == lines@[i as int]@);
        }
        assert(headers_from(model, i as int) =~= Seq::<(Seq<char>, Seq<char>)>::empty());
        assert(headers.deep_view() =~= headers.deep_view() + headers_from(model, i as int));
        assert(blank_from(model, 1) == i as int || (i == n && blank_from(model, 1) == n as int));
    }
    let body: String = if i < n {
        let b = crate::text::join_with(&lines, i + 1, "\n");
        proof {
            reveal_strlit("\n");
            assert("\n"@ =~= seq!['\n']);
        }
        b
    } else {
        String::new()
    };
    Ok(HttpResponse { status, headers, body })
}

/// The one request this library sends for a resolved address: a
/// retrieval request line whose path is root-anchored, a Host header, a
/// fixed identifying agent header, and the blank terminator.
pub open spec fn request_of(host: Seq<char>, path: Seq<char>) -> Seq<char> {
    "GET /"@ + path + " HTTP/1.1\r\nHost: "@ + host + "\r\nUser-Agent: Browser\r\n\r\n"@
}

/// Serialize the request for `host` and `path`. The wire path is always
/// root-anchored: an empty `path` asks for the root.
pub fn build_request(host: &str, path: &str) -> (r: String)
    ensures
        r@ == request_of(host@, path@),
{
    let mut r = String::from_str("GET /");
    r.append(path);
    r.append(" HTTP/1.1\r\nHost: ");
    r.append(host);
    r.append("\r\nUser-Agent: Browser\r\n\r\n");
    r
}

} // verus!
