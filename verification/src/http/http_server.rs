//! Reading a request from the lines of a connection: the request line, the
//! header lines up to the blank line, the `Content-Length` header and the
//! body lines.
use vstd::prelude::*;

use crate::http::headers::{distinct_names, header_value, insert_header, pairs_map};
use crate::http::request::{method_named, HttpRequest, Method};
use crate::text::{parse_usize, separator_split, split_at_separator, split_whitespace, usize_value, views, words};

verus! {

/// Why a request could not be read.
#[derive(Debug, Clone, PartialEq, Eq)]
pub enum RequestError {
    /// The connection ended before a request line.
    EmptyRequest,
    /// The request line has no method.
    MissingMethod,
    /// The request line has no path.
    MissingPath,
    /// The request line has no version.
    MissingVersion,
    /// The `Content-Length` header is not a `usize`.
    InvalidContentLength,
    /// The method, as written on the request line, names no known method.
    UnsupportedMethod(String),
}

/// The first three words of a request line.
pub struct RequestLine {
    pub method: String,
    pub path: String,
    pub version: String,
}

/// What reading a request line gives: `None` when there was no line.
pub open spec fn request_line_result(line: Option<Seq<char>>) -> Result<(Seq<char>, Seq<char>, Seq<char>), RequestError> {
    match line {
        None => Err(RequestError::EmptyRequest),
        Some(l) => {
            let w = words(l);
            if w.len() == 0 {
                Err(RequestError::MissingMethod)
            } else if w.len() == 1 {
                Err(RequestError::MissingPath)
            } else if w.len() == 2 {
                Err(RequestError::MissingVersion)
            } else {
                Ok((w[0], w[1], w[2]))
            }
        },
    }
}

/// Method, path and version: the first three white-space separated words of
/// the first line of the request; further words are ignored.
pub fn parse_request_line(line: Option<&str>) -> (r: Result<RequestLine, RequestError>)
    ensures
        match r {
            Ok(rl) => request_line_result(
                match line {
                    Some(l) => Some(l@),
                    None => None,
                },
            ) == Ok::<(Seq<char>, Seq<char>, Seq<char>), RequestError>((rl.method@, rl.path@, rl.version@)),
            Err(e) => request_line_result(
                match line {
                    Some(l) => Some(l@),
                    None => None,
                },
            ) == Err::<(Seq<char>, Seq<char>, Seq<char>), RequestError>(e),
        },
{
    let l = match line {
        Some(l) => l,
        None => {
            return Err(RequestError::EmptyRequest);
        },
    };
    let mut parts = split_whitespace(l);
    proof {
        assert(views(parts@).len() == parts@.len());
    }
    if parts.len() == 0 {
        return Err(RequestError::MissingMethod);
    }
    if parts.len() == 1 {
        return Err(RequestError::MissingPath);
    }
    if parts.len() == 2 {
        return Err(RequestError::MissingVersion);
    }
    let ghost w = views(parts@);
    proof {
        assert(w[0] == parts@[0]@);
        assert(w[1] == parts@[1]@);
        assert(w[2] == parts@[2]@);
    }
    parts.truncate(3);
    let version = parts.pop().unwrap();
    let path = parts.pop().unwrap();
    let method = parts.pop().unwrap();
    Ok(RequestLine { method, path, version })
}

/// The header map a run of header lines gives: each line holding `": "` sets
/// the name before it to the text after it, a later line replacing an
/// earlier one; other lines are skipped.
pub open spec fn headers_of(lines: Seq<Seq<char>>) -> Map<Seq<char>, Seq<char>>
    decreases lines.len(),
{
    if lines.len() == 0 {
        Map::empty()
    } else {
        match separator_split(lines.last()) {
            Some((name, value)) => headers_of(lines.drop_last()).insert(name, value),
            None => headers_of(lines.drop_last()),
        }
    }
}

/// The headers of the header lines (those after the request line and before
/// the blank line), no name twice.
pub fn collect_headers(lines: &Vec<String>) -> (r: Vec<(String, String)>)
    ensures
        distinct_names(r@),
        pairs_map(r@) == headers_of(views(lines@)),
{
    let mut headers: Vec<(String, String)> = Vec::new();
    let n = lines.len();
    let mut i: usize = 0;
    proof {
        assert(views(lines@).take(0) =~= Seq::<Seq<char>>::empty());
        assert(pairs_map(headers@) =~= Map::<Seq<char>, Seq<char>>::empty());
    }
    while i < n
        invariant
            n == lines@.len(),
            i <= n,
            distinct_names(headers@),
            pairs_map(headers@) == headers_of(views(lines@).take(i as int)),
        decreases n - i,
    {
        proof {
            assert(views(lines@).take(i + 1).drop_last() =~= views(lines@).take(i as int));
            assert(views(lines@).take(i + 1).last() == lines@[i as int]@);
        }
        match split_at_separator(lines[i].as_str()) {
            Some((name, value)) => {
                insert_header(&mut headers, name, value);
            },
            None => {},
        }
        i += 1;
    }
    proof {
        assert(views(lines@).take(n as int) =~= views(lines@));
    }
    headers
}

/// What the `Content-Length` header of a header map says: no length when
/// there is no such header, the length when its value is a `usize`, an
/// error otherwise.
pub open spec fn content_length_result(m: Map<Seq<char>, Seq<char>>) -> Result<Option<usize>, RequestError> {
    if m.contains_key("Content-Length"@) {
        match usize_value(m["Content-Length"@]) {
            Some(n) => Ok(Some(n)),
            None => Err(RequestError::InvalidContentLength),
        }
    } else {
        Ok(None)
    }
}

/// The length the `Content-Length` header gives, matched on its exact name.
pub fn content_length_of(headers: &Vec<(String, String)>) -> (r: Result<Option<usize>, RequestError>)
    ensures
        r == content_length_result(pairs_map(headers@)),
{
    match header_value(headers, "Content-Length") {
        Some(v) => match parse_usize(v.as_str()) {
            Some(n) => Ok(Some(n)),
            None => Err(RequestError::InvalidContentLength),
        },
        None => Ok(None),
    }
}

/// The lines joined with a line feed between each two.
pub open spec fn joined(lines: Seq<Seq<char>>) -> Seq<char>
    decreases lines.len(),
{
    if lines.len() == 0 {
        Seq::empty()
    } else if lines.len() == 1 {
        lines[0]
    } else {
        joined(lines.drop_last()) + seq!['\n'] + lines.last()
    }
}

/// The body: the lines after the headers, joined with line feeds.
pub fn join_lines(lines: &Vec<String>) -> (r: String)
    ensures
        r@ == joined(views(lines@)),
{
    let mut out = String::new();
    let n = lines.len();
    let mut i: usize = 0;
    proof {
        assert(views(lines@).take(0) =~= Seq::<Seq<char>>::empty());
    }
    while i < n
        invariant
            n == lines@.len(),
            i <= n,
            out@ == joined(views(lines@).take(i as int)),
        decreases n - i,
    {
        let ghost before = out@;
        if i > 0 {
            out.append("\n");
            proof {
                reveal_strlit("\n");
            }
        }
        out.append(lines[i].as_str());
        proof {
            let t = views(lines@).take(i + 1);
            assert(t.drop_last() =~= views(lines@).take(i as int));
            assert(t.last() == lines@[i as int]@);
            if i == 0 {
                assert(out@ =~= joined(t));
            } else {
                assert(out@ =~= joined(t));
            }
        }
        i += 1;
    }
    proof {
        assert(views(lines@).take(n as int) =~= views(lines@));
    }
    out
}

/// The characters of an optional line.
pub open spec fn line_view(line: Option<&str>) -> Option<Seq<char>> {
    match line {
        Some(l) => Some(l@),
        None => None,
    }
}

/// Whether a body follows the header lines: their `Content-Length` header
/// holds a length.
pub open spec fn body_follows_spec(header_lines: Seq<Seq<char>>) -> bool {
    content_length_result(headers_of(header_lines)) matches Ok(Some(_))
}

/// Whether the lines after the blank line are to be read as the body.
pub fn body_follows(header_lines: &Vec<String>) -> (r: bool)
    ensures
        r == body_follows_spec(views(header_lines@)),
{
    let headers = collect_headers(header_lines);
    match content_length_of(&headers) {
        Ok(Some(_)) => true,
        _ => false,
    }
}

/// The request read from a connection whose first line is `first` (none
/// when the connection ended at once), whose header lines are
/// `header_lines` (those before the blank line) and whose remaining lines
/// are `rest` (read only when a body follows). Errors come in this order:
/// the request line, the `Content-Length` header, then an unknown method.
pub fn parse_request(first: Option<&str>, header_lines: &Vec<String>, rest: &Vec<String>) -> (r: Result<HttpRequest, RequestError>)
    ensures
        match request_line_result(line_view(first)) {
            Err(e) => r == Err::<HttpRequest, RequestError>(e),
            Ok((m, p, v)) => match content_length_result(headers_of(views(header_lines@))) {
                Err(e) => r == Err::<HttpRequest, RequestError>(e),
                Ok(cl) => match method_named(m) {
                    None => r matches Err(RequestError::UnsupportedMethod(name)) && name@ == m,
                    Some(method) => r matches Ok(req) && {
                        &&& req.spec_method() == method
                        &&& req.spec_path() == p
                        &&& req.spec_version() == v
                        &&& distinct_names(req.spec_headers())
                        &&& req.header_map() == headers_of(views(header_lines@))
                        &&& req.spec_content_length() == cl
                        &&& req.spec_body() == (if cl is Some {
                            Some(joined(views(rest@)))
                        } else {
                            None::<Seq<char>>
                        })
                    },
                },
            },
        },
{
    let line = match parse_request_line(first) {
        Ok(l) => l,
        Err(e) => {
            return Err(e);
        },
    };
    proof {
        assert(line_view(first) == (match first {
            Some(l) => Some(l@),
            None => None::<Seq<char>>,
        }));
    }
    let headers = collect_headers(header_lines);
    let content_length = match content_length_of(&headers) {
        Ok(cl) => cl,
        Err(e) => {
            return Err(e);
        },
    };
    match Method::from_name(line.method.as_str()) {
        None => Err(RequestError::UnsupportedMethod(line.method)),
        Some(_) => {
            let body = match content_length {
                Some(_) => Some(join_lines(rest)),
                None => None,
            };
            Ok(HttpRequest::new(line.method, line.path, line.version, headers, content_length, body))
        },
    }
}

} // verus!
