//! An HTTP response and its text on the wire.
use vstd::prelude::*;

use crate::http::headers::distinct_names;
use crate::text::{ascii_lowercase, decimal, lower_eq, push_decimal};

verus! {

/// A response: status, headers (name/value pairs of the header map, no
/// name twice, written in this order) and an optional body.
pub struct HttpResponse {
    status_code: u8,
    status_text: String,
    headers: Vec<(String, String)>,
    body: Option<String>,
}

/// The header lines of a response: `name: value` and a carriage return and
/// line feed for each pair, in order, leaving out any pair named
/// `Content-Length` in whatever case.
pub open spec fn header_lines(h: Seq<(String, String)>) -> Seq<char>
    decreases h.len(),
{
    if h.len() == 0 {
        Seq::empty()
    } else {
        let (k, v) = h.last();
        header_lines(h.drop_last()) + if ascii_lowercase(k@) == "content-length"@ {
            Seq::empty()
        } else {
            k@ + ": "@ + v@ + "\r\n"@
        }
    }
}

/// The text of a response: the status line, the header lines, a
/// `Content-Length` line giving the body's length in UTF-8 bytes, a blank
/// line and the body.
pub open spec fn response_text(code: u8, text: Seq<char>, headers: Seq<(String, String)>, body: Seq<char>) -> Seq<char> {
    "HTTP/1.1 "@ + decimal(code as nat) + " "@ + text + "\r\n"@ + header_lines(headers) + "Content-Length: "@
        + decimal(vstd::utf8::encode_utf8(body).len()) + "\r\n"@ + "\r\n"@ + body
}

impl HttpResponse {
    pub closed spec fn spec_status_code(&self) -> u8 {
        self.status_code
    }

    pub closed spec fn spec_status_text(&self) -> Seq<char> {
        self.status_text@
    }

    pub closed spec fn spec_headers(&self) -> Seq<(String, String)> {
        self.headers@
    }

    pub closed spec fn spec_body(&self) -> Option<Seq<char>> {
        match &self.body {
            Some(b) => Some(b@),
            None => None,
        }
    }

    /// The body, or nothing when there is none.
    pub open spec fn body_text(&self) -> Seq<char> {
        match self.spec_body() {
            Some(b) => b,
            None => Seq::empty(),
        }
    }

    pub fn new(status_code: u8, status_text: String, headers: Vec<(String, String)>, body: Option<String>) -> (r: HttpResponse)
        requires
            distinct_names(headers@),
        ensures
            r.spec_status_code() == status_code,
            r.spec_status_text() == status_text@,
            r.spec_headers() == headers@,
            r.spec_body() == (match &body {
                Some(b) => Some(b@),
                None => None::<Seq<char>>,
            }),
    {
        HttpResponse { status_code, status_text, headers, body }
    }

    /// The response as text, ready to be written to the connection; a
    /// `Content-Length` header of the response is replaced by the body's
    /// actual length. (The length of a body held in memory always fits a
    /// `usize`.)
    pub fn format_response(response: HttpResponse) -> (r: String)
        requires
            vstd::utf8::encode_utf8(response.body_text()).len() <= usize::MAX,
        ensures
            r@ == response_text(
                response.spec_status_code(),
                response.spec_status_text(),
                response.spec_headers(),
                response.body_text(),
            ),
    {
        let body_str = match response.body {
            Some(b) => b,
            None => String::new(),
        };
        let content_length = body_str.as_str().len();
        proof {
            reveal_strlit("HTTP/1.1 ");
            reveal_strlit(" ");
            reveal_strlit("\r\n");
            reveal_strlit(": ");
            reveal_strlit("Content-Length: ");
        }
        let mut text = String::new();
        text.append("HTTP/1.1 ");

        push_decimal(&mut text, response.status_code as usize);
        text.append(" ");
        text.append(response.status_text.as_str());
        text.append("\r\n");
        let ghost head = text@;

        let headers = &response.headers;
        let n = headers.len();
        let mut i: usize = 0;
        proof {
            assert(headers@.take(0) =~= Seq::<(String, String)>::empty());
            assert(text@ =~= head + header_lines(headers@.take(0)));
        }
        while i < n
            invariant
                n == headers@.len(),
                i <= n,
                text@ == head + header_lines(headers@.take(i as int)),
            decreases n - i,
        {
            let ghost before = text@;
            let (key, value) = (&headers[i].0, &headers[i].1);
            if !lower_eq(key.as_str(), "content-length") {
                text.append(key.as_str());
                text.append(": ");
                text.append(value.as_str());
                text.append("\r\n");
            }
            proof {
                reveal_strlit("content-length");
                let t = headers@.take(i + 1);
                assert(t.drop_last() =~= headers@.take(i as int));
                assert(t.last() == headers@[i as int]);
                assert(text@ =~= head + header_lines(t));
            }
            i += 1;
        }
        proof {
            assert(headers@.take(n as int) =~= headers@);
        }
        text.append("Content-Length: ");
        push_decimal(&mut text, content_length);
        text.append("\r\n");
        text.append("\r\n");
        text.append(body_str.as_str());
        proof {
            assert(text@ =~= response_text(
                response.spec_status_code(),
                response.spec_status_text(),
                response.spec_headers(),
                response.body_text(),
            ));
        }
        text
    }
}

} // verus!
