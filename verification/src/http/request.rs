//! An HTTP request: its method, target, version, headers and body.
use vstd::prelude::*;

use crate::http::headers::{distinct_names, pairs_map};

verus! {

/// The request methods this server knows.
#[derive(Debug, Clone, Copy, PartialEq, Eq, Structural)]
pub enum Method {
    Get,
    Post,
    Put,
    Delete,
    Head,
    Options,
    Trace,
    Connect,
    Patch,
}

/// What the Unicode uppercase of `c` contributes when it is compared with
/// an ASCII word. A small ASCII letter gives its capital; the dotless `ı`
/// and the long `ſ` give `I` and `S`; `ß` and the Latin ligatures give
/// their capital letters. Every other character stands for itself: either
/// it is ASCII and already its own uppercase, or its uppercase holds a
/// character outside ASCII, which no ASCII word matches either.
pub open spec fn upper_char(c: char) -> Seq<char> {
    if 'a' <= c && c <= 'z' {
        seq![((c as u32) - 32) as char]
    } else if c == '\u{131}' {
        seq!['I']
    } else if c == '\u{17f}' {
        seq!['S']
    } else if c == '\u{df}' {
        seq!['S', 'S']
    } else if c == '\u{fb00}' {
        seq!['F', 'F']
    } else if c == '\u{fb01}' {
        seq!['F', 'I']
    } else if c == '\u{fb02}' {
        seq!['F', 'L']
    } else if c == '\u{fb03}' {
        seq!['F', 'F', 'I']
    } else if c == '\u{fb04}' {
        seq!['F', 'F', 'L']
    } else if c == '\u{fb05}' || c == '\u{fb06}' {
        seq!['S', 'T']
    } else {
        seq![c]
    }
}

/// The uppercase of `s`, as far as a comparison with an ASCII word sees it.
pub open spec fn upper_text(s: Seq<char>) -> Seq<char>
    decreases s.len(),
{
    if s.len() == 0 {
        Seq::empty()
    } else {
        upper_text(s.drop_last()) + upper_char(s.last())
    }
}

/// The method whose name is the uppercase of `name`.
pub open spec fn method_named(name: Seq<char>) -> Option<Method> {
    let u = upper_text(name);
    if u == "GET"@ {
        Some(Method::Get)
    } else if u == "POST"@ {
        Some(Method::Post)
    } else if u == "PUT"@ {
        Some(Method::Put)
    } else if u == "DELETE"@ {
        Some(Method::Delete)
    } else if u == "HEAD"@ {
        Some(Method::Head)
    } else if u == "OPTIONS"@ {
        Some(Method::Options)
    } else if u == "TRACE"@ {
        Some(Method::Trace)
    } else if u == "CONNECT"@ {
        Some(Method::Connect)
    } else if u == "PATCH"@ {
        Some(Method::Patch)
    } else {
        None
    }
}

/// Appends the characters `upper_char(c)` stands for.
fn push_upper(out: &mut Vec<char>, c: char)
    ensures
        final(out)@ == old(out)@ + upper_char(c),
{
    let ghost before = out@;
    if 'a' <= c && c <= 'z' {
        let u = ((c as u32) - 32) as u8 as char;
        proof {
            assert(((c as u32) - 32) as u8 as char == ((c as u32) - 32) as char);
        }
        out.push(u);
    } else if c == '\u{131}' {
        out.push('I');
    } else if c == '\u{17f}' {
        out.push('S');
    } else if c == '\u{df}' {
        out.push('S');
        out.push('S');
    } else if c == '\u{fb00}' {
        out.push('F');
        out.push('F');
    } else if c == '\u{fb01}' {
        out.push('F');
        out.push('I');
    } else if c == '\u{fb02}' {
        out.push('F');
        out.push('L');
    } else if c == '\u{fb03}' {
        out.push('F');
        out.push('F');
        out.push('I');
    } else if c == '\u{fb04}' {
        out.push('F');
        out.push('F');
        out.push('L');
    } else if c == '\u{fb05}' || c == '\u{fb06}' {
        out.push('S');
        out.push('T');
    } else {
        out.push(c);
    }
    proof {
        assert(out@ =~= before + upper_char(c));
    }
}

/// Whether the characters of `v` spell `word`.
fn chars_spell(v: &Vec<char>, word: &str) -> (r: bool)
    ensures
        r == (v@ == word@),
{
    let n = v.len();
    if n != word.unicode_len() {
        return false;
    }
    let mut i: usize = 0;
    while i < n
        invariant
            n == v@.len(),
            n == word@.len(),
            i <= n,
            forall|k: int| 0 <= k < i ==> v@[k] == word@[k],
        decreases n - i,
    {
        if v[i] != word.get_char(i) {
            return false;
        }
        i += 1;
    }
    proof {
        assert(v@ =~= word@);
    }
    true
}

impl Method {
    /// The method whose name is the uppercase of `name`, if any.
    pub fn from_name(name: &str) -> (r: Option<Method>)
        ensures
            r == method_named(name@),
    {
        let n = name.unicode_len();
        let mut upper: Vec<char> = Vec::new();
        let mut i: usize = 0;
        while i < n
            invariant
                n == name@.len(),
                i <= n,
                upper@ == upper_text(name@.take(i as int)),
            decreases n - i,
        {
            proof {
                assert(name@.take(i + 1).drop_last() =~= name@.take(i as int));
            }
            push_upper(&mut upper, name.get_char(i));
            i += 1;
        }
        proof {
            assert(name@.take(n as int) =~= name@);
        }
        if chars_spell(&upper, "GET") {
            Some(Method::Get)
        } else if chars_spell(&upper, "POST") {
            Some(Method::Post)
        } else if chars_spell(&upper, "PUT") {
            Some(Method::Put)
        } else if chars_spell(&upper, "DELETE") {
            Some(Method::Delete)
        } else if chars_spell(&upper, "HEAD") {
            Some(Method::Head)
        } else if chars_spell(&upper, "OPTIONS") {
            Some(Method::Options)
        } else if chars_spell(&upper, "TRACE") {
            Some(Method::Trace)
        } else if chars_spell(&upper, "CONNECT") {
            Some(Method::Connect)
        } else if chars_spell(&upper, "PATCH") {
            Some(Method::Patch)
        } else {
            None
        }
    }
}

/// A parsed request. `headers` lists the name/value pairs of the header
/// map (see `header_map`), no name twice; `content_length` is the value of
/// its `Content-Length` header, when there is one.
pub struct HttpRequest {
    method: Method,
    path: String,
    version: String,
    headers: Vec<(String, String)>,
    content_length: Option<usize>,
    body: Option<String>,
}

impl HttpRequest {
    pub closed spec fn spec_method(&self) -> Method {
        self.method
    }

    pub closed spec fn spec_path(&self) -> Seq<char> {
        self.path@
    }

    pub closed spec fn spec_version(&self) -> Seq<char> {
        self.version@
    }

    pub closed spec fn spec_headers(&self) -> Seq<(String, String)> {
        self.headers@
    }

    pub closed spec fn spec_content_length(&self) -> Option<usize> {
        self.content_length
    }

    pub closed spec fn spec_body(&self) -> Option<Seq<char>> {
        match &self.body {
            Some(b) => Some(b@),
            None => None,
        }
    }

    /// The headers as a map from name to value.
    pub open spec fn header_map(&self) -> Map<Seq<char>, Seq<char>> {
        pairs_map(self.spec_headers())
    }

    /// A request with the method `method` names, matched on its uppercase.
    /// `method` must name one of the known methods.
    pub fn new(
        method: String,
        path: String,
        version: String,
        headers: Vec<(String, String)>,
        content_length: Option<usize>,
        body: Option<String>,
    ) -> (r: HttpRequest)
        requires
            method_named(method@) is Some,
            distinct_names(headers@),
        ensures
            Some(r.spec_method()) == method_named(method@),
            r.spec_path() == path@,
            r.spec_version() == version@,
            r.spec_headers() == headers@,
            r.spec_content_length() == content_length,
            r.spec_body() == (match &body {
                Some(b) => Some(b@),
                None => None::<Seq<char>>,
            }),
    {
        let method_e = match Method::from_name(method.as_str()) {
            Some(m) => m,
            None => {
                proof {
                    assert(false);
                }
                Method::Get
            },
        };
        HttpRequest { method: method_e, path, version, headers, content_length, body }
    }

    pub fn method(&self) -> (r: Method)
        ensures
            r == self.spec_method(),
    {
        self.method
    }

    pub fn path(&self) -> (r: &str)
        ensures
            r@ == self.spec_path(),
    {
        self.path.as_str()
    }

    pub fn version(&self) -> (r: &str)
        ensures
            r@ == self.spec_version(),
    {
        self.version.as_str()
    }

    pub fn headers(&self) -> (r: &Vec<(String, String)>)
        ensures
            r@ == self.spec_headers(),
    {
        &self.headers
    }

    pub fn content_length(&self) -> (r: Option<usize>)
        ensures
            r == self.spec_content_length(),
    {
        self.content_length
    }

    pub fn body(&self) -> (r: Option<&str>)
        ensures
            match r {
                Some(b) => self.spec_body() == Some(b@),
                None => self.spec_body() is None,
            },
    {
        match &self.body {
            Some(b) => Some(b.as_str()),
            None => None,
        }
    }
}

} // verus!
