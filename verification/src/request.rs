//! The request head: what the parser hands over, and the rules that read it.

use crate::codec::is_utf8;
use crate::response::resource_path;
use crate::text::{contains_bytes, contains_dot, has_dot, occurs_in};
use vstd::prelude::*;
use vstd::string::*;
use vstd::utf8::valid_utf8;

verus! {

/// How many header fields a request may carry.
pub const HEADER_SLOTS: usize = 64;

/// One header field: its name and its raw value.
#[derive(Clone, Debug)]
pub struct Header {
    pub name: String,
    pub value: Vec<u8>,
}

/// The mathematical content of a [`Header`].
pub struct HeaderView {
    pub name: Seq<char>,
    pub value: Seq<u8>,
}

impl View for Header {
    type V = HeaderView;

    open spec fn view(&self) -> HeaderView {
        HeaderView { name: self.name@, value: self.value@ }
    }
}

/// What was recognised of a request head. A field is `None` where the
/// bytes ended before it.
#[derive(Clone, Debug)]
pub struct ParsedRequest {
    pub method: Option<String>,
    pub path: Option<String>,
    pub headers: Vec<Header>,
}

/// The mathematical content of a [`ParsedRequest`].
pub struct RequestView {
    pub method: Option<Seq<char>>,
    pub path: Option<Seq<char>>,
    pub headers: Seq<HeaderView>,
}

/// The view of an optional text.
pub open spec fn text_view(text: Option<String>) -> Option<Seq<char>> {
    match text {
        Some(t) => Some(t@),
        None => None,
    }
}

impl View for ParsedRequest {
    type V = RequestView;

    open spec fn view(&self) -> RequestView {
        RequestView {
            method: text_view(self.method),
            path: text_view(self.path),
            headers: self.headers@.map_values(|h: Header| h@),
        }
    }
}

/// `httparse::Error`, the parser's reason for rejecting a buffer, carried
/// through as an opaque value.
#[verifier::external_type_specification]
#[verifier::external_body]
pub struct ExHttparseError(httparse::Error);

/// Why a buffer was rejected as a request head.
#[derive(Debug)]
pub struct ParseError {
    pub cause: httparse::Error,
}

/// What the parser makes of `buffer` with [`HEADER_SLOTS`] header slots:
/// the request it fills in, or `None` where it reports an error.
pub uninterp spec fn request_head(buffer: Seq<u8>) -> Option<RequestView>;

/// Calls `httparse::Request::parse` on a fresh request with
/// [`HEADER_SLOTS`] empty header slots and copies out the method, the path
/// and the header slots as the parser left them, whether the head was
/// complete or not. The parser's error is handed on as it is. The outcome
/// is named [`request_head`].
#[verifier::external_body]
fn parse_head(buffer: &[u8]) -> (r: Result<ParsedRequest, httparse::Error>)
    ensures
        match r {
            Ok(request) => request_head(buffer@) == Some(request@),
            Err(_) => request_head(buffer@) is None,
        },
{
    let mut slots = [httparse::EMPTY_HEADER; HEADER_SLOTS];
    let mut request = httparse::Request::new(&mut slots);
    request.parse(buffer)?;
    let headers = request.headers.iter();
    Ok(ParsedRequest {
        method: request.method.map(String::from),
        path: request.path.map(String::from),
        headers: headers.map(|h| Header { name: String::from(h.name), value: h.value.to_vec() }).collect(),
    })
}

/// Parses the head of one request. Fails exactly where the parser rejects
/// the bytes; a head that merely ends early is handed over with what was
/// recognised of it.
pub fn parse_request(buffer: &[u8]) -> (r: Result<ParsedRequest, ParseError>)
    ensures
        match r {
            Ok(request) => request_head(buffer@) == Some(request@),
            Err(_) => request_head(buffer@) is None,
        },
{
    match parse_head(buffer) {
        Ok(request) => Ok(request),
        Err(cause) => Err(ParseError { cause }),
    }
}

/// The file a request path stands for: `/` is the site's `index.html`;
/// any other path loses its first character, and one without a full stop
/// names a directory, whose `index.html` is meant.
pub open spec fn normalized(path: Seq<char>) -> Seq<char> {
    if path == "/"@ {
        "index.html"@
    } else if !has_dot(path) {
        without_first(path) + "/index.html"@
    } else {
        without_first(path)
    }
}

/// `path` without its first character.
pub open spec fn without_first(path: Seq<char>) -> Seq<char> {
    if path.len() == 0 {
        path
    } else {
        path.skip(1)
    }
}

/// The file a request asks for needs no further resolving: building the
/// response from it appends no second `index.html`. The one exception,
/// left out here, is a path whose only full stop is its first character.
pub proof fn lemma_target_is_resolved(path: Seq<char>)
    requires
        has_dot(path) ==> has_dot(without_first(path)),
    ensures
        has_dot(normalized(path)),
        resource_path(normalized(path)) == normalized(path),
{
    reveal_strlit("index.html");
    reveal_strlit("/index.html");
    assert("index.html"@[5] == '.');
    assert("/index.html"@[6] == '.');
    if path != "/"@ && !has_dot(path) {
        let rest = without_first(path);
        assert((rest + "/index.html"@)[rest.len() as int + 6] == '.');
    }
}

/// Computes [`normalized`].
pub fn normalize_path(path: &str) -> (file: String)
    ensures
        file@ == normalized(path@),
{
    proof {
        reveal_strlit("/");
    }
    let n: usize = path.unicode_len();
    if n == 1 && path.get_char(0) == '/' {
        assert(path@ =~= "/"@);
        String::from_str("index.html")
    } else {
        let rest = if n == 0 {
            path
        } else {
            path.substring_char(1, n)
        };
        let mut file = String::from_str(rest);
        if !contains_dot(path) {
            file.append("/index.html");
        }
        file
    }
}

/// The bytes of `gzip`.
pub open spec fn gzip_token() -> Seq<u8> {
    seq![0x67u8, 0x7au8, 0x69u8, 0x70u8]
}

/// Whether a header announces that the client takes gzip: it is named
/// `Accept-Encoding`, and its value is well-formed UTF-8 that holds `gzip`.
pub open spec fn announces_gzip(header: HeaderView) -> bool {
    header.name == "Accept-Encoding"@ && valid_utf8(header.value) && occurs_in(
        gzip_token(),
        header.value,
    )
}

/// Whether some header of the request announces gzip.
pub open spec fn accepts_gzip(headers: Seq<HeaderView>) -> bool {
    exists|i: int| 0 <= i < headers.len() && announces_gzip(#[trigger] headers[i])
}

impl Header {
    /// Computes [`announces_gzip`].
    pub fn announces_gzip(&self) -> (yes: bool)
        ensures
            yes == announces_gzip(self@),
    {
        let token: [u8; 4] = [0x67, 0x7a, 0x69, 0x70];
        assert(token@ =~= gzip_token());
        self.name == String::from_str("Accept-Encoding") && is_utf8(self.value.as_slice())
            && contains_bytes(self.value.as_slice(), token.as_slice())
    }
}

impl ParsedRequest {
    /// Computes [`accepts_gzip`] of the request's headers.
    pub fn accepts_gzip(&self) -> (yes: bool)
        ensures
            yes == accepts_gzip(self@.headers),
    {
        let mut i: usize = 0;
        while i < self.headers.len()
            invariant
                i <= self.headers@.len(),
                forall|k: int| 0 <= k < i ==> !announces_gzip(#[trigger] self@.headers[k]),
            decreases self.headers@.len() - i,
        {
            if self.headers[i].announces_gzip() {
                assert(self@.headers[i as int] == self.headers@[i as int]@);
                return true;
            }
            assert(self@.headers[i as int] == self.headers@[i as int]@);
            i += 1;
        }
        false
    }

    /// The file the request asks for, if it names a path: see [`normalized`].
    pub fn target(&self) -> (file: Option<String>)
        ensures
            text_view(file) == match self@.path {
                Some(path) => Some(normalized(path)),
                None => None,
            },
    {
        match &self.path {
            Some(path) => Some(normalize_path(path.as_str())),
            None => None,
        }
    }
}

} // verus!
