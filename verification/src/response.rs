//! Response descriptors and the bytes built from them.

use crate::codec::{
    bytes_view, format_http_date, gzip, gzip_outcome, http_date, on_one_line, unix_seconds_now,
    DATE_LENGTH, DATE_LIMIT,
};
use crate::text::{contains_dot, decimal, decimal_string, has_dot};
use vstd::prelude::*;
use vstd::string::*;
use vstd::utf8::encode_utf8;

verus! {

/// How far ahead of the clock the `Expires` header points: seven days.
pub const WEEK_SECS: u64 = 604800;

/// What a response will say: the status line, the file that holds the body
/// and whether the body may be compressed.
#[derive(Clone, Debug)]
pub struct HttpResponse {
    pub status: u16,
    pub path: String,
    pub status_text: String,
    pub compress: bool,
}

/// The mathematical content of a [`HttpResponse`].
pub struct ResponseView {
    pub status: u16,
    pub path: Seq<char>,
    pub status_text: Seq<char>,
    pub compress: bool,
}

impl View for HttpResponse {
    type V = ResponseView;

    open spec fn view(&self) -> ResponseView {
        ResponseView {
            status: self.status,
            path: self.path@,
            status_text: self.status_text@,
            compress: self.compress,
        }
    }
}

/// The descriptor served when nothing matches the request.
pub open spec fn not_found_view() -> ResponseView {
    ResponseView { status: 404, path: "404.html"@, status_text: "NOT FOUND"@, compress: true }
}

/// The descriptor served when the request method is not allowed.
pub open spec fn forbidden_view() -> ResponseView {
    ResponseView { status: 403, path: "403.html"@, status_text: "FORBIDDEN"@, compress: true }
}

/// The file a descriptor's path stands for: a path without a full stop
/// names a directory, whose `index.html` is served.
pub open spec fn resource_path(path: Seq<char>) -> Seq<char> {
    if has_dot(path) {
        path
    } else {
        path + "/index.html"@
    }
}

/// The header block of a response, from the status line to the blank line.
pub open spec fn head_text(
    status: u16,
    status_text: Seq<char>,
    body_len: nat,
    expires: Seq<char>,
    encoded: bool,
) -> Seq<char> {
    "HTTP/1.1 "@ + decimal(status as nat) + " "@ + status_text + "\r\nContent-Length: "@ + decimal(
        body_len,
    ) + "\r\nExpires:"@ + expires + (if encoded {
        "\r\nContent-Encoding: gzip"@
    } else {
        Seq::<char>::empty()
    }) + "\r\n\r\n"@
}

/// Whether the body goes out compressed: the descriptor allows it and the
/// encoder delivered.
pub open spec fn is_encoded(compress: bool, packed: Option<Seq<u8>>) -> bool {
    compress && packed is Some
}

/// The body that is sent: the compressed bytes where there are any to
/// use, the file's contents otherwise.
pub open spec fn sent_body(compress: bool, contents: Seq<u8>, packed: Option<Seq<u8>>) -> Seq<u8> {
    if is_encoded(compress, packed) {
        packed.unwrap()
    } else {
        contents
    }
}

/// The bytes on the wire for descriptor `d`, given the file's contents,
/// the encoder's output if it produced one, and the text of the expiry date.
pub open spec fn response_bytes(
    d: ResponseView,
    contents: Seq<u8>,
    packed: Option<Seq<u8>>,
    expires: Seq<char>,
) -> Seq<u8> {
    let body = sent_body(d.compress, contents, packed);
    encode_utf8(
        head_text(d.status, d.status_text, body.len(), expires, is_encoded(d.compress, packed)),
    ) + body
}

/// The instant the `Expires` header names when the clock reads `now`
/// seconds after the Unix epoch: a week later, where the date format can
/// express that, which it can from the epoch to the end of the year 9999.
pub open spec fn expiry(now: int) -> Option<u64> {
    if 0 <= now + WEEK_SECS < DATE_LIMIT {
        Some((now + WEEK_SECS) as u64)
    } else {
        None
    }
}

/// What the encoder contributes to a response: its outcome on the
/// contents where the descriptor asks for compression, nothing otherwise.
pub open spec fn packed_for(compress: bool, contents: Seq<u8>) -> Option<Seq<u8>> {
    if compress {
        gzip_outcome(contents)
    } else {
        None
    }
}

/// The response for `d` built at clock reading `now`, where the expiry
/// date can be written: the body is compressed exactly where the
/// descriptor asks for it and the encoder delivers.
pub open spec fn response_at(d: ResponseView, contents: Seq<u8>, now: int) -> Option<Seq<u8>> {
    match expiry(now) {
        Some(at) => Some(
            response_bytes(d, contents, packed_for(d.compress, contents), http_date(at)),
        ),
        None => None,
    }
}

/// Resolving a path a second time changes nothing.
pub proof fn lemma_resource_path_is_stable(path: Seq<char>)
    ensures
        has_dot(resource_path(path)),
        resource_path(resource_path(path)) == resource_path(path),
{
    reveal_strlit("/index.html");
    assert("/index.html"@[6] == '.');
    if !has_dot(path) {
        assert((path + "/index.html"@)[path.len() as int + 6] == '.');
    }
}

/// Building twice gives the same bytes: the descriptor as the first build
/// left it, with the same contents at the same clock reading, gives the
/// response that the first build gave.
pub proof fn lemma_rebuilding_gives_the_same(d: ResponseView, contents: Seq<u8>, now: int)
    ensures
        response_at(ResponseView { path: resource_path(d.path), ..d }, contents, now)
            == response_at(d, contents, now),
{
}

/// Where the descriptor asks for compression and the encoder delivers
/// `stream`, the response built at `now` ends its header block with the
/// `Content-Encoding` line, announces the length of the stream, and has
/// the stream, whole and untouched, as its body.
pub proof fn lemma_compressed_response(
    d: ResponseView,
    contents: Seq<u8>,
    stream: Seq<u8>,
    now: int,
)
    requires
        d.compress,
        gzip_outcome(contents) == Some(stream),
        expiry(now) is Some,
    ensures
        response_at(d, contents, now) == Some(
            encode_utf8(
                "HTTP/1.1 "@ + decimal(d.status as nat) + " "@ + d.status_text
                    + "\r\nContent-Length: "@ + decimal(stream.len()) + "\r\nExpires:"@
                    + http_date(expiry(now).unwrap()) + "\r\nContent-Encoding: gzip"@
                    + "\r\n\r\n"@,
            ) + stream,
        ),
{
}

/// Where the descriptor asks for no compression, or the encoder fails,
/// the response built at `now` carries no `Content-Encoding` line and has
/// the contents as they are as its body.
pub proof fn lemma_plain_response(d: ResponseView, contents: Seq<u8>, now: int)
    requires
        !d.compress || gzip_outcome(contents) is None,
        expiry(now) is Some,
    ensures
        response_at(d, contents, now) == Some(
            encode_utf8(
                "HTTP/1.1 "@ + decimal(d.status as nat) + " "@ + d.status_text
                    + "\r\nContent-Length: "@ + decimal(contents.len()) + "\r\nExpires:"@
                    + http_date(expiry(now).unwrap()) + "\r\n\r\n"@,
            ) + contents,
        ),
{
    assert(head_text(d.status, d.status_text, contents.len(), http_date(expiry(now).unwrap()), false)
        =~= "HTTP/1.1 "@ + decimal(d.status as nat) + " "@ + d.status_text
        + "\r\nContent-Length: "@ + decimal(contents.len()) + "\r\nExpires:"@ + http_date(
        expiry(now).unwrap(),
    ) + "\r\n\r\n"@);
}

/// Computes [`expiry`].
pub fn expiry_of(now: i64) -> (at: Option<u64>)
    ensures
        at == expiry(now as int),
{
    if -(WEEK_SECS as i64) <= now && now < (DATE_LIMIT - WEEK_SECS) as i64 {
        Some((now + WEEK_SECS as i64) as u64)
    } else {
        None
    }
}

impl HttpResponse {
    pub fn new(path: String, status: u16, status_text: String, compress: bool) -> (r: Self)
        ensures
            r@ == (ResponseView { status, path: path@, status_text: status_text@, compress }),
    {
        HttpResponse { path, status, status_text, compress }
    }

    /// The stock "not found" descriptor.
    pub fn not_found() -> (r: Self)
        ensures
            r@ == not_found_view(),
    {
        HttpResponse {
            path: String::from_str("404.html"),
            status: 404,
            status_text: String::from_str("NOT FOUND"),
            compress: true,
        }
    }

    /// The stock "forbidden" descriptor.
    pub fn forbidden() -> (r: Self)
        ensures
            r@ == forbidden_view(),
    {
        HttpResponse {
            path: String::from_str("403.html"),
            status: 403,
            status_text: String::from_str("FORBIDDEN"),
            compress: true,
        }
    }

    /// A copy with the same content.
    pub fn duplicate(&self) -> (r: Self)
        ensures
            r@ == self@,
    {
        HttpResponse {
            path: self.path.clone(),
            status: self.status,
            status_text: self.status_text.clone(),
            compress: self.compress,
        }
    }

    /// The file whose contents make the body: see [`resource_path`].
    pub fn resource_path(&self) -> (file: String)
        ensures
            file@ == resource_path(self.path@),
    {
        let mut file = self.path.clone();
        if !contains_dot(self.path.as_str()) {
            file.append("/index.html");
        }
        file
    }

    /// Builds the response from the outcomes of the outside steps:
    /// `contents` is what was read from the file (empty if it could not be
    /// read), `packed` the encoder's output if it was run and succeeded,
    /// `expires` the text of the expiry date. The path is resolved as
    /// [`resource_path`] says; status and status text are never touched.
    pub fn response_with(
        &mut self,
        contents: Vec<u8>,
        packed: Option<Vec<u8>>,
        expires: &str,
    ) -> (bytes: Vec<u8>)
        ensures
            final(self)@ == (ResponseView { path: resource_path(old(self).path@), ..old(self)@ }),
            bytes@ == response_bytes(old(self)@, contents@, bytes_view(packed), expires@),
    {
        self.path = self.resource_path();
        let (mut body, encoding) = match packed {
            Some(stream) if self.compress => (stream, "\r\nContent-Encoding: gzip"),
            _ => (contents, ""),
        };
        proof {
            reveal_strlit("");
        }
        let mut head = String::from_str("HTTP/1.1 ");
        head.append(decimal_string(self.status as u64).as_str());
        head.append(" ");
        head.append(self.status_text.as_str());
        head.append("\r\nContent-Length: ");
        head.append(decimal_string(body.len() as u64).as_str());
        head.append("\r\nExpires:");
        head.append(expires);
        head.append(encoding);
        head.append("\r\n\r\n");
        assert(head@ =~= head_text(
            self.status,
            self.status_text@,
            body@.len(),
            expires@,
            is_encoded(self.compress, bytes_view(packed)),
        ));
        let mut bytes = head.as_str().as_bytes_vec();
        bytes.append(&mut body);
        bytes
    }

    /// Builds the response at clock reading `now` (seconds after the Unix
    /// epoch): compresses `contents` when the descriptor asks for it,
    /// falling back to the plain body if the encoder fails, and dates the
    /// expiry a week ahead. Gives `None` exactly where that date cannot be
    /// written. The date it writes has a fixed length and no line break.
    pub fn response_at(&mut self, contents: Vec<u8>, now: i64) -> (bytes: Option<Vec<u8>>)
        ensures
            final(self)@ == (ResponseView { path: resource_path(old(self).path@), ..old(self)@ }),
            bytes_view(bytes) == response_at(old(self)@, contents@, now as int),
            bytes is Some ==> {
                let date = http_date(expiry(now as int).unwrap());
                date.len() == DATE_LENGTH && on_one_line(date)
            },
    {
        match expiry_of(now) {
            Some(at) => {
                let date = format_http_date(at);
                let packed = if self.compress {
                    gzip(&contents)
                } else {
                    None
                };
                Some(self.response_with(contents, packed, date.as_str()))
            },
            None => {
                self.path = self.resource_path();
                None
            },
        }
    }

    /// Builds the response now: reads the clock and proceeds as
    /// [`HttpResponse::response_at`]. `contents` is what was read from the
    /// file that [`HttpResponse::resource_path`] names, empty if the read
    /// failed.
    pub fn response(&mut self, contents: Vec<u8>) -> (bytes: Option<Vec<u8>>)
        ensures
            final(self)@ == (ResponseView { path: resource_path(old(self).path@), ..old(self)@ }),
            exists|now: int| bytes_view(bytes) == response_at(old(self)@, contents@, now),
    {
        let now: i64 = unix_seconds_now();
        self.response_at(contents, now)
    }
}

impl Default for HttpResponse {
    fn default() -> (r: Self)
        ensures
            r@ == not_found_view(),
    {
        HttpResponse::not_found()
    }
}

} // verus!
