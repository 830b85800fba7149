//! The server's configuration and the routing rule it carries.

use crate::address::{is_address, parse_ipv4};
use crate::request::{accepts_gzip, normalize_path, normalized, ParsedRequest, RequestView};
use crate::codec::{gzip_outcome, http_date};
use crate::response::{
    expiry, forbidden_view, is_encoded, lemma_compressed_response, not_found_view, response_at,
    response_bytes, sent_body, HttpResponse, ResponseView,
};
use crate::text::decimal;
use vstd::prelude::*;
use vstd::string::*;
use vstd::utf8::encode_utf8;

verus! {

/// Why a configuration was refused.
#[derive(Clone, Copy, Debug, PartialEq, Eq, Structural)]
pub enum ConfigError {
    /// The address is not a dotted-decimal IPv4 address.
    InvalidAddress,
    /// The worker count is zero.
    NoWorkers,
}

/// Where to listen, how many workers to run, and what to answer when a
/// request cannot be served. Never changes once built.
#[derive(Debug)]
pub struct ServerConfig {
    ip_address: [u8; 4],
    port: u16,
    thread_amount: usize,
    enable_gzip: bool,
    not_found_response: HttpResponse,
    forbidden_response: HttpResponse,
}

/// The mathematical content of a [`ServerConfig`].
pub struct ConfigView {
    pub ip_address: Seq<u8>,
    pub port: u16,
    pub thread_amount: nat,
    pub enable_gzip: bool,
    pub not_found: ResponseView,
    pub forbidden: ResponseView,
}

/// The fallback descriptor a configuration gets: the given one where one
/// is given, the stock one otherwise.
pub open spec fn fallback(given: Option<ResponseView>, stock: ResponseView) -> ResponseView {
    match given {
        Some(d) => d,
        None => stock,
    }
}

/// The view of an optional descriptor.
pub open spec fn descriptor_view(d: Option<HttpResponse>) -> Option<ResponseView> {
    match d {
        Some(r) => Some(r@),
        None => None,
    }
}

/// The descriptor that answers `request` under `config`, where `exists`
/// tells whether the file the request asks for is there. A `GET` for a
/// file that is there is served; any other method is forbidden; the rest
/// is not found.
pub open spec fn route(config: ConfigView, request: RequestView, exists: bool) -> ResponseView {
    if request.path is Some && request.method == Some("GET"@) && exists {
        ResponseView {
            status: 200,
            path: normalized(request.path.unwrap()),
            status_text: "OK"@,
            compress: config.enable_gzip && accepts_gzip(request.headers),
        }
    } else if request.method is Some && request.method != Some("GET"@) {
        config.forbidden
    } else {
        config.not_found
    }
}

/// A request with a method other than `GET` gets the configured
/// "forbidden" descriptor, whatever its path and whether or not the file
/// is there.
pub proof fn lemma_other_method_is_forbidden(
    config: ConfigView,
    request: RequestView,
    exists: bool,
)
    requires
        request.method is Some,
        request.method.unwrap() != "GET"@,
    ensures
        route(config, request, exists) == config.forbidden,
{
}

/// A `GET` for a file that is not there gets the configured "not found"
/// descriptor.
pub proof fn lemma_missing_file_is_not_found(config: ConfigView, request: RequestView)
    requires
        request.method == Some("GET"@),
    ensures
        route(config, request, false) == config.not_found,
{
}

/// A `GET` for a file that is there is answered with status 200, and the
/// response built from that descriptor announces in `Content-Length` the
/// length of exactly the body that follows the header block, compressed
/// or not.
pub proof fn lemma_served_file_announces_its_length(
    config: ConfigView,
    request: RequestView,
    contents: Seq<u8>,
    packed: Option<Seq<u8>>,
    expires: Seq<char>,
)
    requires
        request.path is Some,
        request.method == Some("GET"@),
    ensures
        route(config, request, true).status == 200,
        route(config, request, true).status_text == "OK"@,
        ({
            let served = route(config, request, true);
            let body = sent_body(served.compress, contents, packed);
            response_bytes(served, contents, packed, expires) == encode_utf8(
                "HTTP/1.1 "@ + decimal(200) + " "@ + "OK"@ + "\r\nContent-Length: "@ + decimal(
                    body.len(),
                ) + "\r\nExpires:"@ + expires + (if is_encoded(served.compress, packed) {
                    "\r\nContent-Encoding: gzip"@
                } else {
                    Seq::<char>::empty()
                }) + "\r\n\r\n"@,
            ) + body
        }),
{
}

/// Where compression is switched on, the client announces gzip and the
/// file is there, the descriptor asks for compression; and where the
/// encoder delivers `stream` for the file's contents, the response built
/// from that descriptor carries the `Content-Encoding` line, announces
/// the length of the stream and has the stream, whole and untouched, as
/// its body.
pub proof fn lemma_gzip_is_served_where_accepted(
    config: ConfigView,
    request: RequestView,
    contents: Seq<u8>,
    stream: Seq<u8>,
    now: int,
)
    requires
        config.enable_gzip,
        accepts_gzip(request.headers),
        request.path is Some,
        request.method == Some("GET"@),
        gzip_outcome(contents) == Some(stream),
        expiry(now) is Some,
    ensures
        route(config, request, true).compress,
        response_at(route(config, request, true), contents, now) == Some(
            encode_utf8(
                "HTTP/1.1 "@ + decimal(200) + " "@ + "OK"@ + "\r\nContent-Length: "@ + decimal(
                    stream.len(),
                ) + "\r\nExpires:"@ + http_date(expiry(now).unwrap())
                    + "\r\nContent-Encoding: gzip"@ + "\r\n\r\n"@,
            ) + stream,
        ),
{
    lemma_compressed_response(route(config, request, true), contents, stream, now);
}

impl View for ServerConfig {
    type V = ConfigView;

    closed spec fn view(&self) -> ConfigView {
        ConfigView {
            ip_address: self.ip_address@,
            port: self.port,
            thread_amount: self.thread_amount as nat,
            enable_gzip: self.enable_gzip,
            not_found: self.not_found_response@,
            forbidden: self.forbidden_response@,
        }
    }
}

impl ServerConfig {
    #[verifier::type_invariant]
    spec fn has_workers(self) -> bool {
        self.thread_amount >= 1
    }

    /// Builds a configuration. The address must be dotted-decimal IPv4 and
    /// there must be at least one worker. Each fallback descriptor is
    /// replaced by the one given for it, if any, whatever is given for the
    /// other: see [`fallback`].
    pub fn new(
        input_ip: &str,
        port: u16,
        thread_amount: usize,
        enable_gzip: bool,
        not_found: Option<HttpResponse>,
        forbidden: Option<HttpResponse>,
    ) -> (r: Result<Self, ConfigError>)
        ensures
            match r {
                Ok(config) => {
                    &&& is_address(encode_utf8(input_ip@), config@.ip_address)
                    &&& thread_amount >= 1
                    &&& config@.port == port
                    &&& config@.thread_amount == thread_amount
                    &&& config@.enable_gzip == enable_gzip
                    &&& config@.not_found == fallback(descriptor_view(not_found), not_found_view())
                    &&& config@.forbidden == fallback(descriptor_view(forbidden), forbidden_view())
                },
                Err(ConfigError::InvalidAddress) => forall|o: Seq<u8>|
                    !is_address(encode_utf8(input_ip@), o),
                Err(ConfigError::NoWorkers) => thread_amount == 0 && exists|o: Seq<u8>|
                    is_address(encode_utf8(input_ip@), o),
            },
    {
        let ip_address: [u8; 4] = match parse_ipv4(input_ip) {
            Some(octets) => octets,
            None => { return Err(ConfigError::InvalidAddress); },
        };
        if thread_amount == 0 {
            return Err(ConfigError::NoWorkers);
        }
        let not_found_response = match not_found {
            Some(given) => given,
            None => HttpResponse::not_found(),
        };
        let forbidden_response = match forbidden {
            Some(given) => given,
            None => HttpResponse::forbidden(),
        };
        Ok(
            ServerConfig {
                ip_address,
                port,
                thread_amount,
                enable_gzip,
                not_found_response,
                forbidden_response,
            },
        )
    }

    /// The octets of the address to listen on.
    pub fn ip_address(&self) -> (octets: [u8; 4])
        ensures
            octets@ == self@.ip_address,
    {
        self.ip_address
    }

    /// The port to listen on.
    pub fn port(&self) -> (port: u16)
        ensures
            port == self@.port,
    {
        self.port
    }

    /// How many workers to run: at least one.
    pub fn thread_amount(&self) -> (n: usize)
        ensures
            n == self@.thread_amount,
            n >= 1,
    {
        proof {
            use_type_invariant(self);
        }
        self.thread_amount
    }

    /// Whether bodies may be compressed at all.
    pub fn enable_gzip(&self) -> (on: bool)
        ensures
            on == self@.enable_gzip,
    {
        self.enable_gzip
    }

    /// Decides the descriptor for one request: see [`route`]. `exists`
    /// tells whether the file that [`ParsedRequest::target`] names is there.
    /// The fallback descriptors are copied, never handed out.
    pub fn response_from_request(&self, request: &ParsedRequest, exists: bool) -> (r: HttpResponse)
        ensures
            r@ == route(self@, request@, exists),
    {
        match (&request.path, &request.method) {
            (Some(path), Some(method)) if exists && *method == String::from_str("GET") => {
                let compress = self.enable_gzip && request.accepts_gzip();
                HttpResponse::new(
                    normalize_path(path.as_str()),
                    200,
                    String::from_str("OK"),
                    compress,
                )
            },
            (_, Some(method)) if *method != String::from_str("GET") => {
                self.forbidden_response.duplicate()
            },
            _ => self.not_found_response.duplicate(),
        }
    }
}

impl Default for ServerConfig {
    fn default() -> (r: Self)
        ensures
            r@ == (ConfigView {
                ip_address: seq![127u8, 0u8, 0u8, 1u8],
                port: 80,
                thread_amount: 5,
                enable_gzip: true,
                not_found: not_found_view(),
                forbidden: forbidden_view(),
            }),
    {
        let ip_address: [u8; 4] = [127, 0, 0, 1];
        assert(ip_address@ =~= seq![127u8, 0u8, 0u8, 1u8]);
        ServerConfig {
            ip_address,
            port: 80,
            thread_amount: 5,
            enable_gzip: true,
            not_found_response: HttpResponse::not_found(),
            forbidden_response: HttpResponse::forbidden(),
        }
    }
}

} // verus!
