use static_server::{normalize_path, parse_request, Header, HttpResponse, ParsedRequest, ServerConfig};

fn config(gzip: bool) -> ServerConfig {
    ServerConfig::new("127.0.0.1", 8080, 4, gzip, None, None).unwrap()
}

fn request(method: &str, path: &str, headers: Vec<(&str, &[u8])>) -> ParsedRequest {
    ParsedRequest {
        method: Some(String::from(method)),
        path: Some(String::from(path)),
        headers: headers
            .into_iter()
            .map(|(name, value)| Header { name: String::from(name), value: value.to_vec() })
            .collect(),
    }
}

#[test]
fn normalize_root_is_index() {
    assert_eq!(normalize_path("/"), "index.html");
}

#[test]
fn normalize_directory_gets_index() {
    assert_eq!(normalize_path("/about"), "about/index.html");
}

#[test]
fn normalize_file_loses_leading_slash() {
    assert_eq!(normalize_path("/about.html"), "about.html");
}

#[test]
fn normalize_dotted_directory_is_kept() {
    assert_eq!(normalize_path("/a.b/c"), "a.b/c");
}

#[test]
fn normalize_edge_cases() {
    assert_eq!(normalize_path(""), "/index.html");
    assert_eq!(normalize_path("*"), "/index.html");
    assert_eq!(normalize_path("/a/b"), "a/b/index.html");
    assert_eq!(normalize_path("é.txt"), ".txt");
    assert_eq!(normalize_path(".x"), "x");
}

#[test]
fn parse_reads_method_path_and_headers() {
    let parsed =
        parse_request(b"GET /about HTTP/1.1\r\nHost: x\r\nAccept-Encoding: gzip, deflate\r\n\r\n")
            .unwrap();
    assert_eq!(parsed.method.as_deref(), Some("GET"));
    assert_eq!(parsed.path.as_deref(), Some("/about"));
    assert_eq!(parsed.headers.len(), 2);
    assert_eq!(parsed.headers[0].name, "Host");
    assert_eq!(parsed.headers[0].value, b"x".to_vec());
    assert_eq!(parsed.headers[1].name, "Accept-Encoding");
    assert_eq!(parsed.headers[1].value, b"gzip, deflate".to_vec());
    assert_eq!(parsed.target().as_deref(), Some("about/index.html"));
    assert!(parsed.accepts_gzip());
}

#[test]
fn parse_hands_over_a_head_that_ends_early() {
    let parsed = parse_request(b"GET /abo").unwrap();
    assert_eq!(parsed.method.as_deref(), Some("GET"));
    assert_eq!(parsed.path, None);
    assert_eq!(parsed.target(), None);
    assert!(!parsed.accepts_gzip());
    let served = config(true).response_from_request(&parsed, false);
    assert_eq!(served.status, 404);
}

#[test]
fn parse_of_nothing_knows_nothing() {
    let parsed = parse_request(b"").unwrap();
    assert_eq!(parsed.method, None);
    assert_eq!(parsed.path, None);
    let served = config(true).response_from_request(&parsed, true);
    assert_eq!(served.status, 404);
    assert_eq!(served.status_text, "NOT FOUND");
}

#[test]
fn parse_rejects_a_bad_method_token() {
    let error = parse_request(b"G\x00T / HTTP/1.1\r\n\r\n").unwrap_err();
    assert_eq!(error.cause, httparse::Error::Token);
}

#[test]
fn parse_rejects_an_unknown_version() {
    let error = parse_request(b"GET / HTTP/2.0\r\n\r\n").unwrap_err();
    assert_eq!(error.cause, httparse::Error::Version);
}

#[test]
fn parse_rejects_a_bad_header_name() {
    let error = parse_request(b"GET / HTTP/1.1\r\nBad Name: x\r\n\r\n").unwrap_err();
    assert_eq!(error.cause, httparse::Error::HeaderName);
}

#[test]
fn parse_rejects_more_headers_than_slots() {
    let mut bytes = b"GET / HTTP/1.1\r\n".to_vec();
    for i in 0..65 {
        bytes.extend_from_slice(format!("X-{}: v\r\n", i).as_bytes());
    }
    bytes.extend_from_slice(b"\r\n");
    let error = parse_request(&bytes).unwrap_err();
    assert_eq!(error.cause, httparse::Error::TooManyHeaders);
}

#[test]
fn parse_takes_as_many_headers_as_slots() {
    let mut bytes = b"GET / HTTP/1.1\r\n".to_vec();
    for i in 0..64 {
        bytes.extend_from_slice(format!("X-{}: v\r\n", i).as_bytes());
    }
    bytes.extend_from_slice(b"\r\n");
    let parsed = parse_request(&bytes).unwrap();
    assert_eq!(parsed.headers.len(), 64);
    assert_eq!(parsed.headers[63].name, "X-63");
}

#[test]
fn get_for_existing_file_is_served() {
    let served = config(true).response_from_request(&request("GET", "/about", vec![]), true);
    assert_eq!(served.status, 200);
    assert_eq!(served.status_text, "OK");
    assert_eq!(served.path, "about/index.html");
    assert!(!served.compress);
}

#[test]
fn other_method_is_forbidden_whether_the_file_exists_or_not() {
    for exists in [true, false] {
        let served = config(true).response_from_request(&request("POST", "/", vec![]), exists);
        assert_eq!(served.status, 403);
        assert_eq!(served.status_text, "FORBIDDEN");
        assert_eq!(served.path, "403.html");
        assert!(served.compress);
    }
}

#[test]
fn method_is_matched_exactly() {
    let served = config(true).response_from_request(&request("get", "/", vec![]), true);
    assert_eq!(served.status, 403);
}

#[test]
fn get_for_missing_file_is_not_found() {
    let served = config(true).response_from_request(&request("GET", "/nope.html", vec![]), false);
    assert_eq!(served.status, 404);
    assert_eq!(served.status_text, "NOT FOUND");
    assert_eq!(served.path, "404.html");
    assert!(served.compress);
}

#[test]
fn configured_fallbacks_are_used() {
    let gone = HttpResponse::new(String::from("gone.html"), 410, String::from("GONE"), false);
    let no = HttpResponse::new(String::from("no.html"), 405, String::from("NO"), false);
    let config = ServerConfig::new("0.0.0.0", 80, 1, true, Some(gone), Some(no)).unwrap();
    let missing = config.response_from_request(&request("GET", "/x", vec![]), false);
    assert_eq!((missing.status, missing.status_text.as_str()), (410, "GONE"));
    assert_eq!(missing.path, "gone.html");
    assert!(!missing.compress);
    let refused = config.response_from_request(&request("PUT", "/x", vec![]), true);
    assert_eq!((refused.status, refused.status_text.as_str()), (405, "NO"));
    let no_method = ParsedRequest { method: None, path: Some(String::from("/")), headers: vec![] };
    assert_eq!(config.response_from_request(&no_method, true).status, 410);
}

#[test]
fn compression_needs_the_switch_and_the_header() {
    let with: Vec<(&str, &[u8])> = vec![("Host", b"x"), ("Accept-Encoding", b"deflate, gzip;q=1")];
    let served = config(true).response_from_request(&request("GET", "/", with.clone()), true);
    assert_eq!(served.path, "index.html");
    assert!(served.compress);
    let served = config(false).response_from_request(&request("GET", "/", with), true);
    assert!(!served.compress);
    let without: Vec<(&str, &[u8])> = vec![("Accept-Encoding", b"deflate, br")];
    let served = config(true).response_from_request(&request("GET", "/", without), true);
    assert!(!served.compress);
}

#[test]
fn gzip_announcement_rules() {
    let header = |name: &str, value: &[u8]| Header { name: String::from(name), value: value.to_vec() };
    assert!(header("Accept-Encoding", b"gzip").announces_gzip());
    assert!(header("Accept-Encoding", b"xgzipx").announces_gzip());
    assert!(!header("Accept-Encoding", b"gzi").announces_gzip());
    assert!(!header("Accept-Encoding", b"GZIP").announces_gzip());
    assert!(!header("Accept-Encoding", b"").announces_gzip());
    assert!(!header("accept-encoding", b"gzip").announces_gzip());
    assert!(!header("Accept", b"gzip").announces_gzip());
    assert!(!header("Accept-Encoding", b"gzip\xff").announces_gzip());
    assert!(header("Accept-Encoding", "gzip é".as_bytes()).announces_gzip());
}
