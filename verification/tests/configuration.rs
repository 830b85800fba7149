use static_server::address::parse_ipv4;
use static_server::{ConfigError, HttpResponse, ServerConfig};

#[test]
fn configuration_keeps_what_it_was_given() {
    let config = ServerConfig::new("192.168.0.10", 8080, 4, false, None, None).unwrap();
    assert_eq!(config.ip_address(), [192, 168, 0, 10]);
    assert_eq!(config.port(), 8080);
    assert_eq!(config.thread_amount(), 4);
    assert!(!config.enable_gzip());
}

#[test]
fn zero_workers_are_refused() {
    let refused = ServerConfig::new("127.0.0.1", 80, 0, true, None, None).unwrap_err();
    assert_eq!(refused, ConfigError::NoWorkers);
    assert!(ServerConfig::new("127.0.0.1", 80, 1, true, None, None).is_ok());
}

#[test]
fn bad_address_is_refused() {
    let refused = ServerConfig::new("localhost", 80, 4, true, None, None).unwrap_err();
    assert_eq!(refused, ConfigError::InvalidAddress);
    let refused = ServerConfig::new("1.2.3", 80, 0, true, None, None).unwrap_err();
    assert_eq!(refused, ConfigError::InvalidAddress);
}

fn get(path: &str) -> static_server::ParsedRequest {
    static_server::ParsedRequest {
        method: Some(String::from("GET")),
        path: Some(String::from(path)),
        headers: Vec::new(),
    }
}

fn post(path: &str) -> static_server::ParsedRequest {
    static_server::ParsedRequest {
        method: Some(String::from("POST")),
        path: Some(String::from(path)),
        headers: Vec::new(),
    }
}

#[test]
fn lone_not_found_override_is_used() {
    let gone = HttpResponse::new(String::from("nf.html"), 410, String::from("GONE"), false);
    let config = ServerConfig::new("127.0.0.1", 80, 1, true, Some(gone), None).unwrap();
    let missing = config.response_from_request(&get("/x"), false);
    assert_eq!(missing.status, 410);
    assert_eq!(missing.status_text, "GONE");
    assert_eq!(missing.path, "nf.html");
    assert!(!missing.compress);
    let refused = config.response_from_request(&post("/x"), false);
    assert_eq!(refused.status, 403);
    assert_eq!(refused.status_text, "FORBIDDEN");
    assert_eq!(refused.path, "403.html");
    assert!(refused.compress);
}

#[test]
fn lone_forbidden_override_is_used() {
    let no = HttpResponse::new(String::from("no.html"), 405, String::from("NO"), false);
    let config = ServerConfig::new("127.0.0.1", 80, 1, true, None, Some(no)).unwrap();
    let refused = config.response_from_request(&post("/x"), true);
    assert_eq!(refused.status, 405);
    assert_eq!(refused.status_text, "NO");
    assert_eq!(refused.path, "no.html");
    assert!(!refused.compress);
    let missing = config.response_from_request(&get("/x"), false);
    assert_eq!(missing.status, 404);
    assert_eq!(missing.status_text, "NOT FOUND");
    assert_eq!(missing.path, "404.html");
    assert!(missing.compress);
}

#[test]
fn without_overrides_the_stock_fallbacks_are_used() {
    let config = ServerConfig::new("127.0.0.1", 80, 1, true, None, None).unwrap();
    assert_eq!(config.response_from_request(&get("/x"), false).status, 404);
    assert_eq!(config.response_from_request(&post("/x"), false).status, 403);
}

#[test]
fn default_configuration() {
    let config = ServerConfig::default();
    assert_eq!(config.ip_address(), [127, 0, 0, 1]);
    assert_eq!(config.port(), 80);
    assert_eq!(config.thread_amount(), 5);
    assert!(config.enable_gzip());
}

#[test]
fn addresses_that_parse() {
    assert_eq!(parse_ipv4("0.0.0.0"), Some([0, 0, 0, 0]));
    assert_eq!(parse_ipv4("127.0.0.1"), Some([127, 0, 0, 1]));
    assert_eq!(parse_ipv4("255.255.255.255"), Some([255, 255, 255, 255]));
    assert_eq!(parse_ipv4("1.20.199.200"), Some([1, 20, 199, 200]));
    assert_eq!(parse_ipv4("10.0.9.99"), Some([10, 0, 9, 99]));
}

#[test]
fn addresses_that_do_not_parse() {
    for text in [
        "", ".", "...", "1.2.3", "1.2.3.", ".1.2.3", "1.2.3.4.", "1.2.3.4.5", "1..2.3", "256.1.1.1",
        "1.1.1.256", "1.1.1.999", "01.2.3.4", "1.2.3.04", "00.0.0.0", "1.2.3.4 ", " 1.2.3.4",
        "a.b.c.d", "1.2.3.-4", "+1.2.3.4", "1.2.3.1000", "1,2,3,4", "::1", "١.2.3.4",
    ] {
        assert_eq!(parse_ipv4(text), None, "{:?}", text);
    }
}
