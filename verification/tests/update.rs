use rusty_ddns::cloudflare::CloudflareUpdateRequest;
use rusty_ddns::ip::{IpAddr, Ipv4Addr, Ipv6Addr};
use rusty_ddns::update::{
    classify_failure, get_sld, translate_error, TransportFailure, UpdateError, UpdateRequest,
};

#[test]
fn get_sld_returns_domain_for_root_record() {
    assert_eq!(get_sld("example.com"), "example.com");
}

#[test]
fn get_sld_strips_subdomains() {
    assert_eq!(get_sld("host.internal.example.com"), "example.com");
}

#[test]
fn get_sld_keeps_empty_labels() {
    assert_eq!(get_sld("a..b"), ".b");
    assert_eq!(get_sld("host.example.com."), "com.");
}

#[test]
fn get_sld_is_idempotent_on_examples() {
    let once = get_sld("deep.host.internal.example.org");
    assert_eq!(once, "example.org");
    assert_eq!(get_sld(&once), once);
}

#[test]
fn cloudflare_constructor_wraps_cloudflare_request() {
    let ipv4addr = IpAddr::V4(Ipv4Addr::new(203, 0, 113, 10));
    let ipv6addr = IpAddr::V6(Ipv6Addr::new(0x2001, 0xdb8, 0, 0, 0, 0, 0, 1));

    let request = UpdateRequest::cloudflare(
        "token".to_string(),
        "host.example.com".to_string(),
        Some(ipv4addr),
        Some(ipv6addr),
        true,
    );

    assert!(matches!(request, UpdateRequest::Cloudflare(_)));
}

#[test]
fn constructs_cloudflare_update_requests_through_public_api() {
    let request = UpdateRequest::cloudflare(
        "token".to_string(),
        "host.example.com".to_string(),
        Some(IpAddr::V4(Ipv4Addr::new(203, 0, 113, 10))),
        None,
        false,
    );

    assert!(matches!(request, UpdateRequest::Cloudflare(_)));
}

#[test]
fn cloudflare_constructor_keeps_every_field() {
    let request = UpdateRequest::cloudflare(
        "token".to_string(),
        "host.example.com".to_string(),
        None,
        Some(IpAddr::V6(Ipv6Addr::new(0x2001, 0xdb8, 0, 0, 0, 0, 0, 1))),
        true,
    );
    let UpdateRequest::Cloudflare(CloudflareUpdateRequest {
        api_token,
        record_name,
        ipv4addr,
        ipv6addr,
        allow_create,
    }) = request;
    assert_eq!(api_token, "token");
    assert_eq!(record_name, "host.example.com");
    assert_eq!(ipv4addr, None);
    assert_eq!(ipv6addr, Some(IpAddr::V6(Ipv6Addr::new(0x2001, 0xdb8, 0, 0, 0, 0, 0, 1))));
    assert!(allow_create);
}

fn failure(timed_out: bool, connect: bool) -> TransportFailure {
    TransportFailure { timed_out, connect, detail: "boom".to_string() }
}

#[test]
fn timeouts_are_retryable() {
    match classify_failure(&failure(true, false)) {
        UpdateError::Retryable(m) => assert_eq!(m, "Connection timed out, error: [boom]"),
        other => panic!("unexpected {:?}", other),
    }
}

#[test]
fn connection_errors_are_retryable() {
    match classify_failure(&failure(false, true)) {
        UpdateError::Retryable(m) => assert_eq!(m, "Connection error, error: [boom]"),
        other => panic!("unexpected {:?}", other),
    }
}

#[test]
fn other_transport_errors_are_fatal() {
    match classify_failure(&failure(false, false)) {
        UpdateError::Fatal(m) => assert_eq!(m, "Got unexpected error, error: [boom]"),
        other => panic!("unexpected {:?}", other),
    }
}

#[test]
fn timeout_wins_over_connect() {
    assert!(matches!(classify_failure(&failure(true, true)), UpdateError::Retryable(m) if m.starts_with("Connection timed out")));
}

#[test]
fn pretty_debug_matches_alternate_debug_format() {
    let e = UpdateError::Fatal("say \"hi\"\nnow".to_string());
    assert_eq!(e.pretty_debug(), format!("{:#?}", e));
    let r = UpdateError::Retryable("x".to_string());
    assert_eq!(r.pretty_debug(), format!("{:#?}", r));
    assert_eq!(r.pretty_debug(), "Retryable(\n    \"x\",\n)");
}

#[test]
fn context_keeps_error_kind() {
    let e = UpdateError::Retryable("inner".to_string()).with_context("Failed to get zone for record name: [", "a.b");
    match e {
        UpdateError::Retryable(m) => assert_eq!(
            m,
            "Failed to get zone for record name: [a.b], error: [Retryable(\n    \"inner\",\n)]"
        ),
        other => panic!("unexpected {:?}", other),
    }
}

#[test]
fn malformed_request_errors_are_fatal() {
    let client = reqwest::blocking::Client::new();
    let e = client.get("not a url").send().unwrap_err();
    let detail = format!("{:#?}", e);
    let failure = TransportFailure::from_error(&e);
    assert!(!failure.timed_out);
    assert!(!failure.connect);
    assert_eq!(failure.detail, detail);
    match translate_error(e) {
        UpdateError::Fatal(m) => {
            assert_eq!(m, format!("Got unexpected error, error: [{}]", detail))
        }
        other => panic!("unexpected {:?}", other),
    }
}

#[test]
fn refused_connections_are_retryable() {
    let client = reqwest::blocking::Client::new();
    let e = client.get("http://127.0.0.1:1/").send().unwrap_err();
    assert!(TransportFailure::from_error(&e).connect);
    match translate_error(e) {
        UpdateError::Retryable(m) => assert!(m.starts_with("Connection error, error: [")),
        other => panic!("unexpected {:?}", other),
    }
}
