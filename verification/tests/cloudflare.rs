use rusty_ddns::cloudflare::{
    created_record, get_body, get_body_at, get_create_body, get_create_body_at,
    get_most_specific_zone, read_outcome, record_from_lookup, zone_from_outcome, zone_lookup_request,
    ApiOutcome, ApiReply, CloudflareUpdateRequest, HttpMethod, RecordResponse, ReplyKind,
    ReplyResult, RequestBody, SessionAction, SessionEvent, UpdateSession, Zone,
};
use rusty_ddns::ip::{IpAddr, Ipv4Addr, Ipv6Addr};
use rusty_ddns::update::{TransportFailure, UpdateError};

fn zone(name: &str) -> Zone {
    Zone {
        id: format!("zone-{name}"),
        name: name.to_string(),
    }
}

#[test]
fn selects_most_specific_zone_for_nested_record() {
    let zones = vec![zone("example.com"), zone("sub.example.com")];

    let selected = get_most_specific_zone(&zones, "host.sub.example.com").unwrap();

    assert_eq!(selected.id, "zone-sub.example.com");
    assert_eq!(selected.name, "sub.example.com");
}

#[test]
fn selects_exact_zone_before_parent_zone() {
    let zones = vec![zone("example.com"), zone("host.example.com")];

    let selected = get_most_specific_zone(&zones, "host.example.com").unwrap();

    assert_eq!(selected.id, "zone-host.example.com");
    assert_eq!(selected.name, "host.example.com");
}

#[test]
fn returns_none_when_no_zone_matches_record_name() {
    let zones = vec![zone("example.net"), zone("sub.example.net")];

    assert!(get_most_specific_zone(&zones, "host.example.com").is_none());
}

#[test]
fn zone_match_needs_whole_labels() {
    let zones = vec![zone("ample.com")];
    assert!(get_most_specific_zone(&zones, "host.example.com").is_none());
    let zones = vec![zone("com"), zone("ample.com")];
    assert_eq!(get_most_specific_zone(&zones, "host.example.com").unwrap().name, "com");
}

#[test]
fn first_listed_zone_wins_among_equal_names() {
    let zones = vec![
        Zone { id: "first".to_string(), name: "example.com".to_string() },
        Zone { id: "second".to_string(), name: "example.com".to_string() },
    ];
    assert_eq!(get_most_specific_zone(&zones, "a.example.com").unwrap().id, "first");
}

const PREFIX: &str = "Updated by rusty_ddns client for Cloudflare at ";

fn ipv4() -> IpAddr {
    IpAddr::V4(Ipv4Addr::new(203, 0, 113, 10))
}

fn ipv6() -> IpAddr {
    IpAddr::V6(Ipv6Addr::new(0x2001, 0xdb8, 0, 0, 0, 0, 0, 0x10))
}

#[test]
fn builds_ipv4_update_request_body() {
    let ip = ipv4();

    let body = get_body(&ip, "host.example.com");

    assert_eq!(body.name, "host.example.com");
    assert_eq!(body.content, "203.0.113.10");
    assert_eq!(body.record_type, "A");
    assert!(body.comment.starts_with(PREFIX));
}

#[test]
fn builds_ipv6_update_request_body() {
    let ip = ipv6();

    let body = get_body(&ip, "host.example.com");

    assert_eq!(body.name, "host.example.com");
    assert_eq!(body.content, "2001:db8::10");
    assert_eq!(body.record_type, "AAAA");
    assert!(body.comment.starts_with(PREFIX));
}

#[test]
fn builds_ipv4_create_request_body_with_proxied_disabled() {
    let ip = ipv4();

    let body = get_create_body(&ip, "host.example.com");

    assert_eq!(body.name, "host.example.com");
    assert_eq!(body.content, "203.0.113.10");
    assert_eq!(body.record_type, "A");
    assert!(!body.proxied);
    assert!(body.comment.starts_with(PREFIX));
}

#[test]
fn builds_ipv6_create_request_body_with_proxied_disabled() {
    let ip = ipv6();

    let body = get_create_body(&ip, "host.example.com");

    assert_eq!(body.name, "host.example.com");
    assert_eq!(body.content, "2001:db8::10");
    assert_eq!(body.record_type, "AAAA");
    assert!(!body.proxied);
    assert!(body.comment.starts_with(PREFIX));
}

#[test]
fn body_comment_carries_current_time() {
    let body = get_body(&ipv4(), "host.example.com");
    let millis: u128 = body.comment[PREFIX.len()..].parse().unwrap();
    assert!(millis > 1_600_000_000_000);
}

#[test]
fn stamped_bodies_carry_the_given_time() {
    let body = get_body_at(&ipv4(), "host.example.com", 1234567);
    assert_eq!(body.comment, format!("{PREFIX}1234567"));
    let body = get_create_body_at(&ipv6(), "h.example.com", 0);
    assert_eq!(body.comment, format!("{PREFIX}0"));
    assert_eq!(body.name, "h.example.com");
}

fn reply<T>(success: Option<Option<bool>>, result: ReplyResult<T>) -> ApiOutcome<T> {
    ApiOutcome::Replied(ApiReply { success, result, dump: "DUMP".to_string() })
}

fn fatal_message<T: std::fmt::Debug>(r: Result<T, UpdateError>) -> String {
    match r {
        Err(UpdateError::Fatal(m)) => m,
        other => panic!("expected a fatal error, got {:?}", other),
    }
}

#[test]
fn reads_outcomes() {
    let r: Result<Option<u8>, UpdateError> = read_outcome(reply(None, ReplyResult::Decoded(7)));
    assert_eq!(r.unwrap(), Some(7));
    let r: Result<Option<u8>, UpdateError> =
        read_outcome(reply(Some(Some(true)), ReplyResult::Absent));
    assert_eq!(r.unwrap(), None);
    let r: Result<Option<u8>, UpdateError> =
        read_outcome(reply(Some(None), ReplyResult::Decoded(1)));
    assert_eq!(r.unwrap(), Some(1));
    assert_eq!(
        fatal_message(read_outcome(reply(Some(Some(false)), ReplyResult::Decoded(1u8)))),
        "Received unsuccessful response from CloudFlare API, response: [DUMP]"
    );
    assert_eq!(
        fatal_message(read_outcome(reply::<u8>(None, ReplyResult::Undecodable("bad".to_string())))),
        "Failed to deserialize response: [DUMP], error: [bad]"
    );
    assert_eq!(
        fatal_message(read_outcome(ApiOutcome::<u8>::Unreadable("eof".to_string()))),
        "Failed to parse response, error: [eof]"
    );
    let r: Result<Option<u8>, UpdateError> = read_outcome(ApiOutcome::Failed(TransportFailure {
        timed_out: true,
        connect: false,
        detail: "slow".to_string(),
    }));
    assert!(matches!(r, Err(UpdateError::Retryable(m)) if m == "Connection timed out, error: [slow]"));
}

#[test]
fn zone_lookup_reports_missing_zones() {
    assert_eq!(
        fatal_message(zone_from_outcome("host.example.com", reply(None, ReplyResult::Absent))),
        "Could not find zone for record name: [host.example.com]"
    );
    assert_eq!(
        fatal_message(zone_from_outcome(
            "host.example.com",
            reply(None, ReplyResult::Decoded(vec![zone("example.net")]))
        )),
        "Could not find zone for record name: [host.example.com]"
    );
    let z = zone_from_outcome(
        "host.example.com",
        reply(None, ReplyResult::Decoded(vec![zone("example.com")])),
    )
    .unwrap();
    assert_eq!(z.id, "zone-example.com");
}

#[test]
fn zone_lookup_wraps_retryable_errors() {
    let r = zone_from_outcome(
        "host.example.com",
        ApiOutcome::Failed(TransportFailure { timed_out: false, connect: true, detail: "refused".to_string() }),
    );
    match r {
        Err(UpdateError::Retryable(m)) => assert_eq!(
            m,
            "Failed to get zone for record name: [host.example.com], error: [Retryable(\n    \"Connection error, error: [refused]\",\n)]"
        ),
        other => panic!("unexpected {:?}", other),
    }
}

fn record(id: &str, modified_on: &str) -> RecordResponse {
    RecordResponse { id: id.to_string(), modified_on: modified_on.to_string() }
}

#[test]
fn record_lookup_takes_first_record() {
    let found = record_from_lookup(
        "host.example.com",
        reply(None, ReplyResult::Decoded(vec![record("r1", "t1"), record("r2", "t2")])),
    )
    .unwrap()
    .unwrap();
    assert_eq!(found.id, "r1");
    assert!(record_from_lookup("h.example.com", reply(None, ReplyResult::Decoded(vec![]))).unwrap().is_none());
    assert!(record_from_lookup("h.example.com", reply(None, ReplyResult::Absent)).unwrap().is_none());
}

#[test]
fn empty_create_reply_is_fatal() {
    assert_eq!(
        fatal_message(created_record("z1", &ipv4(), "host.example.com", reply(None, ReplyResult::Absent))),
        "Received emtpy response when creating record for zone ID: [z1], name: [host.example.com]"
    );
    let u = created_record("z1", &ipv4(), "host.example.com", reply(None, ReplyResult::Decoded(record("r", "when")))).unwrap();
    assert_eq!(u.ip, ipv4());
    assert_eq!(u.record_name, "host.example.com");
    assert_eq!(u.modified_on, "when");
}

#[test]
fn zone_lookup_request_queries_registrable_domain() {
    let req = zone_lookup_request("host.internal.example.com", "token");
    assert_eq!(req.method, HttpMethod::Get);
    assert_eq!(req.url, "https://api.cloudflare.com/client/v4/zones");
    assert_eq!(req.authorization, "Bearer token");
    assert_eq!(req.query, vec![("name.contains".to_string(), "example.com".to_string())]);
    assert!(matches!(req.body, RequestBody::Empty));
    assert_eq!(req.reply, ReplyKind::Zones);
}

fn request(v4: Option<IpAddr>, v6: Option<IpAddr>, allow_create: bool) -> CloudflareUpdateRequest {
    CloudflareUpdateRequest::new(
        "token".to_string(),
        "host.example.com".to_string(),
        v4,
        v6,
        allow_create,
    )
}

fn sent(action: SessionAction) -> rusty_ddns::cloudflare::ApiRequest {
    match action {
        SessionAction::Send(req) => req,
        SessionAction::Finish(r) => panic!("expected a request, got {:?}", r),
    }
}

fn zones_found() -> SessionEvent {
    SessionEvent::Zones(reply(Some(Some(true)), ReplyResult::Decoded(vec![zone("example.com")])))
}

#[test]
fn session_updates_existing_records_of_both_families() {
    let (s, a) = UpdateSession::start(request(Some(ipv4()), Some(ipv6()), false));
    assert_eq!(sent(a).reply, ReplyKind::Zones);

    let (s, a) = s.step_at(zones_found(), 5);
    let req = sent(a);
    assert_eq!(req.url, "https://api.cloudflare.com/client/v4/zones/zone-example.com/dns_records");
    assert_eq!(
        req.query,
        vec![
            ("name.exact".to_string(), "host.example.com".to_string()),
            ("type".to_string(), "A".to_string())
        ]
    );

    let (s, a) = s.step_at(SessionEvent::Records(reply(None, ReplyResult::Decoded(vec![record("rec4", "x")]))), 5);
    let req = sent(a);
    assert_eq!(req.method, HttpMethod::Patch);
    assert_eq!(req.url, "https://api.cloudflare.com/client/v4/zones/zone-example.com/dns_records/rec4");
    match &req.body {
        RequestBody::Update(b) => {
            assert_eq!(b.content, "203.0.113.10");
            assert_eq!(b.record_type, "A");
            assert_eq!(b.comment, format!("{PREFIX}5"));
        },
        other => panic!("unexpected body {:?}", other),
    }

    let (s, a) = s.step_at(SessionEvent::Record(reply(None, ReplyResult::Decoded(record("rec4", "t4")))), 5);
    let req = sent(a);
    assert_eq!(req.query[1], ("type".to_string(), "AAAA".to_string()));

    let (s, a) = s.step_at(SessionEvent::Records(reply(None, ReplyResult::Decoded(vec![record("rec6", "y")]))), 6);
    let req = sent(a);
    assert_eq!(req.url, "https://api.cloudflare.com/client/v4/zones/zone-example.com/dns_records/rec6");

    let (_s, a) = s.step_at(SessionEvent::Record(reply(None, ReplyResult::Decoded(record("rec6", "t6")))), 6);
    match a {
        SessionAction::Finish(Ok(resp)) => {
            let v4 = resp.ipv4_update.unwrap();
            assert_eq!(v4.ip, ipv4());
            assert_eq!(v4.modified_on, "t4");
            let v6 = resp.ipv6_update.unwrap();
            assert_eq!(v6.ip, ipv6());
            assert_eq!(v6.record_name, "host.example.com");
            assert_eq!(v6.modified_on, "t6");
        },
        _ => panic!("expected success"),
    }
}

#[test]
fn session_refuses_to_create_without_permission() {
    let (s, _) = UpdateSession::start(request(Some(ipv4()), None, false));
    let (s, _) = s.step_at(zones_found(), 1);
    let (_s, a) = s.step_at(SessionEvent::Records(reply(None, ReplyResult::Decoded(vec![]))), 1);
    match a {
        SessionAction::Finish(Err(UpdateError::Fatal(m))) => assert_eq!(
            m,
            "Could not find existing A record for name host.example.com, and record creation is disabled"
        ),
        _ => panic!("expected a fatal error"),
    }
}

#[test]
fn session_creates_missing_record_when_allowed() {
    let (s, _) = UpdateSession::start(request(None, Some(ipv6()), true));
    let (s, a) = s.step_at(zones_found(), 1);
    assert_eq!(sent(a).query[1].1, "AAAA");
    let (s, a) = s.step_at(SessionEvent::Records(reply(None, ReplyResult::Absent)), 2);
    let req = sent(a);
    assert_eq!(req.method, HttpMethod::Post);
    assert_eq!(req.url, "https://api.cloudflare.com/client/v4/zones/zone-example.com/dns_records");
    match &req.body {
        RequestBody::Create(b) => {
            assert!(!b.proxied);
            assert_eq!(b.content, "2001:db8::10");
        },
        other => panic!("unexpected body {:?}", other),
    }
    let (_s, a) = s.step_at(SessionEvent::Record(reply(None, ReplyResult::Decoded(record("new", "now")))), 2);
    match a {
        SessionAction::Finish(Ok(resp)) => {
            assert!(resp.ipv4_update.is_none());
            assert_eq!(resp.ipv6_update.unwrap().modified_on, "now");
        },
        _ => panic!("expected success"),
    }
}

#[test]
fn session_without_addresses_only_looks_up_zone() {
    let (s, _) = UpdateSession::start(request(None, None, false));
    let (_s, a) = s.step_at(zones_found(), 1);
    match a {
        SessionAction::Finish(Ok(resp)) => {
            assert!(resp.ipv4_update.is_none());
            assert!(resp.ipv6_update.is_none());
        },
        _ => panic!("expected success"),
    }
}

#[test]
fn session_stops_at_first_failure() {
    let (s, _) = UpdateSession::start(request(Some(ipv4()), Some(ipv6()), false));
    let (s, _) = s.step_at(zones_found(), 1);
    let (s, _) = s.step_at(SessionEvent::Records(reply(None, ReplyResult::Decoded(vec![record("r", "x")]))), 1);
    let event = SessionEvent::Record(ApiOutcome::Failed(TransportFailure {
        timed_out: true,
        connect: false,
        detail: "late".to_string(),
    }));
    assert!(s.accepts(&event));
    let (s, a) = s.step_at(event, 1);
    match a {
        SessionAction::Finish(Err(UpdateError::Retryable(m))) => {
            assert!(m.starts_with("Failed to update record name: [host.example.com], error: [Retryable("))
        },
        _ => panic!("expected a retryable error"),
    }
    assert!(!s.accepts(&zones_found()));
}

#[test]
fn session_accepts_only_the_awaited_answer() {
    let (s, _) = UpdateSession::start(request(Some(ipv4()), None, false));
    assert!(s.accepts(&zones_found()));
    assert!(!s.accepts(&SessionEvent::Records(reply(None, ReplyResult::Absent))));
}

use rusty_ddns::cloudflare::api::{choose_record_write, RecordWrite};
use rusty_ddns::cloudflare::updated_record;

#[test]
fn record_write_decision() {
    match choose_record_write(Some(record("abc", "t")), false, "A", "h.example.com") {
        Ok(RecordWrite::Update(id)) => assert_eq!(id, "abc"),
        _ => panic!("expected an update"),
    }
    assert!(matches!(choose_record_write(None, true, "AAAA", "h.example.com"), Ok(RecordWrite::Create)));
    match choose_record_write(None, false, "AAAA", "h.example.com") {
        Err(UpdateError::Fatal(m)) => assert_eq!(
            m,
            "Could not find existing AAAA record for name h.example.com, and record creation is disabled"
        ),
        _ => panic!("expected a fatal error"),
    }
}

#[test]
fn empty_update_reply_is_fatal() {
    assert_eq!(
        fatal_message(updated_record("z", "r", &ipv6(), "h.example.com", reply(None, ReplyResult::Absent))),
        "Received emtpy response when updating record for zone ID: [z], record ID: [r], name: [h.example.com]"
    );
    let u = updated_record("z", "r", &ipv6(), "h.example.com", reply(None, ReplyResult::Decoded(record("r", "m")))).unwrap();
    assert_eq!(u.modified_on, "m");
    assert_eq!(u.ip, ipv6());
}

#[test]
fn unsuccessful_zone_reply_is_wrapped() {
    match zone_from_outcome("h.example.com", reply(Some(Some(false)), ReplyResult::Decoded(vec![zone("example.com")]))) {
        Err(UpdateError::Fatal(m)) => {
            assert!(m.starts_with("Failed to get zone for record name: [h.example.com], error: [Fatal(\n    \"Received unsuccessful response"));
        },
        other => panic!("unexpected {:?}", other),
    }
}
