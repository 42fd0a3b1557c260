use balancebeam::config::{ConfigError, ProxyConfig};
use balancebeam::framing::{check_body, extend_header_value, parse_content_length, BodyProgress};
use balancebeam::health::{apply_sweep, probe_is_healthy, record_probe};
use balancebeam::liveness::LivenessSet;
use balancebeam::rate::RateLedger;
use balancebeam::registry::UpstreamRegistry;
use balancebeam::relay::{
    relay_step, session_start, status_for_parse_error, ParseError, RelayAction, RelayEvent,
    RelayState, Session, STATUS_BAD_GATEWAY, STATUS_BAD_REQUEST, STATUS_PAYLOAD_TOO_LARGE,
    STATUS_SERVICE_UNAVAILABLE, STATUS_TOO_MANY_REQUESTS,
};
use balancebeam::select::{pick_after_failure, pick_upstream, SelectError};

#[test]
fn test_rate_threshold_boundary() {
    // With threshold 3, the 3rd request from a source is admitted and the 4th
    // is rejected.
    let mut ledger = RateLedger::new();
    let src = 42u64;
    assert!(ledger.try_admit(src, 3));
    assert!(ledger.try_admit(src, 3));
    assert!(ledger.try_admit(src, 3));
    assert!(!ledger.try_admit(src, 3));
}

#[test]
fn test_rate_reset_readmits() {
    // A source rejected in one window is admitted again from zero after the
    // reset.
    let mut ledger = RateLedger::new();
    let src = 7u64;
    assert!(ledger.try_admit(src, 1));
    assert!(!ledger.try_admit(src, 1));
    ledger.reset();
    assert!(ledger.try_admit(src, 1));
}

#[test]
fn test_rate_zero_threshold_unlimited() {
    let mut ledger = RateLedger::new();
    for _ in 0..1000 {
        assert!(ledger.try_admit(9, 0));
    }
}

#[test]
fn test_rate_sources_independent() {
    let mut ledger = RateLedger::new();
    assert!(ledger.try_admit(1, 1));
    assert!(!ledger.try_admit(1, 1));
    assert!(ledger.try_admit(2, 1));
}

#[test]
fn test_screen_source_rejection_is_429() {
    let mut ledger = RateLedger::new();
    assert_eq!(ledger.screen_source(5, 1), None);
    assert_eq!(ledger.screen_source(5, 1), Some(STATUS_TOO_MANY_REQUESTS));
    assert_eq!(ledger.screen_source(5, 1), Some(429));
}

#[test]
fn test_selector_picks_live_index() {
    let set = LivenessSet::new_all_live(3);
    for _ in 0..100 {
        let picked = pick_upstream(&set).unwrap();
        assert!(picked < 3);
        assert!(set.is_live(picked));
    }
}

#[test]
fn test_selector_empty_fails() {
    let mut set = LivenessSet::new_all_live(2);
    set.mark(0, false);
    set.mark(1, false);
    assert_eq!(pick_upstream(&set), Err(SelectError::NoUpstreamAvailable));
}

#[test]
fn test_connect_failure_evicts_before_retry() {
    // After a connect failure the failed index is gone from the liveness set
    // before the next pick, which therefore lands elsewhere.
    let mut set = LivenessSet::new_all_live(2);
    let next = pick_after_failure(&mut set, 0);
    assert!(!set.is_live(0));
    assert_eq!(next, Ok(1));
    let exhausted = pick_after_failure(&mut set, 1);
    assert!(!set.is_live(1));
    assert_eq!(exhausted, Err(SelectError::NoUpstreamAvailable));
}

#[test]
fn test_empty_selection_gives_client_502() {
    let mut set = LivenessSet::new_all_live(1);
    set.mark(0, false);
    let pick = pick_upstream(&set);
    assert_eq!(pick, Err(SelectError::NoUpstreamAvailable));
    assert_eq!(session_start(pick), Err(STATUS_BAD_GATEWAY));
}

#[test]
fn test_sweep_membership_follows_status() {
    // A probe returning non-200 removes the index; one returning 200 (re)adds
    // it; sweeping again with the same statuses changes nothing.
    let mut set = LivenessSet::new_all_live(3);
    let statuses = vec![200u16, 503u16, 200u16];
    apply_sweep(&mut set, &statuses);
    assert!(set.is_live(0));
    assert!(!set.is_live(1));
    assert!(set.is_live(2));
    apply_sweep(&mut set, &statuses);
    assert!(set.is_live(0));
    assert!(!set.is_live(1));
    assert!(set.is_live(2));
    let recovered = vec![200u16, 200u16, 404u16];
    apply_sweep(&mut set, &recovered);
    assert!(set.is_live(1));
    assert!(!set.is_live(2));
}

#[test]
fn test_probe_classification() {
    assert!(probe_is_healthy(200));
    assert!(!probe_is_healthy(201));
    assert!(!probe_is_healthy(404));
    assert!(!probe_is_healthy(500));
    assert!(!probe_is_healthy(0));
}

#[test]
fn test_record_probe_single_index() {
    let mut set = LivenessSet::new_all_live(2);
    record_probe(&mut set, 1, 500);
    assert!(set.is_live(0));
    assert!(!set.is_live(1));
    record_probe(&mut set, 1, 200);
    assert!(set.is_live(1));
}

#[test]
fn test_hundred_sessions_route_to_sole_live_upstream() {
    // Upstreams [A, B]: A's probe returns 200, B's is refused, so only A is
    // live; 100 connections with threshold 0 are all admitted and all route
    // to A.
    let registry = UpstreamRegistry::new(vec![String::from("a:1"), String::from("b:2")]);
    let mut set = LivenessSet::new_all_live(registry.len());
    let probe_statuses = vec![200u16, 0u16];
    apply_sweep(&mut set, &probe_statuses);
    assert!(set.is_live(0));
    assert!(!set.is_live(1));
    let mut ledger = RateLedger::new();
    for client in 0..100u64 {
        assert_eq!(ledger.screen_source(client, 0), None);
        let pick = pick_upstream(&set).unwrap();
        assert_eq!(pick, 0);
        assert_eq!(registry.addr_at(pick).as_str(), "a:1");
        let session = session_start(Ok(pick)).ok().unwrap();
        assert_eq!(session.upstream, 0);
    }
}

#[test]
fn test_status_for_each_parse_error() {
    assert_eq!(
        status_for_parse_error(&ParseError::IncompleteRequest(5)),
        STATUS_BAD_REQUEST
    );
    assert_eq!(
        status_for_parse_error(&ParseError::MalformedRequest),
        STATUS_BAD_REQUEST
    );
    assert_eq!(
        status_for_parse_error(&ParseError::InvalidContentLength),
        STATUS_BAD_REQUEST
    );
    assert_eq!(
        status_for_parse_error(&ParseError::ContentLengthMismatch),
        STATUS_BAD_REQUEST
    );
    assert_eq!(
        status_for_parse_error(&ParseError::RequestBodyTooLarge),
        STATUS_PAYLOAD_TOO_LARGE
    );
    assert_eq!(
        status_for_parse_error(&ParseError::ConnectionError),
        STATUS_SERVICE_UNAVAILABLE
    );
}

#[test]
fn test_two_requests_two_responses_in_order() {
    // One session, two well-formed requests in turn: two responses come back
    // in the same order, over the same upstream.
    let mut session = Session {
        upstream: 1,
        state: RelayState::AwaitingRequest,
    };
    for _ in 0..2 {
        assert_eq!(session.step(RelayEvent::RequestRead), RelayAction::ForwardRequest);
        assert_eq!(session.upstream, 1);
        assert_eq!(session.step(RelayEvent::UpstreamWriteOk), RelayAction::ReadResponse);
        assert_eq!(session.upstream, 1);
        assert_eq!(session.step(RelayEvent::ResponseRead), RelayAction::SendResponse);
        assert_eq!(session.upstream, 1);
        assert_eq!(session.step(RelayEvent::ResponseSent), RelayAction::Idle);
        assert_eq!(session.upstream, 1);
        assert_eq!(session.state, RelayState::AwaitingRequest);
    }
}

#[test]
fn test_clean_client_close_ends_session_silently() {
    let r = relay_step(
        RelayState::AwaitingRequest,
        RelayEvent::RequestFailed(ParseError::IncompleteRequest(0)),
    );
    assert_eq!(r, (RelayState::Closed, RelayAction::Idle));
    let io = relay_step(
        RelayState::AwaitingRequest,
        RelayEvent::RequestFailed(ParseError::ConnectionError),
    );
    assert_eq!(io, (RelayState::Closed, RelayAction::Idle));
}

#[test]
fn test_malformed_request_costs_400_and_session_goes_on() {
    let r = relay_step(
        RelayState::AwaitingRequest,
        RelayEvent::RequestFailed(ParseError::MalformedRequest),
    );
    assert_eq!(
        r,
        (
            RelayState::AwaitingRequest,
            RelayAction::SendError(STATUS_BAD_REQUEST)
        )
    );
}

#[test]
fn test_upstream_failures_end_session_with_502() {
    let w = relay_step(RelayState::Forwarding, RelayEvent::UpstreamWriteFailed);
    assert_eq!(
        w,
        (RelayState::Closed, RelayAction::SendError(STATUS_BAD_GATEWAY))
    );
    let r = relay_step(RelayState::AwaitingResponse, RelayEvent::UpstreamReadFailed);
    assert_eq!(
        r,
        (RelayState::Closed, RelayAction::SendError(STATUS_BAD_GATEWAY))
    );
}

#[test]
fn test_client_send_failure_is_not_fatal() {
    let r = relay_step(RelayState::Relaying, RelayEvent::ResponseSendFailed);
    assert_eq!(r, (RelayState::AwaitingRequest, RelayAction::Idle));
}

#[test]
fn test_incomplete_body_maps_to_400() {
    // A client declares Content-Length: 10, sends 5 bytes, then closes: the
    // codec check reports IncompleteRequest(5) and the relay answers 400 and
    // keeps going.
    let outcome = check_body(10, 1024, 5, true);
    assert_eq!(outcome, Err(ParseError::IncompleteRequest(5)));
    let err = outcome.unwrap_err();
    assert_eq!(status_for_parse_error(&err), 400);
    let r = relay_step(RelayState::AwaitingRequest, RelayEvent::RequestFailed(err));
    assert_eq!(
        r,
        (
            RelayState::AwaitingRequest,
            RelayAction::SendError(STATUS_BAD_REQUEST)
        )
    );
}

#[test]
fn test_check_body_outcomes() {
    assert_eq!(check_body(10, 1024, 10, false), Ok(BodyProgress::Complete));
    assert_eq!(check_body(10, 1024, 4, false), Ok(BodyProgress::AwaitingMore));
    assert_eq!(
        check_body(10, 1024, 11, false),
        Err(ParseError::ContentLengthMismatch)
    );
    assert_eq!(
        check_body(2048, 1024, 0, false),
        Err(ParseError::RequestBodyTooLarge)
    );
}

#[test]
fn test_parse_content_length() {
    assert_eq!(parse_content_length(&b"123".to_vec()), Ok(123));
    assert_eq!(parse_content_length(&b"0".to_vec()), Ok(0));
    assert_eq!(
        parse_content_length(&b"".to_vec()),
        Err(ParseError::InvalidContentLength)
    );
    assert_eq!(
        parse_content_length(&b"12a".to_vec()),
        Err(ParseError::InvalidContentLength)
    );
    assert_eq!(
        parse_content_length(&b"+5".to_vec()),
        Err(ParseError::InvalidContentLength)
    );
    assert_eq!(
        parse_content_length(&b"99999999999999999999999999".to_vec()),
        Err(ParseError::InvalidContentLength)
    );
}

#[test]
fn test_extend_header_value_appends() {
    assert_eq!(extend_header_value(None, "1.2.3.4"), "1.2.3.4");
    assert_eq!(
        extend_header_value(Some("10.0.0.1"), "1.2.3.4"),
        "10.0.0.1, 1.2.3.4"
    );
}

#[test]
fn test_config_requires_an_upstream() {
    let none = ProxyConfig::new(
        String::from("0.0.0.0:8080"),
        vec![],
        10,
        String::from("/"),
        0,
    );
    assert_eq!(none.err(), Some(ConfigError::NoUpstreams));
    let one = ProxyConfig::new(
        String::from("0.0.0.0:8080"),
        vec![String::from("127.0.0.1:9000")],
        10,
        String::from("/"),
        5,
    );
    let config = one.ok().unwrap();
    assert_eq!(config.bind, "0.0.0.0:8080");
    assert_eq!(config.upstreams.len(), 1);
    assert_eq!(config.health_check_interval, 10);
    assert_eq!(config.health_check_path, "/");
    assert_eq!(config.max_requests_per_minute, 5);
}

#[test]
fn test_registry_is_ordered_and_indexed() {
    let registry = UpstreamRegistry::new(vec![String::from("x:1"), String::from("y:2")]);
    assert_eq!(registry.len(), 2);
    assert_eq!(registry.addr_at(0).as_str(), "x:1");
    assert_eq!(registry.addr_at(1).as_str(), "y:2");
}

#[test]
fn test_liveness_counting() {
    let mut set = LivenessSet::new_all_live(4);
    assert_eq!(set.len(), 4);
    assert_eq!(set.count_live(), 4);
    set.mark(2, false);
    assert_eq!(set.count_live(), 3);
    assert_eq!(set.nth_live(2), 3);
    set.mark(2, true);
    assert_eq!(set.count_live(), 4);
    assert_eq!(set.nth_live(2), 2);
}
