use open_proxies::model::{ProbeOutcome, Proto};
use open_proxies::probe::{attempt_outcome, race_branch_passes, run_retry};
use open_proxies::race::RaceState;
use open_proxies::request::{
    http_ok, http_race_ok, make_race_request, make_request, make_request_without_basic_auth,
    socks4_negotiation, socks5_negotiation, socks_reply_ok,
};

#[test]
fn test_make_request_exact() {
    let r = make_request("100.100.100.100", 8080);
    assert_eq!(
        r,
        "CONNECT 100.100.100.100:8080 HTTP/1.1\r\nHost: 100.100.100.100:8080\r\nProxy-Connection: Keep-Alive\r\n"
    );
}

#[test]
fn test_full_request_ends_with_blank_line() {
    let r = make_request_without_basic_auth("100.100.100.100", 80);
    assert_eq!(
        r,
        "CONNECT 100.100.100.100:80 HTTP/1.1\r\nHost: 100.100.100.100:80\r\nProxy-Connection: Keep-Alive\r\n\r\n"
    );
    assert!(r.ends_with("\r\n\r\n"));
}

#[test]
fn test_race_request_exact() {
    let r = make_race_request("100.100.100.100", 1080);
    assert_eq!(r, "CONNECT 100.100.100.100:1080 HTTP/1.1\r\n\r\n");
}

#[test]
fn test_socks_negotiation_packets() {
    assert_eq!(socks5_negotiation(), vec![5u8, 1, 0]);
    assert_eq!(socks4_negotiation(), vec![4u8, 1, 0]);
}

#[test]
fn test_http_ok_parses_status() {
    assert!(http_ok(b"HTTP/1.1 200 OK\r\n\r\n"));
    assert!(http_ok(b"HTTP/1.0 200 Connection established\r\n\r\n"));
    assert!(!http_ok(b"HTTP/1.1 403 Forbidden\r\n\r\n"));
    assert!(!http_ok(b"HTTP/1.1 502 Bad Gateway\r\n\r\n"));
    assert!(!http_ok(b"nonsense bytes"));
    assert!(!http_ok(b""));
}

#[test]
fn test_http_race_ok_prefix_only() {
    assert!(http_race_ok(b"HTTP/1.1 200 OK\r\n"));
    assert!(http_race_ok(b"HTTP/1.1 200 OK\r\ntrailing: headers\r\n\r\n"));
    // the race check wants this exact status line
    assert!(!http_race_ok(b"HTTP/1.0 200 OK\r\n"));
    assert!(!http_race_ok(b"HTTP/1.1 200 ok\r\n"));
    assert!(!http_race_ok(b"HTTP/1.1 200"));
    assert!(!http_race_ok(b""));
}

#[test]
fn test_socks_reply_check() {
    assert!(socks_reply_ok(&[5, 0]));
    assert!(socks_reply_ok(&[5]));
    assert!(!socks_reply_ok(&[4, 0]));
    assert!(!socks_reply_ok(&[0, 0]));
    assert!(!socks_reply_ok(&[]));
}

#[test]
fn test_attempt_outcome_decisions() {
    // HTTP probe passes on a 200 head
    let o = attempt_outcome(&Proto::HTTP, &Some(b"HTTP/1.1 200 OK\r\n\r\n".to_vec()));
    assert_eq!(o, ProbeOutcome { success: true, proto: Proto::HTTP });
    // a passing HTTPS probe reports plain HTTP
    let o = attempt_outcome(&Proto::HTTPS, &Some(b"HTTP/1.1 200 OK\r\n\r\n".to_vec()));
    assert_eq!(o, ProbeOutcome { success: true, proto: Proto::HTTP });
    // a failing HTTPS probe keeps the declared protocol
    let o = attempt_outcome(&Proto::HTTPS, &Some(b"HTTP/1.1 500 x\r\n\r\n".to_vec()));
    assert_eq!(o, ProbeOutcome { success: false, proto: Proto::HTTPS });
    let o = attempt_outcome(&Proto::SOCKS5, &Some(vec![5, 0]));
    assert_eq!(o, ProbeOutcome { success: true, proto: Proto::SOCKS5 });
    // known quirk, deliberately preserved: the SOCKS4 probe accepts the
    // SOCKS5 version byte 0x05, not the SOCKS4 reply code 0x00
    let o = attempt_outcome(&Proto::SOCKS4, &Some(vec![5, 0]));
    assert_eq!(o, ProbeOutcome { success: true, proto: Proto::SOCKS4 });
    let o = attempt_outcome(&Proto::SOCKS4, &Some(vec![0, 90]));
    assert_eq!(o, ProbeOutcome { success: false, proto: Proto::SOCKS4 });
}

#[test]
fn test_attempt_transport_failure_absorbed() {
    // a refused or timed-out connection yields a plain failed outcome for
    // every protocol, never an error
    for proto in [Proto::HTTP, Proto::HTTPS, Proto::SOCKS4, Proto::SOCKS5, Proto::UNKNOWN] {
        let o = attempt_outcome(&proto, &None);
        assert_eq!(o, ProbeOutcome { success: false, proto });
    }
}

#[test]
fn test_race_branch_decisions() {
    // the racing HTTP branches use the prefix-only check, not the parser
    assert!(race_branch_passes(&Proto::HTTP, &Some(b"HTTP/1.1 200 OK\r\n".to_vec())));
    assert!(race_branch_passes(&Proto::HTTPS, &Some(b"HTTP/1.1 200 OK\r\nmore".to_vec())));
    assert!(!race_branch_passes(&Proto::HTTP, &Some(b"HTTP/1.0 200 OK\r\n".to_vec())));
    assert!(race_branch_passes(&Proto::SOCKS5, &Some(vec![5, 0])));
    assert!(race_branch_passes(&Proto::SOCKS4, &Some(vec![5, 0])));
    assert!(!race_branch_passes(&Proto::SOCKS4, &Some(vec![0, 0])));
    assert!(!race_branch_passes(&Proto::SOCKS5, &None));
}

#[test]
fn test_retry_succeeds_on_attempt_k() {
    // fails the first two attempts, passes on the third
    let responses: Vec<Option<Vec<u8>>> = vec![None, Some(vec![0, 0]), Some(vec![5, 0]), None];
    let (outcome, attempts) = run_retry(&Proto::SOCKS5, &responses, 4);
    assert_eq!(outcome, ProbeOutcome { success: true, proto: Proto::SOCKS5 });
    assert_eq!(attempts, 3);
}

#[test]
fn test_retry_stops_at_first_success() {
    let responses: Vec<Option<Vec<u8>>> = vec![Some(vec![5, 0]), None, None];
    let (outcome, attempts) = run_retry(&Proto::SOCKS5, &responses, 3);
    assert!(outcome.success);
    assert_eq!(attempts, 1);
}

#[test]
fn test_retry_exhausts_after_retries() {
    // the success would come on attempt three, but only two are allowed
    let responses: Vec<Option<Vec<u8>>> = vec![None, None, Some(vec![5, 0])];
    let (outcome, attempts) = run_retry(&Proto::SOCKS5, &responses, 2);
    assert_eq!(outcome, ProbeOutcome { success: false, proto: Proto::SOCKS5 });
    assert_eq!(attempts, 2);
}

#[test]
fn test_race_single_success_cancels_rest() {
    let mut race = RaceState::new();
    race.step(None, None, Some(true), None);
    assert_eq!(race.result, Some(ProbeOutcome { success: true, proto: Proto::HTTP }));
    // the three still-running probes each receive a cancellation request
    let cancelled = race.cancellations();
    assert_eq!(cancelled, vec![Proto::SOCKS5, Proto::SOCKS4, Proto::HTTPS]);
}

#[test]
fn test_race_tiebreak_precedence() {
    // two probes pass in the same instant: SOCKS5 outranks SOCKS4
    let mut race = RaceState::new();
    race.step(Some(true), Some(true), None, None);
    assert_eq!(race.result, Some(ProbeOutcome { success: true, proto: Proto::SOCKS5 }));

    // HTTP outranks HTTPS
    let mut race = RaceState::new();
    race.step(None, None, Some(true), Some(true));
    assert_eq!(race.result, Some(ProbeOutcome { success: true, proto: Proto::HTTP }));

    // all four pass at once: SOCKS5 wins
    let mut race = RaceState::new();
    race.step(Some(true), Some(true), Some(true), Some(true));
    assert_eq!(race.result, Some(ProbeOutcome { success: true, proto: Proto::SOCKS5 }));
}

#[test]
fn test_race_failure_does_not_cancel() {
    let mut race = RaceState::new();
    race.step(None, Some(false), None, None);
    // one failed probe resolves nothing and cancels nothing
    assert_eq!(race.result, None);
    race.step(None, None, Some(false), None);
    assert_eq!(race.result, None);
}

#[test]
fn test_race_all_failures_resolve_failed() {
    let mut race = RaceState::new();
    race.step(Some(false), None, None, None);
    race.step(None, Some(false), None, None);
    race.step(None, None, Some(false), None);
    assert_eq!(race.result, None);
    race.step(None, None, None, Some(false));
    assert_eq!(race.result, Some(ProbeOutcome { success: false, proto: Proto::UNKNOWN }));
    assert_eq!(race.cancellations(), Vec::<Proto>::new());
}

#[test]
fn test_race_deadline_resolves_failed() {
    let mut race = RaceState::new();
    race.step(None, Some(false), None, None);
    race.deadline();
    assert_eq!(race.result, Some(ProbeOutcome { success: false, proto: Proto::UNKNOWN }));
    // the probes still in flight are cancelled
    assert_eq!(race.cancellations(), vec![Proto::SOCKS5, Proto::HTTP, Proto::HTTPS]);
}
