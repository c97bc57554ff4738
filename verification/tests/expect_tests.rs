use nix_wire_script::expect::{evaluate_expects, evaluate_handshake_expects, matcher_outcome, matches_value};
use nix_wire_script::protocol::{HandshakeInfo, ProtocolVersion};
use nix_wire_script::script::{
    DaemonResponse, ErrorInfo, Expect, Matcher, PathInfoResult, ResultData,
};

fn last_response(result: Option<ResultData>) -> DaemonResponse {
    DaemonResponse { terminal: "Last".to_string(), stderr_count: 1, result, error: None }
}

fn info(daemon: Option<&str>, trust: Option<u64>) -> HandshakeInfo {
    HandshakeInfo {
        client_version: ProtocolVersion::new(1, 38),
        server_version: ProtocolVersion::new(1, 38),
        negotiated_version: ProtocolVersion::new(1, 38),
        client_features: Vec::new(),
        server_features: Vec::new(),
        daemon_nix_version: daemon.map(|s| s.to_string()),
        trust_status: trust,
    }
}

#[test]
fn terminal_match() {
    let response = last_response(Some(ResultData::U64(1)));
    let results = evaluate_expects(&[Expect::Terminal("Last".to_string())], &response);
    assert!(results[0].passed);
}

#[test]
fn terminal_mismatch() {
    let response = DaemonResponse {
        terminal: "Error".to_string(),
        stderr_count: 1,
        result: None,
        error: None,
    };
    let results = evaluate_expects(&[Expect::Terminal("Last".to_string())], &response);
    assert!(!results[0].passed);
}

#[test]
fn result_exact_match() {
    let response = last_response(Some(ResultData::U64(1)));
    let results = evaluate_expects(
        &[Expect::Result { field: None, matcher: Matcher::Exact("1".to_string()) }],
        &response,
    );
    assert!(results[0].passed);
}

#[test]
fn result_numeric_comparison() {
    let response = last_response(Some(ResultData::PathInfo(PathInfoResult {
        valid: true,
        deriver: None,
        nar_hash: None,
        references: None,
        registration_time: None,
        nar_size: Some(226552),
        ultimate: None,
        sigs: None,
        ca: None,
    })));
    let results = evaluate_expects(
        &[Expect::Result { field: Some("narSize".to_string()), matcher: Matcher::GreaterThan(0) }],
        &response,
    );
    assert!(results[0].passed);
}

#[test]
fn error_regex_match() {
    let response = DaemonResponse {
        terminal: "Error".to_string(),
        stderr_count: 1,
        result: None,
        error: Some(ErrorInfo {
            error_type: "Error".to_string(),
            level: 0,
            name: "".to_string(),
            message: "path /nix/store/abc is not valid".to_string(),
        }),
    };
    let results = evaluate_expects(
        &[Expect::Error { matcher: Matcher::Regex("not valid".to_string()) }],
        &response,
    );
    assert!(results[0].passed);
}

#[test]
fn stderr_count_match() {
    let response = DaemonResponse {
        terminal: "Last".to_string(),
        stderr_count: 0,
        result: None,
        error: None,
    };
    let results = evaluate_expects(
        &[Expect::StderrCount { matcher: Matcher::Exact("0".to_string()) }],
        &response,
    );
    assert!(results[0].passed);
}

#[test]
fn handshake_daemon_exact() {
    let results = evaluate_handshake_expects(
        &[Expect::Daemon { matcher: Matcher::Exact("2.33.3".to_string()) }],
        &info(Some("2.33.3"), Some(1)),
    );
    assert!(results[0].passed);
}

#[test]
fn handshake_daemon_regex() {
    let results = evaluate_handshake_expects(
        &[Expect::Daemon { matcher: Matcher::Regex("^2\\.".to_string()) }],
        &info(Some("2.33.3"), Some(1)),
    );
    assert!(results[0].passed);
}

#[test]
fn handshake_trust_match() {
    let results = evaluate_handshake_expects(
        &[Expect::Trust { matcher: Matcher::Exact("trusted".to_string()) }],
        &info(None, Some(1)),
    );
    assert!(results[0].passed);
}

#[test]
fn handshake_trust_mismatch() {
    let results = evaluate_handshake_expects(
        &[Expect::Trust { matcher: Matcher::Exact("trusted".to_string()) }],
        &info(None, Some(2)),
    );
    assert!(!results[0].passed);
}

// One result per expect, in order.
#[test]
fn one_result_per_expect_in_order() {
    let response = last_response(Some(ResultData::U64(7)));
    let expects = vec![
        Expect::Terminal("Last".to_string()),
        Expect::Terminal("Error".to_string()),
        Expect::Result { field: None, matcher: Matcher::LessOrEqual(7) },
        Expect::Result { field: None, matcher: Matcher::LessThan(7) },
    ];
    let results = evaluate_expects(&expects, &response);
    assert_eq!(results.len(), 4);
    assert!(results[0].passed);
    assert!(!results[1].passed);
    assert!(results[2].passed);
    assert!(!results[3].passed);
}

#[test]
fn numeric_matchers_on_plain_values() {
    assert!(matches_value(&Matcher::GreaterOrEqual(5), "5"));
    assert!(!matches_value(&Matcher::GreaterThan(5), "5"));
    assert!(matches_value(&Matcher::LessThan(-3), "-4"));
    assert!(!matches_value(&Matcher::LessThan(0), "abc"));
    assert!(matches_value(&Matcher::Exact("x".to_string()), "x"));
    assert!(!matches_value(&Matcher::Exact("x".to_string()), "y"));
}

#[test]
fn regex_matcher_uses_pattern() {
    assert!(matches_value(&Matcher::Regex("^ab+c$".to_string()), "abbbc"));
    assert!(!matches_value(&Matcher::Regex("^ab+c$".to_string()), "ac"));
    // An invalid pattern matches nothing.
    assert!(!matches_value(&Matcher::Regex("(".to_string()), "("));
}

#[test]
fn matcher_outcome_takes_regex_result() {
    let m = Matcher::Regex("x".to_string());
    assert!(matcher_outcome(&m, "anything", true));
    assert!(!matcher_outcome(&m, "x", false));
    assert!(matcher_outcome(&Matcher::Exact("a".to_string()), "a", false));
}

#[test]
fn non_handshake_expect_in_preamble_is_reported_in_debug_form() {
    let expects = vec![Expect::Terminal("La\"st".to_string())];
    let results = evaluate_handshake_expects(&expects, &info(Some("2.33.3"), Some(1)));
    assert_eq!(results.len(), 1);
    assert!(!results[0].passed);
    assert_eq!(results[0].message, "non-handshake expect in preamble: Terminal(\"La\\\"st\")");
}
