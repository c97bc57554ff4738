use nix_wire_script::decompile::{
    daemon_response, decompile_preamble, lookup_timestamp_us, recorded_entry, trust_name,
};
use nix_wire_script::script::{OpCall, ResultData};
use nix_wire_script::protocol::{HandshakeInfo, Op, ProtocolVersion, StderrCode};
use nix_wire_script::stats::{
    aggregate, format_timestamp, lookup_timestamp, op_display_name, op_timing, percentile,
    op_record, plausible_op_code, session_totals, sort_pairs, split_records, Direction, OpRecord, Record,
};

fn rec(direction: Direction, offset_ns: u64, data: &[u8]) -> Record {
    Record { direction, offset_ns, data: data.to_vec() }
}

fn op(name: &str, duration_ns: u64, success: bool, arg: Option<&str>) -> OpRecord {
    OpRecord {
        op_name: name.to_string(),
        duration_ns,
        request_bytes: 8,
        framed_bytes: None,
        success,
        arg_info: arg.map(|s| s.to_string()),
    }
}

#[test]
fn split_records_by_direction() {
    let records = vec![
        rec(Direction::ClientToDaemon, 10, &[1, 2]),
        rec(Direction::DaemonToClient, 20, &[9]),
        rec(Direction::ClientToDaemon, 30, &[3]),
        rec(Direction::ClientToDaemon, 40, &[]),
    ];
    let s = split_records(&records);
    assert_eq!(s.client_bytes, vec![1, 2, 3]);
    assert_eq!(s.daemon_bytes, vec![9]);
    assert_eq!(s.client_ts, vec![(0, 10), (2, 30), (3, 40)]);
    assert_eq!(s.daemon_ts, vec![(0, 20)]);
}

#[test]
fn lookup_follows_binary_search() {
    let ix = vec![(0usize, 100u64), (8, 200), (16, 300)];
    assert_eq!(lookup_timestamp(&ix, 8), 200);
    assert_eq!(lookup_timestamp(&ix, 10), 200);
    assert_eq!(lookup_timestamp(&ix, 40), 300);
    assert_eq!(lookup_timestamp(&vec![(5usize, 7u64)], 0), 7);
    assert_eq!(lookup_timestamp(&vec![], 3), 0);
    assert_eq!(lookup_timestamp_us(&ix, 9), Some(200));
    assert_eq!(lookup_timestamp_us(&[], 9), None);
}

#[test]
fn percentile_is_nearest_rank() {
    assert_eq!(percentile(&[], 50), 0);
    assert_eq!(percentile(&[5], 50), 5);
    assert_eq!(percentile(&[1, 2, 3, 4], 50), 2);
    assert_eq!(percentile(&[1, 2, 3, 4, 5], 50), 3);
    assert_eq!(percentile(&[1, 2, 3, 4, 5], 100), 5);
    assert_eq!(percentile(&[1, 2, 3, 4, 5], 0), 1);
    assert_eq!(percentile(&[1, 2, 3], 1000), 3);
}

#[test]
fn timestamp_has_nine_decimals() {
    assert_eq!(format_timestamp(1_500_000_042), "1.500000042");
    assert_eq!(format_timestamp(7), "0.000000007");
}

#[test]
fn aggregate_groups_orders_and_ranks() {
    let recs = vec![
        op("IsValidPath", 30, true, Some("/nix/store/a")),
        op("QueryPathInfo", 100, true, Some("/nix/store/b")),
        op("IsValidPath", 10, false, Some("/nix/store/a")),
        op("IsValidPath", 20, true, Some("")),
        op("SetOptions", 5, true, None),
        op("QueryPathInfo", 1, true, Some("not-a-path")),
    ];
    let (stats, slowest, top) = aggregate(&recs);
    assert_eq!(stats.len(), 3);
    assert_eq!(stats[0].op_name, "QueryPathInfo");
    assert_eq!(stats[0].total_duration_ns, 101);
    assert_eq!(stats[1].op_name, "IsValidPath");
    assert_eq!(stats[1].count, 3);
    assert_eq!(stats[1].error_count, 1);
    assert_eq!(stats[1].min_duration_ns, 10);
    assert_eq!(stats[1].max_duration_ns, 30);
    assert_eq!(stats[1].p50_duration_ns, 20);
    assert_eq!(stats[1].total_request_bytes, 24);
    assert_eq!(stats[2].op_name, "SetOptions");

    assert_eq!(slowest.len(), 5);
    assert_eq!(slowest[0].duration_ns, 100);
    assert_eq!(slowest[1].duration_ns, 30);
    assert_eq!(slowest[2].arg_info, None);
    assert_eq!(slowest[4].op_name, "SetOptions");

    assert_eq!(top.len(), 2);
    assert_eq!(top[0].path, "/nix/store/a");
    assert_eq!(top[0].count, 2);
    assert_eq!(top[1].path, "/nix/store/b");
}

#[test]
fn equal_keys_keep_their_order() {
    let v = vec![(3u64, 0usize), (5, 1), (3, 2), (5, 3)];
    assert_eq!(sort_pairs(&v, true), vec![(5, 1), (5, 3), (3, 0), (3, 2)]);
    assert_eq!(sort_pairs(&v, false), vec![(3, 0), (3, 2), (5, 1), (5, 3)]);
}

#[test]
fn session_totals_count_bytes_and_failures() {
    let records = vec![
        rec(Direction::ClientToDaemon, 10, &[1, 2]),
        rec(Direction::DaemonToClient, 25, &[9, 9, 9]),
    ];
    let ops = vec![op("A", 1, true, None), op("B", 1, false, None)];
    let t = session_totals(&records, &ops);
    assert_eq!(t.total_ops, 2);
    assert_eq!(t.total_errors, 1);
    assert_eq!(t.client_to_daemon_bytes, 2);
    assert_eq!(t.daemon_to_client_bytes, 3);
    assert_eq!(t.duration_ns, Some(15));
    assert_eq!(session_totals(&vec![], &vec![]).duration_ns, None);
}

#[test]
fn op_codes_and_names() {
    assert!(plausible_op_code(1));
    assert!(!plausible_op_code(0));
    assert!(!plausible_op_code(65));
    assert_eq!(op_display_name(1), "IsValidPath");
    assert_eq!(op_display_name(2), "Unknown(2)");
}

#[test]
fn op_timing_uses_both_indexes() {
    let client = vec![(0usize, 100u64), (16, 200)];
    let daemon = vec![(0usize, 150u64), (8, 260)];
    assert_eq!(op_timing(&client, &daemon, 16, 0, 12), (200, 60));
    // No daemon bytes: the operation takes no time.
    assert_eq!(op_timing(&client, &daemon, 0, 5, 5), (100, 0));
    // A reply stamped before the request counts as instantaneous.
    assert_eq!(op_timing(&client, &daemon, 16, 0, 4), (200, 0));
}

#[test]
fn preamble_from_handshake() {
    let info = HandshakeInfo {
        client_version: ProtocolVersion::new(1, 38),
        server_version: ProtocolVersion::new(1, 37),
        negotiated_version: ProtocolVersion::new(1, 37),
        client_features: vec!["a".to_string()],
        server_features: vec!["b".to_string()],
        daemon_nix_version: Some("2.33.3".to_string()),
        trust_status: Some(2),
    };
    let p = decompile_preamble(&info);
    assert_eq!(p.protocol_version, ProtocolVersion::new(1, 37));
    assert_eq!(p.client_features, vec!["a".to_string()]);
    assert_eq!(p.server_features, Some(vec!["b".to_string()]));
    assert_eq!(p.daemon_version.as_deref(), Some("2.33.3"));
    assert_eq!(p.trust.as_deref(), Some("not-trusted"));
    assert!(p.expects.is_empty());
    assert_eq!(trust_name(1), "trusted");
    assert_eq!(trust_name(9), "unknown");
}

#[test]
fn response_records_terminal_name() {
    let r = daemon_response(Some(StderrCode::Last), 3, None, None);
    assert_eq!(r.terminal, "Last");
    assert_eq!(r.stderr_count, 3);
    let r = daemon_response(None, 0, None, None);
    assert_eq!(r.terminal, "none");
}

#[test]
fn recorded_entries_keep_results_only_after_last() {
    let call = OpCall::SinglePath { op: Op::IsValidPath, path: "/p".to_string() };
    let e = recorded_entry(1, Some(5), Some(call), Some(StderrCode::Last), 0, Some(ResultData::U64(1)), None);
    assert_eq!(e.timestamp_us, Some(5));
    assert!(matches!(e.op_call, OpCall::SinglePath { op: Op::IsValidPath, .. }));
    let r = e.response.unwrap();
    assert_eq!(r.terminal, "Last");
    assert!(matches!(r.result, Some(ResultData::U64(1))));
    assert!(e.expects.is_empty());

    // After an error no result is kept.
    let e = recorded_entry(1, None, None, Some(StderrCode::Error), 2, Some(ResultData::U64(1)), None);
    assert!(matches!(e.op_call, OpCall::RawBytes { op: Op::IsValidPath, ref data } if data.is_empty()));
    assert!(e.response.unwrap().result.is_none());

    // A known operation whose arguments were not decoded is raw.
    let e = recorded_entry(36, None, None, Some(StderrCode::Last), 0, None, None);
    assert!(matches!(e.op_call, OpCall::RawBytes { op: Op::BuildDerivation, .. }));

    // An unknown code is a placeholder, and its result is dropped.
    let e = recorded_entry(999, None, None, Some(StderrCode::Last), 0, Some(ResultData::U64(7)), None);
    assert!(matches!(e.op_call, OpCall::RawBytes { op: Op::IsValidPath, .. }));
    assert!(e.response.unwrap().result.is_none());
}

#[test]
fn op_records_take_name_duration_size_and_outcome() {
    let client_ts = vec![(0usize, 100u64), (16, 250)];
    let daemon_ts = vec![(0usize, 120u64), (8, 400)];
    let r = op_record(1, &client_ts, &daemon_ts, 16, 40, 0, 12, Some(7), Some(StderrCode::Last), None);
    assert_eq!(r.op_name, "IsValidPath");
    assert_eq!(r.duration_ns, 150);
    assert_eq!(r.request_bytes, 24);
    assert_eq!(r.framed_bytes, Some(7));
    assert!(r.success);
    let r = op_record(63, &client_ts, &daemon_ts, 0, 8, 12, 12, None, Some(StderrCode::Error), Some("x".to_string()));
    assert_eq!(r.op_name, "Unknown(63)");
    assert_eq!(r.duration_ns, 0);
    assert!(!r.success);
    assert_eq!(r.arg_info, Some("x".to_string()));
}

#[test]
fn lookup_on_an_unsorted_index_follows_the_search() {
    let ix = vec![(10usize, 1u64), (0, 2), (5, 3)];
    assert_eq!(lookup_timestamp(&ix, 5), 3);
    assert_eq!(lookup_timestamp(&ix, 7), 3);
    assert_eq!(lookup_timestamp(&ix, 0), 1);
    assert_eq!(lookup_timestamp_us(&ix, 5), Some(3));
}
