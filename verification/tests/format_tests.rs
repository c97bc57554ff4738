use nix_wire_script::format::{
    data_files, escape_string, format_path_set, format_script, format_script_written, hex_encode,
    numbered_file_name, FormatOptions,
};
use nix_wire_script::parse::parse_script;
use nix_wire_script::protocol::{Op, ProtocolVersion};
use nix_wire_script::script::{
    DaemonResponse, Entry, ErrorInfo, Expect, FramedData, Matcher, OpCall, PathInfoResult, Preamble,
    ResultData, Script,
};

fn preamble(daemon: Option<&str>, trust: Option<&str>) -> Preamble {
    Preamble {
        protocol_version: ProtocolVersion::new(1, 38),
        client_features: Vec::new(),
        expects: Vec::new(),
        daemon_version: daemon.map(|s| s.to_string()),
        trust: trust.map(|s| s.to_string()),
        server_features: None,
    }
}

fn last_u64(v: u64) -> Option<DaemonResponse> {
    Some(DaemonResponse {
        terminal: "Last".to_string(),
        stderr_count: 1,
        result: Some(ResultData::U64(v)),
        error: None,
    })
}

fn set_options(overrides: Vec<(String, String)>) -> OpCall {
    OpCall::SetOptions {
        keep_failed: 0,
        keep_going: 0,
        try_fallback: 0,
        verbosity: 1,
        max_build_jobs: 16,
        max_silent_time: 0,
        use_build_hook: 1,
        verbose_build: 0,
        log_type: 0,
        print_build_trace: 0,
        build_cores: 0,
        use_substitutes: 1,
        overrides,
    }
}

#[test]
fn format_simple_script() {
    let script = Script {
        preamble: preamble(Some("2.33.3"), Some("trusted")),
        entries: vec![
            Entry {
                timestamp_us: Some(0),
                op_call: OpCall::NoArgs { op: Op::SyncWithGC },
                response: last_u64(1),
                expects: Vec::new(),
            },
            Entry {
                timestamp_us: Some(1234),
                op_call: OpCall::SinglePath {
                    op: Op::IsValidPath,
                    path: "/nix/store/abc-hello".to_string(),
                },
                response: last_u64(1),
                expects: Vec::new(),
            },
        ],
    };

    let text = format_script(&script, &FormatOptions::default());
    assert!(text.contains("# nwscript v1"));
    assert!(text.contains("protocol: 1.38"));
    assert!(!text.contains("# protocol:"), "protocol should not be a comment");
    assert!(text.contains("features: { }"));
    assert!(text.contains("# daemon: 2.33.3"));
    assert!(text.contains("---"));
    assert!(text.contains("@0.000ms SyncWithGC"));
    assert!(text.contains("@1.234ms IsValidPath /nix/store/abc-hello"));
    assert!(text.contains("# response: Last"));
    assert!(text.contains("# result: 1"));
}

#[test]
fn format_set_options() {
    let script = Script {
        preamble: preamble(None, None),
        entries: vec![Entry {
            timestamp_us: None,
            op_call: set_options(vec![("substitute".to_string(), "true".to_string())]),
            response: Some(DaemonResponse {
                terminal: "Last".to_string(),
                stderr_count: 1,
                result: Some(ResultData::Empty),
                error: None,
            }),
            expects: Vec::new(),
        }],
    };

    let text = format_script(&script, &FormatOptions::default());
    assert!(text.contains("SetOptions"));
    assert!(text.contains("  keep_failed: 0"));
    assert!(text.contains("  verbosity: 1"));
    assert!(text.contains("  overrides: 1"));
    assert!(text.contains("    \"substitute\" = \"true\""));
}

#[test]
fn format_path_set_display() {
    assert_eq!(format_path_set(&vec![]), "{ }");
    assert_eq!(format_path_set(&vec!["a".to_string(), "b".to_string()]), "{ a, b }");
}

#[test]
fn roundtrip_format_parse() {
    let script = Script {
        preamble: preamble(Some("2.33.3"), Some("trusted")),
        entries: vec![
            Entry {
                timestamp_us: Some(0),
                op_call: OpCall::NoArgs { op: Op::SyncWithGC },
                response: None,
                expects: Vec::new(),
            },
            Entry {
                timestamp_us: Some(1234),
                op_call: OpCall::SinglePath {
                    op: Op::IsValidPath,
                    path: "/nix/store/abc-hello".to_string(),
                },
                response: None,
                expects: Vec::new(),
            },
            Entry {
                timestamp_us: Some(2000),
                op_call: OpCall::PathSet {
                    op: Op::QueryMissing,
                    paths: vec![
                        "/nix/store/aaa.drv!out".to_string(),
                        "/nix/store/bbb.drv!out".to_string(),
                    ],
                },
                response: None,
                expects: Vec::new(),
            },
            Entry {
                timestamp_us: None,
                op_call: set_options(vec![
                    ("substitute".to_string(), "true".to_string()),
                    ("system".to_string(), "x86_64-linux".to_string()),
                ]),
                response: None,
                expects: Vec::new(),
            },
        ],
    };

    let text = format_script(&script, &FormatOptions::default());
    let parsed = parse_script(&text).expect("roundtrip parse failed");

    assert_eq!(parsed.preamble.protocol_version, script.preamble.protocol_version);
    assert_eq!(parsed.preamble.daemon_version, script.preamble.daemon_version);
    assert_eq!(parsed.preamble.trust, script.preamble.trust);

    assert_eq!(parsed.entries.len(), script.entries.len());

    assert_eq!(parsed.entries[0].op_call.op(), Op::SyncWithGC);
    assert_eq!(parsed.entries[0].timestamp_us.map(|u| u as f64 / 1000.0), Some(0.0));

    assert_eq!(parsed.entries[1].op_call.op(), Op::IsValidPath);
    assert_eq!(parsed.entries[1].timestamp_us.map(|u| u as f64 / 1000.0), Some(1.234));
    if let OpCall::SinglePath { path, .. } = &parsed.entries[1].op_call {
        assert_eq!(path, "/nix/store/abc-hello");
    } else {
        panic!("expected SinglePath");
    }

    assert_eq!(parsed.entries[2].op_call.op(), Op::QueryMissing);
    if let OpCall::PathSet { paths, .. } = &parsed.entries[2].op_call {
        assert_eq!(paths.len(), 2);
        assert_eq!(paths[0], "/nix/store/aaa.drv!out");
    } else {
        panic!("expected PathSet");
    }

    assert_eq!(parsed.entries[3].op_call.op(), Op::SetOptions);
    if let OpCall::SetOptions { verbosity, max_build_jobs, overrides, .. } =
        &parsed.entries[3].op_call
    {
        assert_eq!(*verbosity, 1);
        assert_eq!(*max_build_jobs, 16);
        assert_eq!(overrides.len(), 2);
        assert_eq!(overrides[0].0, "substitute");
    } else {
        panic!("expected SetOptions");
    }

    let text2 = format_script(&parsed, &FormatOptions::default());
    assert_eq!(text, text2, "double roundtrip text mismatch");
}

#[test]
fn escape_and_hex() {
    assert_eq!(escape_string("a\"b\\c\nd\te\r"), "a\\\"b\\\\c\\nd\\te\\r");
    assert_eq!(hex_encode(&[0x00, 0xab, 0x10]), "00ab10");
}

#[test]
fn expects_are_written_and_read_back() {
    let script = Script {
        preamble: Preamble {
            expects: vec![Expect::Trust { matcher: Matcher::Exact("trusted".to_string()) }],
            ..preamble(None, None)
        },
        entries: vec![Entry {
            timestamp_us: Some(5),
            op_call: OpCall::SinglePath { op: Op::QueryPathInfo, path: "/p".to_string() },
            response: None,
            expects: vec![
                Expect::Terminal("Last".to_string()),
                Expect::Result { field: Some("narSize".to_string()), matcher: Matcher::GreaterThan(0) },
                Expect::Error { matcher: Matcher::Regex("bad".to_string()) },
            ],
        }],
    };
    let text = format_script(&script, &FormatOptions::default());
    assert!(text.contains("expect trust: trusted\n"));
    assert!(text.contains("@0.005ms QueryPathInfo /p\n"));
    assert!(text.contains("  expect result.narSize: > 0\n"));
    assert!(text.contains("  expect error: /bad/\n"));
    let parsed = parse_script(&text).unwrap();
    assert_eq!(parsed.entries[0].timestamp_us, Some(5));
    assert_eq!(parsed.entries[0].expects.len(), 3);
    assert_eq!(parsed.preamble.expects.len(), 1);
}

#[test]
fn large_data_goes_to_files_when_a_directory_is_given() {
    let big: Vec<u8> = (0..100u8).collect();
    let script = Script {
        preamble: preamble(None, None),
        entries: vec![
            Entry {
                timestamp_us: None,
                op_call: OpCall::AddBuildLog { path: "/d".to_string(), data: FramedData::Inline(big.clone()) },
                response: None,
                expects: Vec::new(),
            },
            Entry {
                timestamp_us: None,
                op_call: OpCall::AddBuildLog { path: "/e".to_string(), data: FramedData::Inline(vec![1, 2]) },
                response: None,
                expects: Vec::new(),
            },
        ],
    };
    let opts = FormatOptions { data_dir: Some("out".to_string()), inline_threshold: 64 };
    let text = format_script(&script, &opts);
    assert!(text.contains("AddBuildLog /d\n  data: @file:0000.bin\n"));
    assert!(text.contains("AddBuildLog /e\n  data: x\"0102\"\n"));
    let files = data_files(&script, &opts);
    assert_eq!(files.len(), 1);
    assert_eq!(files[0].name, "0000.bin");
    assert_eq!(files[0].bytes, big);
    // Without a directory everything stays inline.
    let inline = format_script(&script, &FormatOptions::default());
    assert!(!inline.contains("@file:"));
    assert!(data_files(&script, &FormatOptions::default()).is_empty());
}

#[test]
fn whole_script_reads_back_as_itself() {
    let entry = |t: Option<u64>, op_call: OpCall, expects: Vec<Expect>| Entry {
        timestamp_us: t,
        op_call,
        response: None,
        expects,
    };
    let script = Script {
        preamble: Preamble {
            protocol_version: ProtocolVersion::new(1, 37),
            client_features: vec!["a".to_string(), "b-c".to_string()],
            expects: vec![
                Expect::Daemon { matcher: Matcher::Regex("2\\.".to_string()) },
                Expect::Terminal("Last".to_string()),
            ],
            daemon_version: Some("2.24.1".to_string()),
            trust: Some("trusted".to_string()),
            server_features: Some(vec!["x".to_string()]),
        },
        entries: vec![
            entry(Some(1_234_567), OpCall::NoArgs { op: Op::FindRoots }, vec![Expect::Terminal("Last".to_string())]),
            entry(
                None,
                OpCall::PathSetFlag { op: Op::QueryValidPaths, paths: vec!["/p".to_string()], substitute: true },
                vec![Expect::StderrCount { matcher: Matcher::LessOrEqual(3) }],
            ),
            entry(Some(7), OpCall::CollectGarbage { action: 2, paths: Vec::new(), ignore_liveness: 0, max_freed: 99 }, Vec::new()),
            entry(None, OpCall::VerifyStore { check_contents: true, repair: false }, Vec::new()),
            entry(
                None,
                OpCall::AddTextToStore { suffix: "s.txt".to_string(), text: "hi there".to_string(), refs: vec!["/r".to_string()] },
                vec![Expect::Result { field: None, matcher: Matcher::Exact("/nix/store/x".to_string()) }],
            ),
            entry(
                Some(0),
                OpCall::AddToStore {
                    name: "n".to_string(),
                    cam_str: "text:sha256".to_string(),
                    refs: Vec::new(),
                    repair: true,
                    data: FramedData::Inline(vec![0, 255, 16]),
                },
                Vec::new(),
            ),
            entry(None, OpCall::AddPermRoot { path: "/p".to_string(), gc_root: "/g".to_string() }, Vec::new()),
            entry(
                None,
                OpCall::AddTextToStore {
                    suffix: "drv".to_string(),
                    text: "Derive([(\"out\",\"/o\")])\n\tend\r\n".to_string(),
                    refs: Vec::new(),
                },
                Vec::new(),
            ),
            entry(None, OpCall::RawBytes { op: Op::BuildDerivation, data: vec![1, 2, 3] }, Vec::new()),
            entry(None, set_options(vec![("k".to_string(), "v w".to_string())]), Vec::new()),
        ],
    };
    let text = format_script(&script, &FormatOptions::default());
    let parsed = parse_script(&text).unwrap();
    assert_eq!(format!("{:?}", parsed), format!("{:?}", script));
    assert_eq!(format_script(&parsed, &FormatOptions::default()), text);
}

#[test]
fn responses_are_comments_and_read_back_as_none() {
    let with = |response: Option<DaemonResponse>, op_call: OpCall| Entry {
        timestamp_us: Some(3_000),
        op_call,
        response,
        expects: vec![Expect::Terminal("Last".to_string())],
    };
    let path_info = DaemonResponse {
        terminal: "Last".to_string(),
        stderr_count: 4,
        result: Some(ResultData::PathInfo(PathInfoResult {
            valid: true,
            deriver: Some("/d.drv".to_string()),
            nar_hash: Some("sha256:abc".to_string()),
            references: Some(vec!["/r1".to_string(), "/r2".to_string()]),
            registration_time: Some(1),
            nar_size: Some(226552),
            ultimate: Some(false),
            sigs: None,
            ca: None,
        })),
        error: Some(ErrorInfo {
            error_type: "Error".to_string(),
            level: 0,
            name: "e".to_string(),
            message: "not valid".to_string(),
        }),
    };
    let script = Script {
        preamble: preamble(Some("2.33.3"), None),
        entries: vec![
            with(last_u64(1), OpCall::SinglePath { op: Op::IsValidPath, path: "/p".to_string() }),
            with(Some(path_info), OpCall::SinglePath { op: Op::QueryPathInfo, path: "/p".to_string() }),
            with(None, OpCall::NoArgs { op: Op::OptimiseStore }),
        ],
    };
    let text = format_script(&script, &FormatOptions::default());
    assert!(text.contains("  # result.references: { /r1, /r2 }\n"));
    let parsed = parse_script(&text).unwrap();
    let mut expected = script.clone();
    for e in expected.entries.iter_mut() {
        e.response = None;
    }
    assert_eq!(format!("{:?}", parsed), format!("{:?}", expected));
}

#[test]
fn empty_daemon_version_and_trust_read_back() {
    let script = Script { preamble: preamble(Some(""), Some("")), entries: Vec::new() };
    let text = format_script(&script, &FormatOptions::default());
    assert!(text.contains("# daemon: \n# trust: \n"));
    let parsed = parse_script(&text).unwrap();
    assert_eq!(parsed.preamble.daemon_version, Some(String::new()));
    assert_eq!(parsed.preamble.trust, Some(String::new()));
}

#[test]
fn expects_with_nothing_after_their_key_read_back() {
    let empty = || Matcher::Exact(String::new());
    let script = Script {
        preamble: Preamble {
            expects: vec![Expect::Daemon { matcher: empty() }, Expect::Terminal(String::new())],
            ..preamble(None, None)
        },
        entries: vec![Entry {
            timestamp_us: None,
            op_call: OpCall::NoArgs { op: Op::SyncWithGC },
            response: None,
            expects: vec![
                Expect::Terminal(String::new()),
                Expect::Result { field: Some("narSize".to_string()), matcher: empty() },
                Expect::Result { field: None, matcher: empty() },
                Expect::Error { matcher: empty() },
                Expect::StderrCount { matcher: empty() },
                Expect::Result { field: None, matcher: Matcher::Exact("/x".to_string()) },
                Expect::Result { field: None, matcher: Matcher::Exact("/".to_string()) },
            ],
        }],
    };
    let text = format_script(&script, &FormatOptions::default());
    assert!(text.contains("expect daemon: \n"));
    assert!(text.contains("  expect: \n"));
    let parsed = parse_script(&text).unwrap();
    assert_eq!(format!("{:?}", parsed), format!("{:?}", script));
}

#[test]
fn a_failed_data_file_write_keeps_that_entry_inline() {
    let big: Vec<u8> = (0..100u8).collect();
    let log = |p: &str| Entry {
        timestamp_us: None,
        op_call: OpCall::AddBuildLog { path: p.to_string(), data: FramedData::Inline(big.clone()) },
        response: None,
        expects: Vec::new(),
    };
    let script = Script { preamble: preamble(None, None), entries: vec![log("/a"), log("/b"), log("/c")] };
    let opts = FormatOptions { data_dir: Some("out".to_string()), inline_threshold: 64 };
    let text = format_script_written(&script, &opts, &vec![true, false, true]);
    assert!(text.contains("AddBuildLog /a\n  data: @file:0000.bin\n"));
    assert!(text.contains(&format!("AddBuildLog /b\n  data: x\"{}\"\n", hex_encode(&big))));
    assert!(text.contains("AddBuildLog /c\n  data: @file:0001.bin\n"));
    // All written: the same text as format_script; none written: all inline.
    assert_eq!(format_script_written(&script, &opts, &vec![true, true, true]), format_script(&script, &opts));
    let none = format_script_written(&script, &opts, &Vec::new());
    assert_eq!(none, format_script(&script, &FormatOptions::default()));
    assert_eq!(numbered_file_name(7), "0007.bin");
}
