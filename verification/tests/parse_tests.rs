use nix_wire_script::parse::{parse_inline_path_set, parse_script, unquote, ParseError};
use nix_wire_script::protocol::{Op, ProtocolVersion};
use nix_wire_script::script::{Expect, FramedData, Matcher, OpCall};

fn ms(t: Option<u64>) -> Option<f64> {
    t.map(|us| us as f64 / 1000.0)
}

#[test]
fn parse_simple_script() {
    let text = r#"# nwscript v1
protocol: 1.38
features: { }
# daemon: 2.33.3
# trust: trusted
---

@0.000ms SyncWithGC
  # response: Last
  # result: 1

@1.234ms IsValidPath /nix/store/abc-hello
  # response: Last
  # result: 1
"#;

    let script = parse_script(text).unwrap();
    assert_eq!(script.preamble.protocol_version, ProtocolVersion::new(1, 38));
    assert_eq!(script.preamble.daemon_version.as_deref(), Some("2.33.3"));
    assert_eq!(script.preamble.trust.as_deref(), Some("trusted"));
    assert_eq!(script.entries.len(), 2);

    assert_eq!(ms(script.entries[0].timestamp_us), Some(0.0));
    assert_eq!(script.entries[0].op_call.op(), Op::SyncWithGC);

    assert_eq!(ms(script.entries[1].timestamp_us), Some(1.234));
    assert_eq!(script.entries[1].op_call.op(), Op::IsValidPath);
}

#[test]
fn parse_set_options() {
    let text = r#"# nwscript v1
protocol: 1.38
features: { }
---

SetOptions
  keep_failed: 0
  keep_going: 0
  try_fallback: 0
  verbosity: 1
  max_build_jobs: 16
  max_silent_time: 0
  use_build_hook: 1
  verbose_build: 0
  log_type: 0
  print_build_trace: 0
  build_cores: 0
  use_substitutes: 1
  overrides: 2
    "substitute" = "true"
    "system" = "x86_64-linux"
"#;

    let script = parse_script(text).unwrap();
    assert_eq!(script.entries.len(), 1);
    match &script.entries[0].op_call {
        OpCall::SetOptions { verbosity, max_build_jobs, overrides, .. } => {
            assert_eq!(*verbosity, 1);
            assert_eq!(*max_build_jobs, 16);
            assert_eq!(overrides.len(), 2);
            assert_eq!(overrides[0], ("substitute".to_string(), "true".to_string()));
        }
        _ => panic!("expected SetOptions"),
    }
}

#[test]
fn parse_expects() {
    let text = r#"# nwscript v1
protocol: 1.38
features: { }
---

IsValidPath /nix/store/abc-hello
  expect: Last
  expect result: 1

QueryPathInfo /nix/store/abc-hello
  expect: Last
  expect result.valid: 1
  expect result.narSize: > 0

BuildPaths { /nix/store/bad.drv!out } normal
  expect: Error
  expect error: /not valid/
"#;

    let script = parse_script(text).unwrap();
    assert_eq!(script.entries.len(), 3);

    assert_eq!(script.entries[0].expects.len(), 2);
    match &script.entries[0].expects[0] {
        Expect::Terminal(s) => assert_eq!(s, "Last"),
        _ => panic!("expected Terminal"),
    }
    match &script.entries[0].expects[1] {
        Expect::Result { field, matcher } => {
            assert!(field.is_none());
            match matcher {
                Matcher::Exact(s) => assert_eq!(s, "1"),
                _ => panic!("expected Exact"),
            }
        }
        _ => panic!("expected Result"),
    }

    match &script.entries[2].expects[1] {
        Expect::Error { matcher } => match matcher {
            Matcher::Regex(r) => assert_eq!(r, "not valid"),
            _ => panic!("expected Regex"),
        },
        _ => panic!("expected Error"),
    }
}

#[test]
fn parse_path_set() {
    let (paths, rest) = parse_inline_path_set("{ /a, /b, /c }").unwrap();
    assert_eq!(paths, vec!["/a", "/b", "/c"]);
    assert!(rest.trim().is_empty());
}

#[test]
fn parse_path_set_with_mode() {
    let (paths, rest) = parse_inline_path_set("{ /nix/store/abc.drv!out } normal").unwrap();
    assert_eq!(paths, vec!["/nix/store/abc.drv!out"]);
    assert_eq!(rest.trim(), "normal");
}

#[test]
fn unquote_strings() {
    assert_eq!(unquote("\"hello\""), "hello");
    assert_eq!(unquote("\"he\\\"llo\""), "he\"llo");
    assert_eq!(unquote("\"line1\\nline2\""), "line1\nline2");
}

#[test]
fn parse_new_preamble_with_delimiter() {
    let text = r#"# nwscript v1
protocol: 1.38
features: { ca-derivations }
# daemon: 2.33.3
# trust: trusted
# server_features: { }
---

SyncWithGC
"#;

    let script = parse_script(text).unwrap();
    assert_eq!(script.preamble.protocol_version, ProtocolVersion::new(1, 38));
    assert_eq!(script.preamble.client_features, vec!["ca-derivations".to_string()]);
    assert_eq!(script.preamble.daemon_version.as_deref(), Some("2.33.3"));
    assert_eq!(script.preamble.trust.as_deref(), Some("trusted"));
    assert_eq!(script.preamble.server_features, Some(Vec::<String>::new()));
    assert!(script.preamble.expects.is_empty());
    assert_eq!(script.entries.len(), 1);
    assert_eq!(script.entries[0].op_call.op(), Op::SyncWithGC);
}

#[test]
fn parse_preamble_with_expects() {
    let text = r#"# nwscript v1
protocol: 1.38
features: { }
expect trust: trusted
expect daemon: /^2\./
---

SyncWithGC
"#;

    let script = parse_script(text).unwrap();
    assert_eq!(script.preamble.expects.len(), 2);
    match &script.preamble.expects[0] {
        Expect::Trust { matcher } => match matcher {
            Matcher::Exact(s) => assert_eq!(s, "trusted"),
            _ => panic!("expected Exact matcher"),
        },
        _ => panic!("expected Trust expect"),
    }
    match &script.preamble.expects[1] {
        Expect::Daemon { matcher } => match matcher {
            Matcher::Regex(r) => assert_eq!(r, "^2\\."),
            _ => panic!("expected Regex matcher"),
        },
        _ => panic!("expected Daemon expect"),
    }
}

#[test]
fn parse_empty_features() {
    let text = "# nwscript v1\nprotocol: 1.38\nfeatures: { }\n---\n\nSyncWithGC\n";
    let script = parse_script(text).unwrap();
    assert!(script.preamble.client_features.is_empty());
}

#[test]
fn parse_multiple_features() {
    let text = r#"# nwscript v1
protocol: 1.38
features: { ca-derivations, recursive-nix }
---

SyncWithGC
"#;

    let script = parse_script(text).unwrap();
    assert_eq!(
        script.preamble.client_features,
        vec!["ca-derivations".to_string(), "recursive-nix".to_string()]
    );
}

// ----- errors -----

fn err_of(text: &str) -> ParseError {
    match parse_script(text) {
        Ok(_) => panic!("expected a parse error"),
        Err(e) => e,
    }
}

#[test]
fn unexpected_preamble_line_is_reported() {
    match err_of("protocol: 1.38\nSyncWithGC\n") {
        ParseError::UnexpectedPreambleLine(l) => assert_eq!(l, "SyncWithGC"),
        e => panic!("unexpected error {:?}", e),
    }
    let e = err_of("protocol: 1.38\nSyncWithGC\n");
    assert_eq!(
        e.message(),
        "unexpected line in preamble (missing `---` delimiter?): SyncWithGC"
    );
}

#[test]
fn unknown_op_is_reported() {
    match err_of("protocol: 1.38\n---\nFrobnicate /x\n") {
        ParseError::UnknownOp(n) => assert_eq!(n, "Frobnicate"),
        e => panic!("unexpected error {:?}", e),
    }
}

#[test]
fn bad_and_malformed_timestamps() {
    assert!(matches!(err_of("protocol: 1.38\n---\n@abcms SyncWithGC\n"), ParseError::BadTimestamp));
    match err_of("protocol: 1.38\n---\n@12 SyncWithGC\n") {
        ParseError::MalformedTimestamp(l) => assert_eq!(l, "@12 SyncWithGC"),
        e => panic!("unexpected error {:?}", e),
    }
}

#[test]
fn unclosed_path_set_is_reported() {
    assert!(matches!(err_of("protocol: 1.38\n---\nQueryMissing { /a, /b\n"), ParseError::UnclosedPathSet));
}

#[test]
fn unsupported_data_format_is_reported() {
    match err_of("protocol: 1.38\n---\nAddToStore\n  data: zzz\n") {
        ParseError::UnsupportedDataFormat(v) => assert_eq!(v, "zzz"),
        e => panic!("unexpected error {:?}", e),
    }
}

#[test]
fn unrecognized_expect_is_reported() {
    match err_of("protocol: 1.38\n---\nSyncWithGC\n  expect bogus: 1\n") {
        ParseError::UnrecognizedExpect(l) => assert_eq!(l, "expect bogus: 1"),
        e => panic!("unexpected error {:?}", e),
    }
}

#[test]
fn bad_number_in_matcher_is_reported() {
    match err_of("protocol: 1.38\n---\nSyncWithGC\n  expect stderr.count: >= many\n") {
        ParseError::BadNumber(op) => assert_eq!(op, ">="),
        e => panic!("unexpected error {:?}", e),
    }
}

// ----- other forms -----

#[test]
fn timestamps_round_to_three_decimals() {
    let s = parse_script("protocol: 1.38\n---\n@12.3456ms SyncWithGC\n@7ms FindRoots\n@.5ms OptimiseStore\n@1.2344ms SyncWithGC\n").unwrap();
    assert_eq!(s.entries[0].timestamp_us, Some(12346));
    assert_eq!(s.entries[1].timestamp_us, Some(7000));
    assert_eq!(s.entries[2].timestamp_us, Some(500));
    assert_eq!(s.entries[3].timestamp_us, Some(1234));
}

#[test]
fn timestamps_take_a_sign_and_an_exponent() {
    let s = parse_script(
        "protocol: 1.38\n---\n@+1.5ms SyncWithGC\n@1e3ms FindRoots\n@2.5e-3ms OptimiseStore\n@125E-2ms SyncWithGC\n@3.ms FindRoots\n",
    )
    .unwrap();
    assert_eq!(s.entries[0].timestamp_us, Some(1500));
    assert_eq!(s.entries[1].timestamp_us, Some(1_000_000));
    assert_eq!(s.entries[2].timestamp_us, Some(3));
    assert_eq!(s.entries[3].timestamp_us, Some(1250));
    assert_eq!(s.entries[4].timestamp_us, Some(3000));
}

#[test]
fn timestamps_that_are_no_number_are_refused() {
    for line in ["@1e+ms SyncWithGC", "@.ms SyncWithGC", "@1.2.3ms SyncWithGC", "@1e3.5ms SyncWithGC"] {
        let text = format!("protocol: 1.38\n---\n{line}\n");
        assert!(matches!(parse_script(&text), Err(ParseError::BadTimestamp)), "{line}");
    }
}

#[test]
fn keyed_blocks_are_read() {
    let text = "protocol: 1.38\n---\nCollectGarbage\n  action: 2\n  paths: { /a }\n  max_freed: 99\n\
VerifyStore\n  check_contents: 1\n  repair: 0\n\
AddToStore\n  name: \"n\"\n  cam_str: \"text:sha256\"\n  refs: { }\n  repair: 1\n  data: x\"0a0b\"\n\
AddBuildLog /drv\n  data: @file:0001.bin\n\
BuildDerivation\n  raw x\"ff00\"\n";
    let s = parse_script(text).unwrap();
    assert_eq!(s.entries.len(), 5);
    match &s.entries[0].op_call {
        OpCall::CollectGarbage { action, paths, ignore_liveness, max_freed } => {
            assert_eq!(*action, 2);
            assert_eq!(paths, &vec!["/a".to_string()]);
            assert_eq!(*ignore_liveness, 0);
            assert_eq!(*max_freed, 99);
        }
        _ => panic!("expected CollectGarbage"),
    }
    match &s.entries[1].op_call {
        OpCall::VerifyStore { check_contents, repair } => {
            assert!(*check_contents);
            assert!(!*repair);
        }
        _ => panic!("expected VerifyStore"),
    }
    match &s.entries[2].op_call {
        OpCall::AddToStore { name, cam_str, refs, repair, data } => {
            assert_eq!(name, "n");
            assert_eq!(cam_str, "text:sha256");
            assert!(refs.is_empty());
            assert!(*repair);
            match data {
                FramedData::Inline(b) => assert_eq!(b, &vec![0x0a, 0x0b]),
                _ => panic!("expected inline data"),
            }
        }
        _ => panic!("expected AddToStore"),
    }
    match &s.entries[3].op_call {
        OpCall::AddBuildLog { path, data } => {
            assert_eq!(path, "/drv");
            match data {
                FramedData::FileRef(p) => assert_eq!(p, "0001.bin"),
                _ => panic!("expected a file reference"),
            }
        }
        _ => panic!("expected AddBuildLog"),
    }
    match &s.entries[4].op_call {
        OpCall::RawBytes { op, data } => {
            assert_eq!(*op, Op::BuildDerivation);
            assert_eq!(data, &vec![0xff, 0x00]);
        }
        _ => panic!("expected RawBytes"),
    }
}

#[test]
fn inline_argument_forms() {
    let text = "protocol: 1.38\n---\nQueryValidPaths { /a } substitute\nBuildPaths { /b }\nAddPermRoot /p /root\n\
AddSignatures /p { s1, s2 }\nAddIndirectRoot /home/x\n";
    let s = parse_script(text).unwrap();
    match &s.entries[0].op_call {
        OpCall::PathSetFlag { substitute, .. } => assert!(*substitute),
        _ => panic!("expected PathSetFlag"),
    }
    match &s.entries[1].op_call {
        OpCall::PathSetMode { mode, .. } => assert_eq!(mode, "normal"),
        _ => panic!("expected PathSetMode"),
    }
    match &s.entries[2].op_call {
        OpCall::AddPermRoot { path, gc_root } => {
            assert_eq!(path, "/p");
            assert_eq!(gc_root, "/root");
        }
        _ => panic!("expected AddPermRoot"),
    }
    match &s.entries[3].op_call {
        OpCall::AddSignatures { path, sigs } => {
            assert_eq!(path, "/p");
            assert_eq!(sigs, &vec!["s1".to_string(), "s2".to_string()]);
        }
        _ => panic!("expected AddSignatures"),
    }
    match &s.entries[4].op_call {
        OpCall::SingleString { op, value } => {
            assert_eq!(*op, Op::AddIndirectRoot);
            assert_eq!(value, "/home/x");
        }
        _ => panic!("expected SingleString"),
    }
}

#[test]
fn missing_delimiter_is_reported() {
    let e = err_of("# nwscript v1\nprotocol: 1.37\n");
    assert!(matches!(e, ParseError::MissingDelimiter));
    assert_eq!(e.message(), "missing `---` delimiter after the preamble");
    assert!(matches!(err_of(""), ParseError::MissingDelimiter));
}

#[test]
fn missing_protocol_is_reported() {
    let e = err_of("# nwscript v1\nfeatures: { }\n---\nSyncWithGC\n");
    assert!(matches!(e, ParseError::MissingProtocol));
    assert_eq!(e.message(), "missing `protocol:` line in the preamble");
    // A version that cannot be read keeps the default but names the line.
    let s = parse_script("protocol: x\n---\n").unwrap();
    assert_eq!(s.preamble.protocol_version, ProtocolVersion::new(1, 38));
}

#[test]
fn crlf_lines_are_accepted() {
    let s = parse_script("protocol: 1.30\r\n---\r\nSyncWithGC\r\n").unwrap();
    assert_eq!(s.preamble.protocol_version, ProtocolVersion::new(1, 30));
    assert_eq!(s.entries[0].op_call.op(), Op::SyncWithGC);
}

#[test]
fn a_line_without_expect_is_not_an_expect() {
    let line: Vec<char> = "result: 1".chars().collect();
    let e = nix_wire_script::parse::parse_expect(&line).unwrap_err();
    assert!(matches!(e, ParseError::NotAnExpectLine));
    assert_eq!(e.message(), "not an expect line");
    let line: Vec<char> = "expect: Last".chars().collect();
    assert!(nix_wire_script::parse::parse_expect(&line).is_ok());
}

#[test]
fn path_set_items_with_inner_line_breaks_read_back() {
    let ps = vec!["/a\nb".to_string(), "c\r\nd e".to_string()];
    let text = nix_wire_script::format::format_path_set(&ps);
    let (paths, rest) = parse_inline_path_set(&text).unwrap();
    assert_eq!(paths, ps);
    assert_eq!(rest, "");
}

#[test]
fn a_parsed_call_reports_the_op_named_on_its_line() {
    let lines = [
        "IsValidPath /p",
        "QueryValidPaths { /a } substitute",
        "BuildPaths { /b } check",
        "SyncWithGC",
        "AddPermRoot /p /r",
        "VerifyStore",
        "BuildDerivation",
        "QueryRealisation x",
    ];
    for l in lines {
        let line: Vec<char> = l.chars().collect();
        let ls: Vec<Vec<char>> = vec![line.clone()];
        let (call, _) = nix_wire_script::op_args::parse_op_line(&line, &ls, 1).unwrap();
        let name: Vec<char> = l.split(' ').next().unwrap().chars().collect();
        assert_eq!(Op::from_name(&name), Some(call.op()));
    }
}

#[test]
fn an_op_line_reads_at_any_position() {
    let line: Vec<char> = "VerifyStore".chars().collect();
    let ls: Vec<Vec<char>> = Vec::new();
    let (call, next) = nix_wire_script::op_args::parse_op_line(&line, &ls, 7).unwrap();
    assert_eq!(call.op(), Op::VerifyStore);
    assert_eq!(next, 7);
}
