use nix_wire_script::protocol::{Op, ProtocolVersion, WORKER_MAGIC_1};
use nix_wire_script::script::{Entry, FramedData, OpCall, Preamble, Script};
use nix_wire_script::serialize::{
    file_refs, serialize_client_handshake, serialize_op_args, serialize_op_call, serialize_script,
    SerializeError,
};

struct Reader<'a> {
    b: &'a [u8],
    pos: usize,
}

impl<'a> Reader<'a> {
    fn u64(&mut self) -> u64 {
        let mut a = [0u8; 8];
        a.copy_from_slice(&self.b[self.pos..self.pos + 8]);
        self.pos += 8;
        u64::from_le_bytes(a)
    }
    fn string(&mut self) -> String {
        let n = self.u64() as usize;
        let s = String::from_utf8(self.b[self.pos..self.pos + n].to_vec()).unwrap();
        self.pos += (n + 7) / 8 * 8;
        s
    }
}

fn plain_preamble() -> Preamble {
    Preamble {
        protocol_version: ProtocolVersion::new(1, 38),
        client_features: Vec::new(),
        expects: Vec::new(),
        daemon_version: None,
        trust: None,
        server_features: None,
    }
}

fn entry(op_call: OpCall) -> Entry {
    Entry { timestamp_us: None, op_call, response: None, expects: Vec::new() }
}

#[test]
fn serialize_simple_script() {
    let script = Script {
        preamble: plain_preamble(),
        entries: vec![
            entry(OpCall::NoArgs { op: Op::SyncWithGC }),
            entry(OpCall::SinglePath { op: Op::IsValidPath, path: "/nix/store/abc-hello".to_string() }),
        ],
    };

    let bytes = serialize_script(&script, &Vec::new()).unwrap();

    let mut cursor = Reader { b: &bytes, pos: 0 };
    assert_eq!(cursor.u64(), WORKER_MAGIC_1);
    assert_eq!(cursor.u64(), ProtocolVersion::new(1, 38).to_wire());
    assert_eq!(cursor.u64(), 0);
    assert_eq!(cursor.u64(), 0);
    assert_eq!(cursor.u64(), 0);
    assert_eq!(cursor.u64(), Op::SyncWithGC.code());
    assert_eq!(cursor.u64(), Op::IsValidPath.code());
    assert_eq!(cursor.string(), "/nix/store/abc-hello");
}

#[test]
fn serialize_set_options() {
    let script = Script {
        preamble: plain_preamble(),
        entries: vec![entry(OpCall::SetOptions {
            keep_failed: 0,
            keep_going: 0,
            try_fallback: 0,
            verbosity: 1,
            max_build_jobs: 16,
            max_silent_time: 0,
            use_build_hook: 1,
            verbose_build: 0,
            log_type: 0,
            print_build_trace: 0,
            build_cores: 0,
            use_substitutes: 1,
            overrides: vec![("substitute".to_string(), "true".to_string())],
        })],
    };

    let bytes = serialize_script(&script, &Vec::new()).unwrap();
    assert!(!bytes.is_empty());
}

#[test]
fn handshake_depends_on_version() {
    let old = serialize_client_handshake(ProtocolVersion::new(1, 10), &vec!["x".to_string()]).unwrap();
    assert_eq!(old.len(), 16);
    let new = serialize_client_handshake(ProtocolVersion::new(1, 38), &vec!["ab".to_string()]).unwrap();
    let mut r = Reader { b: &new, pos: 0 };
    assert_eq!(r.u64(), WORKER_MAGIC_1);
    assert_eq!(r.u64(), (1 << 8) | 38);
    assert_eq!(r.u64(), 1);
    assert_eq!(r.string(), "ab");
    assert_eq!(r.u64(), 0);
    assert_eq!(r.u64(), 0);
    assert_eq!(r.pos, new.len());
}

#[test]
fn op_call_starts_with_its_code() {
    let mut buf = Vec::new();
    let call = OpCall::SinglePath { op: Op::QueryPathInfo, path: "/p".to_string() };
    serialize_op_call(&mut buf, &call, ProtocolVersion::new(1, 38), &Vec::new()).unwrap();
    let mut r = Reader { b: &buf, pos: 0 };
    assert_eq!(r.u64(), Op::QueryPathInfo.code());
    assert_eq!(r.string(), "/p");
    assert_eq!(r.pos, buf.len());

    let mut args = Vec::new();
    serialize_op_args(&mut args, &call, ProtocolVersion::new(1, 38), &Vec::new()).unwrap();
    assert_eq!(&buf[8..], &args[..]);
}

#[test]
fn missing_data_file_is_an_error() {
    let script = Script {
        preamble: plain_preamble(),
        entries: vec![entry(OpCall::AddBuildLog {
            path: "/d".to_string(),
            data: FramedData::FileRef("0000.bin".to_string()),
        })],
    };
    assert_eq!(file_refs(&script), vec!["0000.bin".to_string()]);
    match serialize_script(&script, &Vec::new()) {
        Err(SerializeError::MissingDataFile(p)) => assert_eq!(p, "0000.bin"),
        other => panic!("unexpected {:?}", other.map(|b| b.len())),
    }
    let files = vec![("0000.bin".to_string(), vec![7u8, 8, 9])];
    let bytes = serialize_script(&script, &files).unwrap();
    // Framed data: one chunk of 3 bytes, then the empty terminating chunk.
    let tail = &bytes[bytes.len() - 19..];
    assert_eq!(&tail[0..8], &3u64.to_le_bytes());
    assert_eq!(&tail[8..11], &[7, 8, 9]);
    assert_eq!(&tail[11..19], &0u64.to_le_bytes());
}

#[test]
fn strings_and_sets_take_whole_words() {
    let v = ProtocolVersion::new(1, 38);
    for n in 0..20usize {
        let path: String = "p".repeat(n);
        let mut buf = Vec::new();
        serialize_op_args(&mut buf, &OpCall::SinglePath { op: Op::IsValidPath, path }, v, &Vec::new()).unwrap();
        assert_eq!(buf.len() % 8, 0);
        assert!(buf.len() >= 8 + n && buf.len() < 16 + n);
        let mut buf = Vec::new();
        let paths = vec!["a".repeat(n), "bc".to_string()];
        serialize_op_args(&mut buf, &OpCall::PathSet { op: Op::QueryMissing, paths }, v, &Vec::new()).unwrap();
        assert_eq!(buf.len() % 8, 0);
    }
}
