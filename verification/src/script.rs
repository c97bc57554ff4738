//! The script AST: a preamble and a list of operation entries, each with an
//! operation call, an optional captured daemon response and expect
//! assertions. Every type has a mathematical view used by the contracts.

use vstd::prelude::*;
use crate::num::{dec_int, push_dec_i64};
use crate::protocol::{stderr_code_name, Op, ProtocolVersion, StderrCode};
use crate::text::{push_char, push_str};

verus! {

/// A complete script representing a Nix daemon protocol session.
#[derive(Clone, Debug)]
pub struct Script {
    pub preamble: Preamble,
    pub entries: Vec<Entry>,
}

/// Header metadata for the script.
#[derive(Clone, Debug)]
pub struct Preamble {
    /// Protocol version (e.g., 1.38).
    pub protocol_version: ProtocolVersion,
    /// Client features to advertise during handshake.
    pub client_features: Vec<String>,
    /// Handshake-level expect assertions.
    pub expects: Vec<Expect>,
    /// Daemon nix version string -- informational comment.
    pub daemon_version: Option<String>,
    /// Trust status -- informational comment.
    pub trust: Option<String>,
    /// Server features received during handshake -- informational comment.
    pub server_features: Option<Vec<String>>,
}

/// A single operation entry in the script.
#[derive(Clone, Debug)]
pub struct Entry {
    /// Time from session start in microseconds (written as milliseconds
    /// with three decimals), if any.
    pub timestamp_us: Option<u64>,
    /// The operation call.
    pub op_call: OpCall,
    /// Daemon response (used to generate comments).
    pub response: Option<DaemonResponse>,
    /// Expect assertions.
    pub expects: Vec<Expect>,
}

/// An operation call with its arguments.
#[derive(Clone, Debug)]
pub enum OpCall {
    SinglePath { op: Op, path: String },
    SingleString { op: Op, value: String },
    PathSet { op: Op, paths: Vec<String> },
    PathSetFlag { op: Op, paths: Vec<String>, substitute: bool },
    PathSetMode { op: Op, paths: Vec<String>, mode: String },
    NoArgs { op: Op },
    SetOptions {
        keep_failed: u64,
        keep_going: u64,
        try_fallback: u64,
        verbosity: u64,
        max_build_jobs: u64,
        max_silent_time: u64,
        use_build_hook: u64,
        verbose_build: u64,
        log_type: u64,
        print_build_trace: u64,
        build_cores: u64,
        use_substitutes: u64,
        overrides: Vec<(String, String)>,
    },
    CollectGarbage { action: u64, paths: Vec<String>, ignore_liveness: u64, max_freed: u64 },
    VerifyStore { check_contents: bool, repair: bool },
    AddPermRoot { path: String, gc_root: String },
    AddSignatures { path: String, sigs: Vec<String> },
    AddTextToStore { suffix: String, text: String, refs: Vec<String> },
    AddToStore { name: String, cam_str: String, refs: Vec<String>, repair: bool, data: FramedData },
    AddMultipleToStore { repair: bool, dont_check_sigs: bool, data: FramedData },
    AddBuildLog { path: String, data: FramedData },
    RegisterDrvOutput { value: String },
    QueryRealisation { value: String },
    QuerySubstitutablePathInfo { path: String },
    QuerySubstitutablePathInfos { paths: Vec<String> },
    RawBytes { op: Op, data: Vec<u8> },
}

/// Framed data representation.
#[derive(Clone, Debug)]
pub enum FramedData {
    /// Inline bytes.
    Inline(Vec<u8>),
    /// Reference to an external file.
    FileRef(String),
}

/// Daemon response captured during decompile.
#[derive(Clone, Debug)]
pub struct DaemonResponse {
    /// Terminal stderr code ("Last" or "Error").
    pub terminal: String,
    /// Stderr message count.
    pub stderr_count: u64,
    /// Parsed result data (after Last).
    pub result: Option<ResultData>,
    /// Error info (after Error).
    pub error: Option<ErrorInfo>,
}

/// Error information from STDERR_ERROR.
#[derive(Clone, Debug)]
pub struct ErrorInfo {
    pub error_type: String,
    pub level: u64,
    pub name: String,
    pub message: String,
}

/// Parsed result data from the daemon response.
#[derive(Clone, Debug)]
pub enum ResultData {
    U64(u64),
    Str(String),
    PathInfo(PathInfoResult),
    StringSet(Vec<String>),
    StringMap(Vec<(String, String)>),
    /// No result data.
    Empty,
    CollectGarbage { bytes_freed: u64 },
    SubstitutablePathInfo {
        valid: bool,
        deriver: Option<String>,
        refs: Option<Vec<String>>,
        download_size: Option<u64>,
        nar_size: Option<u64>,
    },
    Missing {
        will_build: Vec<String>,
        will_substitute: Vec<String>,
        unknown: Vec<String>,
        download_size: u64,
        nar_size: u64,
    },
    Framed(Vec<u8>),
    Raw(Vec<u8>),
}

/// QueryPathInfo result.
#[derive(Clone, Debug)]
pub struct PathInfoResult {
    pub valid: bool,
    pub deriver: Option<String>,
    pub nar_hash: Option<String>,
    pub references: Option<Vec<String>>,
    pub registration_time: Option<u64>,
    pub nar_size: Option<u64>,
    pub ultimate: Option<bool>,
    pub sigs: Option<Vec<String>>,
    pub ca: Option<String>,
}

/// An expect assertion.
#[derive(Clone, Debug)]
pub enum Expect {
    Terminal(String),
    Result { field: Option<String>, matcher: Matcher },
    Error { matcher: Matcher },
    StderrCount { matcher: Matcher },
    Daemon { matcher: Matcher },
    Trust { matcher: Matcher },
    ServerFeatures { matcher: Matcher },
}

/// A matcher for expect assertions.
#[derive(Clone, Debug)]
pub enum Matcher {
    Exact(String),
    Regex(String),
    GreaterThan(i64),
    LessThan(i64),
    GreaterOrEqual(i64),
    LessOrEqual(i64),
}

// ---------------------------------------------------------------------------
// Views
// ---------------------------------------------------------------------------

pub enum MatcherV {
    Exact(Seq<char>),
    Regex(Seq<char>),
    GreaterThan(i64),
    LessThan(i64),
    GreaterOrEqual(i64),
    LessOrEqual(i64),
}

impl View for Matcher {
    type V = MatcherV;

    open spec fn view(&self) -> MatcherV {
        match self {
            Matcher::Exact(s) => MatcherV::Exact(s@),
            Matcher::Regex(s) => MatcherV::Regex(s@),
            Matcher::GreaterThan(n) => MatcherV::GreaterThan(*n),
            Matcher::LessThan(n) => MatcherV::LessThan(*n),
            Matcher::GreaterOrEqual(n) => MatcherV::GreaterOrEqual(*n),
            Matcher::LessOrEqual(n) => MatcherV::LessOrEqual(*n),
        }
    }
}

pub enum ExpectV {
    Terminal(Seq<char>),
    Result { field: Option<Seq<char>>, matcher: MatcherV },
    Error { matcher: MatcherV },
    StderrCount { matcher: MatcherV },
    Daemon { matcher: MatcherV },
    Trust { matcher: MatcherV },
    ServerFeatures { matcher: MatcherV },
}

impl View for Expect {
    type V = ExpectV;

    open spec fn view(&self) -> ExpectV {
        match self {
            Expect::Terminal(s) => ExpectV::Terminal(s@),
            Expect::Result { field, matcher } => ExpectV::Result {
                field: field.deep_view(),
                matcher: matcher@,
            },
            Expect::Error { matcher } => ExpectV::Error { matcher: matcher@ },
            Expect::StderrCount { matcher } => ExpectV::StderrCount { matcher: matcher@ },
            Expect::Daemon { matcher } => ExpectV::Daemon { matcher: matcher@ },
            Expect::Trust { matcher } => ExpectV::Trust { matcher: matcher@ },
            Expect::ServerFeatures { matcher } => ExpectV::ServerFeatures { matcher: matcher@ },
        }
    }
}

pub open spec fn expects_view(v: Seq<Expect>) -> Seq<ExpectV> {
    v.map_values(|e: Expect| e@)
}

pub enum FramedDataV {
    Inline(Seq<u8>),
    FileRef(Seq<char>),
}

impl View for FramedData {
    type V = FramedDataV;

    open spec fn view(&self) -> FramedDataV {
        match self {
            FramedData::Inline(b) => FramedDataV::Inline(b@),
            FramedData::FileRef(p) => FramedDataV::FileRef(p@),
        }
    }
}

pub enum OpCallV {
    SinglePath { op: Op, path: Seq<char> },
    SingleString { op: Op, value: Seq<char> },
    PathSet { op: Op, paths: Seq<Seq<char>> },
    PathSetFlag { op: Op, paths: Seq<Seq<char>>, substitute: bool },
    PathSetMode { op: Op, paths: Seq<Seq<char>>, mode: Seq<char> },
    NoArgs { op: Op },
    SetOptions {
        keep_failed: u64,
        keep_going: u64,
        try_fallback: u64,
        verbosity: u64,
        max_build_jobs: u64,
        max_silent_time: u64,
        use_build_hook: u64,
        verbose_build: u64,
        log_type: u64,
        print_build_trace: u64,
        build_cores: u64,
        use_substitutes: u64,
        overrides: Seq<(Seq<char>, Seq<char>)>,
    },
    CollectGarbage { action: u64, paths: Seq<Seq<char>>, ignore_liveness: u64, max_freed: u64 },
    VerifyStore { check_contents: bool, repair: bool },
    AddPermRoot { path: Seq<char>, gc_root: Seq<char> },
    AddSignatures { path: Seq<char>, sigs: Seq<Seq<char>> },
    AddTextToStore { suffix: Seq<char>, text: Seq<char>, refs: Seq<Seq<char>> },
    AddToStore {
        name: Seq<char>,
        cam_str: Seq<char>,
        refs: Seq<Seq<char>>,
        repair: bool,
        data: FramedDataV,
    },
    AddMultipleToStore { repair: bool, dont_check_sigs: bool, data: FramedDataV },
    AddBuildLog { path: Seq<char>, data: FramedDataV },
    RegisterDrvOutput { value: Seq<char> },
    QueryRealisation { value: Seq<char> },
    QuerySubstitutablePathInfo { path: Seq<char> },
    QuerySubstitutablePathInfos { paths: Seq<Seq<char>> },
    RawBytes { op: Op, data: Seq<u8> },
}

impl View for OpCall {
    type V = OpCallV;

    open spec fn view(&self) -> OpCallV {
        match self {
            OpCall::SinglePath { op, path } => OpCallV::SinglePath { op: *op, path: path@ },
            OpCall::SingleString { op, value } => OpCallV::SingleString { op: *op, value: value@ },
            OpCall::PathSet { op, paths } => OpCallV::PathSet { op: *op, paths: paths.deep_view() },
            OpCall::PathSetFlag { op, paths, substitute } => OpCallV::PathSetFlag {
                op: *op,
                paths: paths.deep_view(),
                substitute: *substitute,
            },
            OpCall::PathSetMode { op, paths, mode } => OpCallV::PathSetMode {
                op: *op,
                paths: paths.deep_view(),
                mode: mode@,
            },
            OpCall::NoArgs { op } => OpCallV::NoArgs { op: *op },
            OpCall::SetOptions {
                keep_failed,
                keep_going,
                try_fallback,
                verbosity,
                max_build_jobs,
                max_silent_time,
                use_build_hook,
                verbose_build,
                log_type,
                print_build_trace,
                build_cores,
                use_substitutes,
                overrides,
            } => OpCallV::SetOptions {
                keep_failed: *keep_failed,
                keep_going: *keep_going,
                try_fallback: *try_fallback,
                verbosity: *verbosity,
                max_build_jobs: *max_build_jobs,
                max_silent_time: *max_silent_time,
                use_build_hook: *use_build_hook,
                verbose_build: *verbose_build,
                log_type: *log_type,
                print_build_trace: *print_build_trace,
                build_cores: *build_cores,
                use_substitutes: *use_substitutes,
                overrides: overrides.deep_view(),
            },
            OpCall::CollectGarbage { action, paths, ignore_liveness, max_freed } =>
                OpCallV::CollectGarbage {
                action: *action,
                paths: paths.deep_view(),
                ignore_liveness: *ignore_liveness,
                max_freed: *max_freed,
            },
            OpCall::VerifyStore { check_contents, repair } => OpCallV::VerifyStore {
                check_contents: *check_contents,
                repair: *repair,
            },
            OpCall::AddPermRoot { path, gc_root } => OpCallV::AddPermRoot {
                path: path@,
                gc_root: gc_root@,
            },
            OpCall::AddSignatures { path, sigs } => OpCallV::AddSignatures {
                path: path@,
                sigs: sigs.deep_view(),
            },
            OpCall::AddTextToStore { suffix, text, refs } => OpCallV::AddTextToStore {
                suffix: suffix@,
                text: text@,
                refs: refs.deep_view(),
            },
            OpCall::AddToStore { name, cam_str, refs, repair, data } => OpCallV::AddToStore {
                name: name@,
                cam_str: cam_str@,
                refs: refs.deep_view(),
                repair: *repair,
                data: data@,
            },
            OpCall::AddMultipleToStore { repair, dont_check_sigs, data } =>
                OpCallV::AddMultipleToStore {
                repair: *repair,
                dont_check_sigs: *dont_check_sigs,
                data: data@,
            },
            OpCall::AddBuildLog { path, data } => OpCallV::AddBuildLog {
                path: path@,
                data: data@,
            },
            OpCall::RegisterDrvOutput { value } => OpCallV::RegisterDrvOutput { value: value@ },
            OpCall::QueryRealisation { value } => OpCallV::QueryRealisation { value: value@ },
            OpCall::QuerySubstitutablePathInfo { path } => OpCallV::QuerySubstitutablePathInfo {
                path: path@,
            },
            OpCall::QuerySubstitutablePathInfos { paths } =>
                OpCallV::QuerySubstitutablePathInfos { paths: paths.deep_view() },
            OpCall::RawBytes { op, data } => OpCallV::RawBytes { op: *op, data: data@ },
        }
    }
}

pub struct ErrorInfoV {
    pub error_type: Seq<char>,
    pub level: u64,
    pub name: Seq<char>,
    pub message: Seq<char>,
}

impl View for ErrorInfo {
    type V = ErrorInfoV;

    open spec fn view(&self) -> ErrorInfoV {
        ErrorInfoV {
            error_type: self.error_type@,
            level: self.level,
            name: self.name@,
            message: self.message@,
        }
    }
}

pub struct PathInfoV {
    pub valid: bool,
    pub deriver: Option<Seq<char>>,
    pub nar_hash: Option<Seq<char>>,
    pub references: Option<Seq<Seq<char>>>,
    pub registration_time: Option<u64>,
    pub nar_size: Option<u64>,
    pub ultimate: Option<bool>,
    pub sigs: Option<Seq<Seq<char>>>,
    pub ca: Option<Seq<char>>,
}

impl View for PathInfoResult {
    type V = PathInfoV;

    open spec fn view(&self) -> PathInfoV {
        PathInfoV {
            valid: self.valid,
            deriver: self.deriver.deep_view(),
            nar_hash: self.nar_hash.deep_view(),
            references: self.references.deep_view(),
            registration_time: self.registration_time,
            nar_size: self.nar_size,
            ultimate: self.ultimate,
            sigs: self.sigs.deep_view(),
            ca: self.ca.deep_view(),
        }
    }
}

pub enum ResultDataV {
    U64(u64),
    Str(Seq<char>),
    PathInfo(PathInfoV),
    StringSet(Seq<Seq<char>>),
    StringMap(Seq<(Seq<char>, Seq<char>)>),
    Empty,
    CollectGarbage { bytes_freed: u64 },
    SubstitutablePathInfo {
        valid: bool,
        deriver: Option<Seq<char>>,
        refs: Option<Seq<Seq<char>>>,
        download_size: Option<u64>,
        nar_size: Option<u64>,
    },
    Missing {
        will_build: Seq<Seq<char>>,
        will_substitute: Seq<Seq<char>>,
        unknown: Seq<Seq<char>>,
        download_size: u64,
        nar_size: u64,
    },
    Framed(Seq<u8>),
    Raw(Seq<u8>),
}

impl View for ResultData {
    type V = ResultDataV;

    open spec fn view(&self) -> ResultDataV {
        match self {
            ResultData::U64(v) => ResultDataV::U64(*v),
            ResultData::Str(s) => ResultDataV::Str(s@),
            ResultData::PathInfo(i) => ResultDataV::PathInfo(i@),
            ResultData::StringSet(s) => ResultDataV::StringSet(s.deep_view()),
            ResultData::StringMap(m) => ResultDataV::StringMap(m.deep_view()),
            ResultData::Empty => ResultDataV::Empty,
            ResultData::CollectGarbage { bytes_freed } => ResultDataV::CollectGarbage {
                bytes_freed: *bytes_freed,
            },
            ResultData::SubstitutablePathInfo { valid, deriver, refs, download_size, nar_size } =>
                ResultDataV::SubstitutablePathInfo {
                valid: *valid,
                deriver: deriver.deep_view(),
                refs: refs.deep_view(),
                download_size: *download_size,
                nar_size: *nar_size,
            },
            ResultData::Missing { will_build, will_substitute, unknown, download_size, nar_size } =>
                ResultDataV::Missing {
                will_build: will_build.deep_view(),
                will_substitute: will_substitute.deep_view(),
                unknown: unknown.deep_view(),
                download_size: *download_size,
                nar_size: *nar_size,
            },
            ResultData::Framed(b) => ResultDataV::Framed(b@),
            ResultData::Raw(b) => ResultDataV::Raw(b@),
        }
    }
}

pub struct DaemonResponseV {
    pub terminal: Seq<char>,
    pub stderr_count: u64,
    pub result: Option<ResultDataV>,
    pub error: Option<ErrorInfoV>,
}

impl View for DaemonResponse {
    type V = DaemonResponseV;

    open spec fn view(&self) -> DaemonResponseV {
        DaemonResponseV {
            terminal: self.terminal@,
            stderr_count: self.stderr_count,
            result: match self.result {
                Some(r) => Some(r@),
                None => None,
            },
            error: match self.error {
                Some(e) => Some(e@),
                None => None,
            },
        }
    }
}

pub struct EntryV {
    pub timestamp_us: Option<u64>,
    pub op_call: OpCallV,
    pub response: Option<DaemonResponseV>,
    pub expects: Seq<ExpectV>,
}

impl View for Entry {
    type V = EntryV;

    open spec fn view(&self) -> EntryV {
        EntryV {
            timestamp_us: self.timestamp_us,
            op_call: self.op_call@,
            response: match self.response {
                Some(r) => Some(r@),
                None => None,
            },
            expects: expects_view(self.expects@),
        }
    }
}

pub struct PreambleV {
    pub protocol_version: ProtocolVersion,
    pub client_features: Seq<Seq<char>>,
    pub expects: Seq<ExpectV>,
    pub daemon_version: Option<Seq<char>>,
    pub trust: Option<Seq<char>>,
    pub server_features: Option<Seq<Seq<char>>>,
}

impl View for Preamble {
    type V = PreambleV;

    open spec fn view(&self) -> PreambleV {
        PreambleV {
            protocol_version: self.protocol_version,
            client_features: self.client_features.deep_view(),
            expects: expects_view(self.expects@),
            daemon_version: self.daemon_version.deep_view(),
            trust: self.trust.deep_view(),
            server_features: self.server_features.deep_view(),
        }
    }
}

pub struct ScriptV {
    pub preamble: PreambleV,
    pub entries: Seq<EntryV>,
}

pub open spec fn entries_view(v: Seq<Entry>) -> Seq<EntryV> {
    v.map_values(|e: Entry| e@)
}

impl View for Script {
    type V = ScriptV;

    open spec fn view(&self) -> ScriptV {
        ScriptV { preamble: self.preamble@, entries: entries_view(self.entries@) }
    }
}

// ---------------------------------------------------------------------------
// Operations on the AST
// ---------------------------------------------------------------------------

/// The operation an op call performs.
pub open spec fn op_of(c: OpCallV) -> Op {
    match c {
        OpCallV::SinglePath { op, .. } => op,
        OpCallV::SingleString { op, .. } => op,
        OpCallV::PathSet { op, .. } => op,
        OpCallV::PathSetFlag { op, .. } => op,
        OpCallV::PathSetMode { op, .. } => op,
        OpCallV::NoArgs { op } => op,
        OpCallV::SetOptions { .. } => Op::SetOptions,
        OpCallV::CollectGarbage { .. } => Op::CollectGarbage,
        OpCallV::VerifyStore { .. } => Op::VerifyStore,
        OpCallV::AddPermRoot { .. } => Op::AddPermRoot,
        OpCallV::AddSignatures { .. } => Op::AddSignatures,
        OpCallV::AddTextToStore { .. } => Op::AddTextToStore,
        OpCallV::AddToStore { .. } => Op::AddToStore,
        OpCallV::AddMultipleToStore { .. } => Op::AddMultipleToStore,
        OpCallV::AddBuildLog { .. } => Op::AddBuildLog,
        OpCallV::RegisterDrvOutput { .. } => Op::RegisterDrvOutput,
        OpCallV::QueryRealisation { .. } => Op::QueryRealisation,
        OpCallV::QuerySubstitutablePathInfo { .. } => Op::QuerySubstitutablePathInfo,
        OpCallV::QuerySubstitutablePathInfos { .. } => Op::QuerySubstitutablePathInfos,
        OpCallV::RawBytes { op, .. } => op,
    }
}

impl OpCall {
    /// Get the Op for this call.
    pub fn op(&self) -> (r: Op)
        ensures
            r == op_of(self@),
    {
        match self {
            OpCall::SinglePath { op, .. } => *op,
            OpCall::SingleString { op, .. } => *op,
            OpCall::PathSet { op, .. } => *op,
            OpCall::PathSetFlag { op, .. } => *op,
            OpCall::PathSetMode { op, .. } => *op,
            OpCall::NoArgs { op } => *op,
            OpCall::SetOptions { .. } => Op::SetOptions,
            OpCall::CollectGarbage { .. } => Op::CollectGarbage,
            OpCall::VerifyStore { .. } => Op::VerifyStore,
            OpCall::AddPermRoot { .. } => Op::AddPermRoot,
            OpCall::AddSignatures { .. } => Op::AddSignatures,
            OpCall::AddTextToStore { .. } => Op::AddTextToStore,
            OpCall::AddToStore { .. } => Op::AddToStore,
            OpCall::AddMultipleToStore { .. } => Op::AddMultipleToStore,
            OpCall::AddBuildLog { .. } => Op::AddBuildLog,
            OpCall::RegisterDrvOutput { .. } => Op::RegisterDrvOutput,
            OpCall::QueryRealisation { .. } => Op::QueryRealisation,
            OpCall::QuerySubstitutablePathInfo { .. } => Op::QuerySubstitutablePathInfo,
            OpCall::QuerySubstitutablePathInfos { .. } => Op::QuerySubstitutablePathInfos,
            OpCall::RawBytes { op, .. } => *op,
        }
    }
}

/// The text a terminal stderr code is written as.
pub open spec fn terminal_text(code: Option<StderrCode>) -> Seq<char> {
    match code {
        Some(StderrCode::Last) => "Last"@,
        Some(StderrCode::Error) => "Error"@,
        Some(c) => stderr_code_name(c),
        None => "none"@,
    }
}

/// Format a terminal stderr code as a string for script output.
pub fn terminal_name(code: Option<StderrCode>) -> (r: String)
    ensures
        r@ == terminal_text(code),
{
    let mut out = String::new();
    match code {
        Some(StderrCode::Last) => push_str(&mut out, "Last"),
        Some(StderrCode::Error) => push_str(&mut out, "Error"),
        Some(c) => push_str(&mut out, c.name()),
        None => push_str(&mut out, "none"),
    }
    out
}

/// The text a matcher is written as (`/re/`, `> n`, ...).
pub open spec fn matcher_text(m: MatcherV) -> Seq<char> {
    match m {
        MatcherV::Exact(s) => s,
        MatcherV::Regex(r) => seq!['/'] + r + seq!['/'],
        MatcherV::GreaterThan(n) => "> "@ + dec_int(n as int),
        MatcherV::LessThan(n) => "< "@ + dec_int(n as int),
        MatcherV::GreaterOrEqual(n) => ">= "@ + dec_int(n as int),
        MatcherV::LessOrEqual(n) => "<= "@ + dec_int(n as int),
    }
}

impl Matcher {
    /// Appends the matcher's text.
    pub fn push_text(&self, out: &mut String)
        ensures
            final(out)@ == old(out)@ + matcher_text(self@),
    {
        match self {
            Matcher::Exact(s) => push_str(out, s.as_str()),
            Matcher::Regex(r) => {
                push_char(out, '/');
                push_str(out, r.as_str());
                push_char(out, '/');
            },
            Matcher::GreaterThan(n) => {
                push_str(out, "> ");
                push_dec_i64(out, *n);
            },
            Matcher::LessThan(n) => {
                push_str(out, "< ");
                push_dec_i64(out, *n);
            },
            Matcher::GreaterOrEqual(n) => {
                push_str(out, ">= ");
                push_dec_i64(out, *n);
            },
            Matcher::LessOrEqual(n) => {
                push_str(out, "<= ");
                push_dec_i64(out, *n);
            },
        }
        assert(out@ =~= old(out)@ + matcher_text(self@));
    }

    /// The matcher's text.
    pub fn to_text(&self) -> (r: String)
        ensures
            r@ == matcher_text(self@),
    {
        let mut out = String::new();
        self.push_text(&mut out);
        out
    }
}

} // verus!
