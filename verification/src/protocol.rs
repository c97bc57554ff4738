//! Protocol vocabulary the script format is built on: operation codes,
//! protocol versions, stderr codes, handshake information, and the wire
//! encoding of integers, strings, string sets and framed data.

use vstd::prelude::*;
use crate::num::{dec, push_dec};
use crate::text::push_char;

verus! {

/// `WORKER_MAGIC_1`, the first word a client sends ("nixc").
pub const WORKER_MAGIC_1: u64 = 0x6e697863;

/// A daemon operation.
#[derive(Clone, Copy, PartialEq, Eq, Structural, Debug)]
pub enum Op {
    IsValidPath,
    QueryReferrers,
    AddToStore,
    AddTextToStore,
    BuildPaths,
    EnsurePath,
    AddTempRoot,
    AddIndirectRoot,
    SyncWithGC,
    FindRoots,
    QueryDeriver,
    SetOptions,
    CollectGarbage,
    QuerySubstitutablePathInfo,
    QueryDerivationOutputs,
    QueryAllValidPaths,
    QueryPathInfo,
    QueryDerivationOutputNames,
    QueryPathFromHashPart,
    QuerySubstitutablePathInfos,
    QueryValidPaths,
    QuerySubstitutablePaths,
    QueryValidDerivers,
    OptimiseStore,
    VerifyStore,
    BuildDerivation,
    AddSignatures,
    NarFromPath,
    AddToStoreNar,
    QueryMissing,
    QueryDerivationOutputMap,
    RegisterDrvOutput,
    QueryRealisation,
    AddMultipleToStore,
    AddBuildLog,
    BuildPathsWithResults,
    AddPermRoot,
}

/// The wire code of an operation.
pub open spec fn op_code(op: Op) -> u64 {
    match op {
        Op::IsValidPath => 1,
        Op::QueryReferrers => 6,
        Op::AddToStore => 7,
        Op::AddTextToStore => 8,
        Op::BuildPaths => 9,
        Op::EnsurePath => 10,
        Op::AddTempRoot => 11,
        Op::AddIndirectRoot => 12,
        Op::SyncWithGC => 13,
        Op::FindRoots => 14,
        Op::QueryDeriver => 18,
        Op::SetOptions => 19,
        Op::CollectGarbage => 20,
        Op::QuerySubstitutablePathInfo => 21,
        Op::QueryDerivationOutputs => 22,
        Op::QueryAllValidPaths => 23,
        Op::QueryPathInfo => 26,
        Op::QueryDerivationOutputNames => 28,
        Op::QueryPathFromHashPart => 29,
        Op::QuerySubstitutablePathInfos => 30,
        Op::QueryValidPaths => 31,
        Op::QuerySubstitutablePaths => 32,
        Op::QueryValidDerivers => 33,
        Op::OptimiseStore => 34,
        Op::VerifyStore => 35,
        Op::BuildDerivation => 36,
        Op::AddSignatures => 37,
        Op::NarFromPath => 38,
        Op::AddToStoreNar => 39,
        Op::QueryMissing => 40,
        Op::QueryDerivationOutputMap => 41,
        Op::RegisterDrvOutput => 42,
        Op::QueryRealisation => 43,
        Op::AddMultipleToStore => 44,
        Op::AddBuildLog => 45,
        Op::BuildPathsWithResults => 46,
        Op::AddPermRoot => 47,
    }
}

/// The name of an operation as it appears in scripts.
pub open spec fn op_name(op: Op) -> Seq<char> {
    match op {
        Op::IsValidPath => "IsValidPath"@,
        Op::QueryReferrers => "QueryReferrers"@,
        Op::AddToStore => "AddToStore"@,
        Op::AddTextToStore => "AddTextToStore"@,
        Op::BuildPaths => "BuildPaths"@,
        Op::EnsurePath => "EnsurePath"@,
        Op::AddTempRoot => "AddTempRoot"@,
        Op::AddIndirectRoot => "AddIndirectRoot"@,
        Op::SyncWithGC => "SyncWithGC"@,
        Op::FindRoots => "FindRoots"@,
        Op::QueryDeriver => "QueryDeriver"@,
        Op::SetOptions => "SetOptions"@,
        Op::CollectGarbage => "CollectGarbage"@,
        Op::QuerySubstitutablePathInfo => "QuerySubstitutablePathInfo"@,
        Op::QueryDerivationOutputs => "QueryDerivationOutputs"@,
        Op::QueryAllValidPaths => "QueryAllValidPaths"@,
        Op::QueryPathInfo => "QueryPathInfo"@,
        Op::QueryDerivationOutputNames => "QueryDerivationOutputNames"@,
        Op::QueryPathFromHashPart => "QueryPathFromHashPart"@,
        Op::QuerySubstitutablePathInfos => "QuerySubstitutablePathInfos"@,
        Op::QueryValidPaths => "QueryValidPaths"@,
        Op::QuerySubstitutablePaths => "QuerySubstitutablePaths"@,
        Op::QueryValidDerivers => "QueryValidDerivers"@,
        Op::OptimiseStore => "OptimiseStore"@,
        Op::VerifyStore => "VerifyStore"@,
        Op::BuildDerivation => "BuildDerivation"@,
        Op::AddSignatures => "AddSignatures"@,
        Op::NarFromPath => "NarFromPath"@,
        Op::AddToStoreNar => "AddToStoreNar"@,
        Op::QueryMissing => "QueryMissing"@,
        Op::QueryDerivationOutputMap => "QueryDerivationOutputMap"@,
        Op::RegisterDrvOutput => "RegisterDrvOutput"@,
        Op::QueryRealisation => "QueryRealisation"@,
        Op::AddMultipleToStore => "AddMultipleToStore"@,
        Op::AddBuildLog => "AddBuildLog"@,
        Op::BuildPathsWithResults => "BuildPathsWithResults"@,
        Op::AddPermRoot => "AddPermRoot"@,
    }
}

/// Every operation, in wire-code order.
pub open spec fn all_ops() -> Seq<Op> {
    seq![
        Op::IsValidPath, Op::QueryReferrers, Op::AddToStore, Op::AddTextToStore,
        Op::BuildPaths, Op::EnsurePath, Op::AddTempRoot, Op::AddIndirectRoot,
        Op::SyncWithGC, Op::FindRoots, Op::QueryDeriver, Op::SetOptions,
        Op::CollectGarbage, Op::QuerySubstitutablePathInfo, Op::QueryDerivationOutputs,
        Op::QueryAllValidPaths, Op::QueryPathInfo, Op::QueryDerivationOutputNames,
        Op::QueryPathFromHashPart, Op::QuerySubstitutablePathInfos, Op::QueryValidPaths,
        Op::QuerySubstitutablePaths, Op::QueryValidDerivers, Op::OptimiseStore,
        Op::VerifyStore, Op::BuildDerivation, Op::AddSignatures, Op::NarFromPath,
        Op::AddToStoreNar, Op::QueryMissing, Op::QueryDerivationOutputMap,
        Op::RegisterDrvOutput, Op::QueryRealisation, Op::AddMultipleToStore,
        Op::AddBuildLog, Op::BuildPathsWithResults, Op::AddPermRoot,
    ]
}

/// The first operation at or after position `i` of `all_ops()` named `s`.
pub open spec fn op_named_from(s: Seq<char>, i: int) -> Option<Op>
    decreases all_ops().len() - i,
{
    if i < 0 || i >= all_ops().len() {
        None
    } else if op_name(all_ops()[i]) == s {
        Some(all_ops()[i])
    } else {
        op_named_from(s, i + 1)
    }
}

/// The operation a script names by `s`, if any.
pub open spec fn op_from_name(s: Seq<char>) -> Option<Op> {
    op_named_from(s, 0)
}

/// The operation with a given wire code, if any.
pub open spec fn op_from_code(c: u64) -> Option<Op> {
    match c {
        1 => Some(Op::IsValidPath),
        6 => Some(Op::QueryReferrers),
        7 => Some(Op::AddToStore),
        8 => Some(Op::AddTextToStore),
        9 => Some(Op::BuildPaths),
        10 => Some(Op::EnsurePath),
        11 => Some(Op::AddTempRoot),
        12 => Some(Op::AddIndirectRoot),
        13 => Some(Op::SyncWithGC),
        14 => Some(Op::FindRoots),
        18 => Some(Op::QueryDeriver),
        19 => Some(Op::SetOptions),
        20 => Some(Op::CollectGarbage),
        21 => Some(Op::QuerySubstitutablePathInfo),
        22 => Some(Op::QueryDerivationOutputs),
        23 => Some(Op::QueryAllValidPaths),
        26 => Some(Op::QueryPathInfo),
        28 => Some(Op::QueryDerivationOutputNames),
        29 => Some(Op::QueryPathFromHashPart),
        30 => Some(Op::QuerySubstitutablePathInfos),
        31 => Some(Op::QueryValidPaths),
        32 => Some(Op::QuerySubstitutablePaths),
        33 => Some(Op::QueryValidDerivers),
        34 => Some(Op::OptimiseStore),
        35 => Some(Op::VerifyStore),
        36 => Some(Op::BuildDerivation),
        37 => Some(Op::AddSignatures),
        38 => Some(Op::NarFromPath),
        39 => Some(Op::AddToStoreNar),
        40 => Some(Op::QueryMissing),
        41 => Some(Op::QueryDerivationOutputMap),
        42 => Some(Op::RegisterDrvOutput),
        43 => Some(Op::QueryRealisation),
        44 => Some(Op::AddMultipleToStore),
        45 => Some(Op::AddBuildLog),
        46 => Some(Op::BuildPathsWithResults),
        47 => Some(Op::AddPermRoot),
        _ => None,
    }
}

/// Does `s` spell exactly the literal `lit`?
pub fn chars_eq_str(s: &[char], lit: &str) -> (r: bool)
    ensures
        r == (s@ == lit@),
{
    let l = crate::text::to_chars(lit);
    if l.len() != s.len() {
        return false;
    }
    let mut i: usize = 0;
    while i < s.len()
        invariant
            l@ == lit@,
            l@.len() == s@.len(),
            i <= s@.len(),
            forall|k: int| 0 <= k < i ==> s@[k] == l@[k],
        decreases s@.len() - i,
    {
        if s[i] != l[i] {
            return false;
        }
        i = i + 1;
    }
    assert(s@ =~= l@);
    true
}

impl Op {
    /// The wire code.
    pub fn code(&self) -> (r: u64)
        ensures
            r == op_code(*self),
    {
        match self {
            Op::IsValidPath => 1,
            Op::QueryReferrers => 6,
            Op::AddToStore => 7,
            Op::AddTextToStore => 8,
            Op::BuildPaths => 9,
            Op::EnsurePath => 10,
            Op::AddTempRoot => 11,
            Op::AddIndirectRoot => 12,
            Op::SyncWithGC => 13,
            Op::FindRoots => 14,
            Op::QueryDeriver => 18,
            Op::SetOptions => 19,
            Op::CollectGarbage => 20,
            Op::QuerySubstitutablePathInfo => 21,
            Op::QueryDerivationOutputs => 22,
            Op::QueryAllValidPaths => 23,
            Op::QueryPathInfo => 26,
            Op::QueryDerivationOutputNames => 28,
            Op::QueryPathFromHashPart => 29,
            Op::QuerySubstitutablePathInfos => 30,
            Op::QueryValidPaths => 31,
            Op::QuerySubstitutablePaths => 32,
            Op::QueryValidDerivers => 33,
            Op::OptimiseStore => 34,
            Op::VerifyStore => 35,
            Op::BuildDerivation => 36,
            Op::AddSignatures => 37,
            Op::NarFromPath => 38,
            Op::AddToStoreNar => 39,
            Op::QueryMissing => 40,
            Op::QueryDerivationOutputMap => 41,
            Op::RegisterDrvOutput => 42,
            Op::QueryRealisation => 43,
            Op::AddMultipleToStore => 44,
            Op::AddBuildLog => 45,
            Op::BuildPathsWithResults => 46,
            Op::AddPermRoot => 47,
        }
    }

    /// The operation's name.
    pub fn name(&self) -> (r: &'static str)
        ensures
            r@ == op_name(*self),
    {
        match self {
            Op::IsValidPath => "IsValidPath",
            Op::QueryReferrers => "QueryReferrers",
            Op::AddToStore => "AddToStore",
            Op::AddTextToStore => "AddTextToStore",
            Op::BuildPaths => "BuildPaths",
            Op::EnsurePath => "EnsurePath",
            Op::AddTempRoot => "AddTempRoot",
            Op::AddIndirectRoot => "AddIndirectRoot",
            Op::SyncWithGC => "SyncWithGC",
            Op::FindRoots => "FindRoots",
            Op::QueryDeriver => "QueryDeriver",
            Op::SetOptions => "SetOptions",
            Op::CollectGarbage => "CollectGarbage",
            Op::QuerySubstitutablePathInfo => "QuerySubstitutablePathInfo",
            Op::QueryDerivationOutputs => "QueryDerivationOutputs",
            Op::QueryAllValidPaths => "QueryAllValidPaths",
            Op::QueryPathInfo => "QueryPathInfo",
            Op::QueryDerivationOutputNames => "QueryDerivationOutputNames",
            Op::QueryPathFromHashPart => "QueryPathFromHashPart",
            Op::QuerySubstitutablePathInfos => "QuerySubstitutablePathInfos",
            Op::QueryValidPaths => "QueryValidPaths",
            Op::QuerySubstitutablePaths => "QuerySubstitutablePaths",
            Op::QueryValidDerivers => "QueryValidDerivers",
            Op::OptimiseStore => "OptimiseStore",
            Op::VerifyStore => "VerifyStore",
            Op::BuildDerivation => "BuildDerivation",
            Op::AddSignatures => "AddSignatures",
            Op::NarFromPath => "NarFromPath",
            Op::AddToStoreNar => "AddToStoreNar",
            Op::QueryMissing => "QueryMissing",
            Op::QueryDerivationOutputMap => "QueryDerivationOutputMap",
            Op::RegisterDrvOutput => "RegisterDrvOutput",
            Op::QueryRealisation => "QueryRealisation",
            Op::AddMultipleToStore => "AddMultipleToStore",
            Op::AddBuildLog => "AddBuildLog",
            Op::BuildPathsWithResults => "BuildPathsWithResults",
            Op::AddPermRoot => "AddPermRoot",
        }
    }

    /// The operation with a given wire code.
    pub fn from_u64(c: u64) -> (r: Option<Op>)
        ensures
            r == op_from_code(c),
    {
        match c {
            1 => Some(Op::IsValidPath),
            6 => Some(Op::QueryReferrers),
            7 => Some(Op::AddToStore),
            8 => Some(Op::AddTextToStore),
            9 => Some(Op::BuildPaths),
            10 => Some(Op::EnsurePath),
            11 => Some(Op::AddTempRoot),
            12 => Some(Op::AddIndirectRoot),
            13 => Some(Op::SyncWithGC),
            14 => Some(Op::FindRoots),
            18 => Some(Op::QueryDeriver),
            19 => Some(Op::SetOptions),
            20 => Some(Op::CollectGarbage),
            21 => Some(Op::QuerySubstitutablePathInfo),
            22 => Some(Op::QueryDerivationOutputs),
            23 => Some(Op::QueryAllValidPaths),
            26 => Some(Op::QueryPathInfo),
            28 => Some(Op::QueryDerivationOutputNames),
            29 => Some(Op::QueryPathFromHashPart),
            30 => Some(Op::QuerySubstitutablePathInfos),
            31 => Some(Op::QueryValidPaths),
            32 => Some(Op::QuerySubstitutablePaths),
            33 => Some(Op::QueryValidDerivers),
            34 => Some(Op::OptimiseStore),
            35 => Some(Op::VerifyStore),
            36 => Some(Op::BuildDerivation),
            37 => Some(Op::AddSignatures),
            38 => Some(Op::NarFromPath),
            39 => Some(Op::AddToStoreNar),
            40 => Some(Op::QueryMissing),
            41 => Some(Op::QueryDerivationOutputMap),
            42 => Some(Op::RegisterDrvOutput),
            43 => Some(Op::QueryRealisation),
            44 => Some(Op::AddMultipleToStore),
            45 => Some(Op::AddBuildLog),
            46 => Some(Op::BuildPathsWithResults),
            47 => Some(Op::AddPermRoot),
            _ => None,
        }
    }

    /// The operation named `s` in a script.
    pub fn from_name(s: &[char]) -> (r: Option<Op>)
        ensures
            r == op_from_name(s@),
    {
        let ops: [Op; 37] = [
            Op::IsValidPath, Op::QueryReferrers, Op::AddToStore, Op::AddTextToStore,
            Op::BuildPaths, Op::EnsurePath, Op::AddTempRoot, Op::AddIndirectRoot,
            Op::SyncWithGC, Op::FindRoots, Op::QueryDeriver, Op::SetOptions,
            Op::CollectGarbage, Op::QuerySubstitutablePathInfo, Op::QueryDerivationOutputs,
            Op::QueryAllValidPaths, Op::QueryPathInfo, Op::QueryDerivationOutputNames,
            Op::QueryPathFromHashPart, Op::QuerySubstitutablePathInfos, Op::QueryValidPaths,
            Op::QuerySubstitutablePaths, Op::QueryValidDerivers, Op::OptimiseStore,
            Op::VerifyStore, Op::BuildDerivation, Op::AddSignatures, Op::NarFromPath,
            Op::AddToStoreNar, Op::QueryMissing, Op::QueryDerivationOutputMap,
            Op::RegisterDrvOutput, Op::QueryRealisation, Op::AddMultipleToStore,
            Op::AddBuildLog, Op::BuildPathsWithResults, Op::AddPermRoot,
        ];
        assert(ops@ =~= all_ops());
        let mut i: usize = 0;
        while i < 37
            invariant
                ops@ == all_ops(),
                i <= 37,
                op_named_from(s@, i as int) == op_from_name(s@),
            decreases 37 - i,
        {
            let op = ops[i];
            if chars_eq_str(s, op.name()) {
                return Some(op);
            }
            i = i + 1;
        }
        None
    }
}

/// A protocol version `major.minor`.
#[derive(Clone, Copy, PartialEq, Eq, Structural, Debug)]
pub struct ProtocolVersion {
    pub major: u16,
    pub minor: u8,
}

/// Lexicographic `a >= b` on (major, minor).
pub open spec fn version_at_least(a: ProtocolVersion, b: ProtocolVersion) -> bool {
    a.major > b.major || (a.major == b.major && a.minor >= b.minor)
}

pub open spec fn version_text(v: ProtocolVersion) -> Seq<char> {
    dec(v.major as nat) + seq!['.'] + dec(v.minor as nat)
}

impl ProtocolVersion {
    pub fn new(major: u16, minor: u8) -> (r: ProtocolVersion)
        ensures
            r.major == major,
            r.minor == minor,
    {
        ProtocolVersion { major, minor }
    }

    /// The wire encoding `(major << 8) | minor`.
    pub fn to_wire(&self) -> (r: u64)
        ensures
            r == self.major as u64 * 256 + self.minor as u64,
    {
        self.major as u64 * 256 + self.minor as u64
    }

    /// `self >= other`.
    pub fn at_least(&self, other: ProtocolVersion) -> (r: bool)
        ensures
            r == version_at_least(*self, other),
    {
        self.major > other.major || (self.major == other.major && self.minor >= other.minor)
    }

    /// Feature sets are exchanged (>= 1.38).
    pub fn has_features(&self) -> (r: bool)
        ensures
            r == version_at_least(*self, ProtocolVersion { major: 1, minor: 38 }),
    {
        self.at_least(ProtocolVersion::new(1, 38))
    }

    /// The post-handshake CPU affinity field is sent (>= 1.14).
    pub fn has_cpu_affinity(&self) -> (r: bool)
        ensures
            r == version_at_least(*self, ProtocolVersion { major: 1, minor: 14 }),
    {
        self.at_least(ProtocolVersion::new(1, 14))
    }

    /// The post-handshake reserveSpace field is sent (>= 1.11).
    pub fn has_reserve_space(&self) -> (r: bool)
        ensures
            r == version_at_least(*self, ProtocolVersion { major: 1, minor: 11 }),
    {
        self.at_least(ProtocolVersion::new(1, 11))
    }

    /// The text `major.minor`.
    pub fn to_text(&self) -> (r: String)
        ensures
            r@ == version_text(*self),
    {
        let mut out = String::new();
        push_dec(&mut out, self.major as u64);
        push_char(&mut out, '.');
        push_dec(&mut out, self.minor as u64);
        out
    }
}

/// A stderr message code sent by the daemon.
#[derive(Clone, Copy, PartialEq, Eq, Structural, Debug)]
pub enum StderrCode {
    Next,
    Read,
    Write,
    Last,
    Error,
    StartActivity,
    StopActivity,
    Result,
}

pub open spec fn stderr_code_name(c: StderrCode) -> Seq<char> {
    match c {
        StderrCode::Next => "Next"@,
        StderrCode::Read => "Read"@,
        StderrCode::Write => "Write"@,
        StderrCode::Last => "Last"@,
        StderrCode::Error => "Error"@,
        StderrCode::StartActivity => "StartActivity"@,
        StderrCode::StopActivity => "StopActivity"@,
        StderrCode::Result => "Result"@,
    }
}

impl StderrCode {
    pub fn name(&self) -> (r: &'static str)
        ensures
            r@ == stderr_code_name(*self),
    {
        match self {
            StderrCode::Next => "Next",
            StderrCode::Read => "Read",
            StderrCode::Write => "Write",
            StderrCode::Last => "Last",
            StderrCode::Error => "Error",
            StderrCode::StartActivity => "StartActivity",
            StderrCode::StopActivity => "StopActivity",
            StderrCode::Result => "Result",
        }
    }
}

/// What the handshake established.
#[derive(Clone, Debug)]
pub struct HandshakeInfo {
    pub client_version: ProtocolVersion,
    pub server_version: ProtocolVersion,
    pub negotiated_version: ProtocolVersion,
    pub client_features: Vec<String>,
    pub server_features: Vec<String>,
    pub daemon_nix_version: Option<String>,
    pub trust_status: Option<u64>,
}

pub struct HandshakeInfoV {
    pub client_version: ProtocolVersion,
    pub server_version: ProtocolVersion,
    pub negotiated_version: ProtocolVersion,
    pub client_features: Seq<Seq<char>>,
    pub server_features: Seq<Seq<char>>,
    pub daemon_nix_version: Option<Seq<char>>,
    pub trust_status: Option<u64>,
}

impl View for HandshakeInfo {
    type V = HandshakeInfoV;

    open spec fn view(&self) -> HandshakeInfoV {
        HandshakeInfoV {
            client_version: self.client_version,
            server_version: self.server_version,
            negotiated_version: self.negotiated_version,
            client_features: self.client_features.deep_view(),
            server_features: self.server_features.deep_view(),
            daemon_nix_version: self.daemon_nix_version.deep_view(),
            trust_status: self.trust_status,
        }
    }
}

// ---------------------------------------------------------------------------
// Wire encoding
// ---------------------------------------------------------------------------

/// The `k` low bytes of `n`, least significant first.
pub open spec fn le_bytes(n: nat, k: nat) -> Seq<u8>
    decreases k,
{
    if k == 0 {
        seq![]
    } else {
        seq![(n % 256) as u8] + le_bytes(n / 256, (k - 1) as nat)
    }
}

/// A u64 on the wire: 8 bytes, little-endian.
pub open spec fn wire_u64(n: u64) -> Seq<u8> {
    le_bytes(n as nat, 8)
}

/// Zero bytes that pad a length to a multiple of 8.
pub open spec fn wire_padding(len: nat) -> Seq<u8> {
    Seq::new(((8 - len % 8) % 8) as nat, |i: int| 0u8)
}

/// A byte string on the wire: length, bytes, zero padding to 8.
pub open spec fn wire_bytes(b: Seq<u8>) -> Seq<u8> {
    wire_u64(b.len() as u64) + b + wire_padding(b.len())
}

/// A string on the wire: its UTF-8 bytes as a byte string.
pub open spec fn wire_string(s: Seq<char>) -> Seq<u8> {
    wire_bytes(vstd::utf8::encode_utf8(s))
}

/// The strings of a set, one after another.
pub open spec fn wire_strings(ss: Seq<Seq<char>>) -> Seq<u8>
    decreases ss.len(),
{
    if ss.len() == 0 {
        seq![]
    } else {
        wire_strings(ss.drop_last()) + wire_string(ss.last())
    }
}

/// A string set on the wire: count, then each string.
pub open spec fn wire_string_set(ss: Seq<Seq<char>>) -> Seq<u8> {
    wire_u64(ss.len() as u64) + wire_strings(ss)
}

/// Framed data on the wire: one chunk holding the bytes (when there are
/// any) and the zero-length terminator.
pub open spec fn wire_framed(b: Seq<u8>) -> Seq<u8> {
    if b.len() == 0 {
        wire_u64(0)
    } else {
        wire_u64(b.len() as u64) + b + wire_u64(0)
    }
}

pub fn write_u64(buf: &mut Vec<u8>, n: u64)
    ensures
        final(buf)@ == old(buf)@ + wire_u64(n),
{
    let mut m: u64 = n;
    let mut k: usize = 0;
    while k < 8
        invariant
            k <= 8,
            buf@ + le_bytes(m as nat, (8 - k) as nat) == old(buf)@ + wire_u64(n),
        decreases 8 - k,
    {
        let ghost before = buf@;
        buf.push((m % 256) as u8);
        assert(buf@ + le_bytes((m / 256) as nat, (8 - (k + 1)) as nat) =~= before + le_bytes(
            m as nat,
            (8 - k) as nat,
        ));
        m = m / 256;
        k = k + 1;
    }
    assert(buf@ =~= buf@ + le_bytes(m as nat, 0));
}

pub fn write_bytes_raw(buf: &mut Vec<u8>, b: &[u8])
    ensures
        final(buf)@ == old(buf)@ + b@,
{
    let mut i: usize = 0;
    while i < b.len()
        invariant
            i <= b@.len(),
            buf@ == old(buf)@ + b@.subrange(0, i as int),
        decreases b@.len() - i,
    {
        buf.push(b[i]);
        i = i + 1;
        assert(buf@ =~= old(buf)@ + b@.subrange(0, i as int));
    }
    assert(b@.subrange(0, b@.len() as int) =~= b@);
}

pub fn write_bytes(buf: &mut Vec<u8>, b: &[u8])
    ensures
        final(buf)@ == old(buf)@ + wire_bytes(b@),
{
    write_u64(buf, b.len() as u64);
    write_bytes_raw(buf, b);
    let pad: usize = (8 - b.len() % 8) % 8;
    let ghost before = buf@;
    let mut k: usize = 0;
    while k < pad
        invariant
            k <= pad,
            pad == ((8 - b@.len() % 8) % 8),
            buf@ == before + Seq::new(k as nat, |i: int| 0u8),
        decreases pad - k,
    {
        buf.push(0u8);
        k = k + 1;
        assert(buf@ =~= before + Seq::new(k as nat, |i: int| 0u8));
    }
    assert(buf@ =~= old(buf)@ + wire_bytes(b@));
}

pub fn write_string(buf: &mut Vec<u8>, s: &String)
    ensures
        final(buf)@ == old(buf)@ + wire_string(s@),
{
    let b = s.as_str().as_bytes();
    write_bytes(buf, b);
}

pub fn write_string_set(buf: &mut Vec<u8>, ss: &Vec<String>)
    ensures
        final(buf)@ == old(buf)@ + wire_string_set(ss.deep_view()),
{
    write_u64(buf, ss.len() as u64);
    let ghost start = buf@;
    let mut i: usize = 0;
    while i < ss.len()
        invariant
            i <= ss@.len(),
            buf@ == start + wire_strings(ss.deep_view().subrange(0, i as int)),
        decreases ss@.len() - i,
    {
        write_string(buf, &ss[i]);
        assert(ss.deep_view().subrange(0, i + 1).drop_last() =~= ss.deep_view().subrange(0, i as int));
        i = i + 1;
        assert(buf@ =~= start + wire_strings(ss.deep_view().subrange(0, i as int)));
    }
    assert(ss.deep_view().subrange(0, ss@.len() as int) =~= ss.deep_view());
}

pub fn write_framed(buf: &mut Vec<u8>, b: &[u8])
    ensures
        final(buf)@ == old(buf)@ + wire_framed(b@),
{
    if b.len() > 0 {
        write_u64(buf, b.len() as u64);
        write_bytes_raw(buf, b);
    }
    write_u64(buf, 0);
    assert(buf@ =~= old(buf)@ + wire_framed(b@));
}

/// Length, sixth character and last character of an operation's name.
spec fn name_sig(op: Op) -> (nat, char, char) {
    match op {
        Op::IsValidPath => (11nat, 'i', 'h'),
        Op::QueryReferrers => (14nat, 'R', 's'),
        Op::AddToStore => (10nat, 'S', 'e'),
        Op::AddTextToStore => (14nat, 'x', 'e'),
        Op::BuildPaths => (10nat, 'P', 's'),
        Op::EnsurePath => (10nat, 'e', 'h'),
        Op::AddTempRoot => (11nat, 'm', 't'),
        Op::AddIndirectRoot => (15nat, 'd', 't'),
        Op::SyncWithGC => (10nat, 'i', 'C'),
        Op::FindRoots => (9nat, 'o', 's'),
        Op::QueryDeriver => (12nat, 'D', 'r'),
        Op::SetOptions => (10nat, 't', 's'),
        Op::CollectGarbage => (14nat, 'c', 'e'),
        Op::QuerySubstitutablePathInfo => (26nat, 'S', 'o'),
        Op::QueryDerivationOutputs => (22nat, 'D', 's'),
        Op::QueryAllValidPaths => (18nat, 'A', 's'),
        Op::QueryPathInfo => (13nat, 'P', 'o'),
        Op::QueryDerivationOutputNames => (26nat, 'D', 's'),
        Op::QueryPathFromHashPart => (21nat, 'P', 't'),
        Op::QuerySubstitutablePathInfos => (27nat, 'S', 's'),
        Op::QueryValidPaths => (15nat, 'V', 's'),
        Op::QuerySubstitutablePaths => (23nat, 'S', 's'),
        Op::QueryValidDerivers => (18nat, 'V', 's'),
        Op::OptimiseStore => (13nat, 'i', 'e'),
        Op::VerifyStore => (11nat, 'y', 'e'),
        Op::BuildDerivation => (15nat, 'D', 'n'),
        Op::AddSignatures => (13nat, 'g', 's'),
        Op::NarFromPath => (11nat, 'o', 'h'),
        Op::AddToStoreNar => (13nat, 'S', 'r'),
        Op::QueryMissing => (12nat, 'M', 'g'),
        Op::QueryDerivationOutputMap => (24nat, 'D', 'p'),
        Op::RegisterDrvOutput => (17nat, 't', 't'),
        Op::QueryRealisation => (16nat, 'R', 'n'),
        Op::AddMultipleToStore => (18nat, 'l', 'e'),
        Op::AddBuildLog => (11nat, 'i', 'g'),
        Op::BuildPathsWithResults => (21nat, 'P', 's'),
        Op::AddPermRoot => (11nat, 'r', 't'),
    }
}

spec fn op_of_sig(sig: (nat, char, char)) -> Op {
    if sig == (11nat, 'i', 'h') {
        Op::IsValidPath
    } else if sig == (14nat, 'R', 's') {
        Op::QueryReferrers
    } else if sig == (10nat, 'S', 'e') {
        Op::AddToStore
    } else if sig == (14nat, 'x', 'e') {
        Op::AddTextToStore
    } else if sig == (10nat, 'P', 's') {
        Op::BuildPaths
    } else if sig == (10nat, 'e', 'h') {
        Op::EnsurePath
    } else if sig == (11nat, 'm', 't') {
        Op::AddTempRoot
    } else if sig == (15nat, 'd', 't') {
        Op::AddIndirectRoot
    } else if sig == (10nat, 'i', 'C') {
        Op::SyncWithGC
    } else if sig == (9nat, 'o', 's') {
        Op::FindRoots
    } else if sig == (12nat, 'D', 'r') {
        Op::QueryDeriver
    } else if sig == (10nat, 't', 's') {
        Op::SetOptions
    } else if sig == (14nat, 'c', 'e') {
        Op::CollectGarbage
    } else if sig == (26nat, 'S', 'o') {
        Op::QuerySubstitutablePathInfo
    } else if sig == (22nat, 'D', 's') {
        Op::QueryDerivationOutputs
    } else if sig == (18nat, 'A', 's') {
        Op::QueryAllValidPaths
    } else if sig == (13nat, 'P', 'o') {
        Op::QueryPathInfo
    } else if sig == (26nat, 'D', 's') {
        Op::QueryDerivationOutputNames
    } else if sig == (21nat, 'P', 't') {
        Op::QueryPathFromHashPart
    } else if sig == (27nat, 'S', 's') {
        Op::QuerySubstitutablePathInfos
    } else if sig == (15nat, 'V', 's') {
        Op::QueryValidPaths
    } else if sig == (23nat, 'S', 's') {
        Op::QuerySubstitutablePaths
    } else if sig == (18nat, 'V', 's') {
        Op::QueryValidDerivers
    } else if sig == (13nat, 'i', 'e') {
        Op::OptimiseStore
    } else if sig == (11nat, 'y', 'e') {
        Op::VerifyStore
    } else if sig == (15nat, 'D', 'n') {
        Op::BuildDerivation
    } else if sig == (13nat, 'g', 's') {
        Op::AddSignatures
    } else if sig == (11nat, 'o', 'h') {
        Op::NarFromPath
    } else if sig == (13nat, 'S', 'r') {
        Op::AddToStoreNar
    } else if sig == (12nat, 'M', 'g') {
        Op::QueryMissing
    } else if sig == (24nat, 'D', 'p') {
        Op::QueryDerivationOutputMap
    } else if sig == (17nat, 't', 't') {
        Op::RegisterDrvOutput
    } else if sig == (16nat, 'R', 'n') {
        Op::QueryRealisation
    } else if sig == (18nat, 'l', 'e') {
        Op::AddMultipleToStore
    } else if sig == (11nat, 'i', 'g') {
        Op::AddBuildLog
    } else if sig == (21nat, 'P', 's') {
        Op::BuildPathsWithResults
    } else if sig == (11nat, 'r', 't') {
        Op::AddPermRoot
    } else {
        Op::IsValidPath
    }
}

spec fn op_index(op: Op) -> int {
    match op {
        Op::IsValidPath => 0,
        Op::QueryReferrers => 1,
        Op::AddToStore => 2,
        Op::AddTextToStore => 3,
        Op::BuildPaths => 4,
        Op::EnsurePath => 5,
        Op::AddTempRoot => 6,
        Op::AddIndirectRoot => 7,
        Op::SyncWithGC => 8,
        Op::FindRoots => 9,
        Op::QueryDeriver => 10,
        Op::SetOptions => 11,
        Op::CollectGarbage => 12,
        Op::QuerySubstitutablePathInfo => 13,
        Op::QueryDerivationOutputs => 14,
        Op::QueryAllValidPaths => 15,
        Op::QueryPathInfo => 16,
        Op::QueryDerivationOutputNames => 17,
        Op::QueryPathFromHashPart => 18,
        Op::QuerySubstitutablePathInfos => 19,
        Op::QueryValidPaths => 20,
        Op::QuerySubstitutablePaths => 21,
        Op::QueryValidDerivers => 22,
        Op::OptimiseStore => 23,
        Op::VerifyStore => 24,
        Op::BuildDerivation => 25,
        Op::AddSignatures => 26,
        Op::NarFromPath => 27,
        Op::AddToStoreNar => 28,
        Op::QueryMissing => 29,
        Op::QueryDerivationOutputMap => 30,
        Op::RegisterDrvOutput => 31,
        Op::QueryRealisation => 32,
        Op::AddMultipleToStore => 33,
        Op::AddBuildLog => 34,
        Op::BuildPathsWithResults => 35,
        Op::AddPermRoot => 36,
    }
}

proof fn lemma_name_sig(op: Op)
    ensures
        op_name(op).len() == name_sig(op).0,
        op_name(op)[5] == name_sig(op).1,
        op_name(op).last() == name_sig(op).2,
        op_of_sig(name_sig(op)) == op,
        0 <= op_index(op) < all_ops().len(),
        all_ops()[op_index(op)] == op,
{
    match op {
        Op::IsValidPath => {
            reveal_strlit("IsValidPath");
        },
        Op::QueryReferrers => {
            reveal_strlit("QueryReferrers");
        },
        Op::AddToStore => {
            reveal_strlit("AddToStore");
        },
        Op::AddTextToStore => {
            reveal_strlit("AddTextToStore");
        },
        Op::BuildPaths => {
            reveal_strlit("BuildPaths");
        },
        Op::EnsurePath => {
            reveal_strlit("EnsurePath");
        },
        Op::AddTempRoot => {
            reveal_strlit("AddTempRoot");
        },
        Op::AddIndirectRoot => {
            reveal_strlit("AddIndirectRoot");
        },
        Op::SyncWithGC => {
            reveal_strlit("SyncWithGC");
        },
        Op::FindRoots => {
            reveal_strlit("FindRoots");
        },
        Op::QueryDeriver => {
            reveal_strlit("QueryDeriver");
        },
        Op::SetOptions => {
            reveal_strlit("SetOptions");
        },
        Op::CollectGarbage => {
            reveal_strlit("CollectGarbage");
        },
        Op::QuerySubstitutablePathInfo => {
            reveal_strlit("QuerySubstitutablePathInfo");
        },
        Op::QueryDerivationOutputs => {
            reveal_strlit("QueryDerivationOutputs");
        },
        Op::QueryAllValidPaths => {
            reveal_strlit("QueryAllValidPaths");
        },
        Op::QueryPathInfo => {
            reveal_strlit("QueryPathInfo");
        },
        Op::QueryDerivationOutputNames => {
            reveal_strlit("QueryDerivationOutputNames");
        },
        Op::QueryPathFromHashPart => {
            reveal_strlit("QueryPathFromHashPart");
        },
        Op::QuerySubstitutablePathInfos => {
            reveal_strlit("QuerySubstitutablePathInfos");
        },
        Op::QueryValidPaths => {
            reveal_strlit("QueryValidPaths");
        },
        Op::QuerySubstitutablePaths => {
            reveal_strlit("QuerySubstitutablePaths");
        },
        Op::QueryValidDerivers => {
            reveal_strlit("QueryValidDerivers");
        },
        Op::OptimiseStore => {
            reveal_strlit("OptimiseStore");
        },
        Op::VerifyStore => {
            reveal_strlit("VerifyStore");
        },
        Op::BuildDerivation => {
            reveal_strlit("BuildDerivation");
        },
        Op::AddSignatures => {
            reveal_strlit("AddSignatures");
        },
        Op::NarFromPath => {
            reveal_strlit("NarFromPath");
        },
        Op::AddToStoreNar => {
            reveal_strlit("AddToStoreNar");
        },
        Op::QueryMissing => {
            reveal_strlit("QueryMissing");
        },
        Op::QueryDerivationOutputMap => {
            reveal_strlit("QueryDerivationOutputMap");
        },
        Op::RegisterDrvOutput => {
            reveal_strlit("RegisterDrvOutput");
        },
        Op::QueryRealisation => {
            reveal_strlit("QueryRealisation");
        },
        Op::AddMultipleToStore => {
            reveal_strlit("AddMultipleToStore");
        },
        Op::AddBuildLog => {
            reveal_strlit("AddBuildLog");
        },
        Op::BuildPathsWithResults => {
            reveal_strlit("BuildPathsWithResults");
        },
        Op::AddPermRoot => {
            reveal_strlit("AddPermRoot");
        },
    }
}

proof fn lemma_named_from(op: Op, i: int)
    requires
        0 <= i <= op_index(op),
    ensures
        op_named_from(op_name(op), i) == Some(op),
    decreases op_index(op) - i,
{
    lemma_name_sig(op);
    if i < op_index(op) {
        let other = all_ops()[i];
        lemma_name_sig(other);
        if op_name(other) == op_name(op) {
            assert(name_sig(other) == name_sig(op));
            assert(op_index(other) == i);
        }
        lemma_named_from(op, i + 1);
    }
}

/// Reading an operation's name gives the operation back.
pub proof fn law_op_name_roundtrip(op: Op)
    ensures
        op_from_name(op_name(op)) == Some(op),
{
    lemma_named_from(op, 0);
}

/// Reading an operation's wire code gives the operation back.
pub proof fn law_op_code_roundtrip(op: Op)
    ensures
        op_from_code(op_code(op)) == Some(op),
{
}

/// A u64 takes one 8-byte word on the wire.
pub proof fn law_wire_u64_width(n: u64)
    ensures
        wire_u64(n).len() == 8,
{
    lemma_le_bytes_len(n as nat, 8);
}

proof fn lemma_le_bytes_len(n: nat, k: nat)
    ensures
        le_bytes(n, k).len() == k,
    decreases k,
{
    if k > 0 {
        lemma_le_bytes_len(n / 256, (k - 1) as nat);
    }
}

/// A byte string on the wire ends on an 8-byte boundary, with fewer than
/// eight bytes of padding after its length word and its bytes.
pub proof fn law_wire_bytes_aligned(b: Seq<u8>)
    ensures
        wire_bytes(b).len() % 8 == 0,
        8 + b.len() <= wire_bytes(b).len() < 16 + b.len(),
{
    law_wire_u64_width(b.len() as u64);
}

/// A string set on the wire ends on an 8-byte boundary.
pub proof fn law_wire_string_set_aligned(ss: Seq<Seq<char>>)
    ensures
        wire_string_set(ss).len() % 8 == 0,
{
    law_wire_u64_width(ss.len() as u64);
    lemma_wire_strings_aligned(ss);
}

proof fn lemma_wire_strings_aligned(ss: Seq<Seq<char>>)
    ensures
        wire_strings(ss).len() % 8 == 0,
    decreases ss.len(),
{
    if ss.len() > 0 {
        lemma_wire_strings_aligned(ss.drop_last());
        law_wire_bytes_aligned(vstd::utf8::encode_utf8(ss.last()));
    }
}

} // verus!
