//! Serialize a Script's operation calls into client-side wire bytes.

use vstd::prelude::*;
use crate::format::framed_of;
use crate::num::parse_u64_slice;
use crate::num::parse_unsigned;
use crate::protocol::{
    chars_eq_str, op_code, version_at_least, wire_framed, wire_string, wire_string_set, wire_u64,
    write_bytes_raw, write_framed, write_string, write_string_set, write_u64, ProtocolVersion,
    WORKER_MAGIC_1,
};
use crate::script::{entries_view, op_of, FramedData, FramedDataV, OpCall, OpCallV, Script, ScriptV};
use crate::text::to_chars;

verus! {

/// Why serialization failed.
#[derive(Clone, Debug)]
pub enum SerializeError {
    /// An `@file:` reference whose contents were not supplied.
    MissingDataFile(String),
}

pub enum SerializeErrorV {
    MissingDataFile(Seq<char>),
}

impl View for SerializeError {
    type V = SerializeErrorV;

    open spec fn view(&self) -> SerializeErrorV {
        match self {
            SerializeError::MissingDataFile(p) => SerializeErrorV::MissingDataFile(p@),
        }
    }
}

impl SerializeError {
    /// A human-readable description.
    pub fn message(&self) -> (r: String)
        ensures
            r@ == (match self@ {
                SerializeErrorV::MissingDataFile(p) => "failed to read framed data file "@ + p,
            }),
    {
        let mut s = String::new();
        match self {
            SerializeError::MissingDataFile(p) => {
                crate::text::push_str(&mut s, "failed to read framed data file ");
                crate::text::push_str(&mut s, p.as_str());
            },
        }
        s
    }
}

/// The client's handshake bytes.
pub open spec fn handshake_bytes(v: ProtocolVersion, features: Seq<Seq<char>>) -> Seq<u8> {
    wire_u64(WORKER_MAGIC_1) + wire_u64((v.major as u64 * 256 + v.minor as u64) as u64) + (if version_at_least(
        v,
        ProtocolVersion { major: 1, minor: 38 },
    ) {
        wire_string_set(features)
    } else {
        seq![]
    }) + (if version_at_least(v, ProtocolVersion { major: 1, minor: 14 }) {
        wire_u64(0)
    } else {
        seq![]
    }) + (if version_at_least(v, ProtocolVersion { major: 1, minor: 11 }) {
        wire_u64(0)
    } else {
        seq![]
    })
}

/// Serialize the client side of the handshake.
pub fn serialize_client_handshake(version: ProtocolVersion, features: &Vec<String>) -> (r: Result<
    Vec<u8>,
    SerializeError,
>)
    ensures
        r matches Ok(b) && b@ == handshake_bytes(version, features.deep_view()),
{
    let mut buf: Vec<u8> = Vec::new();
    write_u64(&mut buf, WORKER_MAGIC_1);
    write_u64(&mut buf, version.to_wire());
    if version.has_features() {
        write_string_set(&mut buf, features);
    }
    if version.has_cpu_affinity() {
        write_u64(&mut buf, 0);
    }
    if version.has_reserve_space() {
        write_u64(&mut buf, 0);
    }
    assert(buf@ =~= handshake_bytes(version, features.deep_view()));
    Ok(buf)
}

/// The build mode number a mode name stands for.
pub open spec fn mode_value(mode: Seq<char>) -> u64 {
    if mode == "normal"@ {
        0
    } else if mode == "repair"@ {
        1
    } else if mode == "check"@ {
        2
    } else {
        match parse_unsigned(mode, u64::MAX as nat) {
            Some(n) => n as u64,
            None => 0,
        }
    }
}

pub open spec fn bool_u64(b: bool) -> u64 {
    if b {
        1
    } else {
        0
    }
}

/// The override pairs on the wire: name then value, for each.
pub open spec fn wire_pairs(ov: Seq<(Seq<char>, Seq<char>)>) -> Seq<u8>
    decreases ov.len(),
{
    if ov.len() == 0 {
        seq![]
    } else {
        wire_pairs(ov.drop_last()) + wire_string(ov.last().0) + wire_string(ov.last().1)
    }
}

/// The SetOptions arguments.
pub open spec fn set_options_bytes(c: OpCallV, v: ProtocolVersion) -> Seq<u8> {
    match c {
        OpCallV::SetOptions {
            keep_failed,
            keep_going,
            try_fallback,
            verbosity,
            max_build_jobs,
            max_silent_time,
            use_build_hook,
            verbose_build,
            log_type,
            print_build_trace,
            build_cores,
            use_substitutes,
            overrides,
        } => wire_u64(keep_failed) + wire_u64(keep_going) + wire_u64(try_fallback) + wire_u64(
            verbosity,
        ) + wire_u64(max_build_jobs) + wire_u64(max_silent_time) + wire_u64(use_build_hook)
            + wire_u64(verbose_build) + wire_u64(log_type) + wire_u64(print_build_trace) + (if version_at_least(
            v,
            ProtocolVersion { major: 1, minor: 10 },
        ) {
            wire_u64(build_cores)
        } else {
            seq![]
        }) + (if version_at_least(v, ProtocolVersion { major: 1, minor: 12 }) {
            wire_u64(use_substitutes) + wire_u64(overrides.len() as u64) + wire_pairs(overrides)
        } else {
            seq![]
        }),
        _ => seq![],
    }
}

/// The arguments of an op call up to (not including) its framed data.
#[verifier::opaque]
pub open spec fn args_prefix(c: OpCallV, v: ProtocolVersion) -> Seq<u8> {
    match c {
        OpCallV::SinglePath { path, .. } => wire_string(path),
        OpCallV::SingleString { value, .. } => wire_string(value),
        OpCallV::PathSet { paths, .. } => wire_string_set(paths),
        OpCallV::PathSetFlag { paths, substitute, .. } => wire_string_set(paths) + (if version_at_least(
            v,
            ProtocolVersion { major: 1, minor: 27 },
        ) {
            wire_u64(bool_u64(substitute))
        } else {
            seq![]
        }),
        OpCallV::PathSetMode { paths, mode, .. } => wire_string_set(paths) + wire_u64(
            mode_value(mode),
        ),
        OpCallV::NoArgs { .. } => seq![],
        OpCallV::SetOptions { .. } => set_options_bytes(c, v),
        OpCallV::CollectGarbage { action, paths, ignore_liveness, max_freed } => wire_u64(action)
            + wire_string_set(paths) + wire_u64(ignore_liveness) + wire_u64(max_freed) + wire_u64(
            0,
        ) + wire_u64(0) + wire_u64(0),
        OpCallV::VerifyStore { check_contents, repair } => wire_u64(bool_u64(check_contents))
            + wire_u64(bool_u64(repair)),
        OpCallV::AddPermRoot { path, gc_root } => wire_string(path) + wire_string(gc_root),
        OpCallV::AddSignatures { path, sigs } => wire_string(path) + wire_string_set(sigs),
        OpCallV::AddTextToStore { suffix, text, refs } => wire_string(suffix) + wire_string(text)
            + wire_string_set(refs),
        OpCallV::AddToStore { name, cam_str, refs, repair, .. } => wire_string(name)
            + wire_string(cam_str) + wire_string_set(refs) + wire_u64(bool_u64(repair)),
        OpCallV::AddMultipleToStore { repair, dont_check_sigs, .. } => wire_u64(bool_u64(repair))
            + wire_u64(bool_u64(dont_check_sigs)),
        OpCallV::AddBuildLog { path, .. } => wire_string(path),
        OpCallV::RegisterDrvOutput { value } => wire_string(value),
        OpCallV::QueryRealisation { value } => wire_string(value),
        OpCallV::QuerySubstitutablePathInfo { path } => wire_string(path),
        OpCallV::QuerySubstitutablePathInfos { paths } => wire_string_set(paths),
        OpCallV::RawBytes { data, .. } => data,
    }
}

/// The bytes supplied for a file path: the first entry for that path.
pub open spec fn lookup_file(files: Seq<(Seq<char>, Seq<u8>)>, p: Seq<char>) -> Option<Seq<u8>>
    decreases files.len(),
{
    if files.len() == 0 {
        None
    } else if files[0].0 == p {
        Some(files[0].1)
    } else {
        lookup_file(files.drop_first(), p)
    }
}

/// The bytes of framed data: inline bytes, or the supplied file contents.
pub open spec fn framed_source(d: FramedDataV, files: Seq<(Seq<char>, Seq<u8>)>) -> Option<
    Seq<u8>,
> {
    match d {
        FramedDataV::Inline(b) => Some(b),
        FramedDataV::FileRef(p) => lookup_file(files, p),
    }
}

/// The argument bytes of an op call, or `None` when a data file is missing.
pub open spec fn args_bytes(
    c: OpCallV,
    v: ProtocolVersion,
    files: Seq<(Seq<char>, Seq<u8>)>,
) -> Option<Seq<u8>> {
    match framed_of(c) {
        None => Some(args_prefix(c, v)),
        Some(d) => match framed_source(d, files) {
            Some(b) => Some(args_prefix(c, v) + wire_framed(b)),
            None => None,
        },
    }
}

/// The path of the data file an op call refers to, if any.
pub open spec fn file_ref_of(c: OpCallV) -> Option<Seq<char>> {
    match framed_of(c) {
        Some(FramedDataV::FileRef(p)) => Some(p),
        _ => None,
    }
}

fn find_file<'a>(files: &'a Vec<(String, Vec<u8>)>, p: &String) -> (r: Option<&'a Vec<u8>>)
    ensures
        match r {
            Some(b) => lookup_file(files.deep_view(), p@) == Some(b@),
            None => lookup_file(files.deep_view(), p@) is None,
        },
{
    let pc = to_chars(p.as_str());
    let ghost fv = files.deep_view();
    assert(fv.subrange(0, fv.len() as int) =~= fv);
    let mut i: usize = 0;
    while i < files.len()
        invariant
            i <= files@.len(),
            fv == files.deep_view(),
            pc@ == p@,
            lookup_file(fv.subrange(i as int, fv.len() as int), p@) == lookup_file(fv, p@),
        decreases files@.len() - i,
    {
        assert(fv.subrange(i as int, fv.len() as int)[0] == fv[i as int]);
        assert(fv.subrange(i as int, fv.len() as int).drop_first() =~= fv.subrange(
            i + 1,
            fv.len() as int,
        ));
        let name = to_chars(files[i].0.as_str());
        if chars_eq_str(pc.as_slice(), files[i].0.as_str()) {
            return Some(&files[i].1);
        }
        i = i + 1;
    }
    assert(fv.subrange(i as int, fv.len() as int) =~= Seq::<(Seq<char>, Seq<u8>)>::empty());
    None
}

fn write_framed_data(
    buf: &mut Vec<u8>,
    data: &FramedData,
    files: &Vec<(String, Vec<u8>)>,
) -> (r: Result<(), SerializeError>)
    ensures
        match framed_source(data@, files.deep_view()) {
            Some(b) => r is Ok && final(buf)@ == old(buf)@ + wire_framed(b),
            None => r matches Err(e) && (final(buf)@ == old(buf)@ && (data@ matches FramedDataV::FileRef(
                p,
            ) && e@ == SerializeErrorV::MissingDataFile(p))),
        },
{
    match data {
        FramedData::Inline(bytes) => {
            write_framed(buf, bytes.as_slice());
            Ok(())
        },
        FramedData::FileRef(path) => match find_file(files, path) {
            Some(b) => {
                write_framed(buf, b.as_slice());
                Ok(())
            },
            None => Err(SerializeError::MissingDataFile(path.clone())),
        },
    }
}

fn mode_number(mode: &String) -> (r: u64)
    ensures
        r == mode_value(mode@),
{
    let m = to_chars(mode.as_str());
    if chars_eq_str(m.as_slice(), "normal") {
        0
    } else if chars_eq_str(m.as_slice(), "repair") {
        1
    } else if chars_eq_str(m.as_slice(), "check") {
        2
    } else {
        match parse_u64_slice(m.as_slice()) {
            Some(n) => n,
            None => 0,
        }
    }
}

fn write_pairs(buf: &mut Vec<u8>, ov: &Vec<(String, String)>)
    ensures
        final(buf)@ == old(buf)@ + wire_pairs(ov.deep_view()),
{
    let ghost pv = ov.deep_view();
    let mut i: usize = 0;
    while i < ov.len()
        invariant
            i <= ov@.len(),
            pv == ov.deep_view(),
            buf@ == old(buf)@ + wire_pairs(pv.subrange(0, i as int)),
        decreases ov@.len() - i,
    {
        write_string(buf, &ov[i].0);
        write_string(buf, &ov[i].1);
        assert(pv.subrange(0, i + 1).drop_last() =~= pv.subrange(0, i as int));
        i = i + 1;
        assert(buf@ =~= old(buf)@ + wire_pairs(pv.subrange(0, i as int)));
    }
    assert(pv.subrange(0, pv.len() as int) =~= pv);
}

fn write_set_options(buf: &mut Vec<u8>, c: &OpCall, version: ProtocolVersion)
    requires
        c@ is SetOptions,
    ensures
        final(buf)@ == old(buf)@ + set_options_bytes(c@, version),
{
    let ghost cv = c@;
    match c {
        OpCall::SetOptions {
            keep_failed,
            keep_going,
            try_fallback,
            verbosity,
            max_build_jobs,
            max_silent_time,
            use_build_hook,
            verbose_build,
            log_type,
            print_build_trace,
            build_cores,
            use_substitutes,
            overrides,
        } => {
            write_u64(buf, *keep_failed);
            write_u64(buf, *keep_going);
            write_u64(buf, *try_fallback);
            write_u64(buf, *verbosity);
            write_u64(buf, *max_build_jobs);
            write_u64(buf, *max_silent_time);
            write_u64(buf, *use_build_hook);
            write_u64(buf, *verbose_build);
            write_u64(buf, *log_type);
            write_u64(buf, *print_build_trace);
            let ghost mid = buf@;
            if version.at_least(ProtocolVersion::new(1, 10)) {
                write_u64(buf, *build_cores);
            }
            if version.at_least(ProtocolVersion::new(1, 12)) {
                write_u64(buf, *use_substitutes);
            }
            if version.at_least(ProtocolVersion::new(1, 12)) {
                write_u64(buf, overrides.len() as u64);
                write_pairs(buf, overrides);
            }
            assert(overrides.deep_view().len() == overrides@.len());
            assert(buf@ =~= old(buf)@ + set_options_bytes(cv, version));
        },
        _ => {},
    }
}

fn write_prefix_single_path(buf: &mut Vec<u8>, c: &OpCall, version: ProtocolVersion)
    requires
        c@ is SinglePath,
    ensures
        final(buf)@ == old(buf)@ + args_prefix(c@, version),
{
    let ghost cv = c@;
    reveal(args_prefix);
    match c {
        OpCall::SinglePath { path, .. } => write_string(buf, path),
        _ => {},
    }
    assert(buf@ =~= old(buf)@ + args_prefix(cv, version));
}

fn write_prefix_single_string(buf: &mut Vec<u8>, c: &OpCall, version: ProtocolVersion)
    requires
        c@ is SingleString,
    ensures
        final(buf)@ == old(buf)@ + args_prefix(c@, version),
{
    let ghost cv = c@;
    reveal(args_prefix);
    match c {
        OpCall::SingleString { value, .. } => write_string(buf, value),
        _ => {},
    }
    assert(buf@ =~= old(buf)@ + args_prefix(cv, version));
}

fn write_prefix_path_set(buf: &mut Vec<u8>, c: &OpCall, version: ProtocolVersion)
    requires
        c@ is PathSet,
    ensures
        final(buf)@ == old(buf)@ + args_prefix(c@, version),
{
    let ghost cv = c@;
    reveal(args_prefix);
    match c {
        OpCall::PathSet { paths, .. } => write_string_set(buf, paths),
        _ => {},
    }
    assert(buf@ =~= old(buf)@ + args_prefix(cv, version));
}

fn write_prefix_path_set_flag(buf: &mut Vec<u8>, c: &OpCall, version: ProtocolVersion)
    requires
        c@ is PathSetFlag,
    ensures
        final(buf)@ == old(buf)@ + args_prefix(c@, version),
{
    let ghost cv = c@;
    reveal(args_prefix);
    match c {
        OpCall::PathSetFlag { paths, substitute, .. } => {
            write_string_set(buf, paths);
            if version.at_least(ProtocolVersion::new(1, 27)) {
                write_u64(buf, if *substitute { 1 } else { 0 });
            }
        },
        _ => {},
    }
    assert(buf@ =~= old(buf)@ + args_prefix(cv, version));
}

fn write_prefix_path_set_mode(buf: &mut Vec<u8>, c: &OpCall, version: ProtocolVersion)
    requires
        c@ is PathSetMode,
    ensures
        final(buf)@ == old(buf)@ + args_prefix(c@, version),
{
    let ghost cv = c@;
    reveal(args_prefix);
    match c {
        OpCall::PathSetMode { paths, mode, .. } => {
            write_string_set(buf, paths);
            let m = mode_number(mode);
            write_u64(buf, m);
        },
        _ => {},
    }
    assert(buf@ =~= old(buf)@ + args_prefix(cv, version));
}

fn write_prefix_no_args(buf: &mut Vec<u8>, c: &OpCall, version: ProtocolVersion)
    requires
        c@ is NoArgs,
    ensures
        final(buf)@ == old(buf)@ + args_prefix(c@, version),
{
    let ghost cv = c@;
    reveal(args_prefix);
    match c {
        OpCall::NoArgs { .. } => {},
        _ => {},
    }
    assert(buf@ =~= old(buf)@ + args_prefix(cv, version));
}

fn write_prefix_set_options(buf: &mut Vec<u8>, c: &OpCall, version: ProtocolVersion)
    requires
        c@ is SetOptions,
    ensures
        final(buf)@ == old(buf)@ + args_prefix(c@, version),
{
    let ghost cv = c@;
    reveal(args_prefix);
    match c {
        OpCall::SetOptions { .. } => write_set_options(buf, c, version),
        _ => {},
    }
    assert(buf@ =~= old(buf)@ + args_prefix(cv, version));
}

fn write_prefix_collect_garbage(buf: &mut Vec<u8>, c: &OpCall, version: ProtocolVersion)
    requires
        c@ is CollectGarbage,
    ensures
        final(buf)@ == old(buf)@ + args_prefix(c@, version),
{
    let ghost cv = c@;
    reveal(args_prefix);
    match c {
        OpCall::CollectGarbage { action, paths, ignore_liveness, max_freed } => {
            write_u64(buf, *action);
            write_string_set(buf, paths);
            write_u64(buf, *ignore_liveness);
            write_u64(buf, *max_freed);
            write_u64(buf, 0);
            write_u64(buf, 0);
            write_u64(buf, 0);
        },
        _ => {},
    }
    assert(buf@ =~= old(buf)@ + args_prefix(cv, version));
}

fn write_prefix_verify_store(buf: &mut Vec<u8>, c: &OpCall, version: ProtocolVersion)
    requires
        c@ is VerifyStore,
    ensures
        final(buf)@ == old(buf)@ + args_prefix(c@, version),
{
    let ghost cv = c@;
    reveal(args_prefix);
    match c {
        OpCall::VerifyStore { check_contents, repair } => {
            write_u64(buf, if *check_contents { 1 } else { 0 });
            write_u64(buf, if *repair { 1 } else { 0 });
        },
        _ => {},
    }
    assert(buf@ =~= old(buf)@ + args_prefix(cv, version));
}

fn write_prefix_add_perm_root(buf: &mut Vec<u8>, c: &OpCall, version: ProtocolVersion)
    requires
        c@ is AddPermRoot,
    ensures
        final(buf)@ == old(buf)@ + args_prefix(c@, version),
{
    let ghost cv = c@;
    reveal(args_prefix);
    match c {
        OpCall::AddPermRoot { path, gc_root } => {
            write_string(buf, path);
            write_string(buf, gc_root);
        },
        _ => {},
    }
    assert(buf@ =~= old(buf)@ + args_prefix(cv, version));
}

fn write_prefix_add_signatures(buf: &mut Vec<u8>, c: &OpCall, version: ProtocolVersion)
    requires
        c@ is AddSignatures,
    ensures
        final(buf)@ == old(buf)@ + args_prefix(c@, version),
{
    let ghost cv = c@;
    reveal(args_prefix);
    match c {
        OpCall::AddSignatures { path, sigs } => {
            write_string(buf, path);
            write_string_set(buf, sigs);
        },
        _ => {},
    }
    assert(buf@ =~= old(buf)@ + args_prefix(cv, version));
}

fn write_prefix_add_text_to_store(buf: &mut Vec<u8>, c: &OpCall, version: ProtocolVersion)
    requires
        c@ is AddTextToStore,
    ensures
        final(buf)@ == old(buf)@ + args_prefix(c@, version),
{
    let ghost cv = c@;
    reveal(args_prefix);
    match c {
        OpCall::AddTextToStore { suffix, text, refs } => {
            write_string(buf, suffix);
            write_string(buf, text);
            write_string_set(buf, refs);
        },
        _ => {},
    }
    assert(buf@ =~= old(buf)@ + args_prefix(cv, version));
}

fn write_prefix_add_to_store(buf: &mut Vec<u8>, c: &OpCall, version: ProtocolVersion)
    requires
        c@ is AddToStore,
    ensures
        final(buf)@ == old(buf)@ + args_prefix(c@, version),
{
    let ghost cv = c@;
    reveal(args_prefix);
    match c {
        OpCall::AddToStore { name, cam_str, refs, repair, .. } => {
            write_string(buf, name);
            write_string(buf, cam_str);
            write_string_set(buf, refs);
            write_u64(buf, if *repair { 1 } else { 0 });
        },
        _ => {},
    }
    assert(buf@ =~= old(buf)@ + args_prefix(cv, version));
}

fn write_prefix_add_multiple_to_store(buf: &mut Vec<u8>, c: &OpCall, version: ProtocolVersion)
    requires
        c@ is AddMultipleToStore,
    ensures
        final(buf)@ == old(buf)@ + args_prefix(c@, version),
{
    let ghost cv = c@;
    reveal(args_prefix);
    match c {
        OpCall::AddMultipleToStore { repair, dont_check_sigs, .. } => {
            write_u64(buf, if *repair { 1 } else { 0 });
            write_u64(buf, if *dont_check_sigs { 1 } else { 0 });
        },
        _ => {},
    }
    assert(buf@ =~= old(buf)@ + args_prefix(cv, version));
}

fn write_prefix_add_build_log(buf: &mut Vec<u8>, c: &OpCall, version: ProtocolVersion)
    requires
        c@ is AddBuildLog,
    ensures
        final(buf)@ == old(buf)@ + args_prefix(c@, version),
{
    let ghost cv = c@;
    reveal(args_prefix);
    match c {
        OpCall::AddBuildLog { path, .. } => write_string(buf, path),
        _ => {},
    }
    assert(buf@ =~= old(buf)@ + args_prefix(cv, version));
}

fn write_prefix_register_drv_output(buf: &mut Vec<u8>, c: &OpCall, version: ProtocolVersion)
    requires
        c@ is RegisterDrvOutput,
    ensures
        final(buf)@ == old(buf)@ + args_prefix(c@, version),
{
    let ghost cv = c@;
    reveal(args_prefix);
    match c {
        OpCall::RegisterDrvOutput { value } => write_string(buf, value),
        _ => {},
    }
    assert(buf@ =~= old(buf)@ + args_prefix(cv, version));
}

fn write_prefix_query_realisation(buf: &mut Vec<u8>, c: &OpCall, version: ProtocolVersion)
    requires
        c@ is QueryRealisation,
    ensures
        final(buf)@ == old(buf)@ + args_prefix(c@, version),
{
    let ghost cv = c@;
    reveal(args_prefix);
    match c {
        OpCall::QueryRealisation { value } => write_string(buf, value),
        _ => {},
    }
    assert(buf@ =~= old(buf)@ + args_prefix(cv, version));
}

fn write_prefix_query_substitutable_path_info(buf: &mut Vec<u8>, c: &OpCall, version: ProtocolVersion)
    requires
        c@ is QuerySubstitutablePathInfo,
    ensures
        final(buf)@ == old(buf)@ + args_prefix(c@, version),
{
    let ghost cv = c@;
    reveal(args_prefix);
    match c {
        OpCall::QuerySubstitutablePathInfo { path } => write_string(buf, path),
        _ => {},
    }
    assert(buf@ =~= old(buf)@ + args_prefix(cv, version));
}

fn write_prefix_query_substitutable_path_infos(buf: &mut Vec<u8>, c: &OpCall, version: ProtocolVersion)
    requires
        c@ is QuerySubstitutablePathInfos,
    ensures
        final(buf)@ == old(buf)@ + args_prefix(c@, version),
{
    let ghost cv = c@;
    reveal(args_prefix);
    match c {
        OpCall::QuerySubstitutablePathInfos { paths } => write_string_set(buf, paths),
        _ => {},
    }
    assert(buf@ =~= old(buf)@ + args_prefix(cv, version));
}

fn write_prefix_raw_bytes(buf: &mut Vec<u8>, c: &OpCall, version: ProtocolVersion)
    requires
        c@ is RawBytes,
    ensures
        final(buf)@ == old(buf)@ + args_prefix(c@, version),
{
    let ghost cv = c@;
    reveal(args_prefix);
    match c {
        OpCall::RawBytes { data, .. } => write_bytes_raw(buf, data.as_slice()),
        _ => {},
    }
    assert(buf@ =~= old(buf)@ + args_prefix(cv, version));
}

fn write_args_prefix(buf: &mut Vec<u8>, c: &OpCall, version: ProtocolVersion)
    ensures
        final(buf)@ == old(buf)@ + args_prefix(c@, version),
{
    match c {
        OpCall::SinglePath { .. } => write_prefix_single_path(buf, c, version),
        OpCall::SingleString { .. } => write_prefix_single_string(buf, c, version),
        OpCall::PathSet { .. } => write_prefix_path_set(buf, c, version),
        OpCall::PathSetFlag { .. } => write_prefix_path_set_flag(buf, c, version),
        OpCall::PathSetMode { .. } => write_prefix_path_set_mode(buf, c, version),
        OpCall::NoArgs { .. } => write_prefix_no_args(buf, c, version),
        OpCall::SetOptions { .. } => write_prefix_set_options(buf, c, version),
        OpCall::CollectGarbage { .. } => write_prefix_collect_garbage(buf, c, version),
        OpCall::VerifyStore { .. } => write_prefix_verify_store(buf, c, version),
        OpCall::AddPermRoot { .. } => write_prefix_add_perm_root(buf, c, version),
        OpCall::AddSignatures { .. } => write_prefix_add_signatures(buf, c, version),
        OpCall::AddTextToStore { .. } => write_prefix_add_text_to_store(buf, c, version),
        OpCall::AddToStore { .. } => write_prefix_add_to_store(buf, c, version),
        OpCall::AddMultipleToStore { .. } => write_prefix_add_multiple_to_store(buf, c, version),
        OpCall::AddBuildLog { .. } => write_prefix_add_build_log(buf, c, version),
        OpCall::RegisterDrvOutput { .. } => write_prefix_register_drv_output(buf, c, version),
        OpCall::QueryRealisation { .. } => write_prefix_query_realisation(buf, c, version),
        OpCall::QuerySubstitutablePathInfo { .. } => write_prefix_query_substitutable_path_info(buf, c, version),
        OpCall::QuerySubstitutablePathInfos { .. } => write_prefix_query_substitutable_path_infos(buf, c, version),
        OpCall::RawBytes { .. } => write_prefix_raw_bytes(buf, c, version),
    }
}

/// Serialize just the arguments of an op call (no op code prefix).
/// `files` holds the contents of the `@file:` references, by path.
pub fn serialize_op_args(
    buf: &mut Vec<u8>,
    op_call: &OpCall,
    version: ProtocolVersion,
    files: &Vec<(String, Vec<u8>)>,
) -> (r: Result<(), SerializeError>)
    ensures
        match args_bytes(op_call@, version, files.deep_view()) {
            Some(b) => r is Ok && final(buf)@ == old(buf)@ + b,
            None => r matches Err(e) && (file_ref_of(op_call@) matches Some(p) && (e@
                == SerializeErrorV::MissingDataFile(p) && final(buf)@ == old(buf)@ + args_prefix(
                op_call@,
                version,
            ))),
        },
{
    write_args_prefix(buf, op_call, version);
    let ghost mid = buf@;
    match op_call {
        OpCall::AddToStore { data, .. } => write_framed_data(buf, data, files),
        OpCall::AddMultipleToStore { data, .. } => write_framed_data(buf, data, files),
        OpCall::AddBuildLog { data, .. } => write_framed_data(buf, data, files),
        _ => Ok(()),
    }
}

/// The bytes of an op call: its code, then its arguments.
pub open spec fn op_call_bytes(
    c: OpCallV,
    v: ProtocolVersion,
    files: Seq<(Seq<char>, Seq<u8>)>,
) -> Option<Seq<u8>> {
    match args_bytes(c, v, files) {
        Some(b) => Some(wire_u64(op_code(op_of(c))) + b),
        None => None,
    }
}

/// Serialize a single op call into wire bytes (op code + args).
pub fn serialize_op_call(
    buf: &mut Vec<u8>,
    op_call: &OpCall,
    version: ProtocolVersion,
    files: &Vec<(String, Vec<u8>)>,
) -> (r: Result<(), SerializeError>)
    ensures
        match op_call_bytes(op_call@, version, files.deep_view()) {
            Some(b) => r is Ok && final(buf)@ == old(buf)@ + b,
            None => r matches Err(e) && (file_ref_of(op_call@) matches Some(p) && (e@
                == SerializeErrorV::MissingDataFile(p) && final(buf)@ == old(buf)@ + wire_u64(
                op_code(op_of(op_call@)),
            ) + args_prefix(op_call@, version))),
        },
{
    let op = op_call.op();
    write_u64(buf, op.code());
    let ghost mid = buf@;
    let r = serialize_op_args(buf, op_call, version, files);
    proof {
        match args_bytes(op_call@, version, files.deep_view()) {
            Some(b) => {
                assert(buf@ =~= old(buf)@ + (wire_u64(op_code(op_of(op_call@))) + b));
            },
            None => {
                assert(buf@ =~= old(buf)@ + wire_u64(op_code(op_of(op_call@))) + args_prefix(
                    op_call@,
                    version,
                ));
            },
        }
    }
    r
}

/// The op calls of entries `i..` on the wire, or the path of the first
/// missing data file.
pub open spec fn entries_bytes_from(
    s: ScriptV,
    i: int,
    files: Seq<(Seq<char>, Seq<u8>)>,
) -> Result<Seq<u8>, Seq<char>>
    decreases s.entries.len() - i,
{
    if i < 0 || i >= s.entries.len() {
        Ok(seq![])
    } else {
        match op_call_bytes(s.entries[i].op_call, s.preamble.protocol_version, files) {
            Some(b) => match entries_bytes_from(s, i + 1, files) {
                Ok(rest) => Ok(b + rest),
                Err(p) => Err(p),
            },
            None => Err(file_ref_of(s.entries[i].op_call)->0),
        }
    }
}

/// The client-side bytes of a whole script, or the missing data file.
pub open spec fn script_bytes(s: ScriptV, files: Seq<(Seq<char>, Seq<u8>)>) -> Result<
    Seq<u8>,
    Seq<char>,
> {
    match entries_bytes_from(s, 0, files) {
        Ok(b) => Ok(handshake_bytes(s.preamble.protocol_version, s.preamble.client_features) + b),
        Err(p) => Err(p),
    }
}

/// Serialize a script into client-side wire bytes: the client handshake,
/// then each op call. `files` holds the contents of `@file:` references.
pub fn serialize_script(script: &Script, files: &Vec<(String, Vec<u8>)>) -> (r: Result<
    Vec<u8>,
    SerializeError,
>)
    ensures
        match script_bytes(script@, files.deep_view()) {
            Ok(b) => r matches Ok(v) && v@ == b,
            Err(p) => r matches Err(e) && e@ == SerializeErrorV::MissingDataFile(p),
        },
{
    let version = script.preamble.protocol_version;
    let mut buf = match serialize_client_handshake(version, &script.preamble.client_features) {
        Ok(b) => b,
        Err(e) => {
            return Err(e);
        },
    };
    let ghost head = buf@;
    let ghost sv = script@;
    let ghost fv = files.deep_view();
    let mut i: usize = 0;
    while i < script.entries.len()
        invariant
            i <= script.entries@.len(),
            sv == script@,
            fv == files.deep_view(),
            sv.preamble.protocol_version == version,
            head == handshake_bytes(version, sv.preamble.client_features),
            match entries_bytes_from(sv, i as int, fv) {
                Ok(rest) => script_bytes(sv, fv) == Ok::<Seq<u8>, Seq<char>>(buf@ + rest),
                Err(p) => script_bytes(sv, fv) == Err::<Seq<u8>, Seq<char>>(p),
            },
        decreases script.entries@.len() - i,
    {
        assert(sv.entries[i as int] == script.entries@[i as int]@);
        let ghost before = buf@;
        let r = serialize_op_call(&mut buf, &script.entries[i].op_call, version, files);
        match r {
            Ok(()) => {
                proof {
                    let b = op_call_bytes(sv.entries[i as int].op_call, version, fv)->0;
                    match entries_bytes_from(sv, i + 1, fv) {
                        Ok(rest) => {
                            assert(before + (b + rest) =~= buf@ + rest);
                        },
                        Err(p) => {},
                    }
                }
            },
            Err(e) => {
                return Err(e);
            },
        }
        i = i + 1;
    }
    assert(buf@ =~= buf@ + Seq::<u8>::empty());
    Ok(buf)
}

/// The data-file paths entries `i..` refer to, in order.
pub open spec fn refs_from(es: Seq<crate::script::EntryV>, i: int) -> Seq<Seq<char>>
    decreases es.len() - i,
{
    if i < 0 || i >= es.len() {
        seq![]
    } else {
        match file_ref_of(es[i].op_call) {
            Some(p) => seq![p] + refs_from(es, i + 1),
            None => refs_from(es, i + 1),
        }
    }
}

/// The data-file paths a script refers to, in order.
pub fn file_refs(script: &Script) -> (r: Vec<String>)
    ensures
        r.deep_view() == refs_from(entries_view(script.entries@), 0),
{
    let ghost es = entries_view(script.entries@);
    let mut out: Vec<String> = Vec::new();
    let mut i: usize = 0;
    while i < script.entries.len()
        invariant
            i <= script.entries@.len(),
            es == entries_view(script.entries@),
            out.deep_view() + refs_from(es, i as int) == refs_from(es, 0),
        decreases script.entries@.len() - i,
    {
        let ghost before = out.deep_view();
        assert(es[i as int].op_call == script.entries@[i as int].op_call@);
        let d = match &script.entries[i].op_call {
            OpCall::AddToStore { data, .. } => Some(data),
            OpCall::AddMultipleToStore { data, .. } => Some(data),
            OpCall::AddBuildLog { data, .. } => Some(data),
            _ => None,
        };
        match d {
            Some(FramedData::FileRef(p)) => {
                out.push(p.clone());
                assert(out.deep_view() =~= before + seq![p@]);
            },
            _ => {},
        }
        assert(out.deep_view() + refs_from(es, i + 1) =~= before + refs_from(es, i as int));
        i = i + 1;
    }
    assert(out.deep_view() =~= out.deep_view() + refs_from(es, i as int));
    out
}

} // verus!
