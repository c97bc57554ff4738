//! Format a Script AST to `.nwscript` text.

use vstd::prelude::*;
use crate::num::{dec, hex_text, push_dec, push_dec_padded, push_hex, zero_pad};
use crate::protocol::{op_name, version_text};
use crate::script::{
    entries_view, expects_view, matcher_text, DaemonResponse, DaemonResponseV, Entry, EntryV, Expect, ExpectV, FramedData,
    FramedDataV, OpCall, OpCallV, PathInfoResult, PathInfoV, Preamble, PreambleV, ResultData,
    ResultDataV, Script, ScriptV,
};
use crate::text::{push_char, push_chars, push_str, to_chars, trim_start, trim_start_slice};

verus! {

/// Options for formatting a script.
#[derive(Clone, Debug)]
pub struct FormatOptions {
    /// Directory that large framed data is written into. When set, inline
    /// data longer than `inline_threshold` bytes is referenced as
    /// `@file:NNNN.bin` and listed by [`data_files`]; the caller writes it.
    pub data_dir: Option<String>,
    /// Maximum inline data size in bytes. Default: 64.
    pub inline_threshold: usize,
}

impl Default for FormatOptions {
    fn default() -> (r: FormatOptions)
        ensures
            r.data_dir is None,
            r.inline_threshold == 64,
    {
        FormatOptions { data_dir: None, inline_threshold: 64 }
    }
}

pub open spec fn nl() -> Seq<char> {
    seq!['\n']
}

/// `items.join(sep)`.
pub open spec fn join(ps: Seq<Seq<char>>, sep: Seq<char>) -> Seq<char>
    decreases ps.len(),
{
    if ps.len() == 0 {
        seq![]
    } else if ps.len() == 1 {
        ps[0]
    } else {
        join(ps.drop_last(), sep) + sep + ps.last()
    }
}

/// `{ a, b }`, or `{ }` when empty.
pub open spec fn path_set_text(ps: Seq<Seq<char>>) -> Seq<char> {
    if ps.len() == 0 {
        "{ }"@
    } else {
        "{ "@ + join(ps, ", "@) + " }"@
    }
}

pub open spec fn bool_text(b: bool) -> Seq<char> {
    dec(if b { 1 } else { 0 })
}

/// `@{ms:.3}ms ` for a time in microseconds.
pub open spec fn timestamp_text(t: Option<u64>) -> Seq<char> {
    match t {
        Some(us) => seq!['@'] + dec((us / 1000) as nat) + seq!['.'] + zero_pad(
            dec((us % 1000) as nat),
            3,
        ) + "ms "@,
        None => seq![],
    }
}

/// The name of the `k`-th data file: `{k:04}.bin`.
pub open spec fn data_file_name(k: nat) -> Seq<char> {
    zero_pad(dec(k), 4) + ".bin"@
}

/// One character of a quoted string: `\`, `"`, newline, CR and tab escaped.
pub open spec fn escape_char(c: char) -> Seq<char> {
    if c == '\\' {
        seq!['\\', '\\']
    } else if c == '"' {
        seq!['\\', '"']
    } else if c == '\n' {
        seq!['\\', 'n']
    } else if c == '\r' {
        seq!['\\', 'r']
    } else if c == '\t' {
        seq!['\\', 't']
    } else {
        seq![c]
    }
}

pub open spec fn escape_text(s: Seq<char>) -> Seq<char>
    decreases s.len(),
{
    if s.len() == 0 {
        seq![]
    } else {
        escape_text(s.drop_last()) + escape_char(s.last())
    }
}

/// The abstract formatting options: whether data goes to files, and the
/// inline size limit.
pub open spec fn externalizes(opts: FormatOptions) -> bool {
    opts.data_dir is Some
}

/// The framed data an op call carries.
pub open spec fn framed_of(c: OpCallV) -> Option<FramedDataV> {
    match c {
        OpCallV::AddToStore { data, .. } => Some(data),
        OpCallV::AddMultipleToStore { data, .. } => Some(data),
        OpCallV::AddBuildLog { data, .. } => Some(data),
        _ => None,
    }
}

/// The bytes an op call's data file holds, when its data goes to a file.
pub open spec fn externalized(c: OpCallV, opts: FormatOptions) -> Option<Seq<u8>> {
    match framed_of(c) {
        Some(FramedDataV::Inline(b)) => if b.len() > opts.inline_threshold && externalizes(opts) {
            Some(b)
        } else {
            None
        },
        _ => None,
    }
}

/// The data counter after an op call.
pub open spec fn next_counter(c: OpCallV, opts: FormatOptions, counter: nat) -> nat {
    if externalized(c, opts) is Some {
        counter + 1
    } else {
        counter
    }
}

/// The `  data: ...` line.
pub open spec fn framed_text(d: FramedDataV, opts: FormatOptions, counter: nat) -> Seq<char> {
    match d {
        FramedDataV::Inline(b) => if b.len() > opts.inline_threshold && externalizes(opts) {
            "  data: @file:"@ + data_file_name(counter) + nl()
        } else {
            "  data: x\""@ + hex_text(b) + "\"\n"@
        },
        FramedDataV::FileRef(p) => "  data: @file:"@ + p + nl(),
    }
}

pub open spec fn u64_line(key: Seq<char>, v: u64) -> Seq<char> {
    key + dec(v as nat) + nl()
}

pub open spec fn bool_line(key: Seq<char>, b: bool) -> Seq<char> {
    key + bool_text(b) + nl()
}

/// `    "name" = "value"` lines for setting overrides.
pub open spec fn overrides_text(ov: Seq<(Seq<char>, Seq<char>)>) -> Seq<char>
    decreases ov.len(),
{
    if ov.len() == 0 {
        seq![]
    } else {
        overrides_text(ov.drop_last()) + "    \""@ + ov.last().0 + "\" = \""@ + ov.last().1
            + "\"\n"@
    }
}

/// The lines of an op call (`ts` is the timestamp prefix).
pub open spec fn op_call_text(
    ts: Seq<char>,
    c: OpCallV,
    opts: FormatOptions,
    counter: nat,
) -> Seq<char> {
    ts + op_body_text(c, opts, counter)
}

/// The first six SetOptions lines.
pub open spec fn set_options_lines_a(a: u64, b: u64, c: u64, d: u64, e: u64, f: u64) -> Seq<char> {
    u64_line("  keep_failed: "@, a) + u64_line("  keep_going: "@, b) + u64_line(
        "  try_fallback: "@,
        c,
    ) + u64_line("  verbosity: "@, d) + u64_line("  max_build_jobs: "@, e) + u64_line(
        "  max_silent_time: "@,
        f,
    )
}

/// The next six SetOptions lines.
pub open spec fn set_options_lines_b(a: u64, b: u64, c: u64, d: u64, e: u64, f: u64) -> Seq<char> {
    u64_line("  use_build_hook: "@, a) + u64_line("  verbose_build: "@, b) + u64_line(
        "  log_type: "@,
        c,
    ) + u64_line("  print_build_trace: "@, d) + u64_line("  build_cores: "@, e) + u64_line(
        "  use_substitutes: "@,
        f,
    )
}

/// The SetOptions block.
pub open spec fn set_options_text(c: OpCallV) -> Seq<char> {
    match c {
        OpCallV::SetOptions {
            keep_failed,
            keep_going,
            try_fallback,
            verbosity,
            max_build_jobs,
            max_silent_time,
            use_build_hook,
            verbose_build,
            log_type,
            print_build_trace,
            build_cores,
            use_substitutes,
            overrides,
        } => "SetOptions\n"@ + set_options_lines_a(
            keep_failed,
            keep_going,
            try_fallback,
            verbosity,
            max_build_jobs,
            max_silent_time,
        ) + set_options_lines_b(
            use_build_hook,
            verbose_build,
            log_type,
            print_build_trace,
            build_cores,
            use_substitutes,
        ) + "  overrides: "@ + dec(overrides.len()) + nl() + overrides_text(overrides),
        _ => seq![],
    }
}

/// The lines of an op call after the timestamp.
pub open spec fn op_body_text(c: OpCallV, opts: FormatOptions, counter: nat) -> Seq<char> {
    match c {
        OpCallV::SinglePath { op, path } => op_name(op) + seq![' '] + path + nl(),
        OpCallV::SingleString { op, value } => op_name(op) + seq![' '] + value + nl(),
        OpCallV::PathSet { op, paths } => op_name(op) + seq![' '] + path_set_text(paths)
            + nl(),
        OpCallV::PathSetFlag { op, paths, substitute } => if substitute {
            op_name(op) + seq![' '] + path_set_text(paths) + " substitute"@ + nl()
        } else {
            op_name(op) + seq![' '] + path_set_text(paths) + nl()
        },
        OpCallV::PathSetMode { op, paths, mode } => op_name(op) + seq![' '] + path_set_text(
            paths,
        ) + seq![' '] + mode + nl(),
        OpCallV::NoArgs { op } => op_name(op) + nl(),
        OpCallV::SetOptions { .. } => set_options_text(c),
        OpCallV::CollectGarbage { action, paths, ignore_liveness, max_freed } => "CollectGarbage\n"@ + u64_line("  action: "@, action) + "  paths: "@
            + path_set_text(paths) + nl() + u64_line("  ignore_liveness: "@, ignore_liveness)
            + u64_line("  max_freed: "@, max_freed),
        OpCallV::VerifyStore { check_contents, repair } => "VerifyStore\n"@ + bool_line(
            "  check_contents: "@,
            check_contents,
        ) + bool_line("  repair: "@, repair),
        OpCallV::AddPermRoot { path, gc_root } => "AddPermRoot "@ + path + seq![' ']
            + gc_root + nl(),
        OpCallV::AddSignatures { path, sigs } => "AddSignatures "@ + path + seq![' ']
            + path_set_text(sigs) + nl(),
        OpCallV::AddTextToStore { suffix, text, refs } => "AddTextToStore\n"@
            + "  suffix: \""@ + suffix + "\"\n"@ + "  text: \""@ + escape_text(text) + "\"\n"@
            + "  refs: "@ + path_set_text(refs) + nl(),
        OpCallV::AddToStore { name, cam_str, refs, repair, data } => "AddToStore\n"@
            + "  name: \""@ + name + "\"\n"@ + "  cam_str: \""@ + cam_str + "\"\n"@
            + "  refs: "@ + path_set_text(refs) + nl() + bool_line("  repair: "@, repair)
            + framed_text(data, opts, counter),
        OpCallV::AddMultipleToStore { repair, dont_check_sigs, data } => "AddMultipleToStore\n"@ + bool_line("  repair: "@, repair) + bool_line(
            "  dont_check_sigs: "@,
            dont_check_sigs,
        ) + framed_text(data, opts, counter),
        OpCallV::AddBuildLog { path, data } => "AddBuildLog "@ + path + nl() + framed_text(
            data,
            opts,
            counter,
        ),
        OpCallV::RegisterDrvOutput { value } => "RegisterDrvOutput "@ + value + nl(),
        OpCallV::QueryRealisation { value } => "QueryRealisation "@ + value + nl(),
        OpCallV::QuerySubstitutablePathInfo { path } => "QuerySubstitutablePathInfo "@
            + path + nl(),
        OpCallV::QuerySubstitutablePathInfos { paths } => "QuerySubstitutablePathInfos "@
            + path_set_text(paths) + nl(),
        OpCallV::RawBytes { op, data } => if data.len() == 0 {
            op_name(op) + nl()
        } else {
            op_name(op) + nl() + "  raw x\""@ + hex_text(data) + "\"\n"@
        },
    }
}

/// `result` or `result.FIELD`.
pub open spec fn result_field_text(field: Option<Seq<char>>) -> Seq<char> {
    match field {
        Some(f) => "result."@ + f,
        None => "result"@,
    }
}

/// The indented line of an op-level expect.
pub open spec fn expect_text(e: ExpectV) -> Seq<char> {
    match e {
        ExpectV::Terminal(code) => "  expect: "@ + code + nl(),
        ExpectV::Result { field, matcher } => "  expect "@ + result_field_text(field) + ": "@
            + matcher_text(matcher) + nl(),
        ExpectV::Error { matcher } => "  expect error: "@ + matcher_text(matcher) + nl(),
        ExpectV::StderrCount { matcher } => "  expect stderr.count: "@ + matcher_text(matcher)
            + nl(),
        ExpectV::Daemon { matcher } => "  expect daemon: "@ + matcher_text(matcher) + nl(),
        ExpectV::Trust { matcher } => "  expect trust: "@ + matcher_text(matcher) + nl(),
        ExpectV::ServerFeatures { matcher } => "  expect server_features: "@ + matcher_text(
            matcher,
        ) + nl(),
    }
}

/// The line of a preamble expect (not indented).
pub open spec fn preamble_expect_text(e: ExpectV) -> Seq<char> {
    match e {
        ExpectV::Daemon { matcher } => "expect daemon: "@ + matcher_text(matcher) + nl(),
        ExpectV::Trust { matcher } => "expect trust: "@ + matcher_text(matcher) + nl(),
        ExpectV::ServerFeatures { matcher } => "expect server_features: "@ + matcher_text(
            matcher,
        ) + nl(),
        _ => trim_start(expect_text(e)),
    }
}

pub open spec fn expects_text(es: Seq<ExpectV>) -> Seq<char>
    decreases es.len(),
{
    if es.len() == 0 {
        seq![]
    } else {
        expects_text(es.drop_last()) + expect_text(es.last())
    }
}

pub open spec fn preamble_expects_text(es: Seq<ExpectV>) -> Seq<char>
    decreases es.len(),
{
    if es.len() == 0 {
        seq![]
    } else {
        preamble_expects_text(es.drop_last()) + preamble_expect_text(es.last())
    }
}

/// Comment lines for the first five of a result map's pairs.
pub open spec fn map_pairs_text(ps: Seq<(Seq<char>, Seq<char>)>) -> Seq<char>
    decreases ps.len(),
{
    if ps.len() == 0 {
        seq![]
    } else {
        map_pairs_text(ps.drop_last()) + "  # result: \""@ + ps.last().0 + "\" = \""@
            + ps.last().1 + "\"\n"@
    }
}

pub open spec fn opt_u64_line(key: Seq<char>, v: Option<u64>) -> Seq<char> {
    match v {
        Some(n) => u64_line(key, n),
        None => seq![],
    }
}

pub open spec fn opt_set_line(key: Seq<char>, v: Option<Seq<Seq<char>>>) -> Seq<char> {
    match v {
        Some(r) => key + path_set_text(r) + nl(),
        None => seq![],
    }
}

/// The deriver line of a path-info comment (left out when empty).
pub open spec fn deriver_line(d: Option<Seq<char>>) -> Seq<char> {
    match d {
        Some(d) => if d.len() > 0 {
            "  # result.deriver: "@ + d + nl()
        } else {
            seq![]
        },
        None => seq![],
    }
}

pub open spec fn path_info_text(i: PathInfoV) -> Seq<char> {
    bool_line("  # result.valid: "@, i.valid) + deriver_line(i.deriver) + opt_line(
        "  # result.narHash: "@,
        i.nar_hash,
    ) + opt_set_line("  # result.references: "@, i.references) + opt_u64_line(
        "  # result.narSize: "@,
        i.nar_size,
    )
}

pub open spec fn string_map_text(ps: Seq<(Seq<char>, Seq<char>)>) -> Seq<char> {
    "  # result.count: "@ + dec(ps.len()) + nl() + map_pairs_text(
        ps.take(if ps.len() < 5 { ps.len() as int } else { 5 }),
    ) + (if ps.len() > 5 {
        "  # ... and "@ + dec((ps.len() - 5) as nat) + " more\n"@
    } else {
        seq![]
    })
}

pub open spec fn substitutable_text(
    valid: bool,
    deriver: Option<Seq<char>>,
    download_size: Option<u64>,
    nar_size: Option<u64>,
) -> Seq<char> {
    bool_line("  # result.valid: "@, valid) + opt_line("  # result.deriver: "@, deriver)
        + opt_u64_line("  # result.downloadSize: "@, download_size) + opt_u64_line(
        "  # result.narSize: "@,
        nar_size,
    )
}

pub open spec fn missing_text(
    will_build: Seq<Seq<char>>,
    will_substitute: Seq<Seq<char>>,
    unknown: Seq<Seq<char>>,
    download_size: u64,
    nar_size: u64,
) -> Seq<char> {
    "  # result.willBuild: "@ + path_set_text(will_build) + nl() + "  # result.willSubstitute: "@
        + path_set_text(will_substitute) + nl() + "  # result.unknown: "@ + path_set_text(unknown)
        + nl() + u64_line("  # result.downloadSize: "@, download_size) + u64_line(
        "  # result.narSize: "@,
        nar_size,
    )
}

pub open spec fn result_text(r: ResultDataV) -> Seq<char> {
    match r {
        ResultDataV::U64(v) => u64_line("  # result: "@, v),
        ResultDataV::Str(s) => "  # result: "@ + s + nl(),
        ResultDataV::PathInfo(i) => path_info_text(i),
        ResultDataV::StringSet(s) => "  # result: "@ + path_set_text(s) + nl(),
        ResultDataV::StringMap(ps) => string_map_text(ps),
        ResultDataV::Empty => seq![],
        ResultDataV::CollectGarbage { bytes_freed } => u64_line(
            "  # result.bytes_freed: "@,
            bytes_freed,
        ),
        ResultDataV::SubstitutablePathInfo { valid, deriver, download_size, nar_size, .. } =>
            substitutable_text(valid, deriver, download_size, nar_size),
        ResultDataV::Missing { will_build, will_substitute, unknown, download_size, nar_size } =>
            missing_text(will_build, will_substitute, unknown, download_size, nar_size),
        ResultDataV::Framed(b) => "  # result: framed "@ + dec(b.len()) + " bytes\n"@,
        ResultDataV::Raw(b) => "  # result: raw "@ + dec(b.len()) + " bytes\n"@,
    }
}

pub open spec fn response_text(r: DaemonResponseV) -> Seq<char> {
    "  # response: "@ + r.terminal + nl() + (if r.stderr_count > 1 {
        u64_line("  # stderr.count: "@, r.stderr_count)
    } else {
        seq![]
    }) + (match r.error {
        Some(e) => "  # error: "@ + e.message + nl(),
        None => seq![],
    }) + (match r.result {
        Some(res) => result_text(res),
        None => seq![],
    })
}

/// The lines of one entry, whose data file (if any) is number `counter`.
pub open spec fn entry_text(e: EntryV, opts: FormatOptions, counter: nat) -> Seq<char> {
    op_call_text(timestamp_text(e.timestamp_us), e.op_call, opts, counter) + expects_text(
        e.expects,
    ) + (match e.response {
        Some(r) => response_text(r),
        None => seq![],
    })
}

/// Entries `i..`, each preceded by a blank line.
pub open spec fn entries_text_from(
    es: Seq<EntryV>,
    i: int,
    opts: FormatOptions,
    counter: nat,
) -> Seq<char>
    decreases es.len() - i,
{
    if i < 0 || i >= es.len() {
        seq![]
    } else {
        nl() + entry_text(es[i], opts, counter) + entries_text_from(
            es,
            i + 1,
            opts,
            next_counter(es[i].op_call, opts, counter),
        )
    }
}

/// The data files entries `i..` refer to: (name, bytes).
pub open spec fn entries_files_from(
    es: Seq<EntryV>,
    i: int,
    opts: FormatOptions,
    counter: nat,
) -> Seq<(Seq<char>, Seq<u8>)>
    decreases es.len() - i,
{
    if i < 0 || i >= es.len() {
        seq![]
    } else {
        match externalized(es[i].op_call, opts) {
            Some(b) => seq![(data_file_name(counter), b)] + entries_files_from(
                es,
                i + 1,
                opts,
                counter + 1,
            ),
            None => entries_files_from(es, i + 1, opts, counter),
        }
    }
}

pub open spec fn opt_line(prefix: Seq<char>, v: Option<Seq<char>>) -> Seq<char> {
    match v {
        Some(s) => prefix + s + nl(),
        None => seq![],
    }
}

/// The first three preamble lines.
pub open spec fn preamble_head(p: PreambleV) -> Seq<char> {
    "# nwscript v1\n"@ + "protocol: "@ + version_text(p.protocol_version) + nl() + "features: "@
        + path_set_text(p.client_features) + nl()
}

pub open spec fn preamble_text(p: PreambleV) -> Seq<char> {
    preamble_head(p) + opt_line("# daemon: "@, p.daemon_version) + opt_line(
        "# trust: "@,
        p.trust,
    ) + opt_set_line("# server_features: "@, p.server_features) + preamble_expects_text(
        p.expects,
    ) + "---\n"@
}

/// The `.nwscript` text of a script.
pub open spec fn script_text(s: ScriptV, opts: FormatOptions) -> Seq<char> {
    preamble_text(s.preamble) + entries_text_from(s.entries, 0, opts, 0)
}

/// The same options with every data block kept inline.
pub open spec fn inline_options(opts: FormatOptions) -> FormatOptions {
    FormatOptions { data_dir: None, inline_threshold: opts.inline_threshold }
}

/// Entries `i..` when the `a`-th and later data-file writes went as
/// `written` says (a write with no entry there counts as failed): an entry
/// whose file was written refers to it by number `counter`, which then goes
/// up by one; an entry whose write failed keeps its data inline, and the
/// number stays.
pub open spec fn entries_text_written(
    es: Seq<EntryV>,
    i: int,
    opts: FormatOptions,
    counter: nat,
    written: Seq<bool>,
    a: nat,
) -> Seq<char>
    decreases es.len() - i,
{
    if i < 0 || i >= es.len() {
        seq![]
    } else if externalized(es[i].op_call, opts) is Some {
        if a < written.len() && written[a as int] {
            nl() + entry_text(es[i], opts, counter) + entries_text_written(
                es,
                i + 1,
                opts,
                counter + 1,
                written,
                a + 1,
            )
        } else {
            nl() + entry_text(es[i], inline_options(opts), counter) + entries_text_written(
                es,
                i + 1,
                opts,
                counter,
                written,
                a + 1,
            )
        }
    } else {
        nl() + entry_text(es[i], opts, counter) + entries_text_written(
            es,
            i + 1,
            opts,
            counter,
            written,
            a,
        )
    }
}

/// The `.nwscript` text of a script whose data-file writes went as `written`
/// says, one flag per file in the order of `data_files`.
pub open spec fn script_text_written(s: ScriptV, opts: FormatOptions, written: Seq<bool>) -> Seq<char> {
    preamble_text(s.preamble) + entries_text_written(s.entries, 0, opts, 0, written, 0)
}

proof fn lemma_all_written(
    es: Seq<EntryV>,
    i: int,
    opts: FormatOptions,
    counter: nat,
    written: Seq<bool>,
    a: nat,
)
    requires
        0 <= i,
        a <= i,
        written.len() >= es.len(),
        forall|k: int| 0 <= k < written.len() ==> written[k],
    ensures
        entries_text_written(es, i, opts, counter, written, a) == entries_text_from(
            es,
            i,
            opts,
            counter,
        ),
    decreases es.len() - i,
{
    if i < es.len() {
        let a2 = if externalized(es[i].op_call, opts) is Some {
            a + 1
        } else {
            a
        };
        lemma_all_written(es, i + 1, opts, next_counter(es[i].op_call, opts, counter), written, a2);
    }
}

/// When every data-file write succeeds, the text is the one that
/// `format_script` writes.
pub proof fn law_all_written_is_script_text(s: ScriptV, opts: FormatOptions, written: Seq<bool>)
    requires
        written.len() >= s.entries.len(),
        forall|k: int| 0 <= k < written.len() ==> written[k],
    ensures
        script_text_written(s, opts, written) == script_text(s, opts),
{
    lemma_all_written(s.entries, 0, opts, 0, written, 0);
}

/// The data files a formatted script refers to, in order.
pub open spec fn script_files(s: ScriptV, opts: FormatOptions) -> Seq<(Seq<char>, Seq<u8>)> {
    entries_files_from(s.entries, 0, opts, 0)
}

// ---------------------------------------------------------------------------
// Executable formatting
// ---------------------------------------------------------------------------

fn push_u64_line(out: &mut String, key: &str, v: u64)
    ensures
        final(out)@ == old(out)@ + u64_line(key@, v),
{
    push_str(out, key);
    push_dec(out, v);
    push_char(out, '\n');
    assert(out@ =~= old(out)@ + u64_line(key@, v));
}

fn push_bool_line(out: &mut String, key: &str, b: bool)
    ensures
        final(out)@ == old(out)@ + bool_line(key@, b),
{
    push_str(out, key);
    push_dec(out, if b { 1 } else { 0 });
    push_char(out, '\n');
    assert(out@ =~= old(out)@ + bool_line(key@, b));
}

fn push_path_set(out: &mut String, paths: &Vec<String>)
    ensures
        final(out)@ == old(out)@ + path_set_text(paths.deep_view()),
{
    if paths.len() == 0 {
        push_str(out, "{ }");
        return;
    }
    push_str(out, "{ ");
    let ghost start = out@;
    let ghost ps = paths.deep_view();
    let mut i: usize = 0;
    while i < paths.len()
        invariant
            i <= paths@.len(),
            ps == paths.deep_view(),
            ps.len() > 0,
            out@ == start + join(ps.subrange(0, i as int), ", "@),
        decreases paths@.len() - i,
    {
        if i > 0 {
            push_str(out, ", ");
        }
        push_str(out, paths[i].as_str());
        assert(ps.subrange(0, i + 1).drop_last() =~= ps.subrange(0, i as int));
        i = i + 1;
        assert(out@ =~= start + join(ps.subrange(0, i as int), ", "@));
    }
    assert(ps.subrange(0, ps.len() as int) =~= ps);
    push_str(out, " }");
    assert(out@ =~= old(out)@ + path_set_text(paths.deep_view()));
}

/// Appends `items.join(sep)`.
pub fn push_joined(out: &mut String, items: &Vec<String>, sep: &str)
    ensures
        final(out)@ == old(out)@ + join(items.deep_view(), sep@),
{
    let ghost ps = items.deep_view();
    let mut i: usize = 0;
    while i < items.len()
        invariant
            i <= items@.len(),
            ps == items.deep_view(),
            out@ == old(out)@ + join(ps.subrange(0, i as int), sep@),
        decreases items@.len() - i,
    {
        if i > 0 {
            push_str(out, sep);
        }
        push_str(out, items[i].as_str());
        assert(ps.subrange(0, i + 1).drop_last() =~= ps.subrange(0, i as int));
        i = i + 1;
        assert(out@ =~= old(out)@ + join(ps.subrange(0, i as int), sep@));
    }
    assert(ps.subrange(0, ps.len() as int) =~= ps);
}

/// Format a path set as `{ a, b }` (or `{ }`).
pub fn format_path_set(paths: &Vec<String>) -> (r: String)
    ensures
        r@ == path_set_text(paths.deep_view()),
{
    let mut out = String::new();
    push_path_set(&mut out, paths);
    out
}

/// Escape `\`, `"`, newline, CR and tab for a quoted string.
pub fn escape_string(s: &str) -> (r: String)
    ensures
        r@ == escape_text(s@),
{
    let v = to_chars(s);
    let mut out = String::new();
    let mut i: usize = 0;
    while i < v.len()
        invariant
            i <= v@.len(),
            out@ == escape_text(v@.subrange(0, i as int)),
        decreases v@.len() - i,
    {
        let c = v[i];
        if c == '\\' {
            push_char(&mut out, '\\');
            push_char(&mut out, '\\');
        } else if c == '"' {
            push_char(&mut out, '\\');
            push_char(&mut out, '"');
        } else if c == '\n' {
            push_char(&mut out, '\\');
            push_char(&mut out, 'n');
        } else if c == '\r' {
            push_char(&mut out, '\\');
            push_char(&mut out, 'r');
        } else if c == '\t' {
            push_char(&mut out, '\\');
            push_char(&mut out, 't');
        } else {
            push_char(&mut out, c);
        }
        assert(v@.subrange(0, i + 1).drop_last() =~= v@.subrange(0, i as int));
        i = i + 1;
        assert(out@ =~= escape_text(v@.subrange(0, i as int)));
    }
    assert(v@.subrange(0, v@.len() as int) =~= v@);
    out
}

/// Hex-encode bytes, two lower-case digits per byte.
pub fn hex_encode(data: &[u8]) -> (r: String)
    ensures
        r@ == hex_text(data@),
{
    let mut out = String::new();
    push_hex(&mut out, data);
    out
}

fn push_timestamp(out: &mut String, t: Option<u64>)
    ensures
        final(out)@ == old(out)@ + timestamp_text(t),
{
    match t {
        Some(us) => {
            push_char(out, '@');
            push_dec(out, us / 1000);
            push_char(out, '.');
            push_dec_padded(out, us % 1000, 3);
            push_str(out, "ms ");
            assert(out@ =~= old(out)@ + timestamp_text(t));
        },
        None => {
            assert(out@ =~= old(out)@ + timestamp_text(t));
        },
    }
}

fn push_framed(out: &mut String, d: &FramedData, opts: &FormatOptions, counter: u64)
    ensures
        final(out)@ == old(out)@ + framed_text(d@, *opts, counter as nat),
{
    match d {
        FramedData::Inline(bytes) => {
            if bytes.len() > opts.inline_threshold && opts.data_dir.is_some() {
                push_str(out, "  data: @file:");
                push_dec_padded(out, counter, 4);
                push_str(out, ".bin");
                push_char(out, '\n');
            } else {
                push_str(out, "  data: x\"");
                push_hex(out, bytes.as_slice());
                push_str(out, "\"\n");
            }
        },
        FramedData::FileRef(path) => {
            push_str(out, "  data: @file:");
            push_str(out, path.as_str());
            push_char(out, '\n');
        },
    }
    assert(out@ =~= old(out)@ + framed_text(d@, *opts, counter as nat));
}

fn push_overrides(out: &mut String, ov: &Vec<(String, String)>)
    ensures
        final(out)@ == old(out)@ + overrides_text(ov.deep_view()),
{
    let ghost ps = ov.deep_view();
    let mut i: usize = 0;
    while i < ov.len()
        invariant
            i <= ov@.len(),
            ps == ov.deep_view(),
            out@ == old(out)@ + overrides_text(ps.subrange(0, i as int)),
        decreases ov@.len() - i,
    {
        push_str(out, "    \"");
        push_str(out, ov[i].0.as_str());
        push_str(out, "\" = \"");
        push_str(out, ov[i].1.as_str());
        push_str(out, "\"\n");
        assert(ps.subrange(0, i + 1).drop_last() =~= ps.subrange(0, i as int));
        i = i + 1;
        assert(out@ =~= old(out)@ + overrides_text(ps.subrange(0, i as int)));
    }
    assert(ps.subrange(0, ps.len() as int) =~= ps);
}

fn push_op_call_singlepath(out: &mut String, c: &OpCall, opts: &FormatOptions, counter: u64)
    requires
        c@ is SinglePath,
    ensures
        final(out)@ == old(out)@ + op_body_text(c@, *opts, counter as nat),
{
    let ghost cv = c@;
    match c {
        OpCall::SinglePath { op, path } => {
            push_str(out, op.name());
            push_char(out, ' ');
            push_str(out, path.as_str());
            push_char(out, '\n');
            assert(out@ =~= old(out)@ + op_body_text(cv, *opts, counter as nat));
        },
        _ => {},
    }
}

fn push_op_call_singlestring(out: &mut String, c: &OpCall, opts: &FormatOptions, counter: u64)
    requires
        c@ is SingleString,
    ensures
        final(out)@ == old(out)@ + op_body_text(c@, *opts, counter as nat),
{
    let ghost cv = c@;
    match c {
        OpCall::SingleString { op, value } => {
            push_str(out, op.name());
            push_char(out, ' ');
            push_str(out, value.as_str());
            push_char(out, '\n');
            assert(out@ =~= old(out)@ + op_body_text(cv, *opts, counter as nat));
        },
        _ => {},
    }
}

fn push_op_call_pathset(out: &mut String, c: &OpCall, opts: &FormatOptions, counter: u64)
    requires
        c@ is PathSet,
    ensures
        final(out)@ == old(out)@ + op_body_text(c@, *opts, counter as nat),
{
    let ghost cv = c@;
    match c {
        OpCall::PathSet { op, paths } => {
            push_str(out, op.name());
            push_char(out, ' ');
            push_path_set(out, paths);
            push_char(out, '\n');
            assert(out@ =~= old(out)@ + op_body_text(cv, *opts, counter as nat));
        },
        _ => {},
    }
}

fn push_op_call_pathsetflag(out: &mut String, c: &OpCall, opts: &FormatOptions, counter: u64)
    requires
        c@ is PathSetFlag,
    ensures
        final(out)@ == old(out)@ + op_body_text(c@, *opts, counter as nat),
{
    let ghost cv = c@;
    match c {
        OpCall::PathSetFlag { op, paths, substitute } => {
            push_str(out, op.name());
            push_char(out, ' ');
            push_path_set(out, paths);
            if *substitute {
                push_str(out, " substitute");
            }
            push_char(out, '\n');
            assert(out@ =~= old(out)@ + op_body_text(cv, *opts, counter as nat));
        },
        _ => {},
    }
}

fn push_op_call_pathsetmode(out: &mut String, c: &OpCall, opts: &FormatOptions, counter: u64)
    requires
        c@ is PathSetMode,
    ensures
        final(out)@ == old(out)@ + op_body_text(c@, *opts, counter as nat),
{
    let ghost cv = c@;
    match c {
        OpCall::PathSetMode { op, paths, mode } => {
            push_str(out, op.name());
            push_char(out, ' ');
            push_path_set(out, paths);
            push_char(out, ' ');
            push_str(out, mode.as_str());
            push_char(out, '\n');
            assert(out@ =~= old(out)@ + op_body_text(cv, *opts, counter as nat));
        },
        _ => {},
    }
}

fn push_op_call_noargs(out: &mut String, c: &OpCall, opts: &FormatOptions, counter: u64)
    requires
        c@ is NoArgs,
    ensures
        final(out)@ == old(out)@ + op_body_text(c@, *opts, counter as nat),
{
    let ghost cv = c@;
    match c {
        OpCall::NoArgs { op } => {
            push_str(out, op.name());
            push_char(out, '\n');
            assert(out@ =~= old(out)@ + op_body_text(cv, *opts, counter as nat));
        },
        _ => {},
    }
}

fn push_lines_a(out: &mut String, a: u64, b: u64, c: u64, d: u64, e: u64, f: u64)
    ensures
        final(out)@ == old(out)@ + set_options_lines_a(a, b, c, d, e, f),
{
    push_u64_line(out, "  keep_failed: ", a);
    push_u64_line(out, "  keep_going: ", b);
    push_u64_line(out, "  try_fallback: ", c);
    push_u64_line(out, "  verbosity: ", d);
    push_u64_line(out, "  max_build_jobs: ", e);
    push_u64_line(out, "  max_silent_time: ", f);
    assert(out@ =~= old(out)@ + set_options_lines_a(a, b, c, d, e, f));
}

fn push_lines_b(out: &mut String, a: u64, b: u64, c: u64, d: u64, e: u64, f: u64)
    ensures
        final(out)@ == old(out)@ + set_options_lines_b(a, b, c, d, e, f),
{
    push_u64_line(out, "  use_build_hook: ", a);
    push_u64_line(out, "  verbose_build: ", b);
    push_u64_line(out, "  log_type: ", c);
    push_u64_line(out, "  print_build_trace: ", d);
    push_u64_line(out, "  build_cores: ", e);
    push_u64_line(out, "  use_substitutes: ", f);
    assert(out@ =~= old(out)@ + set_options_lines_b(a, b, c, d, e, f));
}

#[verifier::spinoff_prover]
fn push_op_call_1(out: &mut String, c: &OpCall, opts: &FormatOptions, counter: u64)
    requires
        c@ is SetOptions,
    ensures
        final(out)@ == old(out)@ + op_body_text(c@, *opts, counter as nat),
{
    match c {
        OpCall::SetOptions {
            keep_failed,
            keep_going,
            try_fallback,
            verbosity,
            max_build_jobs,
            max_silent_time,
            use_build_hook,
            verbose_build,
            log_type,
            print_build_trace,
            build_cores,
            use_substitutes,
            overrides,
        } => {
            let ghost cv = OpCallV::SetOptions {
                keep_failed: *keep_failed,
                keep_going: *keep_going,
                try_fallback: *try_fallback,
                verbosity: *verbosity,
                max_build_jobs: *max_build_jobs,
                max_silent_time: *max_silent_time,
                use_build_hook: *use_build_hook,
                verbose_build: *verbose_build,
                log_type: *log_type,
                print_build_trace: *print_build_trace,
                build_cores: *build_cores,
                use_substitutes: *use_substitutes,
                overrides: overrides.deep_view(),
            };
            assert(c@ == cv);
            let ghost p0 = out@;
            push_str(out, "SetOptions\n");
            push_lines_a(
                out,
                *keep_failed,
                *keep_going,
                *try_fallback,
                *verbosity,
                *max_build_jobs,
                *max_silent_time,
            );
            push_lines_b(
                out,
                *use_build_hook,
                *verbose_build,
                *log_type,
                *print_build_trace,
                *build_cores,
                *use_substitutes,
            );
            push_str(out, "  overrides: ");
            push_dec(out, overrides.len() as u64);
            push_char(out, '\n');
            push_overrides(out, overrides);
            assert(overrides.deep_view().len() == overrides@.len());
            assert(out@ =~= p0 + set_options_text(cv));
        },
        _ => {},
    }
}

#[verifier::spinoff_prover]
fn push_op_call_2(out: &mut String, c: &OpCall, opts: &FormatOptions, counter: u64)
    requires
        c@ is CollectGarbage || c@ is VerifyStore,
    ensures
        final(out)@ == old(out)@ + op_body_text(c@, *opts, counter as nat),
{
    let ghost cv = c@;
    match c {
        OpCall::CollectGarbage { action, paths, ignore_liveness, max_freed } => {
            push_str(out, "CollectGarbage\n");
            push_u64_line(out, "  action: ", *action);
            push_str(out, "  paths: ");
            push_path_set(out, paths);
            push_char(out, '\n');
            push_u64_line(out, "  ignore_liveness: ", *ignore_liveness);
            push_u64_line(out, "  max_freed: ", *max_freed);
            assert(out@ =~= old(out)@ + op_body_text(c@, *opts, counter as nat));
        },
        OpCall::VerifyStore { check_contents, repair } => {
            push_str(out, "VerifyStore\n");
            push_bool_line(out, "  check_contents: ", *check_contents);
            push_bool_line(out, "  repair: ", *repair);
            assert(out@ =~= old(out)@ + op_body_text(cv, *opts, counter as nat));
        },
        _ => {},
    }
}

#[verifier::spinoff_prover]
fn push_op_call_3(out: &mut String, c: &OpCall, opts: &FormatOptions, counter: u64)
    requires
        c@ is AddPermRoot || c@ is AddSignatures || c@ is AddTextToStore,
    ensures
        final(out)@ == old(out)@ + op_body_text(c@, *opts, counter as nat),
{
    let ghost cv = c@;
    match c {
        OpCall::AddPermRoot { path, gc_root } => {
            push_str(out, "AddPermRoot ");
            push_str(out, path.as_str());
            push_char(out, ' ');
            push_str(out, gc_root.as_str());
            push_char(out, '\n');
            assert(out@ =~= old(out)@ + op_body_text(c@, *opts, counter as nat));
        },
        OpCall::AddSignatures { path, sigs } => {
            push_str(out, "AddSignatures ");
            push_str(out, path.as_str());
            push_char(out, ' ');
            push_path_set(out, sigs);
            push_char(out, '\n');
            assert(out@ =~= old(out)@ + op_body_text(c@, *opts, counter as nat));
        },
        OpCall::AddTextToStore { suffix, text, refs } => {
            push_str(out, "AddTextToStore\n");
            push_str(out, "  suffix: \"");
            push_str(out, suffix.as_str());
            push_str(out, "\"\n");
            push_str(out, "  text: \"");
            let esc = escape_string(text.as_str());
            push_str(out, esc.as_str());
            push_str(out, "\"\n");
            push_str(out, "  refs: ");
            push_path_set(out, refs);
            push_char(out, '\n');
            assert(out@ =~= old(out)@ + op_body_text(cv, *opts, counter as nat));
        },
        _ => {},
    }
}

#[verifier::spinoff_prover]
fn push_op_call_4(out: &mut String, c: &OpCall, opts: &FormatOptions, counter: u64)
    requires
        c@ is AddToStore || c@ is AddMultipleToStore || c@ is AddBuildLog,
    ensures
        final(out)@ == old(out)@ + op_body_text(c@, *opts, counter as nat),
{
    let ghost cv = c@;
    match c {
        OpCall::AddToStore { name, cam_str, refs, repair, data } => {
            push_str(out, "AddToStore\n");
            push_str(out, "  name: \"");
            push_str(out, name.as_str());
            push_str(out, "\"\n");
            push_str(out, "  cam_str: \"");
            push_str(out, cam_str.as_str());
            push_str(out, "\"\n");
            push_str(out, "  refs: ");
            push_path_set(out, refs);
            push_char(out, '\n');
            push_bool_line(out, "  repair: ", *repair);
            push_framed(out, data, opts, counter);
            assert(out@ =~= old(out)@ + op_body_text(c@, *opts, counter as nat));
        },
        OpCall::AddMultipleToStore { repair, dont_check_sigs, data } => {
            push_str(out, "AddMultipleToStore\n");
            push_bool_line(out, "  repair: ", *repair);
            push_bool_line(out, "  dont_check_sigs: ", *dont_check_sigs);
            push_framed(out, data, opts, counter);
            assert(out@ =~= old(out)@ + op_body_text(c@, *opts, counter as nat));
        },
        OpCall::AddBuildLog { path, data } => {
            push_str(out, "AddBuildLog ");
            push_str(out, path.as_str());
            push_char(out, '\n');
            push_framed(out, data, opts, counter);
            assert(out@ =~= old(out)@ + op_body_text(cv, *opts, counter as nat));
        },
        _ => {},
    }
}

#[verifier::spinoff_prover]
fn push_op_call_5(out: &mut String, c: &OpCall, opts: &FormatOptions, counter: u64)
    requires
        c@ is RegisterDrvOutput || c@ is QueryRealisation || c@ is QuerySubstitutablePathInfo || c@ is QuerySubstitutablePathInfos || c@ is RawBytes,
    ensures
        final(out)@ == old(out)@ + op_body_text(c@, *opts, counter as nat),
{
    let ghost cv = c@;
    match c {
        OpCall::RegisterDrvOutput { value } => {
            push_str(out, "RegisterDrvOutput ");
            push_str(out, value.as_str());
            push_char(out, '\n');
            assert(out@ =~= old(out)@ + op_body_text(c@, *opts, counter as nat));
        },
        OpCall::QueryRealisation { value } => {
            push_str(out, "QueryRealisation ");
            push_str(out, value.as_str());
            push_char(out, '\n');
            assert(out@ =~= old(out)@ + op_body_text(c@, *opts, counter as nat));
        },
        OpCall::QuerySubstitutablePathInfo { path } => {
            push_str(out, "QuerySubstitutablePathInfo ");
            push_str(out, path.as_str());
            push_char(out, '\n');
            assert(out@ =~= old(out)@ + op_body_text(c@, *opts, counter as nat));
        },
        OpCall::QuerySubstitutablePathInfos { paths } => {
            push_str(out, "QuerySubstitutablePathInfos ");
            push_path_set(out, paths);
            push_char(out, '\n');
            assert(out@ =~= old(out)@ + op_body_text(c@, *opts, counter as nat));
        },
        OpCall::RawBytes { op, data } => {
            push_str(out, op.name());
            push_char(out, '\n');
            if data.len() > 0 {
                push_str(out, "  raw x\"");
                push_hex(out, data.as_slice());
                push_str(out, "\"\n");
            }
            assert(out@ =~= old(out)@ + op_body_text(cv, *opts, counter as nat));
        },
        _ => {},
    }
}

fn push_op_call(out: &mut String, ts: &String, c: &OpCall, opts: &FormatOptions, counter: u64)
    ensures
        final(out)@ == old(out)@ + op_call_text(ts@, c@, *opts, counter as nat),
{
    push_str(out, ts.as_str());
    let ghost mid = out@;
    match c {
        OpCall::SinglePath { .. } => push_op_call_singlepath(out, c, opts, counter),
        OpCall::SingleString { .. } => push_op_call_singlestring(out, c, opts, counter),
        OpCall::PathSet { .. } => push_op_call_pathset(out, c, opts, counter),
        OpCall::PathSetFlag { .. } => push_op_call_pathsetflag(out, c, opts, counter),
        OpCall::PathSetMode { .. } => push_op_call_pathsetmode(out, c, opts, counter),
        OpCall::NoArgs { .. } => push_op_call_noargs(out, c, opts, counter),
        OpCall::SetOptions { .. } => push_op_call_1(out, c, opts, counter),
        OpCall::CollectGarbage { .. } => push_op_call_2(out, c, opts, counter),
        OpCall::VerifyStore { .. } => push_op_call_2(out, c, opts, counter),
        OpCall::AddPermRoot { .. } => push_op_call_3(out, c, opts, counter),
        OpCall::AddSignatures { .. } => push_op_call_3(out, c, opts, counter),
        OpCall::AddTextToStore { .. } => push_op_call_3(out, c, opts, counter),
        OpCall::AddToStore { .. } => push_op_call_4(out, c, opts, counter),
        OpCall::AddMultipleToStore { .. } => push_op_call_4(out, c, opts, counter),
        OpCall::AddBuildLog { .. } => push_op_call_4(out, c, opts, counter),
        OpCall::RegisterDrvOutput { .. } => push_op_call_5(out, c, opts, counter),
        OpCall::QueryRealisation { .. } => push_op_call_5(out, c, opts, counter),
        OpCall::QuerySubstitutablePathInfo { .. } => push_op_call_5(out, c, opts, counter),
        OpCall::QuerySubstitutablePathInfos { .. } => push_op_call_5(out, c, opts, counter),
        OpCall::RawBytes { .. } => push_op_call_5(out, c, opts, counter),
    }
    assert(out@ =~= old(out)@ + op_call_text(ts@, c@, *opts, counter as nat));
}

fn push_expect(out: &mut String, e: &Expect)
    ensures
        final(out)@ == old(out)@ + expect_text(e@),
{
    match e {
        Expect::Terminal(code) => {
            push_str(out, "  expect: ");
            push_str(out, code.as_str());
        },
        Expect::Result { field, matcher } => {
            push_str(out, "  expect ");
            match field {
                Some(f) => {
                    push_str(out, "result.");
                    push_str(out, f.as_str());
                },
                None => push_str(out, "result"),
            }
            push_str(out, ": ");
            matcher.push_text(out);
        },
        Expect::Error { matcher } => {
            push_str(out, "  expect error: ");
            matcher.push_text(out);
        },
        Expect::StderrCount { matcher } => {
            push_str(out, "  expect stderr.count: ");
            matcher.push_text(out);
        },
        Expect::Daemon { matcher } => {
            push_str(out, "  expect daemon: ");
            matcher.push_text(out);
        },
        Expect::Trust { matcher } => {
            push_str(out, "  expect trust: ");
            matcher.push_text(out);
        },
        Expect::ServerFeatures { matcher } => {
            push_str(out, "  expect server_features: ");
            matcher.push_text(out);
        },
    }
    push_char(out, '\n');
    assert(out@ =~= old(out)@ + expect_text(e@));
}

fn push_preamble_expect(out: &mut String, e: &Expect)
    ensures
        final(out)@ == old(out)@ + preamble_expect_text(e@),
{
    match e {
        Expect::Daemon { matcher } => {
            push_str(out, "expect daemon: ");
            matcher.push_text(out);
            push_char(out, '\n');
        },
        Expect::Trust { matcher } => {
            push_str(out, "expect trust: ");
            matcher.push_text(out);
            push_char(out, '\n');
        },
        Expect::ServerFeatures { matcher } => {
            push_str(out, "expect server_features: ");
            matcher.push_text(out);
            push_char(out, '\n');
        },
        _ => {
            let mut tmp = String::new();
            push_expect(&mut tmp, e);
            let tv = to_chars(tmp.as_str());
            let t = trim_start_slice(tv.as_slice());
            push_chars(out, t);
        },
    }
    assert(out@ =~= old(out)@ + preamble_expect_text(e@));
}

fn push_expects(out: &mut String, es: &Vec<Expect>)
    ensures
        final(out)@ == old(out)@ + expects_text(expects_view(es@)),
{
    let ghost ev = expects_view(es@);
    let mut i: usize = 0;
    while i < es.len()
        invariant
            i <= es@.len(),
            ev == expects_view(es@),
            out@ == old(out)@ + expects_text(ev.subrange(0, i as int)),
        decreases es@.len() - i,
    {
        push_expect(out, &es[i]);
        assert(ev.subrange(0, i + 1).drop_last() =~= ev.subrange(0, i as int));
        i = i + 1;
        assert(out@ =~= old(out)@ + expects_text(ev.subrange(0, i as int)));
    }
    assert(ev.subrange(0, ev.len() as int) =~= ev);
}

fn push_preamble_expects(out: &mut String, es: &Vec<Expect>)
    ensures
        final(out)@ == old(out)@ + preamble_expects_text(expects_view(es@)),
{
    let ghost ev = expects_view(es@);
    let mut i: usize = 0;
    while i < es.len()
        invariant
            i <= es@.len(),
            ev == expects_view(es@),
            out@ == old(out)@ + preamble_expects_text(ev.subrange(0, i as int)),
        decreases es@.len() - i,
    {
        push_preamble_expect(out, &es[i]);
        assert(ev.subrange(0, i + 1).drop_last() =~= ev.subrange(0, i as int));
        i = i + 1;
        assert(out@ =~= old(out)@ + preamble_expects_text(ev.subrange(0, i as int)));
    }
    assert(ev.subrange(0, ev.len() as int) =~= ev);
}

fn push_opt_line(out: &mut String, key: &str, v: &Option<String>)
    ensures
        final(out)@ == old(out)@ + opt_line(key@, v.deep_view()),
{
    match v {
        Some(t) => {
            push_str(out, key);
            push_str(out, t.as_str());
            push_char(out, '\n');
        },
        None => {},
    }
    assert(out@ =~= old(out)@ + opt_line(key@, v.deep_view()));
}

fn push_opt_u64_line(out: &mut String, key: &str, v: Option<u64>)
    ensures
        final(out)@ == old(out)@ + opt_u64_line(key@, v),
{
    match v {
        Some(n) => push_u64_line(out, key, n),
        None => {},
    }
    assert(out@ =~= old(out)@ + opt_u64_line(key@, v));
}

fn push_opt_set_line(out: &mut String, key: &str, v: &Option<Vec<String>>)
    ensures
        final(out)@ == old(out)@ + opt_set_line(key@, v.deep_view()),
{
    match v {
        Some(r) => {
            push_str(out, key);
            push_path_set(out, r);
            push_char(out, '\n');
        },
        None => {},
    }
    assert(out@ =~= old(out)@ + opt_set_line(key@, v.deep_view()));
}

fn push_deriver_line(out: &mut String, d: &Option<String>)
    ensures
        final(out)@ == old(out)@ + deriver_line(d.deep_view()),
{
    match d {
        Some(t) => {
            if t.as_str().unicode_len() > 0 {
                push_str(out, "  # result.deriver: ");
                push_str(out, t.as_str());
                push_char(out, '\n');
            }
        },
        None => {},
    }
    assert(out@ =~= old(out)@ + deriver_line(d.deep_view()));
}

fn push_path_info(out: &mut String, info: &PathInfoResult)
    ensures
        final(out)@ == old(out)@ + path_info_text(info@),
{
    let ghost iv = info@;
    push_bool_line(out, "  # result.valid: ", info.valid);
    push_deriver_line(out, &info.deriver);
    push_opt_line(out, "  # result.narHash: ", &info.nar_hash);
    push_opt_set_line(out, "  # result.references: ", &info.references);
    push_opt_u64_line(out, "  # result.narSize: ", info.nar_size);
    assert(out@ =~= old(out)@ + path_info_text(iv));
}

fn push_map_pairs(out: &mut String, ps: &Vec<(String, String)>, n: usize)
    requires
        n <= ps@.len(),
    ensures
        final(out)@ == old(out)@ + map_pairs_text(ps.deep_view().take(n as int)),
{
    let ghost pv = ps.deep_view();
    let mut i: usize = 0;
    while i < n
        invariant
            i <= n <= ps@.len(),
            pv == ps.deep_view(),
            out@ == old(out)@ + map_pairs_text(pv.take(i as int)),
        decreases n - i,
    {
        push_str(out, "  # result: \"");
        push_str(out, ps[i].0.as_str());
        push_str(out, "\" = \"");
        push_str(out, ps[i].1.as_str());
        push_str(out, "\"\n");
        assert(pv.take(i + 1).drop_last() =~= pv.take(i as int));
        i = i + 1;
        assert(out@ =~= old(out)@ + map_pairs_text(pv.take(i as int)));
    }
}

fn push_string_map(out: &mut String, pairs: &Vec<(String, String)>)
    ensures
        final(out)@ == old(out)@ + string_map_text(pairs.deep_view()),
{
    let ghost pv = pairs.deep_view();
    push_str(out, "  # result.count: ");
    push_dec(out, pairs.len() as u64);
    push_char(out, '\n');
    let n: usize = if pairs.len() < 5 {
        pairs.len()
    } else {
        5
    };
    push_map_pairs(out, pairs, n);
    if pairs.len() > 5 {
        push_str(out, "  # ... and ");
        push_dec(out, (pairs.len() - 5) as u64);
        push_str(out, " more\n");
    }
    assert(pv.len() == pairs@.len());
    assert(out@ =~= old(out)@ + string_map_text(pv));
}

fn push_substitutable(
    out: &mut String,
    valid: bool,
    deriver: &Option<String>,
    download_size: Option<u64>,
    nar_size: Option<u64>,
)
    ensures
        final(out)@ == old(out)@ + substitutable_text(
            valid,
            deriver.deep_view(),
            download_size,
            nar_size,
        ),
{
    push_bool_line(out, "  # result.valid: ", valid);
    push_opt_line(out, "  # result.deriver: ", deriver);
    push_opt_u64_line(out, "  # result.downloadSize: ", download_size);
    push_opt_u64_line(out, "  # result.narSize: ", nar_size);
    assert(out@ =~= old(out)@ + substitutable_text(
        valid,
        deriver.deep_view(),
        download_size,
        nar_size,
    ));
}

fn push_missing(
    out: &mut String,
    will_build: &Vec<String>,
    will_substitute: &Vec<String>,
    unknown: &Vec<String>,
    download_size: u64,
    nar_size: u64,
)
    ensures
        final(out)@ == old(out)@ + missing_text(
            will_build.deep_view(),
            will_substitute.deep_view(),
            unknown.deep_view(),
            download_size,
            nar_size,
        ),
{
    push_str(out, "  # result.willBuild: ");
    push_path_set(out, will_build);
    push_char(out, '\n');
    push_str(out, "  # result.willSubstitute: ");
    push_path_set(out, will_substitute);
    push_char(out, '\n');
    push_str(out, "  # result.unknown: ");
    push_path_set(out, unknown);
    push_char(out, '\n');
    push_u64_line(out, "  # result.downloadSize: ", download_size);
    push_u64_line(out, "  # result.narSize: ", nar_size);
    assert(out@ =~= old(out)@ + missing_text(
        will_build.deep_view(),
        will_substitute.deep_view(),
        unknown.deep_view(),
        download_size,
        nar_size,
    ));
}

fn push_result(out: &mut String, r: &ResultData)
    ensures
        final(out)@ == old(out)@ + result_text(r@),
{
    let ghost rv = r@;
    match r {
        ResultData::U64(v) => push_u64_line(out, "  # result: ", *v),
        ResultData::Str(s) => {
            push_str(out, "  # result: ");
            push_str(out, s.as_str());
            push_char(out, '\n');
        },
        ResultData::PathInfo(info) => push_path_info(out, info),
        ResultData::StringSet(set) => {
            push_str(out, "  # result: ");
            push_path_set(out, set);
            push_char(out, '\n');
        },
        ResultData::StringMap(pairs) => push_string_map(out, pairs),
        ResultData::Empty => {},
        ResultData::CollectGarbage { bytes_freed } => push_u64_line(
            out,
            "  # result.bytes_freed: ",
            *bytes_freed,
        ),
        ResultData::SubstitutablePathInfo { valid, deriver, download_size, nar_size, .. } => {
            push_substitutable(out, *valid, deriver, *download_size, *nar_size);
        },
        ResultData::Missing { will_build, will_substitute, unknown, download_size, nar_size } => {
            push_missing(out, will_build, will_substitute, unknown, *download_size, *nar_size);
        },
        ResultData::Framed(data) => {
            push_str(out, "  # result: framed ");
            push_dec(out, data.len() as u64);
            push_str(out, " bytes\n");
        },
        ResultData::Raw(data) => {
            push_str(out, "  # result: raw ");
            push_dec(out, data.len() as u64);
            push_str(out, " bytes\n");
        },
    }
    assert(out@ =~= old(out)@ + result_text(rv));
}

fn push_response(out: &mut String, resp: &DaemonResponse)
    ensures
        final(out)@ == old(out)@ + response_text(resp@),
{
    push_str(out, "  # response: ");
    push_str(out, resp.terminal.as_str());
    push_char(out, '\n');
    if resp.stderr_count > 1 {
        push_u64_line(out, "  # stderr.count: ", resp.stderr_count);
    }
    match &resp.error {
        Some(err) => {
            push_str(out, "  # error: ");
            push_str(out, err.message.as_str());
            push_char(out, '\n');
        },
        None => {},
    }
    match &resp.result {
        Some(result) => push_result(out, result),
        None => {},
    }
    assert(out@ =~= old(out)@ + response_text(resp@));
}

fn push_entry(out: &mut String, entry: &Entry, opts: &FormatOptions, counter: u64)
    ensures
        final(out)@ == old(out)@ + entry_text(entry@, *opts, counter as nat),
{
    let mut ts = String::new();
    push_timestamp(&mut ts, entry.timestamp_us);
    assert(ts@ =~= timestamp_text(entry.timestamp_us));
    push_op_call(out, &ts, &entry.op_call, opts, counter);
    push_expects(out, &entry.expects);
    match &entry.response {
        Some(resp) => push_response(out, resp),
        None => {},
    }
    assert(out@ =~= old(out)@ + entry_text(entry@, *opts, counter as nat));
}

fn has_external_data(c: &OpCall, opts: &FormatOptions) -> (r: bool)
    ensures
        r == (externalized(c@, *opts) is Some),
{
    let d = match c {
        OpCall::AddToStore { data, .. } => data,
        OpCall::AddMultipleToStore { data, .. } => data,
        OpCall::AddBuildLog { data, .. } => data,
        _ => {
            return false;
        },
    };
    match d {
        FramedData::Inline(b) => b.len() > opts.inline_threshold && opts.data_dir.is_some(),
        FramedData::FileRef(_) => false,
    }
}

fn push_preamble_head(out: &mut String, p: &Preamble)
    ensures
        final(out)@ == old(out)@ + preamble_head(p@),
{
    push_str(out, "# nwscript v1\n");
    push_str(out, "protocol: ");
    let v = p.protocol_version.to_text();
    push_str(out, v.as_str());
    push_char(out, '\n');
    push_str(out, "features: ");
    push_path_set(out, &p.client_features);
    push_char(out, '\n');
    assert(out@ =~= old(out)@ + preamble_head(p@));
}

fn push_preamble(out: &mut String, p: &Preamble)
    ensures
        final(out)@ == old(out)@ + preamble_text(p@),
{
    let ghost pv = p@;
    push_preamble_head(out, p);
    push_opt_line(out, "# daemon: ", &p.daemon_version);
    push_opt_line(out, "# trust: ", &p.trust);
    push_opt_set_line(out, "# server_features: ", &p.server_features);
    push_preamble_expects(out, &p.expects);
    push_str(out, "---\n");
    assert(out@ =~= old(out)@ + preamble_text(pv));
}

/// Format a script to `.nwscript` text.
///
/// When `opts.data_dir` is set, inline framed data longer than the
/// threshold is referenced as `@file:NNNN.bin`; [`data_files`] lists the
/// files so referenced.
pub fn format_script(script: &Script, opts: &FormatOptions) -> (r: String)
    ensures
        r@ == script_text(script@, *opts),
{
    let mut out = String::new();
    push_preamble(&mut out, &script.preamble);
    let ghost es = entries_view(script.entries@);
    let ghost head = out@;
    let mut counter: u64 = 0;
    let mut i: usize = 0;
    while i < script.entries.len()
        invariant
            i <= script.entries@.len(),
            counter <= i,
            es == entries_view(script.entries@),
            head == preamble_text(script.preamble@),
            out@ + entries_text_from(es, i as int, *opts, counter as nat) == script_text(
                script@,
                *opts,
            ),
        decreases script.entries@.len() - i,
    {
        let ghost before = out@;
        push_char(&mut out, '\n');
        push_entry(&mut out, &script.entries[i], opts, counter);
        let ext = has_external_data(&script.entries[i].op_call, opts);
        let ghost c0 = counter as nat;
        if ext {
            counter = counter + 1;
        }
        assert(out@ + entries_text_from(es, i + 1, *opts, counter as nat) =~= before
            + entries_text_from(es, i as int, *opts, c0));
        i = i + 1;
    }
    assert(out@ =~= out@ + entries_text_from(es, i as int, *opts, counter as nat));
    out
}

/// The name of the `k`-th data file: `{k:04}.bin`.
pub fn numbered_file_name(k: u64) -> (r: String)
    ensures
        r@ == data_file_name(k as nat),
{
    let mut s = String::new();
    push_dec_padded(&mut s, k, 4);
    push_str(&mut s, ".bin");
    proof {
        reveal_strlit(".bin");
    }
    s
}

/// Format a script whose data files were written as `written` says, one
/// flag per entry of `data_files` (in order): data whose file could not be
/// written stays inline, and later files keep their numbers in sequence.
pub fn format_script_written(script: &Script, opts: &FormatOptions, written: &Vec<bool>) -> (r: String)
    ensures
        r@ == script_text_written(script@, *opts, written@),
{
    let inline = FormatOptions { data_dir: None, inline_threshold: opts.inline_threshold };
    let mut out = String::new();
    push_preamble(&mut out, &script.preamble);
    let ghost es = entries_view(script.entries@);
    let mut counter: u64 = 0;
    let mut a: usize = 0;
    let mut i: usize = 0;
    while i < script.entries.len()
        invariant
            i <= script.entries@.len(),
            counter <= i,
            a <= i,
            es == entries_view(script.entries@),
            inline == inline_options(*opts),
            out@ + entries_text_written(es, i as int, *opts, counter as nat, written@, a as nat)
                == script_text_written(script@, *opts, written@),
        decreases script.entries@.len() - i,
    {
        let ghost before = out@;
        push_char(&mut out, '\n');
        let ext = has_external_data(&script.entries[i].op_call, opts);
        let ghost c0 = counter as nat;
        let ghost a0 = a as nat;
        if ext {
            let ok = a < written.len() && written[a];
            if ok {
                push_entry(&mut out, &script.entries[i], opts, counter);
                counter = counter + 1;
            } else {
                push_entry(&mut out, &script.entries[i], &inline, counter);
            }
            a = a + 1;
        } else {
            push_entry(&mut out, &script.entries[i], opts, counter);
        }
        assert(out@ + entries_text_written(es, i + 1, *opts, counter as nat, written@, a as nat)
            =~= before + entries_text_written(es, i as int, *opts, c0, written@, a0));
        i = i + 1;
    }
    assert(out@ =~= out@ + entries_text_written(es, i as int, *opts, counter as nat, written@, a as nat));
    out
}

/// A data file that formatted text refers to: its name (relative to the
/// data directory) and its bytes.
#[derive(Clone, Debug)]
pub struct DataFile {
    pub name: String,
    pub bytes: Vec<u8>,
}

pub open spec fn data_file_view(f: DataFile) -> (Seq<char>, Seq<u8>) {
    (f.name@, f.bytes@)
}

fn external_bytes(c: &OpCall, opts: &FormatOptions) -> (r: Option<Vec<u8>>)
    ensures
        match r {
            Some(b) => externalized(c@, *opts) == Some(b@),
            None => externalized(c@, *opts) is None,
        },
{
    let d = match c {
        OpCall::AddToStore { data, .. } => data,
        OpCall::AddMultipleToStore { data, .. } => data,
        OpCall::AddBuildLog { data, .. } => data,
        _ => {
            return None;
        },
    };
    match d {
        FramedData::Inline(b) => {
            if b.len() > opts.inline_threshold && opts.data_dir.is_some() {
                let mut v: Vec<u8> = Vec::new();
                crate::protocol::write_bytes_raw(&mut v, b.as_slice());
                assert(v@ =~= b@);
                Some(v)
            } else {
                None
            }
        },
        FramedData::FileRef(_) => None,
    }
}

/// The data files that `format_script(script, opts)` refers to, in order.
pub fn data_files(script: &Script, opts: &FormatOptions) -> (r: Vec<DataFile>)
    ensures
        r@.map_values(|f: DataFile| data_file_view(f)) == script_files(script@, *opts),
{
    let ghost es = entries_view(script.entries@);
    let mut out: Vec<DataFile> = Vec::new();
    let mut counter: u64 = 0;
    let mut i: usize = 0;
    while i < script.entries.len()
        invariant
            i <= script.entries@.len(),
            counter <= i,
            es == entries_view(script.entries@),
            out@.map_values(|f: DataFile| data_file_view(f)) + entries_files_from(
                es,
                i as int,
                *opts,
                counter as nat,
            ) == script_files(script@, *opts),
        decreases script.entries@.len() - i,
    {
        let ghost before = out@.map_values(|f: DataFile| data_file_view(f));
        let ghost c0 = counter as nat;
        let ghost rest = entries_files_from(es, i as int, *opts, c0);
        let c = &script.entries[i].op_call;
        assert(es[i as int].op_call == c@);
        match external_bytes(c, opts) {
            Some(bytes) => {
                let mut name = String::new();
                push_dec_padded(&mut name, counter, 4);
                push_str(&mut name, ".bin");
                let ghost f = (name@, bytes@);
                out.push(DataFile { name, bytes });
                assert(out@.map_values(|f: DataFile| data_file_view(f)) =~= before + seq![f]);
                counter = counter + 1;
                assert(rest == seq![f] + entries_files_from(es, i + 1, *opts, counter as nat));
            },
            None => {
                assert(rest == entries_files_from(es, i + 1, *opts, counter as nat));
            },
        }
        assert(out@.map_values(|f: DataFile| data_file_view(f)) + entries_files_from(
            es,
            i + 1,
            *opts,
            counter as nat,
        ) =~= before + rest);
        i = i + 1;
    }
    assert(out@.map_values(|f: DataFile| data_file_view(f)) =~= out@.map_values(
        |f: DataFile| data_file_view(f),
    ) + entries_files_from(es, i as int, *opts, counter as nat));
    out
}

} // verus!
