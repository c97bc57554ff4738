//! The arguments of an operation line: inline arguments after the name, and
//! the indented `key: value` lines that follow it.

use vstd::prelude::*;
use crate::num::{hex_decode, hex_decode_slice, parse_u64_slice, parse_unsigned};
use crate::parse::{
    parse_data_spec, parse_data_value, parse_kv_pair, parse_kv_spec, parse_path_set_spec,
    path_set_slice, str_of, unquote_slice, unquote_spec, ParseError, ParseErrorV,
};
use crate::protocol::{op_from_name, Op};
use crate::script::{op_of, FramedData, FramedDataV, OpCall, OpCallV};
use crate::text::{
    eq_str, push_str, split_once, split_once_slice, starts_with, starts_with_str, strip_prefix,
    strip_prefix_str, trim, trim_end_char, trim_end_char_slice, trim_slice,
};

verus! {

// ---------------------------------------------------------------------------
// Lines of a block
// ---------------------------------------------------------------------------

/// A line indented by two spaces or a tab.
pub open spec fn indented(l: Seq<char>) -> bool {
    starts_with(l, "  "@) || starts_with(l, "\t"@)
}

/// An indented line that carries an argument: not blank, not a comment and
/// not an `expect` line.
pub open spec fn block_line(l: Seq<char>) -> bool {
    let t = trim(l);
    indented(l) && !(t.len() == 0 || starts_with(t, "#"@) || starts_with(t, "expect"@))
}

/// Line `i` of the lines.
pub(crate) fn line_at(ls: &Vec<Vec<char>>, i: usize) -> (r: &[char])
    requires
        i < ls@.len(),
    ensures
        r@ == ls.deep_view()[i as int],
{
    proof {
        assert(ls[i as int].deep_view() =~= ls[i as int]@);
    }
    ls[i].as_slice()
}

pub(crate) fn is_indented(l: &[char]) -> (r: bool)
    ensures
        r == indented(l@),
{
    starts_with_str(l, "  ") || starts_with_str(l, "\t")
}

pub(crate) fn is_block_line(l: &[char]) -> (r: bool)
    ensures
        r == block_line(l@),
{
    if !is_indented(l) {
        return false;
    }
    let t = trim_slice(l);
    !(t.len() == 0 || starts_with_str(t, "#") || starts_with_str(t, "expect"))
}

/// A number in a `key: value` line; anything that is not a `u64` counts as 0.
pub open spec fn u64_or_zero(v: Seq<char>) -> u64 {
    match parse_unsigned(v, u64::MAX as nat) {
        Some(n) => n as u64,
        None => 0,
    }
}

fn u64_or_zero_exec(v: &[char]) -> (r: u64)
    ensures
        r == u64_or_zero(v@),
{
    match parse_u64_slice(v) {
        Some(n) => n,
        None => 0,
    }
}

/// A flag in a `key: value` line: anything but `0` is true.
pub open spec fn flag_of(v: Seq<char>) -> bool {
    v != "0"@
}

// ---------------------------------------------------------------------------
// Keyed blocks
// ---------------------------------------------------------------------------

/// One `key: value` line of a `CollectGarbage` block.
pub open spec fn collect_garbage_key(st: OpCallV, k: Seq<char>, v: Seq<char>) -> Result<
    OpCallV,
    ParseErrorV,
> {
    match st {
        OpCallV::CollectGarbage { action, paths, ignore_liveness, max_freed } => {
            if k == "action"@ {
                Ok(
                    OpCallV::CollectGarbage {
                        action: u64_or_zero(v),
                        paths,
                        ignore_liveness,
                        max_freed,
                    },
                )
            } else if k == "paths"@ {
                match parse_path_set_spec(v) {
                    Ok(pr) => Ok(
                        OpCallV::CollectGarbage { action, paths: pr.0, ignore_liveness, max_freed },
                    ),
                    Err(e) => Err(e),
                }
            } else if k == "ignore_liveness"@ {
                Ok(
                    OpCallV::CollectGarbage {
                        action,
                        paths,
                        ignore_liveness: u64_or_zero(v),
                        max_freed,
                    },
                )
            } else if k == "max_freed"@ {
                Ok(
                    OpCallV::CollectGarbage {
                        action,
                        paths,
                        ignore_liveness,
                        max_freed: u64_or_zero(v),
                    },
                )
            } else {
                Ok(st)
            }
        },
        _ => Ok(st),
    }
}

/// One `key: value` line of a `VerifyStore` block.
pub open spec fn verify_store_key(st: OpCallV, k: Seq<char>, v: Seq<char>) -> OpCallV {
    match st {
        OpCallV::VerifyStore { check_contents, repair } => {
            if k == "check_contents"@ {
                OpCallV::VerifyStore { check_contents: flag_of(v), repair }
            } else if k == "repair"@ {
                OpCallV::VerifyStore { check_contents, repair: flag_of(v) }
            } else {
                st
            }
        },
        _ => st,
    }
}

/// One `key: value` line of an `AddTextToStore` block.
pub open spec fn add_text_key(st: OpCallV, k: Seq<char>, v: Seq<char>) -> Result<
    OpCallV,
    ParseErrorV,
> {
    match st {
        OpCallV::AddTextToStore { suffix, text, refs } => {
            if k == "suffix"@ {
                Ok(OpCallV::AddTextToStore { suffix: unquote_spec(v), text, refs })
            } else if k == "text"@ {
                Ok(OpCallV::AddTextToStore { suffix, text: unquote_spec(v), refs })
            } else if k == "refs"@ {
                match parse_path_set_spec(v) {
                    Ok(pr) => Ok(OpCallV::AddTextToStore { suffix, text, refs: pr.0 }),
                    Err(e) => Err(e),
                }
            } else {
                Ok(st)
            }
        },
        _ => Ok(st),
    }
}

/// One `key: value` line of an `AddToStore` block.
pub open spec fn add_to_store_key(st: OpCallV, k: Seq<char>, v: Seq<char>) -> Result<
    OpCallV,
    ParseErrorV,
> {
    match st {
        OpCallV::AddToStore { name, cam_str, refs, repair, data } => {
            if k == "name"@ {
                Ok(OpCallV::AddToStore { name: unquote_spec(v), cam_str, refs, repair, data })
            } else if k == "cam_str"@ {
                Ok(OpCallV::AddToStore { name, cam_str: unquote_spec(v), refs, repair, data })
            } else if k == "refs"@ {
                match parse_path_set_spec(v) {
                    Ok(pr) => Ok(OpCallV::AddToStore { name, cam_str, refs: pr.0, repair, data }),
                    Err(e) => Err(e),
                }
            } else if k == "repair"@ {
                Ok(OpCallV::AddToStore { name, cam_str, refs, repair: flag_of(v), data })
            } else if k == "data"@ {
                match parse_data_spec(v) {
                    Ok(d) => Ok(OpCallV::AddToStore { name, cam_str, refs, repair, data: d }),
                    Err(e) => Err(e),
                }
            } else {
                Ok(st)
            }
        },
        _ => Ok(st),
    }
}

/// One `key: value` line of an `AddMultipleToStore` block.
pub open spec fn add_multiple_key(st: OpCallV, k: Seq<char>, v: Seq<char>) -> Result<
    OpCallV,
    ParseErrorV,
> {
    match st {
        OpCallV::AddMultipleToStore { repair, dont_check_sigs, data } => {
            if k == "repair"@ {
                Ok(OpCallV::AddMultipleToStore { repair: flag_of(v), dont_check_sigs, data })
            } else if k == "dont_check_sigs"@ {
                Ok(OpCallV::AddMultipleToStore { repair, dont_check_sigs: flag_of(v), data })
            } else if k == "data"@ {
                match parse_data_spec(v) {
                    Ok(d) => Ok(OpCallV::AddMultipleToStore { repair, dont_check_sigs, data: d }),
                    Err(e) => Err(e),
                }
            } else {
                Ok(st)
            }
        },
        _ => Ok(st),
    }
}

/// One `key: value` line applied to the call built so far; unknown keys are
/// ignored.
pub open spec fn key_step(st: OpCallV, k: Seq<char>, v: Seq<char>) -> Result<OpCallV, ParseErrorV> {
    match st {
        OpCallV::CollectGarbage { .. } => collect_garbage_key(st, k, v),
        OpCallV::VerifyStore { .. } => Ok(verify_store_key(st, k, v)),
        OpCallV::AddTextToStore { .. } => add_text_key(st, k, v),
        OpCallV::AddToStore { .. } => add_to_store_key(st, k, v),
        OpCallV::AddMultipleToStore { .. } => add_multiple_key(st, k, v),
        _ => Ok(st),
    }
}

/// One block line; a line without `:` changes nothing.
pub open spec fn line_step(st: OpCallV, l: Seq<char>) -> Result<OpCallV, ParseErrorV> {
    match split_once(trim(l), ':') {
        Some((k, v)) => key_step(st, trim(k), trim(v)),
        None => Ok(st),
    }
}

/// The block of `key: value` lines from line `i` on, applied to `st`; the
/// result holds the call and the first line after the block.
pub open spec fn key_block(ls: Seq<Seq<char>>, i: int, st: OpCallV) -> Result<
    (OpCallV, int),
    ParseErrorV,
>
    decreases ls.len() - i,
{
    if 0 <= i < ls.len() && block_line(ls[i]) {
        match line_step(st, ls[i]) {
            Ok(st2) => key_block(ls, i + 1, st2),
            Err(e) => Err(e),
        }
    } else {
        Ok((st, i))
    }
}

pub open spec fn call_result_view(r: Result<(OpCall, usize), ParseError>) -> Result<
    (OpCallV, int),
    ParseErrorV,
> {
    match r {
        Ok((c, j)) => Ok((c@, j as int)),
        Err(e) => Err(e@),
    }
}

fn parse_collect_garbage(ls: &Vec<Vec<char>>, pos: usize) -> (r: Result<(OpCall, usize), ParseError>)
    ensures
        call_result_view(r) == key_block(
            ls.deep_view(),
            pos as int,
            OpCallV::CollectGarbage { action: 0, paths: seq![], ignore_liveness: 0, max_freed: 0 },
        ),
{
    let ghost lv = ls.deep_view();
    let mut action: u64 = 0;
    let mut paths: Vec<String> = Vec::new();
    let mut ignore_liveness: u64 = 0;
    let mut max_freed: u64 = 0;
    let mut i: usize = pos;
    assert(paths.deep_view() =~= Seq::<Seq<char>>::empty());
    loop
        invariant
            pos <= i,
            i <= ls@.len() || i == pos,
            lv == ls.deep_view(),
            key_block(
                lv,
                pos as int,
                OpCallV::CollectGarbage { action: 0, paths: seq![], ignore_liveness: 0, max_freed: 0 },
            ) == key_block(
                lv,
                i as int,
                OpCallV::CollectGarbage {
                    action,
                    paths: paths.deep_view(),
                    ignore_liveness,
                    max_freed,
                },
            ),
        decreases ls@.len() - i,
    {
        if i >= ls.len() || !is_block_line(line_at(ls, i)) {
            return Ok((OpCall::CollectGarbage { action, paths, ignore_liveness, max_freed }, i));
        }
        let t = trim_slice(line_at(ls, i));
        match split_once_slice(t, ':') {
            Some((k, v)) => {
                let k = trim_slice(k);
                let v = trim_slice(v);
                if eq_str(k, "action") {
                    action = u64_or_zero_exec(v);
                } else if eq_str(k, "paths") {
                    match path_set_slice(v) {
                        Ok((p, _)) => {
                            paths = p;
                        },
                        Err(e) => {
                            return Err(e);
                        },
                    }
                } else if eq_str(k, "ignore_liveness") {
                    ignore_liveness = u64_or_zero_exec(v);
                } else if eq_str(k, "max_freed") {
                    max_freed = u64_or_zero_exec(v);
                }
            },
            None => {},
        }
        i = i + 1;
    }
}

fn parse_verify_store(ls: &Vec<Vec<char>>, pos: usize) -> (r: Result<(OpCall, usize), ParseError>)
    ensures
        call_result_view(r) == key_block(
            ls.deep_view(),
            pos as int,
            OpCallV::VerifyStore { check_contents: false, repair: false },
        ),
{
    let ghost lv = ls.deep_view();
    let mut check_contents = false;
    let mut repair = false;
    let mut i: usize = pos;
    loop
        invariant
            pos <= i,
            i <= ls@.len() || i == pos,
            lv == ls.deep_view(),
            key_block(lv, pos as int, OpCallV::VerifyStore { check_contents: false, repair: false })
                == key_block(lv, i as int, OpCallV::VerifyStore { check_contents, repair }),
        decreases ls@.len() - i,
    {
        if i >= ls.len() || !is_block_line(line_at(ls, i)) {
            return Ok((OpCall::VerifyStore { check_contents, repair }, i));
        }
        let t = trim_slice(line_at(ls, i));
        match split_once_slice(t, ':') {
            Some((k, v)) => {
                let k = trim_slice(k);
                let v = trim_slice(v);
                if eq_str(k, "check_contents") {
                    check_contents = !eq_str(v, "0");
                } else if eq_str(k, "repair") {
                    repair = !eq_str(v, "0");
                }
            },
            None => {},
        }
        i = i + 1;
    }
}

fn parse_add_text_to_store(ls: &Vec<Vec<char>>, pos: usize) -> (r: Result<(OpCall, usize), ParseError>)
    ensures
        call_result_view(r) == key_block(
            ls.deep_view(),
            pos as int,
            OpCallV::AddTextToStore { suffix: seq![], text: seq![], refs: seq![] },
        ),
{
    let ghost lv = ls.deep_view();
    let mut suffix = String::new();
    let mut text = String::new();
    let mut refs: Vec<String> = Vec::new();
    let mut i: usize = pos;
    assert(refs.deep_view() =~= Seq::<Seq<char>>::empty());
    assert(suffix@ =~= Seq::<char>::empty());
    assert(text@ =~= Seq::<char>::empty());
    loop
        invariant
            pos <= i,
            i <= ls@.len() || i == pos,
            lv == ls.deep_view(),
            key_block(
                lv,
                pos as int,
                OpCallV::AddTextToStore { suffix: seq![], text: seq![], refs: seq![] },
            ) == key_block(
                lv,
                i as int,
                OpCallV::AddTextToStore { suffix: suffix@, text: text@, refs: refs.deep_view() },
            ),
        decreases ls@.len() - i,
    {
        if i >= ls.len() || !is_block_line(line_at(ls, i)) {
            return Ok((OpCall::AddTextToStore { suffix, text, refs }, i));
        }
        let t = trim_slice(line_at(ls, i));
        match split_once_slice(t, ':') {
            Some((k, v)) => {
                let k = trim_slice(k);
                let v = trim_slice(v);
                if eq_str(k, "suffix") {
                    suffix = str_of(unquote_slice(v).as_slice());
                } else if eq_str(k, "text") {
                    text = str_of(unquote_slice(v).as_slice());
                } else if eq_str(k, "refs") {
                    match path_set_slice(v) {
                        Ok((p, _)) => {
                            refs = p;
                        },
                        Err(e) => {
                            return Err(e);
                        },
                    }
                }
            },
            None => {},
        }
        i = i + 1;
    }
}

fn parse_add_to_store(ls: &Vec<Vec<char>>, pos: usize) -> (r: Result<(OpCall, usize), ParseError>)
    ensures
        call_result_view(r) == key_block(
            ls.deep_view(),
            pos as int,
            OpCallV::AddToStore {
                name: seq![],
                cam_str: seq![],
                refs: seq![],
                repair: false,
                data: FramedDataV::Inline(seq![]),
            },
        ),
{
    let ghost lv = ls.deep_view();
    let mut name = String::new();
    let mut cam_str = String::new();
    let mut refs: Vec<String> = Vec::new();
    let mut repair = false;
    let mut data = FramedData::Inline(Vec::new());
    let mut i: usize = pos;
    assert(refs.deep_view() =~= Seq::<Seq<char>>::empty());
    assert(name@ =~= Seq::<char>::empty());
    assert(cam_str@ =~= Seq::<char>::empty());
    assert(data@ == FramedDataV::Inline(seq![]));
    loop
        invariant
            pos <= i,
            i <= ls@.len() || i == pos,
            lv == ls.deep_view(),
            key_block(
                lv,
                pos as int,
                OpCallV::AddToStore {
                    name: seq![],
                    cam_str: seq![],
                    refs: seq![],
                    repair: false,
                    data: FramedDataV::Inline(seq![]),
                },
            ) == key_block(
                lv,
                i as int,
                OpCallV::AddToStore {
                    name: name@,
                    cam_str: cam_str@,
                    refs: refs.deep_view(),
                    repair,
                    data: data@,
                },
            ),
        decreases ls@.len() - i,
    {
        if i >= ls.len() || !is_block_line(line_at(ls, i)) {
            return Ok((OpCall::AddToStore { name, cam_str, refs, repair, data }, i));
        }
        let t = trim_slice(line_at(ls, i));
        match split_once_slice(t, ':') {
            Some((k, v)) => {
                let k = trim_slice(k);
                let v = trim_slice(v);
                if eq_str(k, "name") {
                    name = str_of(unquote_slice(v).as_slice());
                } else if eq_str(k, "cam_str") {
                    cam_str = str_of(unquote_slice(v).as_slice());
                } else if eq_str(k, "refs") {
                    match path_set_slice(v) {
                        Ok((p, _)) => {
                            refs = p;
                        },
                        Err(e) => {
                            return Err(e);
                        },
                    }
                } else if eq_str(k, "repair") {
                    repair = !eq_str(v, "0");
                } else if eq_str(k, "data") {
                    match parse_data_value(v) {
                        Ok(d) => {
                            data = d;
                        },
                        Err(e) => {
                            return Err(e);
                        },
                    }
                }
            },
            None => {},
        }
        i = i + 1;
    }
}

fn parse_add_multiple_to_store(ls: &Vec<Vec<char>>, pos: usize) -> (r: Result<
    (OpCall, usize),
    ParseError,
>)
    ensures
        call_result_view(r) == key_block(
            ls.deep_view(),
            pos as int,
            OpCallV::AddMultipleToStore {
                repair: false,
                dont_check_sigs: false,
                data: FramedDataV::Inline(seq![]),
            },
        ),
{
    let ghost lv = ls.deep_view();
    let mut repair = false;
    let mut dont_check_sigs = false;
    let mut data = FramedData::Inline(Vec::new());
    let mut i: usize = pos;
    assert(data@ == FramedDataV::Inline(seq![]));
    loop
        invariant
            pos <= i,
            i <= ls@.len() || i == pos,
            lv == ls.deep_view(),
            key_block(
                lv,
                pos as int,
                OpCallV::AddMultipleToStore {
                    repair: false,
                    dont_check_sigs: false,
                    data: FramedDataV::Inline(seq![]),
                },
            ) == key_block(
                lv,
                i as int,
                OpCallV::AddMultipleToStore { repair, dont_check_sigs, data: data@ },
            ),
        decreases ls@.len() - i,
    {
        if i >= ls.len() || !is_block_line(line_at(ls, i)) {
            return Ok((OpCall::AddMultipleToStore { repair, dont_check_sigs, data }, i));
        }
        let t = trim_slice(line_at(ls, i));
        match split_once_slice(t, ':') {
            Some((k, v)) => {
                let k = trim_slice(k);
                let v = trim_slice(v);
                if eq_str(k, "repair") {
                    repair = !eq_str(v, "0");
                } else if eq_str(k, "dont_check_sigs") {
                    dont_check_sigs = !eq_str(v, "0");
                } else if eq_str(k, "data") {
                    match parse_data_value(v) {
                        Ok(d) => {
                            data = d;
                        },
                        Err(e) => {
                            return Err(e);
                        },
                    }
                }
            },
            None => {},
        }
        i = i + 1;
    }
}

// ---------------------------------------------------------------------------
// SetOptions
// ---------------------------------------------------------------------------

/// The position of a `SetOptions` setting among the twelve numbers, or -1.
pub open spec fn option_index(k: Seq<char>) -> int {
    if k == "keep_failed"@ {
        0
    } else if k == "keep_going"@ {
        1
    } else if k == "try_fallback"@ {
        2
    } else if k == "verbosity"@ {
        3
    } else if k == "max_build_jobs"@ {
        4
    } else if k == "max_silent_time"@ {
        5
    } else if k == "use_build_hook"@ {
        6
    } else if k == "verbose_build"@ {
        7
    } else if k == "log_type"@ {
        8
    } else if k == "print_build_trace"@ {
        9
    } else if k == "build_cores"@ {
        10
    } else if k == "use_substitutes"@ {
        11
    } else {
        -1
    }
}

fn option_index_exec(k: &[char]) -> (r: Option<usize>)
    ensures
        match r {
            Some(i) => option_index(k@) == i as int && i < 12,
            None => option_index(k@) == -1,
        },
{
    if eq_str(k, "keep_failed") {
        Some(0)
    } else if eq_str(k, "keep_going") {
        Some(1)
    } else if eq_str(k, "try_fallback") {
        Some(2)
    } else if eq_str(k, "verbosity") {
        Some(3)
    } else if eq_str(k, "max_build_jobs") {
        Some(4)
    } else if eq_str(k, "max_silent_time") {
        Some(5)
    } else if eq_str(k, "use_build_hook") {
        Some(6)
    } else if eq_str(k, "verbose_build") {
        Some(7)
    } else if eq_str(k, "log_type") {
        Some(8)
    } else if eq_str(k, "print_build_trace") {
        Some(9)
    } else if eq_str(k, "build_cores") {
        Some(10)
    } else if eq_str(k, "use_substitutes") {
        Some(11)
    } else {
        None
    }
}

/// The state of a `SetOptions` block: the twelve numbers, the overrides so
/// far, and whether the lines are inside `overrides:`.
pub struct OptionsState {
    pub values: Seq<u64>,
    pub overrides: Seq<(Seq<char>, Seq<char>)>,
    pub in_overrides: bool,
}

/// One trimmed line of a `SetOptions` block. Inside `overrides:`, a line
/// that begins with `"` is a `"name" = "value"` pair (skipped when it does
/// not read as one); any other line ends the overrides and is read as
/// `key: value`, the last value of a key winning.
pub open spec fn options_line(st: OptionsState, t: Seq<char>) -> OptionsState {
    if st.in_overrides && starts_with(t, "\""@) {
        OptionsState {
            overrides: match parse_kv_spec(t) {
                Some(kv) => st.overrides.push(kv),
                None => st.overrides,
            },
            ..st
        }
    } else {
        match split_once(t, ':') {
            Some((k, v)) => if trim(k) == "overrides"@ {
                OptionsState { in_overrides: true, ..st }
            } else {
                let ix = option_index(trim(k));
                OptionsState {
                    values: if 0 <= ix {
                        st.values.update(ix, u64_or_zero(trim(v)))
                    } else {
                        st.values
                    },
                    in_overrides: false,
                    ..st
                }
            },
            None => OptionsState { in_overrides: false, ..st },
        }
    }
}

/// The `SetOptions` block from line `i` on: the final state and the first
/// line after the block.
pub open spec fn options_block(ls: Seq<Seq<char>>, i: int, st: OptionsState) -> (OptionsState, int)
    decreases ls.len() - i,
{
    if 0 <= i < ls.len() && block_line(ls[i]) {
        options_block(ls, i + 1, options_line(st, trim(ls[i])))
    } else {
        (st, i)
    }
}

/// The call that a final `SetOptions` state stands for.
pub open spec fn options_call(st: OptionsState) -> OpCallV {
    OpCallV::SetOptions {
        keep_failed: st.values[0],
        keep_going: st.values[1],
        try_fallback: st.values[2],
        verbosity: st.values[3],
        max_build_jobs: st.values[4],
        max_silent_time: st.values[5],
        use_build_hook: st.values[6],
        verbose_build: st.values[7],
        log_type: st.values[8],
        print_build_trace: st.values[9],
        build_cores: st.values[10],
        use_substitutes: st.values[11],
        overrides: st.overrides,
    }
}

pub open spec fn options_start() -> OptionsState {
    OptionsState { values: Seq::new(12, |i: int| 0u64), overrides: seq![], in_overrides: false }
}

/// A `SetOptions` block from line `i` on, as a call and the next line.
pub open spec fn set_options_spec(ls: Seq<Seq<char>>, i: int) -> (OpCallV, int) {
    let (st, j) = options_block(ls, i, options_start());
    (options_call(st), j)
}

proof fn lemma_options_len(ls: Seq<Seq<char>>, i: int, st: OptionsState)
    requires
        st.values.len() == 12,
    ensures
        options_block(ls, i, st).0.values.len() == 12,
    decreases ls.len() - i,
{
    if 0 <= i < ls.len() && block_line(ls[i]) {
        lemma_options_len(ls, i + 1, options_line(st, trim(ls[i])));
    }
}

fn parse_set_options(ls: &Vec<Vec<char>>, pos: usize) -> (r: (OpCall, usize))
    ensures
        (r.0@, r.1 as int) == set_options_spec(ls.deep_view(), pos as int),
{
    let ghost lv = ls.deep_view();
    let mut values: Vec<u64> = vec![0u64, 0, 0, 0, 0, 0, 0, 0, 0, 0, 0, 0];
    let mut overrides: Vec<(String, String)> = Vec::new();
    let mut in_overrides = false;
    let mut i: usize = pos;
    assert(values@ =~= options_start().values);
    assert(overrides.deep_view() =~= Seq::<(Seq<char>, Seq<char>)>::empty());
    loop
        invariant
            pos <= i,
            i <= ls@.len() || i == pos,
            lv == ls.deep_view(),
            values@.len() == 12,
            options_block(lv, pos as int, options_start()) == options_block(
                lv,
                i as int,
                OptionsState { values: values@, overrides: overrides.deep_view(), in_overrides },
            ),
        decreases ls@.len() - i,
    {
        if i >= ls.len() || !is_block_line(line_at(ls, i)) {
            let call = OpCall::SetOptions {
                keep_failed: values[0],
                keep_going: values[1],
                try_fallback: values[2],
                verbosity: values[3],
                max_build_jobs: values[4],
                max_silent_time: values[5],
                use_build_hook: values[6],
                verbose_build: values[7],
                log_type: values[8],
                print_build_trace: values[9],
                build_cores: values[10],
                use_substitutes: values[11],
                overrides,
            };
            return (call, i);
        }
        let t = trim_slice(line_at(ls, i));
        proof {
            reveal_strlit("\"");
        }
        if in_overrides && starts_with_str(t, "\"") {
            match parse_kv_pair(t) {
                Some(kv) => {
                    let ghost before = overrides.deep_view();
                    overrides.push(kv);
                    assert(overrides.deep_view() =~= before.push(kv.deep_view()));
                },
                None => {},
            }
        } else {
            match split_once_slice(t, ':') {
                Some((k, v)) => {
                    let k = trim_slice(k);
                    if eq_str(k, "overrides") {
                        in_overrides = true;
                    } else {
                        in_overrides = false;
                        match option_index_exec(k) {
                            Some(ix) => {
                                let n = u64_or_zero_exec(trim_slice(v));
                                values.set(ix, n);
                            },
                            None => {},
                        }
                    }
                },
                None => {
                    in_overrides = false;
                },
            }
        }
        i = i + 1;
    }
}

// ---------------------------------------------------------------------------
// Data lines
// ---------------------------------------------------------------------------

/// The first `data:` line of the block from line `i` on, and the line after
/// it; without one, empty inline data and the first line after the block.
pub open spec fn framed_block(ls: Seq<Seq<char>>, i: int) -> Result<(FramedDataV, int), ParseErrorV>
    decreases ls.len() - i,
{
    if 0 <= i < ls.len() && block_line(ls[i]) {
        match split_once(trim(ls[i]), ':') {
            Some((k, v)) => if trim(k) == "data"@ {
                match parse_data_spec(trim(v)) {
                    Ok(d) => Ok((d, i + 1)),
                    Err(e) => Err(e),
                }
            } else {
                framed_block(ls, i + 1)
            },
            None => framed_block(ls, i + 1),
        }
    } else {
        Ok((FramedDataV::Inline(seq![]), i))
    }
}

pub open spec fn framed_result_view(r: Result<(FramedData, usize), ParseError>) -> Result<
    (FramedDataV, int),
    ParseErrorV,
> {
    match r {
        Ok((d, j)) => Ok((d@, j as int)),
        Err(e) => Err(e@),
    }
}

fn parse_inline_framed_data(ls: &Vec<Vec<char>>, pos: usize) -> (r: Result<
    (FramedData, usize),
    ParseError,
>)
    ensures
        framed_result_view(r) == framed_block(ls.deep_view(), pos as int),
{
    let ghost lv = ls.deep_view();
    let mut i: usize = pos;
    loop
        invariant
            pos <= i,
            i <= ls@.len() || i == pos,
            lv == ls.deep_view(),
            framed_block(lv, pos as int) == framed_block(lv, i as int),
        decreases ls@.len() - i,
    {
        if i >= ls.len() || !is_block_line(line_at(ls, i)) {
            let d = FramedData::Inline(Vec::new());
            assert(d@ == FramedDataV::Inline(seq![]));
            return Ok((d, i));
        }
        let t = trim_slice(line_at(ls, i));
        match split_once_slice(t, ':') {
            Some((k, v)) => {
                if eq_str(trim_slice(k), "data") {
                    return match parse_data_value(trim_slice(v)) {
                        Ok(d) => Ok((d, i + 1)),
                        Err(e) => Err(e),
                    };
                }
            },
            None => {},
        }
        i = i + 1;
    }
}

/// The bytes of the first `raw x"..."` line of the block from line `i` on,
/// and the line after it; without one, no bytes and the first line after
/// the block.
pub open spec fn raw_block(ls: Seq<Seq<char>>, i: int) -> (Seq<u8>, int)
    decreases ls.len() - i,
{
    if 0 <= i < ls.len() && block_line(ls[i]) {
        match strip_prefix(trim(ls[i]), "raw x\""@) {
            Some(rest) => (hex_decode(trim_end_char(rest, '"')), i + 1),
            None => raw_block(ls, i + 1),
        }
    } else {
        (seq![], i)
    }
}

fn parse_raw_hex(ls: &Vec<Vec<char>>, pos: usize) -> (r: (Vec<u8>, usize))
    ensures
        (r.0@, r.1 as int) == raw_block(ls.deep_view(), pos as int),
{
    let ghost lv = ls.deep_view();
    let mut i: usize = pos;
    loop
        invariant
            pos <= i,
            i <= ls@.len() || i == pos,
            lv == ls.deep_view(),
            raw_block(lv, pos as int) == raw_block(lv, i as int),
        decreases ls@.len() - i,
    {
        if i >= ls.len() || !is_block_line(line_at(ls, i)) {
            let v: Vec<u8> = Vec::new();
            assert(v@ =~= Seq::<u8>::empty());
            return (v, i);
        }
        let t = trim_slice(line_at(ls, i));
        match strip_prefix_str(t, "raw x\"") {
            Some(rest) => {
                let hex = trim_end_char_slice(rest, '"');
                return (hex_decode_slice(hex), i + 1);
            },
            None => {},
        }
        i = i + 1;
    }
}

// ---------------------------------------------------------------------------
// The operation line
// ---------------------------------------------------------------------------

/// `path rest` split at the first space; without one, all of it and nothing.
pub open spec fn first_word(s: Seq<char>) -> (Seq<char>, Seq<char>) {
    match split_once(s, ' ') {
        Some(p) => p,
        None => (s, seq![]),
    }
}

/// The call of an operation whose arguments all stand on its line.
pub open spec fn inline_call(op: Op, args: Seq<char>) -> Result<OpCallV, ParseErrorV> {
    match op {
        Op::IsValidPath | Op::QueryReferrers | Op::QueryDeriver | Op::QueryDerivationOutputs
        | Op::QueryDerivationOutputNames | Op::QueryDerivationOutputMap | Op::QueryValidDerivers
        | Op::QueryPathInfo | Op::EnsurePath | Op::AddTempRoot | Op::NarFromPath => Ok(
            OpCallV::SinglePath { op, path: args },
        ),
        Op::AddIndirectRoot | Op::QueryPathFromHashPart => Ok(
            OpCallV::SingleString { op, value: args },
        ),
        Op::QueryValidPaths => match parse_path_set_spec(args) {
            Ok((paths, rest)) => Ok(
                OpCallV::PathSetFlag { op, paths, substitute: trim(rest) == "substitute"@ },
            ),
            Err(e) => Err(e),
        },
        Op::BuildPaths | Op::BuildPathsWithResults => match parse_path_set_spec(args) {
            Ok((paths, rest)) => Ok(
                OpCallV::PathSetMode {
                    op,
                    paths,
                    mode: if trim(rest).len() == 0 {
                        "normal"@
                    } else {
                        trim(rest)
                    },
                },
            ),
            Err(e) => Err(e),
        },
        Op::QuerySubstitutablePaths | Op::QueryMissing => match parse_path_set_spec(args) {
            Ok((paths, _)) => Ok(OpCallV::PathSet { op, paths }),
            Err(e) => Err(e),
        },
        Op::AddPermRoot => Ok(
            OpCallV::AddPermRoot { path: first_word(args).0, gc_root: first_word(args).1 },
        ),
        Op::AddSignatures => match parse_path_set_spec(first_word(args).1) {
            Ok((sigs, _)) => Ok(OpCallV::AddSignatures { path: first_word(args).0, sigs }),
            Err(e) => Err(e),
        },
        Op::RegisterDrvOutput => Ok(OpCallV::RegisterDrvOutput { value: args }),
        Op::QueryRealisation => Ok(OpCallV::QueryRealisation { value: args }),
        Op::QuerySubstitutablePathInfo => Ok(OpCallV::QuerySubstitutablePathInfo { path: args }),
        Op::QuerySubstitutablePathInfos => match parse_path_set_spec(args) {
            Ok((paths, _)) => Ok(OpCallV::QuerySubstitutablePathInfos { paths }),
            Err(e) => Err(e),
        },
        _ => Ok(OpCallV::NoArgs { op }),
    }
}

/// The call of operation `op` with the text `args` after its name, whose
/// indented lines begin at line `pos`; the result holds the call and the
/// first line after what it read.
pub open spec fn op_call_spec(op: Op, args: Seq<char>, ls: Seq<Seq<char>>, pos: int) -> Result<
    (OpCallV, int),
    ParseErrorV,
> {
    match op {
        Op::SetOptions => Ok(set_options_spec(ls, pos)),
        Op::CollectGarbage => key_block(
            ls,
            pos,
            OpCallV::CollectGarbage { action: 0, paths: seq![], ignore_liveness: 0, max_freed: 0 },
        ),
        Op::VerifyStore => key_block(
            ls,
            pos,
            OpCallV::VerifyStore { check_contents: false, repair: false },
        ),
        Op::AddTextToStore => key_block(
            ls,
            pos,
            OpCallV::AddTextToStore { suffix: seq![], text: seq![], refs: seq![] },
        ),
        Op::AddToStore => key_block(
            ls,
            pos,
            OpCallV::AddToStore {
                name: seq![],
                cam_str: seq![],
                refs: seq![],
                repair: false,
                data: FramedDataV::Inline(seq![]),
            },
        ),
        Op::AddMultipleToStore => key_block(
            ls,
            pos,
            OpCallV::AddMultipleToStore {
                repair: false,
                dont_check_sigs: false,
                data: FramedDataV::Inline(seq![]),
            },
        ),
        Op::AddBuildLog => match framed_block(ls, pos) {
            Ok((d, j)) => Ok((OpCallV::AddBuildLog { path: args, data: d }, j)),
            Err(e) => Err(e),
        },
        Op::BuildDerivation | Op::AddToStoreNar => Ok(
            (OpCallV::RawBytes { op, data: raw_block(ls, pos).0 }, raw_block(ls, pos).1),
        ),
        _ => match inline_call(op, args) {
            Ok(c) => Ok((c, pos)),
            Err(e) => Err(e),
        },
    }
}

/// An operation line (without its timestamp): the operation's name, then
/// its inline arguments.
pub open spec fn op_line_spec(line: Seq<char>, ls: Seq<Seq<char>>, pos: int) -> Result<
    (OpCallV, int),
    ParseErrorV,
> {
    let name = first_word(line).0;
    match op_from_name(name) {
        Some(op) => op_call_spec(op, trim(first_word(line).1), ls, pos),
        None => Err(ParseErrorV::UnknownOp(name)),
    }
}

pub open spec fn inline_result_view(r: Result<OpCall, ParseError>) -> Result<OpCallV, ParseErrorV> {
    match r {
        Ok(c) => Ok(c@),
        Err(e) => Err(e@),
    }
}

fn split_first_word(s: &[char]) -> (r: (&[char], &[char]))
    ensures
        (r.0@, r.1@) == first_word(s@),
{
    match split_once_slice(s, ' ') {
        Some(p) => p,
        None => {
            let e = &s[0..0];
            assert(e@ =~= Seq::<char>::empty());
            (s, e)
        },
    }
}

fn path_set_call(op: Op, args: &[char]) -> (r: Result<OpCall, ParseError>)
    requires
        op == Op::QueryValidPaths || op == Op::BuildPaths || op == Op::BuildPathsWithResults
            || op == Op::QuerySubstitutablePaths || op == Op::QueryMissing
            || op == Op::QuerySubstitutablePathInfos,
    ensures
        inline_result_view(r) == inline_call(op, args@),
{
    let (paths, rest) = match path_set_slice(args) {
        Ok(x) => x,
        Err(e) => {
            return Err(e);
        },
    };
    let rest = trim_slice(rest);
    match op {
        Op::QueryValidPaths => {
            let substitute = eq_str(rest, "substitute");
            Ok(OpCall::PathSetFlag { op, paths, substitute })
        },
        Op::BuildPaths | Op::BuildPathsWithResults => {
            let mode = if rest.len() == 0 {
                let mut m = String::new();
                push_str(&mut m, "normal");
                m
            } else {
                str_of(rest)
            };
            Ok(OpCall::PathSetMode { op, paths, mode })
        },
        Op::QuerySubstitutablePathInfos => Ok(OpCall::QuerySubstitutablePathInfos { paths }),
        _ => Ok(OpCall::PathSet { op, paths }),
    }
}

fn inline_args(op: Op, args: &[char]) -> (r: Result<OpCall, ParseError>)
    ensures
        inline_result_view(r) == inline_call(op, args@),
{
    match op {
        Op::IsValidPath | Op::QueryReferrers | Op::QueryDeriver | Op::QueryDerivationOutputs
        | Op::QueryDerivationOutputNames | Op::QueryDerivationOutputMap | Op::QueryValidDerivers
        | Op::QueryPathInfo | Op::EnsurePath | Op::AddTempRoot | Op::NarFromPath => Ok(
            OpCall::SinglePath { op, path: str_of(args) },
        ),
        Op::AddIndirectRoot | Op::QueryPathFromHashPart => Ok(
            OpCall::SingleString { op, value: str_of(args) },
        ),
        Op::QueryValidPaths | Op::BuildPaths | Op::BuildPathsWithResults
        | Op::QuerySubstitutablePaths | Op::QueryMissing | Op::QuerySubstitutablePathInfos => {
            path_set_call(op, args)
        },
        Op::AddPermRoot => {
            let (p, g) = split_first_word(args);
            Ok(OpCall::AddPermRoot { path: str_of(p), gc_root: str_of(g) })
        },
        Op::AddSignatures => {
            let (p, rest) = split_first_word(args);
            match path_set_slice(rest) {
                Ok((sigs, _)) => Ok(OpCall::AddSignatures { path: str_of(p), sigs }),
                Err(e) => Err(e),
            }
        },
        Op::RegisterDrvOutput => Ok(OpCall::RegisterDrvOutput { value: str_of(args) }),
        Op::QueryRealisation => Ok(OpCall::QueryRealisation { value: str_of(args) }),
        Op::QuerySubstitutablePathInfo => Ok(
            OpCall::QuerySubstitutablePathInfo { path: str_of(args) },
        ),
        _ => Ok(OpCall::NoArgs { op }),
    }
}

/// Parse an operation line (without its timestamp); the indented lines that
/// follow it begin at line `pos`. Returns the call and the first line after
/// what it read.
pub fn parse_op_line(line: &[char], ls: &Vec<Vec<char>>, pos: usize) -> (r: Result<
    (OpCall, usize),
    ParseError,
>)
    ensures
        call_result_view(r) == op_line_spec(line@, ls.deep_view(), pos as int),
{
    let (name, rest) = split_first_word(line);
    let op = match Op::from_name(name) {
        Some(op) => op,
        None => {
            return Err(ParseError::UnknownOp(str_of(name)));
        },
    };
    let args = trim_slice(rest);
    match op {
        Op::SetOptions => Ok(parse_set_options(ls, pos)),
        Op::CollectGarbage => parse_collect_garbage(ls, pos),
        Op::VerifyStore => parse_verify_store(ls, pos),
        Op::AddTextToStore => parse_add_text_to_store(ls, pos),
        Op::AddToStore => parse_add_to_store(ls, pos),
        Op::AddMultipleToStore => parse_add_multiple_to_store(ls, pos),
        Op::AddBuildLog => match parse_inline_framed_data(ls, pos) {
            Ok((data, j)) => Ok((OpCall::AddBuildLog { path: str_of(args), data }, j)),
            Err(e) => Err(e),
        },
        Op::BuildDerivation | Op::AddToStoreNar => {
            let (data, j) = parse_raw_hex(ls, pos);
            Ok((OpCall::RawBytes { op, data }, j))
        },
        _ => match inline_args(op, args) {
            Ok(c) => Ok((c, pos)),
            Err(e) => Err(e),
        },
    }
}

// ---------------------------------------------------------------------------
// Where a block ends
// ---------------------------------------------------------------------------

pub proof fn lemma_key_block_range(ls: Seq<Seq<char>>, i: int, st: OpCallV)
    requires
        0 <= i <= ls.len(),
    ensures
        key_block(ls, i, st) matches Ok((_, j)) ==> i <= j <= ls.len(),
    decreases ls.len() - i,
{
    if 0 <= i < ls.len() && block_line(ls[i]) {
        match line_step(st, ls[i]) {
            Ok(st2) => lemma_key_block_range(ls, i + 1, st2),
            Err(_) => {},
        }
    }
}

pub proof fn lemma_options_block_range(ls: Seq<Seq<char>>, i: int, st: OptionsState)
    requires
        0 <= i <= ls.len(),
    ensures
        i <= options_block(ls, i, st).1 <= ls.len(),
    decreases ls.len() - i,
{
    if 0 <= i < ls.len() && block_line(ls[i]) {
        lemma_options_block_range(ls, i + 1, options_line(st, trim(ls[i])));
    }
}

pub proof fn lemma_framed_block_range(ls: Seq<Seq<char>>, i: int)
    requires
        0 <= i <= ls.len(),
    ensures
        framed_block(ls, i) matches Ok((_, j)) ==> i <= j <= ls.len(),
    decreases ls.len() - i,
{
    if 0 <= i < ls.len() && block_line(ls[i]) {
        lemma_framed_block_range(ls, i + 1);
    }
}

pub proof fn lemma_raw_block_range(ls: Seq<Seq<char>>, i: int)
    requires
        0 <= i <= ls.len(),
    ensures
        i <= raw_block(ls, i).1 <= ls.len(),
    decreases ls.len() - i,
{
    if 0 <= i < ls.len() && block_line(ls[i]) {
        lemma_raw_block_range(ls, i + 1);
    }
}

/// An operation line reads no line before `pos` and none past the end.
pub proof fn lemma_op_line_range(line: Seq<char>, ls: Seq<Seq<char>>, pos: int)
    requires
        0 <= pos <= ls.len(),
    ensures
        op_line_spec(line, ls, pos) matches Ok((_, j)) ==> pos <= j <= ls.len(),
{
    lemma_key_block_range(
        ls,
        pos,
        OpCallV::CollectGarbage { action: 0, paths: seq![], ignore_liveness: 0, max_freed: 0 },
    );
    lemma_key_block_range(ls, pos, OpCallV::VerifyStore { check_contents: false, repair: false });
    lemma_key_block_range(
        ls,
        pos,
        OpCallV::AddTextToStore { suffix: seq![], text: seq![], refs: seq![] },
    );
    lemma_key_block_range(
        ls,
        pos,
        OpCallV::AddToStore {
            name: seq![],
            cam_str: seq![],
            refs: seq![],
            repair: false,
            data: FramedDataV::Inline(seq![]),
        },
    );
    lemma_key_block_range(
        ls,
        pos,
        OpCallV::AddMultipleToStore {
            repair: false,
            dont_check_sigs: false,
            data: FramedDataV::Inline(seq![]),
        },
    );
    lemma_options_block_range(ls, pos, options_start());
    lemma_framed_block_range(ls, pos);
    lemma_raw_block_range(ls, pos);
}

// ---------------------------------------------------------------------------
// The operation of a parsed call
// ---------------------------------------------------------------------------

proof fn lemma_key_step_op(st: OpCallV, k: Seq<char>, v: Seq<char>)
    ensures
        key_step(st, k, v) matches Ok(st2) ==> op_of(st2) == op_of(st),
{
}

proof fn lemma_key_block_op(ls: Seq<Seq<char>>, i: int, st: OpCallV)
    ensures
        key_block(ls, i, st) matches Ok((c, _)) ==> op_of(c) == op_of(st),
    decreases ls.len() - i,
{
    if 0 <= i < ls.len() && block_line(ls[i]) {
        match split_once(trim(ls[i]), ':') {
            Some((k, v)) => lemma_key_step_op(st, trim(k), trim(v)),
            None => {},
        }
        match line_step(st, ls[i]) {
            Ok(st2) => lemma_key_block_op(ls, i + 1, st2),
            Err(_) => {},
        }
    }
}

/// A call read for operation `op` is a call of `op`.
proof fn lemma_op_call_op(op: Op, args: Seq<char>, ls: Seq<Seq<char>>, pos: int)
    ensures
        op_call_spec(op, args, ls, pos) matches Ok((c, _)) ==> op_of(c) == op,
{
    match op {
        Op::CollectGarbage => lemma_key_block_op(
            ls,
            pos,
            OpCallV::CollectGarbage { action: 0, paths: seq![], ignore_liveness: 0, max_freed: 0 },
        ),
        Op::VerifyStore => lemma_key_block_op(
            ls,
            pos,
            OpCallV::VerifyStore { check_contents: false, repair: false },
        ),
        Op::AddTextToStore => lemma_key_block_op(
            ls,
            pos,
            OpCallV::AddTextToStore { suffix: seq![], text: seq![], refs: seq![] },
        ),
        Op::AddToStore => lemma_key_block_op(
            ls,
            pos,
            OpCallV::AddToStore {
                name: seq![],
                cam_str: seq![],
                refs: seq![],
                repair: false,
                data: FramedDataV::Inline(seq![]),
            },
        ),
        Op::AddMultipleToStore => lemma_key_block_op(
            ls,
            pos,
            OpCallV::AddMultipleToStore {
                repair: false,
                dont_check_sigs: false,
                data: FramedDataV::Inline(seq![]),
            },
        ),
        _ => {},
    }
}

/// A parsed operation line reports the operation named by its first word.
pub proof fn law_parsed_op_is_named(line: Seq<char>, ls: Seq<Seq<char>>, pos: int)
    ensures
        op_line_spec(line, ls, pos) matches Ok((c, _)) ==> op_from_name(first_word(line).0) == Some(
            op_of(c),
        ),
{
    match op_from_name(first_word(line).0) {
        Some(op) => lemma_op_call_op(op, trim(first_word(line).1), ls, pos),
        None => {},
    }
}

} // verus!
