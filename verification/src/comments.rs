//! Comment lines between entries: the reading of a script does not see
//! them. The reading of entries depends only on the lines from where it
//! starts, so lines put in front of it only move the positions it reports.

use vstd::prelude::*;
use crate::op_args::{
    framed_block, key_block, lemma_op_line_range, op_call_spec, op_line_spec, options_block,
    raw_block,
};
use crate::parse::{
    entries_from, entry_expects, entry_spec, lemma_entry_expects_range, lemma_entry_range,
    lemma_preamble_range, parse_script_spec, preamble_from, preamble_start, ParseErrorV,
};
use crate::script::{EntryV, ExpectV, PreambleV};
use crate::text::{lemma_lines_unlines, line_ok, starts_with, trim, unlines};

verus! {

/// A result whose position is moved on by `d`.
pub open spec fn moved<T>(r: Result<(T, int), ParseErrorV>, d: int) -> Result<(T, int), ParseErrorV> {
    match r {
        Ok((v, j)) => Ok((v, j + d)),
        Err(e) => Err(e),
    }
}

/// A line that reads as a comment: after trimming it begins with `#`, and
/// it is not the `# nwscript` header.
pub open spec fn comment_line(l: Seq<char>) -> bool {
    starts_with(trim(l), "#"@) && !starts_with(trim(l), "# nwscript"@)
}

proof fn lemma_key_block_moved(x: Seq<Seq<char>>, s: Seq<Seq<char>>, k: int, st: crate::script::OpCallV)
    requires
        0 <= k,
    ensures
        key_block(x + s, x.len() + k, st) == moved(key_block(s, k, st), x.len() as int),
    decreases s.len() - k,
{
    if k < s.len() {
        assert((x + s)[x.len() + k] == s[k]);
        if crate::op_args::block_line(s[k]) {
            match crate::op_args::line_step(st, s[k]) {
                Ok(st2) => lemma_key_block_moved(x, s, k + 1, st2),
                Err(_) => {},
            }
        }
    }
}

proof fn lemma_options_block_moved(
    x: Seq<Seq<char>>,
    s: Seq<Seq<char>>,
    k: int,
    st: crate::op_args::OptionsState,
)
    requires
        0 <= k,
    ensures
        options_block(x + s, x.len() + k, st) == (
            options_block(s, k, st).0,
            options_block(s, k, st).1 + x.len(),
        ),
    decreases s.len() - k,
{
    if k < s.len() {
        assert((x + s)[x.len() + k] == s[k]);
        if crate::op_args::block_line(s[k]) {
            lemma_options_block_moved(x, s, k + 1, crate::op_args::options_line(st, trim(s[k])));
        }
    }
}

proof fn lemma_framed_block_moved(x: Seq<Seq<char>>, s: Seq<Seq<char>>, k: int)
    requires
        0 <= k,
    ensures
        framed_block(x + s, x.len() + k) == moved(framed_block(s, k), x.len() as int),
    decreases s.len() - k,
{
    if k < s.len() {
        assert((x + s)[x.len() + k] == s[k]);
        lemma_framed_block_moved(x, s, k + 1);
    }
}

proof fn lemma_raw_block_moved(x: Seq<Seq<char>>, s: Seq<Seq<char>>, k: int)
    requires
        0 <= k,
    ensures
        raw_block(x + s, x.len() + k) == (raw_block(s, k).0, raw_block(s, k).1 + x.len()),
    decreases s.len() - k,
{
    if k < s.len() {
        assert((x + s)[x.len() + k] == s[k]);
        lemma_raw_block_moved(x, s, k + 1);
    }
}

proof fn lemma_op_line_moved(line: Seq<char>, x: Seq<Seq<char>>, s: Seq<Seq<char>>, k: int)
    requires
        0 <= k,
    ensures
        op_line_spec(line, x + s, x.len() + k) == moved(op_line_spec(line, s, k), x.len() as int),
{
    lemma_key_block_moved(
        x,
        s,
        k,
        crate::script::OpCallV::CollectGarbage { action: 0, paths: seq![], ignore_liveness: 0, max_freed: 0 },
    );
    lemma_key_block_moved(x, s, k, crate::script::OpCallV::VerifyStore { check_contents: false, repair: false });
    lemma_key_block_moved(
        x,
        s,
        k,
        crate::script::OpCallV::AddTextToStore { suffix: seq![], text: seq![], refs: seq![] },
    );
    lemma_key_block_moved(
        x,
        s,
        k,
        crate::script::OpCallV::AddToStore {
            name: seq![],
            cam_str: seq![],
            refs: seq![],
            repair: false,
            data: crate::script::FramedDataV::Inline(seq![]),
        },
    );
    lemma_key_block_moved(
        x,
        s,
        k,
        crate::script::OpCallV::AddMultipleToStore {
            repair: false,
            dont_check_sigs: false,
            data: crate::script::FramedDataV::Inline(seq![]),
        },
    );
    lemma_options_block_moved(x, s, k, crate::op_args::options_start());
    lemma_framed_block_moved(x, s, k);
    lemma_raw_block_moved(x, s, k);
}

proof fn lemma_entry_expects_moved(x: Seq<Seq<char>>, s: Seq<Seq<char>>, k: int, acc: Seq<ExpectV>)
    requires
        0 <= k,
    ensures
        entry_expects(x + s, x.len() + k, acc) == moved(entry_expects(s, k, acc), x.len() as int),
    decreases s.len() - k,
{
    if k < s.len() {
        assert((x + s)[x.len() + k] == s[k]);
        if crate::op_args::indented(s[k]) {
            let t = trim(s[k]);
            if t.len() == 0 || starts_with(t, "#"@) {
                lemma_entry_expects_moved(x, s, k + 1, acc);
            } else if starts_with(t, "expect"@) {
                match crate::parse::parse_expect_spec(t) {
                    Ok(e) => lemma_entry_expects_moved(x, s, k + 1, acc.push(e)),
                    Err(_) => {},
                }
            }
        }
    }
}

proof fn lemma_entry_moved(x: Seq<Seq<char>>, s: Seq<Seq<char>>, k: int)
    requires
        0 <= k < s.len(),
    ensures
        entry_spec(x + s, x.len() + k) == moved(entry_spec(s, k), x.len() as int),
{
    assert((x + s)[x.len() + k] == s[k]);
    let line = trim(s[k]);
    let ts = if starts_with(line, "@"@) {
        crate::parse::parse_timestamp_spec(line)
    } else {
        Ok((None, line))
    };
    match ts {
        Err(_) => {},
        Ok((_, rest)) => {
            lemma_op_line_moved(rest, x, s, k + 1);
            lemma_op_line_range(rest, s, k + 1);
            match op_line_spec(rest, s, k + 1) {
                Ok((_, j)) => lemma_entry_expects_moved(x, s, j, seq![]),
                Err(_) => {},
            }
        },
    }
}

/// The entries read from a position depend only on the lines from there.
proof fn lemma_entries_moved(x: Seq<Seq<char>>, s: Seq<Seq<char>>, k: int, acc: Seq<EntryV>)
    requires
        0 <= k,
    ensures
        entries_from(x + s, x.len() + k, acc) == entries_from(s, k, acc),
    decreases s.len() - k,
{
    if k < s.len() {
        assert((x + s)[x.len() + k] == s[k]);
        if !crate::parse::skipped_line(trim(s[k])) {
            lemma_entry_moved(x, s, k);
            lemma_entry_range(s, k);
            match entry_spec(s, k) {
                Ok((e, j)) => lemma_entries_moved(x, s, j, acc.push(e)),
                Err(_) => {},
            }
        } else {
            lemma_entries_moved(x, s, k + 1, acc);
        }
    }
}

/// A comment line put where the reading of entries stands (after the
/// preamble, or between two entries) changes nothing that is read.
pub proof fn law_comment_between_entries_is_skipped(
    ls: Seq<Seq<char>>,
    i: int,
    c: Seq<char>,
    acc: Seq<EntryV>,
)
    requires
        0 <= i <= ls.len(),
        comment_line(c),
    ensures
        entries_from(ls.insert(i, c), i, acc) == entries_from(ls, i, acc),
{
    let s = ls.subrange(i, ls.len() as int);
    let x = ls.subrange(0, i);
    assert(ls =~= x + s);
    assert(ls.insert(i, c) =~= x.push(c) + s);
    assert(ls.insert(i, c)[i] == c);
    lemma_entries_moved(x.push(c), s, 0, acc);
    lemma_entries_moved(x, s, 0, acc);
}

/// A preamble that ends at line `j` reads the same whatever follows it.
proof fn lemma_preamble_prefix(
    l1: Seq<Seq<char>>,
    l2: Seq<Seq<char>>,
    i: int,
    st: PreambleV,
    seen: bool,
    p: PreambleV,
    j: int,
)
    requires
        0 <= i,
        preamble_from(l1, i, st, seen) == Ok::<(PreambleV, int), ParseErrorV>((p, j)),
        j <= l1.len(),
        j <= l2.len(),
        forall|m: int| 0 <= m < j ==> l1[m] == l2[m],
    ensures
        preamble_from(l2, i, st, seen) == Ok::<(PreambleV, int), ParseErrorV>((p, j)),
    decreases l1.len() - i,
{
    if i < l1.len() {
        let t = trim(l1[i]);
        let next: Option<(PreambleV, bool)> = if t.len() == 0 {
            Some((st, seen))
        } else if t == "---"@ {
            None
        } else if starts_with(t, "#"@) {
            Some((crate::parse::comment_step(st, trim(crate::text::trim_start_char(t, '#'))), seen))
        } else if starts_with(t, "protocol:"@) {
            Some(
                (
                    match crate::parse::parse_version_spec(trim(t.subrange(9, t.len() as int))) {
                        Some(v) => PreambleV { protocol_version: v, ..st },
                        None => st,
                    },
                    true,
                ),
            )
        } else if starts_with(t, "features:"@) {
            Some(
                (
                    PreambleV {
                        client_features: crate::parse::parse_feature_set_spec(
                            trim(t.subrange(9, t.len() as int)),
                        ),
                        ..st
                    },
                    seen,
                ),
            )
        } else if starts_with(t, "expect "@) || starts_with(t, "expect:"@) {
            match crate::parse::parse_expect_spec(t) {
                Ok(e) => Some((PreambleV { expects: st.expects.push(e), ..st }, seen)),
                Err(_) => None,
            }
        } else {
            None
        };
        match next {
            Some((st2, seen2)) => {
                assert(preamble_from(l1, i, st, seen) == preamble_from(l1, i + 1, st2, seen2));
                lemma_preamble_range(l1, i + 1, st2, seen2);
                assert(l1[i] == l2[i]);
                lemma_preamble_prefix(l1, l2, i + 1, st2, seen2, p, j);
            },
            None => {
                assert(j == i + 1);
                assert(l1[i] == l2[i]);
            },
        }
    }
}

/// A comment line right after the preamble of a script text changes nothing
/// that the text parses into: neither the preamble, nor the entries, nor
/// the error.
pub proof fn law_comment_after_preamble_is_skipped(
    pre: Seq<Seq<char>>,
    body: Seq<Seq<char>>,
    c: Seq<char>,
)
    requires
        preamble_from(pre, 0, preamble_start(), false) matches Ok((_, j)) && j == pre.len(),
        forall|k: int| 0 <= k < pre.len() ==> line_ok(#[trigger] pre[k]),
        forall|k: int| 0 <= k < body.len() ==> line_ok(#[trigger] body[k]),
        line_ok(c),
        comment_line(c),
    ensures
        parse_script_spec(unlines(pre + seq![c] + body)) == parse_script_spec(unlines(pre + body)),
{
    let with = pre + seq![c] + body;
    let without = pre + body;
    assert forall|k: int| 0 <= k < with.len() implies line_ok(#[trigger] with[k]) by {
        if k < pre.len() {
            assert(with[k] == pre[k]);
        } else if k == pre.len() {
            assert(with[k] == c);
        } else {
            assert(with[k] == body[k - pre.len() - 1]);
        }
    }
    assert forall|k: int| 0 <= k < without.len() implies line_ok(#[trigger] without[k]) by {
        if k < pre.len() {
            assert(without[k] == pre[k]);
        } else {
            assert(without[k] == body[k - pre.len()]);
        }
    }
    lemma_lines_unlines(with);
    lemma_lines_unlines(without);
    let (p, j) = preamble_from(pre, 0, preamble_start(), false)->Ok_0;
    lemma_preamble_prefix(pre, with, 0, preamble_start(), false, p, j);
    lemma_preamble_prefix(pre, without, 0, preamble_start(), false, p, j);
    assert(without.insert(j, c) =~= with);
    law_comment_between_entries_is_skipped(without, j, c, seq![]);
}

} // verus!
