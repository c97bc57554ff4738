//! A whole script reads back: the text the formatter writes for a script
//! parses into the same script, for scripts whose values read back one by
//! one (see `roundtrip`).

use vstd::prelude::*;
use crate::format::{
    response_text, entries_text_from, entry_text, expect_text, expects_text, externalizes, nl, path_set_text,
    preamble_expect_text, preamble_expects_text, preamble_text, script_text, timestamp_text,
    FormatOptions,
};
use crate::num::{all_digits, dec, digits_value, is_digit, lemma_dec_value, zero_pad};
use crate::parse::{
    entries_from, entry_expects, entry_spec, lemma_digits_value_concat, lemma_no_exp_mark,
    mantissa, parse_millis_spec, pow10, rounded_at, parse_script_spec,
    parse_timestamp_spec, preamble_from, preamble_start, ParseErrorV,
};
use crate::roundtrip::{
    expect_body, expect_tail, filled, lemma_all_ws_space, lemma_dec_filled,
    lemma_expect_body_rest, lemma_op_lines_plain, lemma_path_set_filled, lemma_plain_cat, op_lines,
    bare_expect, bare_read, plain, plain_call, plain_expect, set_items, tight,
};
use crate::protocol::{op_name, version_text};
use crate::roundtrip::lemma_op_name_word;
use crate::notes::{
    all_notes, lemma_note_line_read, lemma_note_lines, lemma_response_notes, note_line,
    note_lines, plain_response,
};
use crate::script::{DaemonResponseV, EntryV, ExpectV, OpCallV, PreambleV, ScriptV};
use crate::text::{
    find, find_from, is_ws, lemma_find_char_concat, lemma_trim_id, lemma_trim_padded,
    starts_with, trim, unlines,
};

verus! {

// ---------------------------------------------------------------------------
// Expect lines
// ---------------------------------------------------------------------------

/// An operation's expect line is its body indented by two spaces.
proof fn lemma_expect_line(e: ExpectV)
    ensures
        expect_text(e) == seq![' ', ' '] + expect_body(e) + nl(),
        preamble_expect_text(e) == expect_body(e) + nl(),
{
    reveal_strlit("expect");
    reveal_strlit(" ");
    reveal_strlit(":");
    reveal_strlit(": ");
    reveal_strlit("error:");
    reveal_strlit("stderr.count:");
    reveal_strlit("daemon:");
    reveal_strlit("trust:");
    reveal_strlit("server_features:");
    reveal_strlit("  expect: ");
    reveal_strlit("  expect ");
    reveal_strlit("  expect error: ");
    reveal_strlit("  expect stderr.count: ");
    reveal_strlit("  expect daemon: ");
    reveal_strlit("  expect trust: ");
    reveal_strlit("  expect server_features: ");
    reveal_strlit("expect daemon: ");
    reveal_strlit("expect trust: ");
    reveal_strlit("expect server_features: ");
    let body = expect_body(e);
    match e {
        ExpectV::Terminal(code) => {
            assert(expect_text(e) =~= seq![' ', ' '] + body + nl());
        },
        ExpectV::Result { field, matcher } => {
            assert(expect_text(e) =~= seq![' ', ' '] + body + nl());
        },
        ExpectV::Error { matcher } => {
            assert(expect_text(e) =~= seq![' ', ' '] + body + nl());
        },
        ExpectV::StderrCount { matcher } => {
            assert(expect_text(e) =~= seq![' ', ' '] + body + nl());
        },
        ExpectV::Daemon { matcher } => {
            assert(expect_text(e) =~= seq![' ', ' '] + body + nl());
            assert(preamble_expect_text(e) =~= body + nl());
        },
        ExpectV::Trust { matcher } => {
            assert(expect_text(e) =~= seq![' ', ' '] + body + nl());
            assert(preamble_expect_text(e) =~= body + nl());
        },
        ExpectV::ServerFeatures { matcher } => {
            assert(expect_text(e) =~= seq![' ', ' '] + body + nl());
            assert(preamble_expect_text(e) =~= body + nl());
        },
    }
    if !(e is Daemon || e is Trust || e is ServerFeatures) {
        assert(body[0] == 'e');
        assert(!is_ws('e'));
        lemma_all_ws_space();
        assert(crate::text::all_ws(seq![' ', ' ']));
        assert(seq![' ', ' '] + body + nl() =~= seq![' ', ' '] + (body + nl()));
        crate::text::lemma_trim_start_ws(seq![' ', ' '], body + nl());
    }
}

// ---------------------------------------------------------------------------
// Timestamps
// ---------------------------------------------------------------------------

proof fn lemma_dec_short(n: nat)
    requires
        n < 1000,
    ensures
        dec(n).len() <= 3,
{
    if n >= 10 {
        if n / 10 >= 10 {
            assert(dec(n / 10 / 10).len() == 1);
            assert(dec(n / 10).len() == 2);
        } else {
            assert(dec(n / 10).len() == 1);
        }
    }
}

/// The first occurrence of `p` at or after `i` is at `k` when no character
/// before `k` starts it.
proof fn lemma_find_first(s: Seq<char>, p: Seq<char>, i: int, k: int)
    requires
        p.len() > 0,
        0 <= i <= k,
        k + p.len() <= s.len(),
        s.subrange(k, k + p.len()) == p,
        forall|j: int| i <= j < k ==> s[j] != p[0],
    ensures
        find_from(s, p, i) == Some(k),
    decreases k - i,
{
    if i < k {
        assert(s.subrange(i, i + p.len())[0] == s[i]);
        lemma_find_first(s, p, i + 1, k);
    }
}

/// The fractional part of a timestamp: three digits for the microseconds.
proof fn lemma_frac_digits(f: nat)
    requires
        f < 1000,
    ensures
        zero_pad(dec(f), 3).len() == 3,
        all_digits(zero_pad(dec(f), 3)),
        digits_value(zero_pad(dec(f), 3)) == f,
{
    lemma_dec_value(f);
    lemma_dec_short(f);
    crate::num::lemma_zero_pad_value(dec(f), 3);
}

/// A timestamp's text is `@`, digits, a point, digits, `ms` and a space.
proof fn lemma_timestamp_chars(us: u64)
    ensures
        timestamp_text(Some(us)).len() > 0,
        timestamp_text(Some(us))[0] == '@',
        plain(timestamp_text(Some(us))),
        forall|i: int|
            1 <= i < timestamp_text(Some(us)).len() - 3 ==> (is_digit(
                #[trigger] timestamp_text(Some(us))[i],
            ) || timestamp_text(Some(us))[i] == '.'),
{
    reveal_strlit("ms ");
    let w = dec((us / 1000) as nat);
    let fp = zero_pad(dec((us % 1000) as nat), 3);
    lemma_dec_value((us / 1000) as nat);
    lemma_frac_digits((us % 1000) as nat);
    let t = timestamp_text(Some(us));
    assert(t =~= seq!['@'] + w + seq!['.'] + fp + "ms "@);
    assert forall|i: int| 1 <= i < t.len() - 3 implies (is_digit(#[trigger] t[i]) || t[i] == '.') by {
        if i < 1 + w.len() {
            assert(t[i] == w[i - 1]);
        } else if i > 1 + w.len() {
            assert(t[i] == fp[i - 2 - w.len()]);
        }
    }
    assert forall|i: int| 0 <= i < t.len() implies t[i] != '\n' && t[i] != '\r' by {
        if 1 <= i < t.len() - 3 {
            assert(is_digit(t[i]) || t[i] == '.');
        }
    }
}

/// A line that begins with a timestamp reads back as the time and the rest.
pub proof fn lemma_timestamp_line(us: u64, first: Seq<char>)
    requires
        filled(first),
    ensures
        trim(timestamp_text(Some(us)) + first) == timestamp_text(Some(us)) + first,
        starts_with(timestamp_text(Some(us)) + first, "@"@),
        plain(timestamp_text(Some(us)) + first),
        parse_timestamp_spec(timestamp_text(Some(us)) + first) == Ok::<
            (Option<u64>, Seq<char>),
            ParseErrorV,
        >((Some(us), first)),
{
    reveal_strlit("ms ");
    reveal_strlit("ms");
    reveal_strlit("@");
    let wn = (us / 1000) as nat;
    let fn_ = (us % 1000) as nat;
    let w = dec(wn);
    let fp = zero_pad(dec(fn_), 3);
    lemma_dec_value(wn);
    lemma_frac_digits(fn_);
    lemma_timestamp_chars(us);
    let ts = timestamp_text(Some(us));
    let line = ts + first;
    assert(ts =~= seq!['@'] + w + seq!['.'] + fp + "ms "@);
    // The line: its ends and its characters.
    assert(line[0] == '@');
    assert(line.last() == first.last());
    assert(!is_ws('@'));
    lemma_trim_id(line);
    assert(line.subrange(0, 1) =~= "@"@);
    lemma_plain_cat(ts, first);
    // After the `@`: the number, `ms`, and the rest.
    let rest = line.subrange(1, line.len() as int);
    let num = w + seq!['.'] + fp;
    assert(rest =~= num + "ms"@ + (seq![' '] + first));
    let k = num.len() as int;
    assert(rest.subrange(k, k + 2) =~= "ms"@);
    assert forall|j: int| 0 <= j < k implies rest[j] != "ms"@[0] by {
        assert(rest[j] == num[j]);
        if j < w.len() {
            assert(is_digit(w[j]));
        } else if j > w.len() {
            assert(num[j] == fp[j - w.len() - 1]);
            assert(is_digit(fp[j - w.len() - 1]));
        }
    }
    lemma_find_first(rest, "ms"@, 0, k);
    assert(find(rest, "ms"@) == Some(k));
    assert(rest.subrange(0, k) =~= num);
    // The number: whole milliseconds, a point and three digits.
    assert forall|i: int| 0 <= i < w.len() implies w[i] != '.' by {
        assert(is_digit(w[i]));
    }
    lemma_find_char_concat(w, '.', fp);
    assert(num.subrange(0, w.len() as int) =~= w);
    assert(num.subrange(w.len() as int + 1, num.len() as int) =~= fp);
    assert(fp.subrange(0, 3) =~= fp);
    // No sign and no exponent: the digits of `w` and `fp`, the point after `w`.
    assert(num[0] == w[0]);
    assert(is_digit(w[0]));
    assert forall|j: int| 0 <= j < num.len() implies num[j] != 'e' && num[j] != 'E' by {
        if j < w.len() {
            assert(num[j] == w[j]);
            assert(is_digit(w[j]));
        } else if j > w.len() {
            assert(num[j] == fp[j - w.len() - 1]);
            assert(is_digit(fp[j - w.len() - 1]));
        }
    }
    lemma_no_exp_mark(num, 0);
    assert(mantissa(num) == Some((w + fp, w.len() as int)));
    lemma_digits_value_concat(w, fp);
    assert(pow10(3) == 1000) by {
        reveal_with_fuel(pow10, 4);
    }
    assert(pow10(0) == 1);
    assert(rounded_at(w + fp, w.len() as int + 0 + 3) == digits_value(w + fp) * pow10(0));
    assert(wn * 1000 + fn_ == us);
    assert(parse_millis_spec(num) == Some(us));
    assert(rest.subrange(k + 2, rest.len() as int) =~= seq![' '] + first + Seq::<char>::empty());
    lemma_all_ws_space();
    lemma_trim_padded(seq![' '], first, seq![]);
}

// ---------------------------------------------------------------------------
// The first line of a call
// ---------------------------------------------------------------------------

proof fn lemma_letter_edge(c: char)
    requires
        ('A' <= c <= 'Z') || ('a' <= c <= 'z'),
    ensures
        !is_ws(c),
{
}

/// A filled text ends in a character that is not white space.
proof fn lemma_filled_last(a: Seq<char>, b: Seq<char>)
    requires
        filled(b),
    ensures
        (a + b).len() > 0,
        (a + b).last() == b.last(),
        !is_ws((a + b).last()),
{
}

/// The first line of a call is filled and begins with a capital letter.
#[verifier::spinoff_prover]
#[verifier::rlimit(60)]
pub proof fn lemma_first_line(c: OpCallV)
    requires
        plain_call(c),
    ensures
        op_lines(c).len() >= 1,
        filled(op_lines(c)[0]),
        'A' <= op_lines(c)[0][0] <= 'Z',
{
    lemma_op_lines_plain(c);
    let l = op_lines(c)[0];
    assert(plain(l));
    match c {
        OpCallV::SinglePath { op, path } => {
            lemma_op_name_word(op);
            assert(l =~= op_name(op) + (seq![' '] + path));
            lemma_filled_last(op_name(op) + seq![' '], path);
            assert(op_name(op) + (seq![' '] + path) =~= (op_name(op) + seq![' ']) + path);
        },
        OpCallV::SingleString { op, value } => {
            lemma_op_name_word(op);
            assert(l =~= op_name(op) + (seq![' '] + value));
            lemma_filled_last(op_name(op) + seq![' '], value);
            assert(op_name(op) + (seq![' '] + value) =~= (op_name(op) + seq![' ']) + value);
        },
        OpCallV::PathSet { op, paths } => {
            lemma_op_name_word(op);
            lemma_path_set_filled(paths, seq![]);
            assert(path_set_text(paths) + Seq::<char>::empty() =~= path_set_text(paths));
            assert(l =~= op_name(op) + (seq![' '] + path_set_text(paths)));
            lemma_filled_last(op_name(op) + seq![' '], path_set_text(paths));
        },
        OpCallV::PathSetFlag { op, paths, substitute } => {
            lemma_op_name_word(op);
            lemma_path_set_filled(paths, seq![]);
            assert(path_set_text(paths) + Seq::<char>::empty() =~= path_set_text(paths));
            if substitute {
                reveal_strlit(" substitute");
                assert(l.last() == 'e');
                assert(l =~= op_name(op) + (seq![' '] + path_set_text(paths) + " substitute"@));
            } else {
                assert(l =~= op_name(op) + (seq![' '] + path_set_text(paths)));
                lemma_filled_last(op_name(op) + seq![' '], path_set_text(paths));
            }
        },
        OpCallV::PathSetMode { op, paths, mode } => {
            lemma_op_name_word(op);
            assert(l =~= op_name(op) + (seq![' '] + path_set_text(paths) + seq![' '] + mode));
            lemma_filled_last(op_name(op) + seq![' '] + path_set_text(paths) + seq![' '], mode);
        },
        OpCallV::NoArgs { op } => {
            lemma_op_name_word(op);
            let n = op_name(op);
            lemma_letter_edge(n[n.len() - 1]);
        },
        OpCallV::SetOptions { .. } => {
            reveal_strlit("SetOptions");
            assert(l.last() == 's');
        },
        OpCallV::CollectGarbage { .. } => {
            reveal_strlit("CollectGarbage");
            assert(l.last() == 'e');
        },
        OpCallV::VerifyStore { .. } => {
            reveal_strlit("VerifyStore");
            assert(l.last() == 'e');
        },
        OpCallV::AddPermRoot { path, gc_root } => {
            reveal_strlit("AddPermRoot ");
            lemma_filled_last("AddPermRoot "@ + path + seq![' '], gc_root);
        },
        OpCallV::AddSignatures { path, sigs } => {
            reveal_strlit("AddSignatures ");
            lemma_path_set_filled(sigs, seq![]);
            assert(path_set_text(sigs) + Seq::<char>::empty() =~= path_set_text(sigs));
            lemma_filled_last("AddSignatures "@ + path + seq![' '], path_set_text(sigs));
        },
        OpCallV::AddTextToStore { .. } => {
            reveal_strlit("AddTextToStore");
            assert(l.last() == 'e');
        },
        OpCallV::AddToStore { .. } => {
            reveal_strlit("AddToStore");
            assert(l.last() == 'e');
        },
        OpCallV::AddMultipleToStore { .. } => {
            reveal_strlit("AddMultipleToStore");
            assert(l.last() == 'e');
        },
        OpCallV::AddBuildLog { path, .. } => {
            reveal_strlit("AddBuildLog ");
            lemma_filled_last("AddBuildLog "@, path);
        },
        OpCallV::RegisterDrvOutput { value } => {
            reveal_strlit("RegisterDrvOutput ");
            lemma_filled_last("RegisterDrvOutput "@, value);
        },
        OpCallV::QueryRealisation { value } => {
            reveal_strlit("QueryRealisation ");
            lemma_filled_last("QueryRealisation "@, value);
        },
        OpCallV::QuerySubstitutablePathInfo { path } => {
            reveal_strlit("QuerySubstitutablePathInfo ");
            lemma_filled_last("QuerySubstitutablePathInfo "@, path);
        },
        OpCallV::QuerySubstitutablePathInfos { paths } => {
            reveal_strlit("QuerySubstitutablePathInfos ");
            lemma_path_set_filled(paths, seq![]);
            assert(path_set_text(paths) + Seq::<char>::empty() =~= path_set_text(paths));
            lemma_filled_last("QuerySubstitutablePathInfos "@, path_set_text(paths));
        },
        OpCallV::RawBytes { op, .. } => {
            lemma_op_name_word(op);
            let n = op_name(op);
            lemma_letter_edge(n[n.len() - 1]);
        },
    }
    lemma_letter_edge(l[0]);
}

// ---------------------------------------------------------------------------
// The lines of entries
// ---------------------------------------------------------------------------

/// An operation's expects as lines: each body indented by two spaces.
pub open spec fn indented_expects(es: Seq<ExpectV>) -> Seq<Seq<char>> {
    es.map_values(|e: ExpectV| seq![' ', ' '] + expect_body(e))
}

/// The comment lines of a response, if any.
pub open spec fn response_lines(r: Option<DaemonResponseV>) -> Seq<Seq<char>> {
    match r {
        Some(x) => note_lines(response_text(x)),
        None => seq![],
    }
}

/// The lines of an entry: the timestamped first line of the call, its
/// other lines, its expects, then the comment lines of its response.
pub open spec fn entry_lines(e: EntryV) -> Seq<Seq<char>> {
    let ol = op_lines(e.op_call);
    seq![timestamp_text(e.timestamp_us) + ol[0]] + ol.drop_first() + indented_expects(e.expects)
        + response_lines(e.response)
}

/// An entry as it reads back: without its response.
pub open spec fn without_response(e: EntryV) -> EntryV {
    EntryV { response: None, ..e }
}

pub open spec fn without_responses(es: Seq<EntryV>) -> Seq<EntryV> {
    es.map_values(|e: EntryV| without_response(e))
}

/// Entries `i..`, each after a blank line.
pub open spec fn entries_lines_from(es: Seq<EntryV>, i: int) -> Seq<Seq<char>>
    decreases es.len() - i,
{
    if i < 0 || i >= es.len() {
        seq![]
    } else {
        seq![Seq::<char>::empty()] + entry_lines(es[i]) + entries_lines_from(es, i + 1)
    }
}

/// An entry that reads back from its text: a call that does, expects that
/// do, and a response (written as comments) without line breaks.
pub open spec fn plain_entry(e: EntryV) -> bool {
    &&& plain_call(e.op_call)
    &&& (e.response matches Some(r) ==> plain_response(r))
    &&& forall|k: int| 0 <= k < e.expects.len() ==> readable_expect(#[trigger] e.expects[k])
}

/// The lines of an entry's response are note lines.
proof fn lemma_response_lines(e: EntryV)
    requires
        plain_entry(e),
    ensures
        all_notes(response_lines(e.response)),
        unlines(response_lines(e.response)) == (match e.response {
            Some(r) => response_text(r),
            None => Seq::<char>::empty(),
        }),
{
    match e.response {
        Some(r) => {
            lemma_response_notes(r);
            lemma_note_lines(response_text(r));
        },
        None => {
            assert(unlines(Seq::<Seq<char>>::empty()) == Seq::<char>::empty());
        },
    }
}

pub open spec fn plain_entries(es: Seq<EntryV>) -> bool {
    forall|k: int| 0 <= k < es.len() ==> plain_entry(#[trigger] es[k])
}

proof fn lemma_expects_text(es: Seq<ExpectV>)
    ensures
        expects_text(es) == unlines(indented_expects(es)),
    decreases es.len(),
{
    if es.len() > 0 {
        let init = es.drop_last();
        lemma_expects_text(init);
        let l = seq![' ', ' '] + expect_body(es.last());
        assert(indented_expects(es) =~= indented_expects(init) + seq![l]);
        crate::text::lemma_unlines_concat(indented_expects(init), seq![l]);
        crate::roundtrip::lemma_unlines_one(l);
        lemma_expect_line(es.last());
    } else {
        assert(indented_expects(es) =~= Seq::<Seq<char>>::empty());
    }
}

/// `unlines` of a line in front of others.
proof fn lemma_unlines_front(x: Seq<char>, a: Seq<Seq<char>>, b: Seq<Seq<char>>)
    ensures
        unlines(seq![x] + a + b) == x + nl() + unlines(a) + unlines(b),
{
    crate::text::lemma_unlines_concat(seq![x] + a, b);
    crate::text::lemma_unlines_concat(seq![x], a);
    crate::roundtrip::lemma_unlines_one(x);
}

/// The text of an entry is its lines.
#[verifier::spinoff_prover]
#[verifier::rlimit(30)]
proof fn lemma_entry_text(e: EntryV, opts: FormatOptions, counter: nat)
    requires
        plain_entry(e),
        !externalizes(opts),
    ensures
        entry_text(e, opts, counter) == unlines(entry_lines(e)),
{
    let c = e.op_call;
    let ol = op_lines(c);
    let ts = timestamp_text(e.timestamp_us);
    lemma_first_line(c);
    crate::roundtrip::lemma_op_text(c, opts, counter);
    lemma_expects_text(e.expects);
    lemma_response_lines(e);
    let ie = indented_expects(e.expects);
    let rl = response_lines(e.response);
    assert(unlines(ol) == ol[0] + seq!['\n'] + unlines(ol.drop_first()));
    crate::text::lemma_unlines_concat(ie, rl);
    assert(entry_lines(e) =~= seq![ts + ol[0]] + ol.drop_first() + (ie + rl));
    lemma_unlines_front(ts + ol[0], ol.drop_first(), ie + rl);
    assert(entry_text(e, opts, counter) =~= unlines(entry_lines(e)));
}

/// The text of entries `i..` is their lines.
pub proof fn lemma_entries_text(es: Seq<EntryV>, i: int, opts: FormatOptions, counter: nat)
    requires
        plain_entries(es),
        !externalizes(opts),
        0 <= i,
    ensures
        entries_text_from(es, i, opts, counter) == unlines(entries_lines_from(es, i)),
    decreases es.len() - i,
{
    if i < es.len() {
        let next = crate::format::next_counter(es[i].op_call, opts, counter);
        lemma_entries_text(es, i + 1, opts, next);
        assert(plain_entry(es[i]));
        lemma_entry_text(es[i], opts, counter);
        lemma_unlines_front(Seq::<char>::empty(), entry_lines(es[i]), entries_lines_from(es, i + 1));
        assert(entries_text_from(es, i, opts, counter) =~= unlines(entries_lines_from(es, i)));
    }
}

// ---------------------------------------------------------------------------
// Reading entries back
// ---------------------------------------------------------------------------

/// What an expect line reads as once trimmed: its body, without the final
/// space when nothing follows its key.
pub open spec fn expect_read(e: ExpectV) -> Seq<char> {
    if bare_expect(e) {
        bare_read(e)
    } else {
        expect_body(e)
    }
}

/// An expect whose line reads back as itself: one with text after its key
/// that reads back, or one with nothing after its key.
pub open spec fn readable_expect(e: ExpectV) -> bool {
    plain_expect(e) || bare_expect(e)
}

/// The body of an expect line: trimmed it reads as the expect, it begins
/// with `expect`, and it has no line break.
#[verifier::spinoff_prover]
#[verifier::rlimit(30)]
proof fn lemma_expect_read(e: ExpectV)
    requires
        readable_expect(e),
    ensures
        trim(expect_body(e)) == expect_read(e),
        expect_body(e)[0] == 'e',
        expect_body(e).len() > 0,
        plain(expect_body(e)),
        expect_read(e).len() >= 7,
        expect_read(e)[0] == 'e',
        expect_read(e).subrange(0, 6) == "expect"@,
        expect_read(e)[6] == ' ' || expect_read(e)[6] == ':',
        crate::parse::parse_expect_spec(expect_read(e)) == Ok::<ExpectV, ParseErrorV>(e),
{
    reveal_strlit("expect");
    reveal_strlit(" ");
    let b = expect_body(e);
    lemma_all_ws_space();
    if bare_expect(e) {
        let r = bare_read(e);
        crate::roundtrip::lemma_bare_shape(e);
        crate::roundtrip::law_bare_expect_roundtrip(e);
        assert(b =~= Seq::<char>::empty() + r + seq![' ']);
        lemma_trim_padded(seq![], r, seq![' ']);
        assert(b[0] == r[0]);
        assert(plain(" "@));
        lemma_plain_cat(r, " "@);
        assert(r[6] == ' ' || r[6] == ':') by {
            reveal_strlit(":");
            if e is Terminal {
                assert(r =~= "expect"@ + ":"@);
            } else {
                assert(r =~= "expect"@ + (" "@ + crate::roundtrip::expect_key(e)));
            }
        }
    } else {
        lemma_expect_body_rest(e);
        crate::roundtrip::law_expect_roundtrip(e);
        lemma_trim_id(b);
        assert(b.subrange(0, 6) =~= "expect"@);
        assert(b[6] == ' ' || b[6] == ':') by {
            reveal_strlit(":");
            let tail = expect_tail(e);
            crate::roundtrip::lemma_expect_tail_tight(e);
            if e is Terminal {
                assert(b =~= "expect"@ + tail);
            } else {
                assert(b =~= "expect"@ + (" "@ + tail));
            }
        }
    }
}

/// An indented expect line reads back as its expect.
#[verifier::spinoff_prover]
#[verifier::rlimit(30)]
proof fn lemma_indented_expect(e: ExpectV)
    requires
        readable_expect(e),
    ensures
        crate::op_args::indented(seq![' ', ' '] + expect_body(e)),
        !crate::op_args::block_line(seq![' ', ' '] + expect_body(e)),
        trim(seq![' ', ' '] + expect_body(e)) == expect_read(e),
        expect_read(e).len() > 0,
        !starts_with(expect_read(e), "#"@),
        starts_with(expect_read(e), "expect"@),
        crate::parse::parse_expect_spec(expect_read(e)) == Ok::<ExpectV, ParseErrorV>(e),
        plain(seq![' ', ' '] + expect_body(e)),
{
    reveal_strlit("  ");
    reveal_strlit("#");
    reveal_strlit("expect");
    let b = expect_body(e);
    let r = expect_read(e);
    let l = seq![' ', ' '] + b;
    lemma_expect_read(e);
    assert(l.subrange(0, 2) =~= "  "@);
    lemma_all_ws_space();
    assert(crate::text::all_ws(seq![' ', ' ']));
    crate::text::lemma_trim_start_ws(seq![' ', ' '], b);
    assert(trim(l) == trim(b));
    crate::roundtrip::lemma_not_prefix_at(r, "#"@, 0);
    assert(r.subrange(0, 6) =~= "expect"@);
    assert(plain(seq![' ', ' ']));
    lemma_plain_cat(seq![' ', ' '], b);
}

/// Note lines from `i` on are skipped up to the line after them.
proof fn lemma_skip_notes(ls: Seq<Seq<char>>, i: int, end: int, acc: Seq<ExpectV>)
    requires
        0 <= i <= end <= ls.len(),
        forall|x: int| i <= x < end ==> note_line(#[trigger] ls[x]),
        end == ls.len() || !crate::op_args::indented(ls[end]),
    ensures
        entry_expects(ls, i, acc) == Ok::<(Seq<ExpectV>, int), ParseErrorV>((acc, end)),
    decreases end - i,
{
    if i < end {
        lemma_note_line_read(ls[i]);
        lemma_skip_notes(ls, i + 1, end, acc);
    }
}

/// The expects of an entry, from its `k`-th on, read back up to the line
/// after them and the note lines that follow them.
#[verifier::spinoff_prover]
#[verifier::rlimit(80)]
proof fn lemma_entry_expects(ls: Seq<Seq<char>>, j: int, es: Seq<ExpectV>, k: int, end: int)
    requires
        0 <= j,
        0 <= k <= es.len(),
        j + es.len() <= end <= ls.len(),
        ls.subrange(j, j + es.len()) == indented_expects(es),
        forall|x: int| j + es.len() <= x < end ==> note_line(#[trigger] ls[x]),
        end == ls.len() || !crate::op_args::indented(ls[end]),
        forall|x: int| 0 <= x < es.len() ==> readable_expect(#[trigger] es[x]),
    ensures
        entry_expects(ls, j + k, es.take(k)) == Ok::<(Seq<ExpectV>, int), ParseErrorV>(
            (es, end),
        ),
    decreases es.len() - k,
{
    if k < es.len() {
        assert(ls[j + k] == indented_expects(es)[k]);
        lemma_indented_expect(es[k]);
        assert(es.take(k).push(es[k]) =~= es.take(k + 1));
        lemma_entry_expects(ls, j, es, k + 1, end);
    } else {
        assert(es.take(k) =~= es);
        lemma_skip_notes(ls, j + k, end, es);
    }
}

/// A blank line is not indented.
proof fn lemma_blank_line()
    ensures
        !crate::op_args::indented(Seq::<char>::empty()),
        !crate::op_args::block_line(Seq::<char>::empty()),
        trim(Seq::<char>::empty()) == Seq::<char>::empty(),
{
    reveal_strlit("  ");
    reveal_strlit("\t");
    lemma_trim_id(Seq::<char>::empty());
}

/// The first line of an entry: trimmed it is itself, it is not skipped,
/// and it reads as the entry's time and the call's first line.
#[verifier::spinoff_prover]
#[verifier::rlimit(80)]
proof fn lemma_entry_head(e: EntryV)
    requires
        plain_entry(e),
    ensures
        trim(entry_lines(e)[0]) == entry_lines(e)[0],
        entry_lines(e)[0].len() > 0,
        !crate::parse::skipped_line(entry_lines(e)[0]),
        plain(entry_lines(e)[0]),
        (if starts_with(entry_lines(e)[0], "@"@) {
            parse_timestamp_spec(entry_lines(e)[0])
        } else {
            Ok((None, entry_lines(e)[0]))
        }) == Ok::<(Option<u64>, Seq<char>), ParseErrorV>(
            (e.timestamp_us, op_lines(e.op_call)[0]),
        ),
{
    reveal_strlit("@");
    reveal_strlit("#");
    let c = e.op_call;
    let ol = op_lines(c);
    lemma_first_line(c);
    let l = entry_lines(e)[0];
    assert(l == timestamp_text(e.timestamp_us) + ol[0]);
    match e.timestamp_us {
        Some(us) => {
            lemma_timestamp_line(us, ol[0]);
            assert(l[0] == '@');
        },
        None => {
            assert(l =~= ol[0]);
            lemma_trim_id(ol[0]);
            crate::roundtrip::lemma_not_prefix_at(l, "@"@, 0);
        },
    }
    crate::roundtrip::lemma_not_prefix_at(l, "#"@, 0);
}

/// An entry reads back, without its response, from its lines when a blank
/// line or the end follows.
#[verifier::spinoff_prover]
#[verifier::rlimit(40)]
pub proof fn lemma_entry_parse(ls: Seq<Seq<char>>, pos: int, e: EntryV)
    requires
        plain_entry(e),
        0 <= pos,
        pos + entry_lines(e).len() <= ls.len(),
        ls.subrange(pos, pos + entry_lines(e).len()) == entry_lines(e),
        pos + entry_lines(e).len() == ls.len() || ls[pos + entry_lines(e).len()] == Seq::<
            char,
        >::empty(),
    ensures
        entry_spec(ls, pos) == Ok::<(EntryV, int), ParseErrorV>(
            (without_response(e), pos + entry_lines(e).len()),
        ),
        !crate::parse::skipped_line(trim(ls[pos])),
{
    let c = e.op_call;
    let ol = op_lines(c);
    let ex = indented_expects(e.expects);
    let rl = response_lines(e.response);
    let el = entry_lines(e);
    let n = el.len();
    let q = pos + ol.len() + ex.len();
    lemma_first_line(c);
    lemma_entry_head(e);
    lemma_response_lines(e);
    assert(ls[pos] == el[0]);
    assert(n == ol.len() + e.expects.len() + rl.len());
    assert forall|k: int| 0 <= k < n implies ls[pos + k] == #[trigger] el[k] by {
        assert(ls.subrange(pos, pos + n)[k] == ls[pos + k]);
    }
    // The call's other lines follow the first.
    assert(ls.subrange(pos + 1, pos + ol.len()) =~= ol.drop_first()) by {
        assert forall|k: int| 0 <= k < ol.len() - 1 implies ls.subrange(pos + 1, pos + ol.len())[k]
            == ol.drop_first()[k] by {
            assert(ls[pos + 1 + k] == el[1 + k]);
        }
    }
    assert(ls.subrange(pos + ol.len(), q) =~= ex) by {
        assert forall|k: int| 0 <= k < ex.len() implies ls.subrange(pos + ol.len(), q)[k]
            == ex[k] by {
            assert(ls[pos + ol.len() + k] == el[ol.len() + k]);
        }
    }
    assert forall|x: int| q <= x < pos + n implies note_line(#[trigger] ls[x]) by {
        assert(ls[x] == el[x - pos]);
        assert(el[x - pos] == rl[x - q]);
    }
    lemma_blank_line();
    assert(crate::roundtrip::block_ends_at(ls, pos + ol.len())) by {
        if e.expects.len() > 0 {
            assert(ls[pos + ol.len()] == ex[0]);
            lemma_indented_expect(e.expects[0]);
        } else if rl.len() > 0 {
            lemma_note_line_read(ls[pos + ol.len()]);
        }
    }
    crate::roundtrip::lemma_op_parse(c, ls, pos + 1);
    assert(pos + n == ls.len() || !crate::op_args::indented(ls[pos + n]));
    lemma_entry_expects(ls, pos + ol.len(), e.expects, 0, pos + n);
    assert(e.expects.take(0) =~= Seq::<ExpectV>::empty());
}

/// Entries `i..` read back after those before them.
#[verifier::spinoff_prover]
#[verifier::rlimit(40)]
pub proof fn lemma_entries_parse(ls: Seq<Seq<char>>, es: Seq<EntryV>, i: int, at: int)
    requires
        plain_entries(es),
        0 <= i <= es.len(),
        0 <= at <= ls.len(),
        ls.subrange(at, ls.len() as int) == entries_lines_from(es, i),
    ensures
        entries_from(ls, at, without_responses(es).take(i)) == Ok::<Seq<EntryV>, ParseErrorV>(
            without_responses(es),
        ),
    decreases es.len() - i,
{
    if i < es.len() {
        let e = es[i];
        assert(plain_entry(e));
        let el = entry_lines(e);
        let rest = entries_lines_from(es, i + 1);
        assert(entries_lines_from(es, i) == seq![Seq::<char>::empty()] + el + rest);
        assert(ls[at] == Seq::<char>::empty()) by {
            assert(ls.subrange(at, ls.len() as int)[0] == ls[at]);
        }
        lemma_blank_line();
        assert(ls.subrange(at + 1, at + 1 + el.len()) =~= el) by {
            assert forall|k: int| 0 <= k < el.len() implies ls.subrange(at + 1, at + 1 + el.len())[k]
                == el[k] by {
                assert(ls[at + 1 + k] == ls.subrange(at, ls.len() as int)[1 + k]);
            }
        }
        assert(ls.subrange(at + 1 + el.len(), ls.len() as int) =~= rest) by {
            assert forall|k: int| 0 <= k < rest.len() implies ls.subrange(
                at + 1 + el.len(),
                ls.len() as int,
            )[k] == rest[k] by {
                assert(ls[at + 1 + el.len() + k] == ls.subrange(at, ls.len() as int)[1 + el.len() + k]);
            }
        }
        assert(at + 1 + el.len() == ls.len() || ls[at + 1 + el.len()] == Seq::<char>::empty()) by {
            if at + 1 + el.len() < ls.len() {
                assert(ls[at + 1 + el.len()] == rest[0]);
                assert(i + 1 < es.len());
            }
        }
        lemma_entry_parse(ls, at + 1, e);
        let wr = without_responses(es);
        assert(wr.take(i).push(without_response(e)) =~= wr.take(i + 1));
        lemma_entries_parse(ls, es, i + 1, at + 1 + el.len());
        assert(entries_from(ls, at + 1, wr.take(i)) == entries_from(
            ls,
            at + 1 + el.len(),
            wr.take(i + 1),
        ));
        assert(entries_from(ls, at, wr.take(i)) == entries_from(ls, at + 1, wr.take(i)));
    } else {
        assert(entries_lines_from(es, i).len() == 0);
        assert(at == ls.len());
        let wr = without_responses(es);
        assert(wr.take(i) =~= wr);
        assert(entries_from(ls, at, wr.take(i)) == Ok::<Seq<EntryV>, ParseErrorV>(wr.take(i)));
    }
}

// ---------------------------------------------------------------------------
// The lines of a preamble
// ---------------------------------------------------------------------------

pub open spec fn opt_lines(prefix: Seq<char>, v: Option<Seq<char>>) -> Seq<Seq<char>> {
    match v {
        Some(x) => seq![prefix + x],
        None => seq![],
    }
}

pub open spec fn opt_set_lines(prefix: Seq<char>, v: Option<Seq<Seq<char>>>) -> Seq<Seq<char>> {
    match v {
        Some(r) => seq![prefix + path_set_text(r)],
        None => seq![],
    }
}

/// Preamble expects as lines: their bodies, not indented.
pub open spec fn expect_lines(es: Seq<ExpectV>) -> Seq<Seq<char>> {
    es.map_values(|e: ExpectV| expect_body(e))
}

/// The lines of a preamble, up to and including `---`.
pub open spec fn preamble_lines(p: PreambleV) -> Seq<Seq<char>> {
    seq![
        "# nwscript v1"@,
        "protocol: "@ + version_text(p.protocol_version),
        "features: "@ + path_set_text(p.client_features),
    ] + opt_lines("# daemon: "@, p.daemon_version) + opt_lines("# trust: "@, p.trust)
        + opt_set_lines("# server_features: "@, p.server_features) + expect_lines(p.expects)
        + seq!["---"@]
}

/// A preamble that reads back from its text: its sets and texts read back
/// as themselves, and so do its expects.
pub open spec fn plain_preamble(p: PreambleV) -> bool {
    &&& set_items(p.client_features)
    &&& (p.daemon_version matches Some(d) ==> tight(d))
    &&& (p.trust matches Some(t) ==> tight(t))
    &&& (p.server_features matches Some(f) ==> set_items(f))
    &&& forall|k: int| 0 <= k < p.expects.len() ==> readable_expect(#[trigger] p.expects[k])
}

proof fn lemma_preamble_expects_text(es: Seq<ExpectV>)
    ensures
        preamble_expects_text(es) == unlines(expect_lines(es)),
    decreases es.len(),
{
    if es.len() > 0 {
        let init = es.drop_last();
        lemma_preamble_expects_text(init);
        let l = expect_body(es.last());
        assert(expect_lines(es) =~= expect_lines(init) + seq![l]);
        crate::text::lemma_unlines_concat(expect_lines(init), seq![l]);
        crate::roundtrip::lemma_unlines_one(l);
        lemma_expect_line(es.last());
    } else {
        assert(expect_lines(es) =~= Seq::<Seq<char>>::empty());
    }
}

proof fn lemma_unlines_opt(prefix: Seq<char>, v: Option<Seq<char>>)
    ensures
        crate::format::opt_line(prefix, v) == unlines(opt_lines(prefix, v)),
{
    match v {
        Some(x) => crate::roundtrip::lemma_unlines_one(prefix + x),
        None => {},
    }
}

proof fn lemma_unlines_opt_set(prefix: Seq<char>, v: Option<Seq<Seq<char>>>)
    ensures
        crate::format::opt_set_line(prefix, v) == unlines(opt_set_lines(prefix, v)),
{
    match v {
        Some(r) => crate::roundtrip::lemma_unlines_one(prefix + path_set_text(r)),
        None => {},
    }
}

/// The text of a preamble is its lines.
pub proof fn lemma_preamble_text(p: PreambleV)
    ensures
        preamble_text(p) == unlines(preamble_lines(p)),
{
    reveal_strlit("# nwscript v1\n");
    reveal_strlit("# nwscript v1");
    reveal_strlit("---\n");
    reveal_strlit("---");
    let head = seq![
        "# nwscript v1"@,
        "protocol: "@ + version_text(p.protocol_version),
        "features: "@ + path_set_text(p.client_features),
    ];
    let a = opt_lines("# daemon: "@, p.daemon_version);
    let b = opt_lines("# trust: "@, p.trust);
    let c = opt_set_lines("# server_features: "@, p.server_features);
    let d = expect_lines(p.expects);
    let z = seq!["---"@];
    crate::text::lemma_unlines_concat(head, a);
    crate::text::lemma_unlines_concat(head + a, b);
    crate::text::lemma_unlines_concat(head + a + b, c);
    crate::text::lemma_unlines_concat(head + a + b + c, d);
    crate::text::lemma_unlines_concat(head + a + b + c + d, z);
    lemma_unlines_opt("# daemon: "@, p.daemon_version);
    lemma_unlines_opt("# trust: "@, p.trust);
    lemma_unlines_opt_set("# server_features: "@, p.server_features);
    lemma_preamble_expects_text(p.expects);
    crate::roundtrip::lemma_unlines_one("---"@);
    assert(head =~= seq!["# nwscript v1"@] + seq![head[1]] + seq![head[2]]);
    assert(unlines(head) =~= crate::format::preamble_head(p)) by {
        lemma_unlines_front("# nwscript v1"@, seq![head[1]], seq![head[2]]);
        crate::roundtrip::lemma_unlines_one(head[1]);
        crate::roundtrip::lemma_unlines_one(head[2]);
        assert("# nwscript v1\n"@ =~= "# nwscript v1"@ + nl());
    }
    assert(preamble_text(p) =~= unlines(preamble_lines(p)));
}

// ---------------------------------------------------------------------------
// Reading a preamble back
// ---------------------------------------------------------------------------

/// A comment line `# content` records what its content says.
#[verifier::spinoff_prover]
#[verifier::rlimit(80)]
proof fn lemma_comment_line(ls: Seq<Seq<char>>, i: int, st: PreambleV, content: Seq<char>, seen: bool)
    requires
        0 <= i < ls.len(),
        ls[i] == "# "@ + content || ls[i] == "# "@ + content + " "@,
        tight(content),
        content.len() > 0,
    ensures
        preamble_from(ls, i, st, seen) == preamble_from(
            ls,
            i + 1,
            crate::parse::comment_step(st, content),
            seen,
        ),
        plain(ls[i]),
{
    reveal_strlit("# ");
    reveal_strlit("#");
    reveal_strlit("---");
    reveal_strlit(" ");
    let l = "# "@ + content;
    assert(l[0] == '#');
    assert(!is_ws('#'));
    assert(l.last() == content.last());
    lemma_all_ws_space();
    assert(plain("# "@));
    lemma_plain_cat("# "@, content);
    if ls[i] == l {
        lemma_trim_id(l);
    } else {
        assert(ls[i] =~= Seq::<char>::empty() + l + seq![' ']);
        lemma_trim_padded(seq![], l, seq![' ']);
        assert(plain(" "@));
        lemma_plain_cat(l, " "@);
    }
    assert(trim(ls[i]) == l);
    assert(l != "---"@) by {
        assert("---"@[0] == '-');
    }
    assert(l.subrange(0, 1) =~= "#"@);
    assert(l.drop_first() =~= seq![' '] + content);
    assert(crate::text::trim_start_char(l.drop_first(), '#') == l.drop_first());
    assert(crate::text::trim_start_char(l, '#') == crate::text::trim_start_char(
        l.drop_first(),
        '#',
    ));
    lemma_trim_padded(seq![' '], content, seq![]);
    assert(seq![' '] + content + Seq::<char>::empty() =~= seq![' '] + content);
}

/// `key value` as comment content: tight, and what follows the key is the
/// value after a space.
#[verifier::spinoff_prover]
#[verifier::rlimit(80)]
proof fn lemma_keyed_content(key: Seq<char>, v: Seq<char>)
    requires
        key.len() > 0,
        'a' <= key[0] <= 'z',
        plain(key),
        filled(v),
    ensures
        tight(key + " "@ + v),
        (key + " "@ + v).len() > 0,
        crate::text::strip_prefix(key + " "@ + v, key) == Some(seq![' '] + v),
        trim(seq![' '] + v) == v,
{
    reveal_strlit(" ");
    let c = key + " "@ + v;
    assert(c =~= key + (seq![' '] + v));
    crate::text::lemma_starts_with_concat(key, seq![' '] + v);
    assert(c[0] == key[0]);
    assert(c.last() == v.last());
    assert(plain(" "@));
    lemma_plain_cat(key, " "@);
    lemma_plain_cat(key + " "@, v);
    lemma_all_ws_space();
    lemma_trim_padded(seq![' '], v, seq![]);
    assert(seq![' '] + v + Seq::<char>::empty() =~= seq![' '] + v);
}

/// A key alone as comment content: tight, and nothing follows the key.
proof fn lemma_bare_key(key: Seq<char>)
    requires
        key.len() > 0,
        'a' <= key[0] <= 'z',
        key.last() == ':',
        plain(key),
    ensures
        tight(key),
        crate::text::strip_prefix(key, key) == Some(Seq::<char>::empty()),
        trim(Seq::<char>::empty()) == Seq::<char>::empty(),
{
    assert(key.subrange(0, key.len() as int) =~= key);
    assert(key.subrange(key.len() as int, key.len() as int) =~= Seq::<char>::empty());
    lemma_trim_id(Seq::<char>::empty());
}

/// The version line sets the protocol version.
#[verifier::spinoff_prover]
#[verifier::rlimit(80)]
proof fn lemma_protocol_line(
    ls: Seq<Seq<char>>,
    i: int,
    st: PreambleV,
    v: crate::protocol::ProtocolVersion,
    seen: bool,
)
    requires
        0 <= i < ls.len(),
        ls[i] == "protocol: "@ + version_text(v),
    ensures
        preamble_from(ls, i, st, seen) == preamble_from(
            ls,
            i + 1,
            PreambleV { protocol_version: v, ..st },
            true,
        ),
        plain("protocol: "@ + version_text(v)),
{
    reveal_strlit("protocol: ");
    reveal_strlit("protocol:");
    reveal_strlit("#");
    reveal_strlit("---");
    let vt = version_text(v);
    let l = "protocol: "@ + vt;
    let a = dec(v.major as nat);
    let b = dec(v.minor as nat);
    lemma_dec_value(v.major as nat);
    lemma_dec_value(v.minor as nat);
    lemma_dec_filled(v.major as nat);
    lemma_dec_filled(v.minor as nat);
    assert(vt =~= a + seq!['.'] + b);
    assert(vt[0] == a[0]);
    assert(vt.last() == b.last());
    assert(plain(vt)) by {
        assert(plain(seq!['.']));
        lemma_plain_cat(a, seq!['.']);
        lemma_plain_cat(a + seq!['.'], b);
    }
    assert(l[0] == 'p');
    assert(l.last() == vt.last());
    lemma_trim_id(l);
    assert(l != "---"@) by {
        assert("---"@[0] == '-');
    }
    crate::roundtrip::lemma_not_prefix_at(l, "#"@, 0);
    assert(l.subrange(0, 9) =~= "protocol:"@);
    assert(l.subrange(9, l.len() as int) =~= seq![' '] + vt + Seq::<char>::empty());
    lemma_all_ws_space();
    lemma_trim_padded(seq![' '], vt, seq![]);
    crate::roundtrip::law_version_roundtrip(v);
    assert(plain("protocol: "@));
    lemma_plain_cat("protocol: "@, vt);
}

/// The features line sets the client features.
#[verifier::spinoff_prover]
#[verifier::rlimit(80)]
proof fn lemma_features_line(ls: Seq<Seq<char>>, i: int, st: PreambleV, fs: Seq<Seq<char>>, seen: bool)
    requires
        0 <= i < ls.len(),
        ls[i] == "features: "@ + path_set_text(fs),
        set_items(fs),
    ensures
        preamble_from(ls, i, st, seen) == preamble_from(
            ls,
            i + 1,
            PreambleV { client_features: fs, ..st },
            seen,
        ),
        plain("features: "@ + path_set_text(fs)),
{
    reveal_strlit("features: ");
    reveal_strlit("features:");
    reveal_strlit("protocol:");
    reveal_strlit("#");
    reveal_strlit("---");
    let pt = path_set_text(fs);
    let l = "features: "@ + pt;
    lemma_path_set_filled(fs, seq![]);
    assert(pt + Seq::<char>::empty() =~= pt);
    assert(l[0] == 'f');
    assert(l.last() == pt.last());
    lemma_trim_id(l);
    assert(l != "---"@) by {
        assert("---"@[0] == '-');
    }
    crate::roundtrip::lemma_not_prefix_at(l, "#"@, 0);
    crate::roundtrip::lemma_not_prefix_at(l, "protocol:"@, 0);
    assert(l.subrange(0, 9) =~= "features:"@);
    assert(l.subrange(9, l.len() as int) =~= seq![' '] + pt + Seq::<char>::empty());
    lemma_all_ws_space();
    lemma_trim_padded(seq![' '], pt, seq![]);
    crate::roundtrip::lemma_items_are_words(fs);
    crate::roundtrip::law_feature_set_roundtrip(fs);
    assert(plain("features: "@));
    lemma_plain_cat("features: "@, pt);
}

/// A preamble expect line: none of the other preamble forms, and it reads
/// back as its expect.
#[verifier::spinoff_prover]
proof fn lemma_preamble_expect_line(e: ExpectV)
    requires
        readable_expect(e),
    ensures
        trim(expect_body(e)) == expect_read(e),
        expect_read(e).len() > 0,
        expect_read(e) != "---"@,
        !starts_with(expect_read(e), "#"@),
        !starts_with(expect_read(e), "protocol:"@),
        !starts_with(expect_read(e), "features:"@),
        starts_with(expect_read(e), "expect "@) || starts_with(expect_read(e), "expect:"@),
        crate::parse::parse_expect_spec(expect_read(e)) == Ok::<ExpectV, ParseErrorV>(e),
        plain(expect_body(e)),
{
    lemma_expect_read(e);
    lemma_expect_line_start(expect_read(e));
}

/// A line that begins with `expect` and a space or colon is none of the
/// other preamble forms.
proof fn lemma_expect_line_start(r: Seq<char>)
    requires
        r.len() >= 7,
        r.subrange(0, 6) == "expect"@,
        r[6] == ' ' || r[6] == ':',
    ensures
        r != "---"@,
        !starts_with(r, "#"@),
        !starts_with(r, "protocol:"@),
        !starts_with(r, "features:"@),
        starts_with(r, "expect "@) || starts_with(r, "expect:"@),
{
    reveal_strlit("---");
    reveal_strlit("#");
    reveal_strlit("protocol:");
    reveal_strlit("features:");
    reveal_strlit("expect ");
    reveal_strlit("expect:");
    reveal_strlit("expect");
    assert(r[0] == r.subrange(0, 6)[0]);
    assert(r[0] == 'e');
    assert(r != "---"@) by {
        assert("---"@[0] == '-');
    }
    crate::roundtrip::lemma_not_prefix_at(r, "#"@, 0);
    crate::roundtrip::lemma_not_prefix_at(r, "protocol:"@, 0);
    crate::roundtrip::lemma_not_prefix_at(r, "features:"@, 0);
    if r[6] == ' ' {
        assert(r.subrange(0, 7) =~= "expect "@);
    } else {
        assert(r.subrange(0, 7) =~= "expect:"@);
    }
}

/// The line `---` ends the preamble.
#[verifier::spinoff_prover]
#[verifier::rlimit(80)]
proof fn lemma_end_line(ls: Seq<Seq<char>>, i: int, st: PreambleV)
    requires
        0 <= i < ls.len(),
        ls[i] == "---"@,
    ensures
        preamble_from(ls, i, st, true) == Ok::<(PreambleV, int), ParseErrorV>((st, i + 1)),
        plain("---"@),
{
    reveal_strlit("---");
    lemma_trim_id("---"@);
}

/// The preamble's expects, from the `k`-th on, read back up to `---`.
#[verifier::spinoff_prover]
#[verifier::rlimit(80)]
proof fn lemma_preamble_expects(ls: Seq<Seq<char>>, b: int, es: Seq<ExpectV>, k: int, st: PreambleV)
    requires
        0 <= b,
        0 <= k <= es.len(),
        b + es.len() < ls.len(),
        ls.subrange(b, b + es.len()) == expect_lines(es),
        ls[b + es.len()] == "---"@,
        st.expects == es.take(k),
        forall|x: int| 0 <= x < es.len() ==> readable_expect(#[trigger] es[x]),
    ensures
        preamble_from(ls, b + k, st, true) == Ok::<(PreambleV, int), ParseErrorV>(
            (PreambleV { expects: es, ..st }, b + es.len() + 1),
        ),
    decreases es.len() - k,
{
    if k < es.len() {
        let e = es[k];
        assert(ls[b + k] == expect_lines(es)[k]);
        lemma_preamble_expect_line(e);
        let st2 = PreambleV { expects: st.expects.push(e), ..st };
        assert(preamble_from(ls, b + k, st, true) == preamble_from(ls, b + k + 1, st2, true));
        assert(st.expects.push(e) =~= es.take(k + 1));
        lemma_preamble_expects(ls, b, es, k + 1, st2);
        assert(PreambleV { expects: es, ..st2 } == PreambleV { expects: es, ..st });
    } else {
        lemma_end_line(ls, b + k, st);
        assert(st.expects =~= es);
    }
}

/// The header line records nothing.
#[verifier::spinoff_prover]
#[verifier::rlimit(80)]
proof fn lemma_header_line(ls: Seq<Seq<char>>, st: PreambleV)
    requires
        0 < ls.len(),
        ls[0] == "# nwscript v1"@,
    ensures
        preamble_from(ls, 0, st, false) == preamble_from(ls, 1, st, false),
        plain("# nwscript v1"@),
{
    reveal_strlit("# nwscript v1");
    reveal_strlit("# ");
    reveal_strlit("nwscript v1");
    reveal_strlit("daemon:");
    reveal_strlit("trust:");
    reveal_strlit("server_features:");
    let hc = "nwscript v1"@;
    assert("# nwscript v1"@ =~= "# "@ + hc);
    assert(tight(hc)) by {
        assert(plain(hc));
        assert(hc[0] == 'n' && hc.last() == '1');
    }
    lemma_comment_line(ls, 0, st, hc, false);
    crate::roundtrip::lemma_not_prefix_at(hc, "daemon:"@, 0);
    crate::roundtrip::lemma_not_prefix_at(hc, "trust:"@, 0);
    crate::roundtrip::lemma_not_prefix_at(hc, "server_features:"@, 0);
}

/// `# daemon: D` records the daemon's version.
#[verifier::spinoff_prover]
#[verifier::rlimit(80)]
proof fn lemma_daemon_line(ls: Seq<Seq<char>>, i: int, st: PreambleV, dv: Seq<char>, seen: bool)
    requires
        0 <= i < ls.len(),
        ls[i] == "# daemon: "@ + dv,
        tight(dv),
    ensures
        preamble_from(ls, i, st, seen) == preamble_from(
            ls,
            i + 1,
            PreambleV { daemon_version: Some(dv), ..st },
            seen,
        ),
        plain("# daemon: "@ + dv),
{
    reveal_strlit("daemon:");
    reveal_strlit("# daemon: ");
    reveal_strlit("# ");
    reveal_strlit(" ");
    if dv.len() == 0 {
        let content = "daemon:"@;
        lemma_bare_key(content);
        assert(ls[i] =~= "# "@ + content + " "@);
        lemma_comment_line(ls, i, st, content, seen);
        assert(trim(Seq::<char>::empty()) == dv);
    } else {
        let content = "daemon:"@ + " "@ + dv;
        lemma_keyed_content("daemon:"@, dv);
        assert("# daemon: "@ + dv =~= "# "@ + content);
        lemma_comment_line(ls, i, st, content, seen);
    }
}

/// `# trust: T` records the trust level.
#[verifier::spinoff_prover]
#[verifier::rlimit(80)]
proof fn lemma_trust_line(ls: Seq<Seq<char>>, i: int, st: PreambleV, tv: Seq<char>, seen: bool)
    requires
        0 <= i < ls.len(),
        ls[i] == "# trust: "@ + tv,
        tight(tv),
    ensures
        preamble_from(ls, i, st, seen) == preamble_from(
            ls,
            i + 1,
            PreambleV { trust: Some(tv), ..st },
            seen,
        ),
        plain("# trust: "@ + tv),
{
    reveal_strlit("daemon:");
    reveal_strlit("trust:");
    reveal_strlit("# trust: ");
    reveal_strlit("# ");
    reveal_strlit(" ");
    if tv.len() == 0 {
        let content = "trust:"@;
        lemma_bare_key(content);
        assert(ls[i] =~= "# "@ + content + " "@);
        lemma_comment_line(ls, i, st, content, seen);
        crate::roundtrip::lemma_not_prefix_at(content, "daemon:"@, 0);
        assert(trim(Seq::<char>::empty()) == tv);
    } else {
        let content = "trust:"@ + " "@ + tv;
        lemma_keyed_content("trust:"@, tv);
        assert("# trust: "@ + tv =~= "# "@ + content);
        lemma_comment_line(ls, i, st, content, seen);
        crate::roundtrip::lemma_not_prefix_at(content, "daemon:"@, 0);
    }
}

/// `# server_features: { .. }` records the server's features.
#[verifier::spinoff_prover]
#[verifier::rlimit(80)]
proof fn lemma_server_features_line(ls: Seq<Seq<char>>, i: int, st: PreambleV, sf: Seq<Seq<char>>, seen: bool)
    requires
        0 <= i < ls.len(),
        ls[i] == "# server_features: "@ + path_set_text(sf),
        set_items(sf),
    ensures
        preamble_from(ls, i, st, seen) == preamble_from(
            ls,
            i + 1,
            PreambleV { server_features: Some(sf), ..st },
            seen,
        ),
        plain("# server_features: "@ + path_set_text(sf)),
{
    reveal_strlit("daemon:");
    reveal_strlit("trust:");
    reveal_strlit("server_features:");
    reveal_strlit("# server_features: ");
    reveal_strlit("# ");
    reveal_strlit(" ");
    let pt = path_set_text(sf);
    lemma_path_set_filled(sf, seq![]);
    assert(pt + Seq::<char>::empty() =~= pt);
    let content = "server_features:"@ + " "@ + pt;
    lemma_keyed_content("server_features:"@, pt);
    assert("# server_features: "@ + pt =~= "# "@ + content);
    lemma_comment_line(ls, i, st, content, seen);
    crate::roundtrip::lemma_not_prefix_at(content, "daemon:"@, 0);
    crate::roundtrip::lemma_not_prefix_at(content, "trust:"@, 0);
    crate::roundtrip::lemma_items_are_words(sf);
    crate::roundtrip::law_feature_set_roundtrip(sf);
}

/// A preamble reads back from its lines.
#[verifier::spinoff_prover]
#[verifier::rlimit(40)]
pub proof fn lemma_preamble_parse(ls: Seq<Seq<char>>, p: PreambleV)
    requires
        plain_preamble(p),
        preamble_lines(p).len() <= ls.len(),
        ls.subrange(0, preamble_lines(p).len() as int) == preamble_lines(p),
    ensures
        preamble_from(ls, 0, preamble_start(), false) == Ok::<(PreambleV, int), ParseErrorV>(
            (p, preamble_lines(p).len() as int),
        ),
{
    let pl = preamble_lines(p);
    let a = opt_lines("# daemon: "@, p.daemon_version);
    let b = opt_lines("# trust: "@, p.trust);
    let c = opt_set_lines("# server_features: "@, p.server_features);
    let d = expect_lines(p.expects);
    assert forall|k: int| 0 <= k < pl.len() implies ls[k] == pl[k] by {
        assert(ls.subrange(0, pl.len() as int)[k] == ls[k]);
    }
    let st0 = preamble_start();
    lemma_header_line(ls, st0);
    lemma_protocol_line(ls, 1, st0, p.protocol_version, false);
    let st1 = PreambleV { protocol_version: p.protocol_version, ..st0 };
    lemma_features_line(ls, 2, st1, p.client_features, true);
    let st2 = PreambleV { client_features: p.client_features, ..st1 };
    let i3: int = 3 + a.len() as int;
    let st3 = PreambleV { daemon_version: p.daemon_version, ..st2 };
    if let Some(dv) = p.daemon_version {
        lemma_daemon_line(ls, 3, st2, dv, true);
    }
    assert(preamble_from(ls, 0, st0, false) == preamble_from(ls, i3, st3, true));
    let i4: int = i3 + b.len();
    let st4 = PreambleV { trust: p.trust, ..st3 };
    if let Some(tv) = p.trust {
        assert(pl[i3] == "# trust: "@ + tv);
        lemma_trust_line(ls, i3, st3, tv, true);
    }
    assert(preamble_from(ls, 0, st0, false) == preamble_from(ls, i4, st4, true));
    let i5: int = i4 + c.len();
    let st5 = PreambleV { server_features: p.server_features, ..st4 };
    if let Some(sf) = p.server_features {
        assert(pl[i4] == "# server_features: "@ + path_set_text(sf));
        lemma_server_features_line(ls, i4, st4, sf, true);
    }
    assert(preamble_from(ls, 0, st0, false) == preamble_from(ls, i5, st5, true));
    assert(ls.subrange(i5, i5 + p.expects.len()) =~= d) by {
        assert forall|k: int| 0 <= k < d.len() implies ls.subrange(i5, i5 + p.expects.len())[k]
            == d[k] by {
            assert(ls[i5 + k] == pl[i5 + k]);
        }
    }
    assert(ls[i5 + p.expects.len()] == "---"@) by {
        assert(ls[i5 + p.expects.len()] == pl[i5 + p.expects.len()]);
    }
    assert(st5.expects =~= p.expects.take(0));
    lemma_preamble_expects(ls, i5, p.expects, 0, st5);
    assert(PreambleV { expects: p.expects, ..st5 } == p);
}

// ---------------------------------------------------------------------------
// The whole script
// ---------------------------------------------------------------------------

/// Every line of a preamble is plain.
#[verifier::spinoff_prover]
#[verifier::rlimit(80)]
proof fn lemma_preamble_plain(p: PreambleV)
    requires
        plain_preamble(p),
    ensures
        forall|k: int| 0 <= k < preamble_lines(p).len() ==> plain(#[trigger] preamble_lines(p)[k]),
{
    let pl = preamble_lines(p);
    let a = opt_lines("# daemon: "@, p.daemon_version);
    let b = opt_lines("# trust: "@, p.trust);
    let c = opt_set_lines("# server_features: "@, p.server_features);
    let d = expect_lines(p.expects);
    let st = preamble_start();
    lemma_header_line(pl, st);
    lemma_protocol_line(pl, 1, st, p.protocol_version, false);
    lemma_features_line(pl, 2, st, p.client_features, true);
    let i3: int = 3 + a.len() as int;
    let i4: int = i3 + b.len();
    let i5: int = i4 + c.len();
    if let Some(dv) = p.daemon_version {
        lemma_daemon_line(pl, 3, st, dv, true);
    }
    if let Some(tv) = p.trust {
        assert(pl[i3] == "# trust: "@ + tv);
        lemma_trust_line(pl, i3, st, tv, true);
    }
    if let Some(sf) = p.server_features {
        assert(pl[i4] == "# server_features: "@ + path_set_text(sf));
        lemma_server_features_line(pl, i4, st, sf, true);
    }
    lemma_end_line(pl, pl.len() - 1, st);
    assert forall|k: int| 0 <= k < pl.len() implies plain(#[trigger] pl[k]) by {
        if i5 <= k < i5 + d.len() {
            assert(pl[k] == d[k - i5]);
            lemma_preamble_expect_line(p.expects[k - i5]);
        }
    }
}

/// Every line of an entry is plain.
proof fn lemma_entry_plain(e: EntryV)
    requires
        plain_entry(e),
    ensures
        forall|k: int| 0 <= k < entry_lines(e).len() ==> plain(#[trigger] entry_lines(e)[k]),
{
    let ol = op_lines(e.op_call);
    let ex = indented_expects(e.expects);
    let rl = response_lines(e.response);
    let el = entry_lines(e);
    lemma_entry_head(e);
    lemma_first_line(e.op_call);
    lemma_op_lines_plain(e.op_call);
    lemma_response_lines(e);
    assert forall|k: int| 0 <= k < el.len() implies plain(#[trigger] el[k]) by {
        if 1 <= k < ol.len() {
            assert(el[k] == ol[k]);
        } else if ol.len() <= k < ol.len() + ex.len() {
            assert(el[k] == ex[k - ol.len()]);
            lemma_indented_expect(e.expects[k - ol.len()]);
        } else if k >= ol.len() + ex.len() {
            assert(el[k] == rl[k - ol.len() - ex.len()]);
            assert(note_line(rl[k - ol.len() - ex.len()]));
        }
    }
}

/// Every line of entries `i..` is plain.
proof fn lemma_entries_plain(es: Seq<EntryV>, i: int)
    requires
        plain_entries(es),
        0 <= i,
    ensures
        forall|k: int| 0 <= k < entries_lines_from(es, i).len() ==> plain(
            #[trigger] entries_lines_from(es, i)[k],
        ),
    decreases es.len() - i,
{
    if i < es.len() {
        let el = entry_lines(es[i]);
        let rest = entries_lines_from(es, i + 1);
        let all = entries_lines_from(es, i);
        assert(plain_entry(es[i]));
        lemma_entry_plain(es[i]);
        lemma_entries_plain(es, i + 1);
        assert(all == seq![Seq::<char>::empty()] + el + rest);
        assert forall|k: int| 0 <= k < all.len() implies plain(#[trigger] all[k]) by {
            if k == 0 {
                assert(all[k] == Seq::<char>::empty());
            } else if k < 1 + el.len() {
                assert(all[k] == el[k - 1]);
            } else {
                assert(all[k] == rest[k - 1 - el.len()]);
            }
        }
    }
}

pub open spec fn no_responses(es: Seq<EntryV>) -> bool {
    forall|k: int| 0 <= k < es.len() ==> (#[trigger] es[k]).response is None
}

/// The text of a script, whose data stays in the text, reads back as the
/// script without its responses (which are written as comments), when its
/// values read back one by one: operation calls with text that reads back
/// (`plain_call`), expects that do (`readable_expect`), responses without line
/// breaks, and a preamble whose features, version texts and expects read
/// back (`plain_preamble`). A script without responses reads back as
/// itself.
pub proof fn law_format_parse_roundtrip(s: ScriptV, opts: FormatOptions)
    requires
        !externalizes(opts),
        plain_preamble(s.preamble),
        plain_entries(s.entries),
    ensures
        parse_script_spec(script_text(s, opts)) == Ok::<ScriptV, ParseErrorV>(
            ScriptV { preamble: s.preamble, entries: without_responses(s.entries) },
        ),
        no_responses(s.entries) ==> parse_script_spec(script_text(s, opts)) == Ok::<
            ScriptV,
            ParseErrorV,
        >(s),
{
    let p = s.preamble;
    let es = s.entries;
    let pl = preamble_lines(p);
    let el = entries_lines_from(es, 0);
    let ls = pl + el;
    lemma_preamble_text(p);
    lemma_entries_text(es, 0, opts, 0);
    crate::text::lemma_unlines_concat(pl, el);
    assert(script_text(s, opts) == unlines(ls));
    lemma_preamble_plain(p);
    lemma_entries_plain(es, 0);
    assert forall|k: int| 0 <= k < ls.len() implies crate::text::line_ok(#[trigger] ls[k]) by {
        if k < pl.len() {
            assert(plain(pl[k]));
        } else {
            assert(ls[k] == el[k - pl.len()]);
            assert(plain(el[k - pl.len()]));
        }
    }
    crate::text::lemma_lines_unlines(ls);
    assert(ls.subrange(0, pl.len() as int) =~= pl);
    lemma_preamble_parse(ls, p);
    assert(ls.subrange(pl.len() as int, ls.len() as int) =~= el);
    lemma_entries_parse(ls, es, 0, pl.len() as int);
    assert(without_responses(es).take(0) =~= Seq::<EntryV>::empty());
    if no_responses(es) {
        assert(without_responses(es) =~= es) by {
            assert forall|k: int| 0 <= k < es.len() implies without_responses(es)[k] == es[k] by {
                assert(es[k].response is None);
            }
        }
    }
}

/// Formatting what was read back from a script's text gives the same text,
/// for the scripts of `law_format_parse_roundtrip` without responses.
pub proof fn law_format_parse_format(s: ScriptV, opts: FormatOptions)
    requires
        !externalizes(opts),
        plain_preamble(s.preamble),
        plain_entries(s.entries),
        no_responses(s.entries),
    ensures
        parse_script_spec(script_text(s, opts)) is Ok,
        script_text(parse_script_spec(script_text(s, opts))->Ok_0, opts) == script_text(s, opts),
{
    law_format_parse_roundtrip(s, opts);
}

} // verus!
