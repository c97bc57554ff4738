//! The comment lines the formatter writes under an operation for its
//! response: each is indented, begins with `#`, and the parser skips it.

use vstd::prelude::*;
use crate::format::{
    bool_line, bool_text, deriver_line, join, map_pairs_text, missing_text, nl, opt_line,
    opt_set_line, opt_u64_line, path_info_text, path_set_text, response_text, result_text,
    string_map_text, substitutable_text, u64_line,
};
use crate::num::dec;
use crate::roundtrip::{lemma_dec_filled, lemma_plain_cat, plain};
use crate::script::{DaemonResponseV, PathInfoV, ResultDataV};
use crate::text::{is_ws, starts_with, trim, trim_end, trim_start, unlines};

verus! {

// ---------------------------------------------------------------------------
// Note lines and note text
// ---------------------------------------------------------------------------

/// An indented comment line: two spaces, `#`, then plain text.
pub open spec fn note_line(l: Seq<char>) -> bool {
    &&& plain(l)
    &&& l.len() >= 3
    &&& l[0] == ' '
    &&& l[1] == ' '
    &&& l[2] == '#'
}

pub open spec fn all_notes(cs: Seq<Seq<char>>) -> bool {
    forall|k: int| 0 <= k < cs.len() ==> note_line(#[trigger] cs[k])
}

/// Text made of whole note lines, each ended by a line feed.
pub open spec fn note_text(t: Seq<char>) -> bool {
    exists|cs: Seq<Seq<char>>| #[trigger] unlines(cs) == t && all_notes(cs)
}

/// The note lines of a note text.
pub open spec fn note_lines(t: Seq<char>) -> Seq<Seq<char>> {
    choose|cs: Seq<Seq<char>>| #[trigger] unlines(cs) == t && all_notes(cs)
}

pub proof fn lemma_note_lines(t: Seq<char>)
    requires
        note_text(t),
    ensures
        unlines(note_lines(t)) == t,
        all_notes(note_lines(t)),
{
}

proof fn lemma_notes_empty()
    ensures
        note_text(Seq::<char>::empty()),
{
    let cs = Seq::<Seq<char>>::empty();
    assert(unlines(cs) == Seq::<char>::empty());
    assert(all_notes(cs));
}

proof fn lemma_notes_cat(a: Seq<char>, b: Seq<char>)
    requires
        note_text(a),
        note_text(b),
    ensures
        note_text(a + b),
{
    let ca = note_lines(a);
    let cb = note_lines(b);
    crate::text::lemma_unlines_concat(ca, cb);
    assert(all_notes(ca + cb)) by {
        assert forall|k: int| 0 <= k < (ca + cb).len() implies note_line(#[trigger] (ca + cb)[k]) by {
            if k < ca.len() {
                assert((ca + cb)[k] == ca[k]);
            } else {
                assert((ca + cb)[k] == cb[k - ca.len()]);
            }
        }
    }
}

/// `prefix` then plain text, as one note line.
proof fn lemma_note(prefix: Seq<char>, x: Seq<char>)
    requires
        prefix.len() >= 3,
        prefix[0] == ' ',
        prefix[1] == ' ',
        prefix[2] == '#',
        plain(prefix),
        plain(x),
    ensures
        note_text(prefix + x + nl()),
        note_line(prefix + x),
{
    lemma_plain_cat(prefix, x);
    let l = prefix + x;
    crate::roundtrip::lemma_unlines_one(l);
    assert(all_notes(seq![l]));
}

// ---------------------------------------------------------------------------
// Responses that read back as comments
// ---------------------------------------------------------------------------

pub open spec fn plain_items(ps: Seq<Seq<char>>) -> bool {
    forall|k: int| 0 <= k < ps.len() ==> plain(#[trigger] ps[k])
}

pub open spec fn plain_opt(v: Option<Seq<char>>) -> bool {
    v matches Some(s) ==> plain(s)
}

pub open spec fn plain_opt_items(v: Option<Seq<Seq<char>>>) -> bool {
    v matches Some(ps) ==> plain_items(ps)
}

/// A result whose texts have no line breaks.
pub open spec fn plain_result(r: ResultDataV) -> bool {
    match r {
        ResultDataV::Str(s) => plain(s),
        ResultDataV::PathInfo(i) => plain_opt(i.deriver) && plain_opt(i.nar_hash)
            && plain_opt_items(i.references),
        ResultDataV::StringSet(s) => plain_items(s),
        ResultDataV::StringMap(ps) => forall|k: int|
            0 <= k < ps.len() ==> plain(#[trigger] ps[k].0) && plain(ps[k].1),
        ResultDataV::SubstitutablePathInfo { deriver, .. } => plain_opt(deriver),
        ResultDataV::Missing { will_build, will_substitute, unknown, .. } => plain_items(
            will_build,
        ) && plain_items(will_substitute) && plain_items(unknown),
        _ => true,
    }
}

/// A response whose texts have no line breaks, so that each of its comment
/// lines stays one line.
pub open spec fn plain_response(r: DaemonResponseV) -> bool {
    &&& plain(r.terminal)
    &&& (r.error matches Some(e) ==> plain(e.message))
    &&& (r.result matches Some(x) ==> plain_result(x))
}

proof fn lemma_join_items_plain(ps: Seq<Seq<char>>)
    requires
        plain_items(ps),
    ensures
        plain(join(ps, ", "@)),
    decreases ps.len(),
{
    reveal_strlit(", ");
    if ps.len() > 1 {
        let init = ps.drop_last();
        assert(plain_items(init)) by {
            assert forall|k: int| 0 <= k < init.len() implies plain(#[trigger] init[k]) by {
                assert(init[k] == ps[k]);
            }
        }
        lemma_join_items_plain(init);
        assert(plain(", "@));
        lemma_plain_cat(join(init, ", "@), ", "@);
        lemma_plain_cat(join(init, ", "@) + ", "@, ps.last());
    } else if ps.len() == 1 {
        assert(plain(ps[0]));
    }
}

pub proof fn lemma_path_set_plain(ps: Seq<Seq<char>>)
    requires
        plain_items(ps),
    ensures
        plain(path_set_text(ps)),
{
    reveal_strlit("{ }");
    reveal_strlit("{ ");
    reveal_strlit(" }");
    assert(plain("{ }"@));
    assert(plain("{ "@));
    assert(plain(" }"@));
    if ps.len() > 0 {
        lemma_join_items_plain(ps);
        lemma_plain_cat("{ "@, join(ps, ", "@));
        lemma_plain_cat("{ "@ + join(ps, ", "@), " }"@);
    }
}

proof fn lemma_dec_plain(n: nat)
    ensures
        plain(dec(n)),
{
    lemma_dec_filled(n);
}

proof fn lemma_u64_note(key: Seq<char>, v: u64)
    requires
        key.len() >= 3,
        key[0] == ' ',
        key[1] == ' ',
        key[2] == '#',
        plain(key),
    ensures
        note_text(u64_line(key, v)),
{
    lemma_dec_plain(v as nat);
    lemma_note(key, dec(v as nat));
}

proof fn lemma_bool_note(key: Seq<char>, b: bool)
    requires
        key.len() >= 3,
        key[0] == ' ',
        key[1] == ' ',
        key[2] == '#',
        plain(key),
    ensures
        note_text(bool_line(key, b)),
{
    lemma_dec_plain(if b { 1 } else { 0 });
    lemma_note(key, bool_text(b));
}

proof fn lemma_opt_note(key: Seq<char>, v: Option<Seq<char>>)
    requires
        key.len() >= 3,
        key[0] == ' ',
        key[1] == ' ',
        key[2] == '#',
        plain(key),
        plain_opt(v),
    ensures
        note_text(opt_line(key, v)),
{
    match v {
        Some(s) => lemma_note(key, s),
        None => lemma_notes_empty(),
    }
}

proof fn lemma_opt_u64_note(key: Seq<char>, v: Option<u64>)
    requires
        key.len() >= 3,
        key[0] == ' ',
        key[1] == ' ',
        key[2] == '#',
        plain(key),
    ensures
        note_text(opt_u64_line(key, v)),
{
    match v {
        Some(n) => lemma_u64_note(key, n),
        None => lemma_notes_empty(),
    }
}

proof fn lemma_opt_set_note(key: Seq<char>, v: Option<Seq<Seq<char>>>)
    requires
        key.len() >= 3,
        key[0] == ' ',
        key[1] == ' ',
        key[2] == '#',
        plain(key),
        plain_opt_items(v),
    ensures
        note_text(opt_set_line(key, v)),
{
    match v {
        Some(ps) => {
            lemma_path_set_plain(ps);
            lemma_note(key, path_set_text(ps));
        },
        None => lemma_notes_empty(),
    }
}

proof fn lemma_set_note(key: Seq<char>, ps: Seq<Seq<char>>)
    requires
        key.len() >= 3,
        key[0] == ' ',
        key[1] == ' ',
        key[2] == '#',
        plain(key),
        plain_items(ps),
    ensures
        note_text(key + path_set_text(ps) + nl()),
{
    lemma_path_set_plain(ps);
    lemma_note(key, path_set_text(ps));
}

proof fn lemma_path_info_notes(i: PathInfoV)
    requires
        plain_opt(i.deriver),
        plain_opt(i.nar_hash),
        plain_opt_items(i.references),
    ensures
        note_text(path_info_text(i)),
{
    reveal_strlit("  # result.valid: ");
    reveal_strlit("  # result.deriver: ");
    reveal_strlit("  # result.narHash: ");
    reveal_strlit("  # result.references: ");
    reveal_strlit("  # result.narSize: ");
    assert(plain("  # result.valid: "@));
    assert(plain("  # result.deriver: "@));
    assert(plain("  # result.narHash: "@));
    assert(plain("  # result.references: "@));
    assert(plain("  # result.narSize: "@));
    let a = bool_line("  # result.valid: "@, i.valid);
    let b = deriver_line(i.deriver);
    let c = opt_line("  # result.narHash: "@, i.nar_hash);
    let d = opt_set_line("  # result.references: "@, i.references);
    let e = opt_u64_line("  # result.narSize: "@, i.nar_size);
    lemma_bool_note("  # result.valid: "@, i.valid);
    match i.deriver {
        Some(dv) => {
            if dv.len() > 0 {
                lemma_note("  # result.deriver: "@, dv);
            } else {
                lemma_notes_empty();
            }
        },
        None => lemma_notes_empty(),
    }
    lemma_opt_note("  # result.narHash: "@, i.nar_hash);
    lemma_opt_set_note("  # result.references: "@, i.references);
    lemma_opt_u64_note("  # result.narSize: "@, i.nar_size);
    lemma_notes_cat(a, b);
    lemma_notes_cat(a + b, c);
    lemma_notes_cat(a + b + c, d);
    lemma_notes_cat(a + b + c + d, e);
}

proof fn lemma_map_pairs_notes(ps: Seq<(Seq<char>, Seq<char>)>)
    requires
        forall|k: int| 0 <= k < ps.len() ==> plain(#[trigger] ps[k].0) && plain(ps[k].1),
    ensures
        note_text(map_pairs_text(ps)),
    decreases ps.len(),
{
    reveal_strlit("  # result: \"");
    reveal_strlit("\" = \"");
    reveal_strlit("\"\n");
    reveal_strlit("\"");
    if ps.len() == 0 {
        lemma_notes_empty();
    } else {
        let init = ps.drop_last();
        assert forall|k: int| 0 <= k < init.len() implies plain(#[trigger] init[k].0) && plain(
            init[k].1,
        ) by {
            assert(init[k] == ps[k]);
        }
        lemma_map_pairs_notes(init);
        let kv = ps.last();
        assert(plain(kv.0) && plain(kv.1)) by {
            assert(kv == ps[ps.len() - 1]);
        }
        let p0 = "  # result: \""@;
        assert(plain(p0));
        assert(plain("\" = \""@));
        assert(plain("\""@));
        lemma_plain_cat(kv.0, "\" = \""@);
        lemma_plain_cat(kv.0 + "\" = \""@, kv.1);
        lemma_plain_cat(kv.0 + "\" = \""@ + kv.1, "\""@);
        let x = kv.0 + "\" = \""@ + kv.1 + "\""@;
        lemma_note(p0, x);
        let line = p0 + kv.0 + "\" = \""@ + kv.1 + "\"\n"@;
        assert(line =~= p0 + x + nl());
        lemma_notes_cat(map_pairs_text(init), line);
        assert(map_pairs_text(ps) =~= map_pairs_text(init) + line);
    }
}

#[verifier::spinoff_prover]
proof fn lemma_string_map_notes(ps: Seq<(Seq<char>, Seq<char>)>)
    requires
        forall|k: int| 0 <= k < ps.len() ==> plain(#[trigger] ps[k].0) && plain(ps[k].1),
    ensures
        note_text(string_map_text(ps)),
{
    reveal_strlit("  # result.count: ");
    reveal_strlit("  # ... and ");
    reveal_strlit(" more\n");
    reveal_strlit(" more");
    assert(plain("  # result.count: "@));
    assert(plain("  # ... and "@));
    assert(plain(" more"@));
    let head = "  # result.count: "@ + dec(ps.len()) + nl();
    lemma_dec_plain(ps.len());
    lemma_note("  # result.count: "@, dec(ps.len()));
    let shown = ps.take(if ps.len() < 5 { ps.len() as int } else { 5 });
    assert(shown.len() <= ps.len());
    assert forall|k: int| 0 <= k < shown.len() implies plain(#[trigger] shown[k].0) && plain(
        shown[k].1,
    ) by {
        assert(shown[k] == ps[k]);
        assert(plain(ps[k].0) && plain(ps[k].1));
    }
    lemma_map_pairs_notes(shown);
    let tail = if ps.len() > 5 {
        "  # ... and "@ + dec((ps.len() - 5) as nat) + " more\n"@
    } else {
        seq![]
    };
    if ps.len() > 5 {
        let n = dec((ps.len() - 5) as nat);
        lemma_dec_plain((ps.len() - 5) as nat);
        lemma_plain_cat(n, " more"@);
        lemma_note("  # ... and "@, n + " more"@);
        assert(tail =~= "  # ... and "@ + (n + " more"@) + nl());
    } else {
        lemma_notes_empty();
    }
    lemma_notes_cat(head, map_pairs_text(shown));
    lemma_notes_cat(head + map_pairs_text(shown), tail);
}

proof fn lemma_result_notes(r: ResultDataV)
    requires
        plain_result(r),
    ensures
        note_text(result_text(r)),
{
    reveal_strlit("  # result: ");
    reveal_strlit("  # result.bytes_freed: ");
    reveal_strlit("  # result.valid: ");
    reveal_strlit("  # result.deriver: ");
    reveal_strlit("  # result.downloadSize: ");
    reveal_strlit("  # result.narSize: ");
    reveal_strlit("  # result.willBuild: ");
    reveal_strlit("  # result.willSubstitute: ");
    reveal_strlit("  # result.unknown: ");
    reveal_strlit("  # result: framed ");
    reveal_strlit("  # result: raw ");
    reveal_strlit(" bytes\n");
    reveal_strlit(" bytes");
    match r {
        ResultDataV::U64(v) => {
            assert(plain("  # result: "@));
            lemma_u64_note("  # result: "@, v);
        },
        ResultDataV::Str(s) => {
            assert(plain("  # result: "@));
            lemma_note("  # result: "@, s);
        },
        ResultDataV::PathInfo(i) => lemma_path_info_notes(i),
        ResultDataV::StringSet(s) => {
            assert(plain("  # result: "@));
            lemma_set_note("  # result: "@, s);
        },
        ResultDataV::StringMap(ps) => lemma_string_map_notes(ps),
        ResultDataV::Empty => lemma_notes_empty(),
        ResultDataV::CollectGarbage { bytes_freed } => {
            assert(plain("  # result.bytes_freed: "@));
            lemma_u64_note("  # result.bytes_freed: "@, bytes_freed);
        },
        ResultDataV::SubstitutablePathInfo { valid, deriver, download_size, nar_size, .. } => {
            assert(plain("  # result.valid: "@));
            assert(plain("  # result.deriver: "@));
            assert(plain("  # result.downloadSize: "@));
            assert(plain("  # result.narSize: "@));
            let a = bool_line("  # result.valid: "@, valid);
            let b = opt_line("  # result.deriver: "@, deriver);
            let c = opt_u64_line("  # result.downloadSize: "@, download_size);
            let d = opt_u64_line("  # result.narSize: "@, nar_size);
            lemma_bool_note("  # result.valid: "@, valid);
            lemma_opt_note("  # result.deriver: "@, deriver);
            lemma_opt_u64_note("  # result.downloadSize: "@, download_size);
            lemma_opt_u64_note("  # result.narSize: "@, nar_size);
            lemma_notes_cat(a, b);
            lemma_notes_cat(a + b, c);
            lemma_notes_cat(a + b + c, d);
            assert(substitutable_text(valid, deriver, download_size, nar_size) == a + b + c + d);
        },
        ResultDataV::Missing { will_build, will_substitute, unknown, download_size, nar_size } => {
            assert(plain("  # result.willBuild: "@));
            assert(plain("  # result.willSubstitute: "@));
            assert(plain("  # result.unknown: "@));
            assert(plain("  # result.downloadSize: "@));
            assert(plain("  # result.narSize: "@));
            let a = "  # result.willBuild: "@ + path_set_text(will_build) + nl();
            let b = "  # result.willSubstitute: "@ + path_set_text(will_substitute) + nl();
            let c = "  # result.unknown: "@ + path_set_text(unknown) + nl();
            let d = u64_line("  # result.downloadSize: "@, download_size);
            let e = u64_line("  # result.narSize: "@, nar_size);
            lemma_set_note("  # result.willBuild: "@, will_build);
            lemma_set_note("  # result.willSubstitute: "@, will_substitute);
            lemma_set_note("  # result.unknown: "@, unknown);
            lemma_u64_note("  # result.downloadSize: "@, download_size);
            lemma_u64_note("  # result.narSize: "@, nar_size);
            lemma_notes_cat(a, b);
            lemma_notes_cat(a + b, c);
            lemma_notes_cat(a + b + c, d);
            lemma_notes_cat(a + b + c + d, e);
            assert(missing_text(will_build, will_substitute, unknown, download_size, nar_size)
                =~= a + b + c + d + e);
        },
        ResultDataV::Framed(b) => {
            assert(plain("  # result: framed "@));
            assert(plain(" bytes"@));
            lemma_dec_plain(b.len());
            lemma_plain_cat(dec(b.len()), " bytes"@);
            lemma_note("  # result: framed "@, dec(b.len()) + " bytes"@);
            assert(result_text(r) =~= "  # result: framed "@ + (dec(b.len()) + " bytes"@) + nl());
        },
        ResultDataV::Raw(b) => {
            assert(plain("  # result: raw "@));
            assert(plain(" bytes"@));
            lemma_dec_plain(b.len());
            lemma_plain_cat(dec(b.len()), " bytes"@);
            lemma_note("  # result: raw "@, dec(b.len()) + " bytes"@);
            assert(result_text(r) =~= "  # result: raw "@ + (dec(b.len()) + " bytes"@) + nl());
        },
    }
}

/// The comment lines of a response are note lines.
pub proof fn lemma_response_notes(r: DaemonResponseV)
    requires
        plain_response(r),
    ensures
        note_text(response_text(r)),
{
    reveal_strlit("  # response: ");
    reveal_strlit("  # stderr.count: ");
    reveal_strlit("  # error: ");
    assert(plain("  # response: "@));
    assert(plain("  # stderr.count: "@));
    assert(plain("  # error: "@));
    let a = "  # response: "@ + r.terminal + nl();
    let b = if r.stderr_count > 1 {
        u64_line("  # stderr.count: "@, r.stderr_count)
    } else {
        seq![]
    };
    let c = match r.error {
        Some(e) => "  # error: "@ + e.message + nl(),
        None => seq![],
    };
    let d = match r.result {
        Some(res) => result_text(res),
        None => seq![],
    };
    lemma_note("  # response: "@, r.terminal);
    if r.stderr_count > 1 {
        lemma_u64_note("  # stderr.count: "@, r.stderr_count);
    } else {
        lemma_notes_empty();
    }
    match r.error {
        Some(e) => lemma_note("  # error: "@, e.message),
        None => lemma_notes_empty(),
    }
    match r.result {
        Some(res) => lemma_result_notes(res),
        None => lemma_notes_empty(),
    }
    lemma_notes_cat(a, b);
    lemma_notes_cat(a + b, c);
    lemma_notes_cat(a + b + c, d);
}

// ---------------------------------------------------------------------------
// The parser skips note lines
// ---------------------------------------------------------------------------

proof fn lemma_trim_end_first(s: Seq<char>)
    requires
        s.len() > 0,
        !is_ws(s[0]),
    ensures
        trim_end(s).len() > 0,
        trim_end(s)[0] == s[0],
    decreases s.len(),
{
    if is_ws(s.last()) {
        assert(s.len() > 1);
        lemma_trim_end_first(s.drop_last());
    }
}

/// A note line is indented and, trimmed, is a comment.
pub proof fn lemma_note_line_read(l: Seq<char>)
    requires
        note_line(l),
    ensures
        crate::op_args::indented(l),
        !crate::op_args::block_line(l),
        trim(l).len() > 0,
        starts_with(trim(l), "#"@),
        crate::text::line_ok(l),
{
    reveal_strlit("  ");
    reveal_strlit("#");
    assert(l.subrange(0, 2) =~= "  "@);
    let rest = l.subrange(2, l.len() as int);
    assert(l =~= seq![' ', ' '] + rest);
    assert(crate::text::all_ws(seq![' ', ' '])) by {
        assert(is_ws(' '));
    }
    assert(!is_ws('#'));
    crate::text::lemma_trim_start_ws(seq![' ', ' '], rest);
    assert(trim_start(l) == rest);
    lemma_trim_end_first(rest);
    assert(trim(l).subrange(0, 1) =~= "#"@);
}

} // verus!
