//! Reading formatted text back: the parser recovers what the formatter
//! wrote, for values whose text has no line breaks and no separators where
//! the format uses them.

use vstd::prelude::*;
use crate::format::{bool_text, escape_text, join, path_set_text, FormatOptions};
use crate::num::{dec, dec_int, hex_text, lemma_dec_value, lemma_parse_dec, lemma_parse_dec_int};
use crate::parse::{
    map_trim, nonempty_only, parse_expect_spec, parse_feature_set_spec, parse_matcher_spec,
    parse_path_set_spec,
    parse_version_spec,
};
use crate::protocol::{op_name, version_text, Op, ProtocolVersion};
use crate::script::{matcher_text, ExpectV, FramedDataV, MatcherV, OpCallV};
use crate::text::{
    edges_not_ws, ends_with, find_char, is_ws, lemma_find_char_concat, lemma_starts_with_concat, line_ok,
    lemma_trim_id, lemma_trim_padded, split_char, split_from, starts_with, trim, unlines,
};

verus! {

// ---------------------------------------------------------------------------
// Text classes
// ---------------------------------------------------------------------------

/// No line feed or carriage return.
pub open spec fn plain(s: Seq<char>) -> bool {
    forall|i: int| 0 <= i < s.len() ==> s[i] != '\n' && s[i] != '\r'
}

/// Plain text without white space at either end.
pub open spec fn tight(s: Seq<char>) -> bool {
    plain(s) && edges_not_ws(s)
}

/// `c` does not occur in `s`.
pub open spec fn lacks(s: Seq<char>, c: char) -> bool {
    forall|i: int| 0 <= i < s.len() ==> s[i] != c
}

/// An item of a `{ a, b }` set that reads back as itself: not empty, no
/// white space at either end, and neither `,` nor `}` in it.
pub open spec fn set_word(p: Seq<char>) -> bool {
    p.len() > 0 && edges_not_ws(p) && lacks(p, ',') && lacks(p, '}')
}

pub open spec fn set_words(ps: Seq<Seq<char>>) -> bool {
    forall|k: int| 0 <= k < ps.len() ==> set_word(#[trigger] ps[k])
}

/// A set item that also fits on one line of a script.
pub open spec fn set_item(p: Seq<char>) -> bool {
    set_word(p) && plain(p)
}

pub open spec fn set_items(ps: Seq<Seq<char>>) -> bool {
    forall|k: int| 0 <= k < ps.len() ==> set_item(#[trigger] ps[k])
}

pub proof fn lemma_items_are_words(ps: Seq<Seq<char>>)
    requires
        set_items(ps),
    ensures
        set_words(ps),
{
    assert forall|k: int| 0 <= k < ps.len() implies set_word(#[trigger] ps[k]) by {
        assert(set_item(ps[k]));
    }
}

// ---------------------------------------------------------------------------
// Splitting
// ---------------------------------------------------------------------------

proof fn lemma_split_shift(pre: Seq<char>, rest: Seq<char>, c: char, a: int, b: int)
    requires
        0 <= a <= b <= rest.len(),
    ensures
        split_from(pre + rest, c, pre.len() + a, pre.len() + b) == split_from(rest, c, a, b),
    decreases rest.len() - b,
{
    let s = pre + rest;
    if b >= rest.len() {
        assert(s.subrange(pre.len() + a, s.len() as int) =~= rest.subrange(a, rest.len() as int));
    } else {
        assert(s[pre.len() + b] == rest[b]);
        if rest[b] == c {
            assert(s.subrange(pre.len() + a, pre.len() + b) =~= rest.subrange(a, b));
            lemma_split_shift(pre, rest, c, b + 1, b + 1);
        } else {
            lemma_split_shift(pre, rest, c, a, b + 1);
        }
    }
}

proof fn lemma_split_concat_from(x: Seq<char>, c: char, y: Seq<char>, a: int, b: int)
    requires
        0 <= a <= b <= x.len(),
    ensures
        split_from(x + seq![c] + y, c, a, b) == split_from(x, c, a, b) + split_char(y, c),
    decreases x.len() - b,
{
    let s = x + seq![c] + y;
    if b >= x.len() {
        assert(s[b] == c);
        assert(s.subrange(a, b) =~= x.subrange(a, x.len() as int));
        assert(s =~= (x + seq![c]) + y);
        lemma_split_shift(x + seq![c], y, c, 0, 0);
    } else {
        assert(s[b] == x[b]);
        if x[b] == c {
            assert(s.subrange(a, b) =~= x.subrange(a, b));
            lemma_split_concat_from(x, c, y, b + 1, b + 1);
            assert(split_from(s, c, a, b) =~= seq![x.subrange(a, b)] + (split_from(
                x,
                c,
                b + 1,
                b + 1,
            ) + split_char(y, c)));
        } else {
            lemma_split_concat_from(x, c, y, a, b + 1);
        }
    }
}

/// Splitting at a separator splits each side.
pub proof fn lemma_split_concat(x: Seq<char>, c: char, y: Seq<char>)
    ensures
        split_char(x + seq![c] + y, c) == split_char(x, c) + split_char(y, c),
{
    lemma_split_concat_from(x, c, y, 0, 0);
}

proof fn lemma_split_none_from(y: Seq<char>, c: char, a: int, b: int)
    requires
        0 <= a <= b <= y.len(),
        lacks(y, c),
    ensures
        split_from(y, c, a, b) == seq![y.subrange(a, y.len() as int)],
    decreases y.len() - b,
{
    if b < y.len() {
        lemma_split_none_from(y, c, a, b + 1);
    }
}

pub proof fn lemma_split_none(y: Seq<char>, c: char)
    requires
        lacks(y, c),
    ensures
        split_char(y, c) == seq![y],
{
    lemma_split_none_from(y, c, 0, 0);
    assert(y.subrange(0, y.len() as int) =~= y);
}

/// Each item after the first, with the space that follows its comma.
pub open spec fn spaced(ps: Seq<Seq<char>>) -> Seq<Seq<char>> {
    Seq::new(ps.len(), |k: int| if k == 0 { ps[0] } else { seq![' '] + ps[k] })
}

proof fn lemma_split_join(ps: Seq<Seq<char>>)
    requires
        ps.len() > 0,
        set_words(ps),
    ensures
        split_char(join(ps, ", "@), ',') == spaced(ps),
    decreases ps.len(),
{
    reveal_strlit(", ");
    assert(set_word(ps[0]));
    if ps.len() == 1 {
        lemma_split_none(ps[0], ',');
        assert(spaced(ps) =~= seq![ps[0]]);
    } else {
        let init = ps.drop_last();
        assert(set_words(init)) by {
            assert forall|k: int| 0 <= k < init.len() implies set_word(#[trigger] init[k]) by {
                assert(init[k] == ps[k]);
            }
        }
        lemma_split_join(init);
        assert(set_word(ps.last()));
        let tail = seq![' '] + ps.last();
        assert(lacks(tail, ',')) by {
            assert forall|i: int| 0 <= i < tail.len() implies tail[i] != ',' by {
                if i > 0 {
                    assert(tail[i] == ps.last()[i - 1]);
                }
            }
        }
        assert(join(ps, ", "@) =~= join(init, ", "@) + seq![','] + tail);
        lemma_split_concat(join(init, ", "@), ',', tail);
        lemma_split_none(tail, ',');
        assert(spaced(ps) =~= spaced(init) + seq![tail]);
    }
}

proof fn lemma_trim_spaced(ps: Seq<Seq<char>>)
    requires
        ps.len() > 0,
        set_words(ps),
    ensures
        map_trim(spaced(ps)) == ps,
{
    assert forall|k: int| 0 <= k < ps.len() implies #[trigger] map_trim(spaced(ps))[k] == ps[k] by {
        assert(set_word(ps[k]));
        if k == 0 {
            lemma_trim_id(ps[0]);
        } else {
            lemma_trim_padded(seq![' '], ps[k], seq![]);
            assert(seq![' '] + ps[k] + Seq::<char>::empty() =~= seq![' '] + ps[k]);
        }
    }
    assert(map_trim(spaced(ps)) =~= ps);
}

/// The join of set items: neither end is white space, and no `}` occurs.
proof fn lemma_join_shape(ps: Seq<Seq<char>>)
    requires
        ps.len() > 0,
        set_words(ps),
    ensures
        edges_not_ws(join(ps, ", "@)),
        join(ps, ", "@).len() > 0,
        lacks(join(ps, ", "@), '}'),
        join(ps, ", "@)[0] == ps[0][0],
    decreases ps.len(),
{
    reveal_strlit(", ");
    assert(set_word(ps[0]));
    if ps.len() > 1 {
        let init = ps.drop_last();
        assert(set_words(init)) by {
            assert forall|k: int| 0 <= k < init.len() implies set_word(#[trigger] init[k]) by {
                assert(init[k] == ps[k]);
            }
        }
        lemma_join_shape(init);
        assert(set_word(ps.last()));
        let j = join(ps, ", "@);
        assert(j =~= join(init, ", "@) + ", "@ + ps.last());
        assert(j.last() == ps.last().last());
        assert(j[0] == join(init, ", "@)[0]);
        assert forall|i: int| 0 <= i < j.len() implies j[i] != '}' by {
            let n = join(init, ", "@).len();
            if i < n {
                assert(j[i] == join(init, ", "@)[i]);
            } else if i >= n + 2 {
                assert(j[i] == ps.last()[i - n - 2]);
            }
        }
    }
}

// ---------------------------------------------------------------------------
// Sets
// ---------------------------------------------------------------------------

pub(crate) proof fn lemma_all_ws_space()
    ensures
        crate::text::all_ws(seq![' ']),
        crate::text::all_ws(Seq::<char>::empty()),
{
    assert(is_ws(' '));
}

/// The text inside the braces of a set reads back as its items.
proof fn lemma_set_inner(ps: Seq<Seq<char>>)
    requires
        set_words(ps),
    ensures
        ps.len() > 0 ==> trim(seq![' '] + join(ps, ", "@) + seq![' ']) == join(ps, ", "@),
        ps.len() > 0 ==> map_trim(split_char(join(ps, ", "@), ',')) == ps,
{
    if ps.len() > 0 {
        lemma_join_shape(ps);
        lemma_all_ws_space();
        lemma_trim_padded(seq![' '], join(ps, ", "@), seq![' ']);
        lemma_split_join(ps);
        lemma_trim_spaced(ps);
    }
}

/// A path set followed by `rest` reads back as the set and `rest`.
pub proof fn law_path_set_roundtrip(ps: Seq<Seq<char>>, rest: Seq<char>)
    requires
        set_words(ps),
        rest.len() == 0 || !is_ws(rest.last()),
    ensures
        parse_path_set_spec(path_set_text(ps) + rest) == Ok::<
            (Seq<Seq<char>>, Seq<char>),
            crate::parse::ParseErrorV,
        >((ps, rest)),
{
    reveal_strlit("{ }");
    reveal_strlit("{ ");
    reveal_strlit(" }");
    reveal_strlit("{");
    let t0 = path_set_text(ps) + rest;
    // The text begins with `{` and ends as `rest` (or `}`) does.
    assert(t0[0] == '{');
    assert(edges_not_ws(t0)) by {
        assert(!is_ws('{'));
        assert(!is_ws('}'));
        if rest.len() > 0 {
            assert(t0.last() == rest.last());
        } else {
            assert(t0.last() == '}');
        }
    }
    lemma_trim_id(t0);
    assert(starts_with(t0, "{"@)) by {
        assert(t0.subrange(0, 1) =~= "{"@);
    }
    if ps.len() == 0 {
        assert(path_set_text(ps) =~= seq!['{', ' '] + seq!['}']);
        assert(t0 =~= seq!['{', ' '] + seq!['}'] + rest);
        lemma_find_char_concat(seq!['{', ' '], '}', rest);
        assert(t0.subrange(1, 2) =~= seq![' ']);
        lemma_all_ws_space();
        lemma_trim_padded(seq![' '], seq![], seq![]);
        assert(seq![' '] + Seq::<char>::empty() + Seq::<char>::empty() =~= seq![' ']);
        assert(t0.subrange(3, t0.len() as int) =~= rest);
        assert(find_char(t0, '}') == Some(2int));
        assert(trim(t0.subrange(1, 2)).len() == 0);
        assert(parse_path_set_spec(t0) == Ok::<
            (Seq<Seq<char>>, Seq<char>),
            crate::parse::ParseErrorV,
        >((seq![], rest)));
        assert(ps =~= Seq::<Seq<char>>::empty());
    } else {
        let j = join(ps, ", "@);
        lemma_join_shape(ps);
        let pre = seq!['{', ' '] + j + seq![' '];
        assert(t0 =~= pre + seq!['}'] + rest);
        assert(lacks(pre, '}')) by {
            assert forall|i: int| 0 <= i < pre.len() implies pre[i] != '}' by {
                if 2 <= i < 2 + j.len() {
                    assert(pre[i] == j[i - 2]);
                }
            }
        }
        lemma_find_char_concat(pre, '}', rest);
        assert(t0.subrange(1, pre.len() as int) =~= seq![' '] + j + seq![' ']);
        lemma_set_inner(ps);
        assert(t0.subrange(pre.len() as int + 1, t0.len() as int) =~= rest);
        assert(find_char(t0, '}') == Some(pre.len() as int));
        assert(trim(t0.subrange(1, pre.len() as int)) == j);
    }
}

/// A feature set reads back as its items.
pub proof fn law_feature_set_roundtrip(fs: Seq<Seq<char>>)
    requires
        set_words(fs),
    ensures
        parse_feature_set_spec(path_set_text(fs)) == fs,
{
    reveal_strlit("{ }");
    reveal_strlit("{ ");
    reveal_strlit(" }");
    reveal_strlit("{");
    reveal_strlit("}");
    let t0 = path_set_text(fs);
    assert(!is_ws('{') && !is_ws('}'));
    assert(t0[0] == '{');
    assert(t0.last() == '}');
    lemma_trim_id(t0);
    assert(starts_with(t0, "{"@)) by {
        assert(t0.subrange(0, 1) =~= "{"@);
    }
    assert(ends_with(t0, "}"@)) by {
        assert(t0.subrange(t0.len() - 1, t0.len() as int) =~= "}"@);
    }
    if fs.len() == 0 {
        assert(t0.subrange(1, t0.len() - 1) =~= seq![' ']);
        lemma_all_ws_space();
        lemma_trim_padded(seq![' '], seq![], seq![]);
        assert(seq![' '] + Seq::<char>::empty() + Seq::<char>::empty() =~= seq![' ']);
    } else {
        let j = join(fs, ", "@);
        assert(t0.subrange(1, t0.len() - 1) =~= seq![' '] + j + seq![' ']);
        lemma_set_inner(fs);
        lemma_join_shape(fs);
        lemma_nonempty_only_id(fs);
    }
}

proof fn lemma_nonempty_only_id(fs: Seq<Seq<char>>)
    requires
        set_words(fs),
    ensures
        nonempty_only(fs) == fs,
    decreases fs.len(),
{
    if fs.len() > 0 {
        let init = fs.drop_last();
        assert(set_words(init)) by {
            assert forall|k: int| 0 <= k < init.len() implies set_word(#[trigger] init[k]) by {
                assert(init[k] == fs[k]);
            }
        }
        lemma_nonempty_only_id(init);
        assert(set_word(fs.last()));
        assert(init.push(fs.last()) =~= fs);
    }
}

// ---------------------------------------------------------------------------
// Versions and matchers
// ---------------------------------------------------------------------------

/// A protocol version reads back from its text.
pub proof fn law_version_roundtrip(v: ProtocolVersion)
    ensures
        parse_version_spec(version_text(v)) == Some(v),
{
    let a = dec(v.major as nat);
    let b = dec(v.minor as nat);
    lemma_dec_value(v.major as nat);
    lemma_dec_value(v.minor as nat);
    assert(lacks(a, '.')) by {
        assert forall|i: int| 0 <= i < a.len() implies a[i] != '.' by {
            assert(crate::num::is_digit(a[i]));
        }
    }
    assert(lacks(b, '.')) by {
        assert forall|i: int| 0 <= i < b.len() implies b[i] != '.' by {
            assert(crate::num::is_digit(b[i]));
        }
    }
    lemma_split_concat(a, '.', b);
    lemma_split_none(a, '.');
    lemma_split_none(b, '.');
    assert(split_char(version_text(v), '.') =~= seq![a, b]);
    lemma_parse_dec(v.major as nat, 65535);
    lemma_parse_dec(v.minor as nat, 255);
}

/// A matcher whose text reads back as itself: an exact string must be
/// tight, must not be slash-delimited like a regex and must not begin like a
/// comparison; a regex must be plain.
pub open spec fn plain_matcher(m: MatcherV) -> bool {
    match m {
        MatcherV::Exact(s) => tight(s) && !(starts_with(s, "/"@) && ends_with(s, "/"@) && s.len()
            > 1) && !starts_with(s, ">"@) && !starts_with(s, "<"@),
        MatcherV::Regex(r) => plain(r),
        _ => true,
    }
}

proof fn lemma_comparison_text(op: Seq<char>, n: i64)
    ensures
        op + " "@ + dec_int(n as int) == op + (" "@ + dec_int(n as int)),
        trim(" "@ + dec_int(n as int)) == dec_int(n as int),
        tight(dec_int(n as int)),
{
    reveal_strlit(" ");
    assert(op + " "@ + dec_int(n as int) =~= op + (" "@ + dec_int(n as int)));
    let d = dec_int(n as int);
    let m = if n < 0 {
        (-(n as int)) as nat
    } else {
        n as nat
    };
    lemma_dec_value(m);
    assert(crate::num::is_digit(dec(m).last()));
    assert(d.len() > 0);
    assert(!is_ws(d[0])) by {
        if n < 0 {
            assert(d[0] == '-');
        } else {
            assert(crate::num::is_digit(dec(m)[0]));
        }
    }
    assert(d.last() == dec(m).last());
    assert(plain(d)) by {
        assert forall|i: int| 0 <= i < d.len() implies d[i] != '\n' && d[i] != '\r' by {
            if n < 0 {
                if i > 0 {
                    assert(d[i] == dec(m)[i - 1]);
                    assert(crate::num::is_digit(dec(m)[i - 1]));
                }
            } else {
                assert(crate::num::is_digit(dec(m)[i]));
            }
        }
    }
    lemma_all_ws_space();
    lemma_trim_padded(seq![' '], d, seq![]);
    assert(" "@ =~= seq![' ']);
    assert(seq![' '] + d + Seq::<char>::empty() =~= seq![' '] + d);
}

/// A text that differs from `p` at position `i` does not begin with `p`.
pub proof fn lemma_not_prefix_at(t: Seq<char>, p: Seq<char>, i: int)
    requires
        0 <= i < p.len(),
        i < t.len(),
        t[i] != p[i],
    ensures
        !starts_with(t, p),
{
    if starts_with(t, p) {
        assert(t.subrange(0, p.len() as int)[i] == t[i]);
    }
}

proof fn lemma_exact_roundtrip(s: Seq<char>)
    requires
        plain_matcher(MatcherV::Exact(s)),
    ensures
        parse_matcher_spec(s) == Ok::<MatcherV, crate::parse::ParseErrorV>(MatcherV::Exact(s)),
{
    reveal_strlit(">=");
    reveal_strlit("<=");
    reveal_strlit(">");
    reveal_strlit("<");
    assert(!starts_with(s, ">="@)) by {
        if starts_with(s, ">="@) {
            assert(s.subrange(0, 1) =~= s.subrange(0, 2).subrange(0, 1));
            assert(">="@.subrange(0, 1) =~= ">"@);
        }
    }
    assert(!starts_with(s, "<="@)) by {
        if starts_with(s, "<="@) {
            assert(s.subrange(0, 1) =~= s.subrange(0, 2).subrange(0, 1));
            assert("<="@.subrange(0, 1) =~= "<"@);
        }
    }
}

proof fn lemma_regex_roundtrip(r: Seq<char>)
    ensures
        parse_matcher_spec(seq!['/'] + r + seq!['/']) == Ok::<MatcherV, crate::parse::ParseErrorV>(
            MatcherV::Regex(r),
        ),
{
    reveal_strlit("/");
    let t = seq!['/'] + r + seq!['/'];
    assert(t.subrange(0, 1) =~= "/"@);
    assert(t.subrange(t.len() - 1, t.len() as int) =~= "/"@);
    assert(t.subrange(1, t.len() - 1) =~= r);
}

proof fn lemma_gt_roundtrip(n: i64)
    ensures
        parse_matcher_spec("> "@ + dec_int(n as int)) == Ok::<MatcherV, crate::parse::ParseErrorV>(
            MatcherV::GreaterThan(n),
        ),
{
    reveal_strlit("/");
    reveal_strlit(">=");
    reveal_strlit("<=");
    reveal_strlit(">");
    reveal_strlit("> ");
    reveal_strlit(" ");
    lemma_comparison_text(">"@, n);
    lemma_parse_dec_int(n);
    let t = "> "@ + dec_int(n as int);
    assert(t =~= ">"@ + (" "@ + dec_int(n as int)));
    assert(t.subrange(0, 1) =~= ">"@);
    assert(t.subrange(1, t.len() as int) =~= " "@ + dec_int(n as int));
    assert(t[1] == ' ');
    lemma_not_prefix_at(t, ">="@, 1);
    lemma_not_prefix_at(t, "<="@, 1);
    lemma_not_prefix_at(t, "/"@, 0);
}

proof fn lemma_lt_roundtrip(n: i64)
    ensures
        parse_matcher_spec("< "@ + dec_int(n as int)) == Ok::<MatcherV, crate::parse::ParseErrorV>(
            MatcherV::LessThan(n),
        ),
{
    reveal_strlit("/");
    reveal_strlit(">=");
    reveal_strlit("<=");
    reveal_strlit(">");
    reveal_strlit("<");
    reveal_strlit("< ");
    reveal_strlit(" ");
    lemma_comparison_text("<"@, n);
    lemma_parse_dec_int(n);
    let t = "< "@ + dec_int(n as int);
    assert(t =~= "<"@ + (" "@ + dec_int(n as int)));
    assert(t.subrange(0, 1) =~= "<"@);
    assert(t.subrange(1, t.len() as int) =~= " "@ + dec_int(n as int));
    assert(t[1] == ' ');
    lemma_not_prefix_at(t, ">="@, 0);
    lemma_not_prefix_at(t, "<="@, 1);
    lemma_not_prefix_at(t, ">"@, 0);
    lemma_not_prefix_at(t, "/"@, 0);
}

proof fn lemma_ge_roundtrip(n: i64)
    ensures
        parse_matcher_spec(">= "@ + dec_int(n as int)) == Ok::<MatcherV, crate::parse::ParseErrorV>(
            MatcherV::GreaterOrEqual(n),
        ),
{
    reveal_strlit("/");
    reveal_strlit(">=");
    reveal_strlit(">= ");
    reveal_strlit(" ");
    lemma_comparison_text(">="@, n);
    lemma_parse_dec_int(n);
    let t = ">= "@ + dec_int(n as int);
    assert(t =~= ">="@ + (" "@ + dec_int(n as int)));
    assert(t.subrange(0, 2) =~= ">="@);
    assert(t.subrange(2, t.len() as int) =~= " "@ + dec_int(n as int));
    assert(t[0] == '>');
    lemma_not_prefix_at(t, "/"@, 0);
}

proof fn lemma_le_roundtrip(n: i64)
    ensures
        parse_matcher_spec("<= "@ + dec_int(n as int)) == Ok::<MatcherV, crate::parse::ParseErrorV>(
            MatcherV::LessOrEqual(n),
        ),
{
    reveal_strlit("/");
    reveal_strlit(">=");
    reveal_strlit("<=");
    reveal_strlit("<= ");
    reveal_strlit(" ");
    lemma_comparison_text("<="@, n);
    lemma_parse_dec_int(n);
    let t = "<= "@ + dec_int(n as int);
    assert(t =~= "<="@ + (" "@ + dec_int(n as int)));
    assert(t.subrange(0, 2) =~= "<="@);
    assert(t.subrange(2, t.len() as int) =~= " "@ + dec_int(n as int));
    assert(t[0] == '<');
    lemma_not_prefix_at(t, "/"@, 0);
    lemma_not_prefix_at(t, ">="@, 0);
}

/// A matcher reads back from its text.
pub proof fn law_matcher_roundtrip(m: MatcherV)
    requires
        plain_matcher(m),
    ensures
        parse_matcher_spec(matcher_text(m)) == Ok::<MatcherV, crate::parse::ParseErrorV>(m),
{
    match m {
        MatcherV::Exact(s) => lemma_exact_roundtrip(s),
        MatcherV::Regex(r) => lemma_regex_roundtrip(r),
        MatcherV::GreaterThan(n) => lemma_gt_roundtrip(n),
        MatcherV::LessThan(n) => lemma_lt_roundtrip(n),
        MatcherV::GreaterOrEqual(n) => lemma_ge_roundtrip(n),
        MatcherV::LessOrEqual(n) => lemma_le_roundtrip(n),
    }
}

// ---------------------------------------------------------------------------
// Operation names
// ---------------------------------------------------------------------------

/// A name made of ASCII letters, beginning with a capital.
pub open spec fn name_word(s: Seq<char>) -> bool {
    &&& s.len() > 0
    &&& 'A' <= s[0] <= 'Z'
    &&& forall|i: int| 0 <= i < s.len() ==> ('A' <= #[trigger] s[i] <= 'Z') || ('a' <= s[i] <= 'z')
}

/// Every operation's name is a word.
pub proof fn lemma_op_name_word(op: Op)
    ensures
        name_word(op_name(op)),
{
    match op {
        Op::IsValidPath => {
            reveal_strlit("IsValidPath");
            assert(op_name(op) =~= seq!['I', 's', 'V', 'a', 'l', 'i', 'd', 'P', 'a', 't', 'h']);
        },
        Op::QueryReferrers => {
            reveal_strlit("QueryReferrers");
            assert(op_name(op) =~= seq!['Q', 'u', 'e', 'r', 'y', 'R', 'e', 'f', 'e', 'r', 'r', 'e', 'r', 's']);
        },
        Op::AddToStore => {
            reveal_strlit("AddToStore");
            assert(op_name(op) =~= seq!['A', 'd', 'd', 'T', 'o', 'S', 't', 'o', 'r', 'e']);
        },
        Op::AddTextToStore => {
            reveal_strlit("AddTextToStore");
            assert(op_name(op) =~= seq!['A', 'd', 'd', 'T', 'e', 'x', 't', 'T', 'o', 'S', 't', 'o', 'r', 'e']);
        },
        Op::BuildPaths => {
            reveal_strlit("BuildPaths");
            assert(op_name(op) =~= seq!['B', 'u', 'i', 'l', 'd', 'P', 'a', 't', 'h', 's']);
        },
        Op::EnsurePath => {
            reveal_strlit("EnsurePath");
            assert(op_name(op) =~= seq!['E', 'n', 's', 'u', 'r', 'e', 'P', 'a', 't', 'h']);
        },
        Op::AddTempRoot => {
            reveal_strlit("AddTempRoot");
            assert(op_name(op) =~= seq!['A', 'd', 'd', 'T', 'e', 'm', 'p', 'R', 'o', 'o', 't']);
        },
        Op::AddIndirectRoot => {
            reveal_strlit("AddIndirectRoot");
            assert(op_name(op) =~= seq!['A', 'd', 'd', 'I', 'n', 'd', 'i', 'r', 'e', 'c', 't', 'R', 'o', 'o', 't']);
        },
        Op::SyncWithGC => {
            reveal_strlit("SyncWithGC");
            assert(op_name(op) =~= seq!['S', 'y', 'n', 'c', 'W', 'i', 't', 'h', 'G', 'C']);
        },
        Op::FindRoots => {
            reveal_strlit("FindRoots");
            assert(op_name(op) =~= seq!['F', 'i', 'n', 'd', 'R', 'o', 'o', 't', 's']);
        },
        Op::QueryDeriver => {
            reveal_strlit("QueryDeriver");
            assert(op_name(op) =~= seq!['Q', 'u', 'e', 'r', 'y', 'D', 'e', 'r', 'i', 'v', 'e', 'r']);
        },
        Op::SetOptions => {
            reveal_strlit("SetOptions");
            assert(op_name(op) =~= seq!['S', 'e', 't', 'O', 'p', 't', 'i', 'o', 'n', 's']);
        },
        Op::CollectGarbage => {
            reveal_strlit("CollectGarbage");
            assert(op_name(op) =~= seq!['C', 'o', 'l', 'l', 'e', 'c', 't', 'G', 'a', 'r', 'b', 'a', 'g', 'e']);
        },
        Op::QuerySubstitutablePathInfo => {
            reveal_strlit("QuerySubstitutablePathInfo");
            assert(op_name(op) =~= seq!['Q', 'u', 'e', 'r', 'y', 'S', 'u', 'b', 's', 't', 'i', 't', 'u', 't', 'a', 'b', 'l', 'e', 'P', 'a', 't', 'h', 'I', 'n', 'f', 'o']);
        },
        Op::QueryDerivationOutputs => {
            reveal_strlit("QueryDerivationOutputs");
            assert(op_name(op) =~= seq!['Q', 'u', 'e', 'r', 'y', 'D', 'e', 'r', 'i', 'v', 'a', 't', 'i', 'o', 'n', 'O', 'u', 't', 'p', 'u', 't', 's']);
        },
        Op::QueryAllValidPaths => {
            reveal_strlit("QueryAllValidPaths");
            assert(op_name(op) =~= seq!['Q', 'u', 'e', 'r', 'y', 'A', 'l', 'l', 'V', 'a', 'l', 'i', 'd', 'P', 'a', 't', 'h', 's']);
        },
        Op::QueryPathInfo => {
            reveal_strlit("QueryPathInfo");
            assert(op_name(op) =~= seq!['Q', 'u', 'e', 'r', 'y', 'P', 'a', 't', 'h', 'I', 'n', 'f', 'o']);
        },
        Op::QueryDerivationOutputNames => {
            reveal_strlit("QueryDerivationOutputNames");
            assert(op_name(op) =~= seq!['Q', 'u', 'e', 'r', 'y', 'D', 'e', 'r', 'i', 'v', 'a', 't', 'i', 'o', 'n', 'O', 'u', 't', 'p', 'u', 't', 'N', 'a', 'm', 'e', 's']);
        },
        Op::QueryPathFromHashPart => {
            reveal_strlit("QueryPathFromHashPart");
            assert(op_name(op) =~= seq!['Q', 'u', 'e', 'r', 'y', 'P', 'a', 't', 'h', 'F', 'r', 'o', 'm', 'H', 'a', 's', 'h', 'P', 'a', 'r', 't']);
        },
        Op::QuerySubstitutablePathInfos => {
            reveal_strlit("QuerySubstitutablePathInfos");
            assert(op_name(op) =~= seq!['Q', 'u', 'e', 'r', 'y', 'S', 'u', 'b', 's', 't', 'i', 't', 'u', 't', 'a', 'b', 'l', 'e', 'P', 'a', 't', 'h', 'I', 'n', 'f', 'o', 's']);
        },
        Op::QueryValidPaths => {
            reveal_strlit("QueryValidPaths");
            assert(op_name(op) =~= seq!['Q', 'u', 'e', 'r', 'y', 'V', 'a', 'l', 'i', 'd', 'P', 'a', 't', 'h', 's']);
        },
        Op::QuerySubstitutablePaths => {
            reveal_strlit("QuerySubstitutablePaths");
            assert(op_name(op) =~= seq!['Q', 'u', 'e', 'r', 'y', 'S', 'u', 'b', 's', 't', 'i', 't', 'u', 't', 'a', 'b', 'l', 'e', 'P', 'a', 't', 'h', 's']);
        },
        Op::QueryValidDerivers => {
            reveal_strlit("QueryValidDerivers");
            assert(op_name(op) =~= seq!['Q', 'u', 'e', 'r', 'y', 'V', 'a', 'l', 'i', 'd', 'D', 'e', 'r', 'i', 'v', 'e', 'r', 's']);
        },
        Op::OptimiseStore => {
            reveal_strlit("OptimiseStore");
            assert(op_name(op) =~= seq!['O', 'p', 't', 'i', 'm', 'i', 's', 'e', 'S', 't', 'o', 'r', 'e']);
        },
        Op::VerifyStore => {
            reveal_strlit("VerifyStore");
            assert(op_name(op) =~= seq!['V', 'e', 'r', 'i', 'f', 'y', 'S', 't', 'o', 'r', 'e']);
        },
        Op::BuildDerivation => {
            reveal_strlit("BuildDerivation");
            assert(op_name(op) =~= seq!['B', 'u', 'i', 'l', 'd', 'D', 'e', 'r', 'i', 'v', 'a', 't', 'i', 'o', 'n']);
        },
        Op::AddSignatures => {
            reveal_strlit("AddSignatures");
            assert(op_name(op) =~= seq!['A', 'd', 'd', 'S', 'i', 'g', 'n', 'a', 't', 'u', 'r', 'e', 's']);
        },
        Op::NarFromPath => {
            reveal_strlit("NarFromPath");
            assert(op_name(op) =~= seq!['N', 'a', 'r', 'F', 'r', 'o', 'm', 'P', 'a', 't', 'h']);
        },
        Op::AddToStoreNar => {
            reveal_strlit("AddToStoreNar");
            assert(op_name(op) =~= seq!['A', 'd', 'd', 'T', 'o', 'S', 't', 'o', 'r', 'e', 'N', 'a', 'r']);
        },
        Op::QueryMissing => {
            reveal_strlit("QueryMissing");
            assert(op_name(op) =~= seq!['Q', 'u', 'e', 'r', 'y', 'M', 'i', 's', 's', 'i', 'n', 'g']);
        },
        Op::QueryDerivationOutputMap => {
            reveal_strlit("QueryDerivationOutputMap");
            assert(op_name(op) =~= seq!['Q', 'u', 'e', 'r', 'y', 'D', 'e', 'r', 'i', 'v', 'a', 't', 'i', 'o', 'n', 'O', 'u', 't', 'p', 'u', 't', 'M', 'a', 'p']);
        },
        Op::RegisterDrvOutput => {
            reveal_strlit("RegisterDrvOutput");
            assert(op_name(op) =~= seq!['R', 'e', 'g', 'i', 's', 't', 'e', 'r', 'D', 'r', 'v', 'O', 'u', 't', 'p', 'u', 't']);
        },
        Op::QueryRealisation => {
            reveal_strlit("QueryRealisation");
            assert(op_name(op) =~= seq!['Q', 'u', 'e', 'r', 'y', 'R', 'e', 'a', 'l', 'i', 's', 'a', 't', 'i', 'o', 'n']);
        },
        Op::AddMultipleToStore => {
            reveal_strlit("AddMultipleToStore");
            assert(op_name(op) =~= seq!['A', 'd', 'd', 'M', 'u', 'l', 't', 'i', 'p', 'l', 'e', 'T', 'o', 'S', 't', 'o', 'r', 'e']);
        },
        Op::AddBuildLog => {
            reveal_strlit("AddBuildLog");
            assert(op_name(op) =~= seq!['A', 'd', 'd', 'B', 'u', 'i', 'l', 'd', 'L', 'o', 'g']);
        },
        Op::BuildPathsWithResults => {
            reveal_strlit("BuildPathsWithResults");
            assert(op_name(op) =~= seq!['B', 'u', 'i', 'l', 'd', 'P', 'a', 't', 'h', 's', 'W', 'i', 't', 'h', 'R', 'e', 's', 'u', 'l', 't', 's']);
        },
        Op::AddPermRoot => {
            reveal_strlit("AddPermRoot");
            assert(op_name(op) =~= seq!['A', 'd', 'd', 'P', 'e', 'r', 'm', 'R', 'o', 'o', 't']);
        },
    }
}

/// A word has no white space, line break, comma or brace in it.
pub proof fn lemma_word_facts(s: Seq<char>)
    requires
        name_word(s),
    ensures
        tight(s),
        lacks(s, ' '),
        lacks(s, ':'),
        lacks(s, '.'),
        s[0] != '@' && s[0] != '#' && s[0] != '"',
{
    assert forall|i: int| 0 <= i < s.len() implies !is_ws(#[trigger] s[i]) && s[i] != '\n'
        && s[i] != '\r' && s[i] != ' ' && s[i] != ':' && s[i] != '.' by {
        assert(('A' <= s[i] <= 'Z') || ('a' <= s[i] <= 'z'));
    }
    assert(!is_ws(s[0]) && !is_ws(s.last()));
}

// ---------------------------------------------------------------------------
// Expects
// ---------------------------------------------------------------------------

/// A matcher that reads back and whose text is not empty.
pub open spec fn expect_matcher(m: MatcherV) -> bool {
    plain_matcher(m) && matcher_text(m).len() > 0
}

pub(crate) proof fn lemma_matcher_tight(m: MatcherV)
    requires
        expect_matcher(m),
    ensures
        tight(matcher_text(m)),
{
    reveal_strlit("> ");
    reveal_strlit("< ");
    reveal_strlit(">= ");
    reveal_strlit("<= ");
    let t = matcher_text(m);
    match m {
        MatcherV::Exact(_) => {},
        MatcherV::Regex(r) => {
            assert(t[0] == '/' && t.last() == '/');
            assert(plain(t)) by {
                assert forall|i: int| 0 <= i < t.len() implies t[i] != '\n' && t[i] != '\r' by {
                    if 0 < i < t.len() - 1 {
                        assert(t[i] == r[i - 1]);
                    }
                }
            }
        },
        MatcherV::GreaterThan(n) => lemma_comparison_tight("> "@, n),
        MatcherV::LessThan(n) => lemma_comparison_tight("< "@, n),
        MatcherV::GreaterOrEqual(n) => lemma_comparison_tight(">= "@, n),
        MatcherV::LessOrEqual(n) => lemma_comparison_tight("<= "@, n),
    }
}

proof fn lemma_comparison_tight(p: Seq<char>, n: i64)
    requires
        p.len() > 0,
        tight(p.subrange(0, 1)),
        plain(p),
    ensures
        tight(p + dec_int(n as int)),
{
    lemma_comparison_text(p, n);
    let d = dec_int(n as int);
    let t = p + d;
    assert(t[0] == p[0]);
    assert(p.subrange(0, 1)[0] == p[0]);
    assert(t.last() == d.last());
    assert forall|i: int| 0 <= i < t.len() implies t[i] != '\n' && t[i] != '\r' by {
        if i >= p.len() {
            assert(t[i] == d[i - p.len()]);
        }
    }
}

/// An expect whose line reads back as itself.
pub open spec fn plain_expect(e: ExpectV) -> bool {
    match e {
        ExpectV::Terminal(code) => tight(code) && code.len() > 0,
        ExpectV::Result { field, matcher } => expect_matcher(matcher) && match field {
            Some(f) => tight(f) && lacks(f, ':'),
            None => true,
        },
        ExpectV::Error { matcher } => expect_matcher(matcher),
        ExpectV::StderrCount { matcher } => expect_matcher(matcher),
        ExpectV::Daemon { matcher } => expect_matcher(matcher),
        ExpectV::Trust { matcher } => expect_matcher(matcher),
        ExpectV::ServerFeatures { matcher } => expect_matcher(matcher),
    }
}

/// The text of an expect after `expect`.
pub open spec fn expect_tail(e: ExpectV) -> Seq<char> {
    match e {
        ExpectV::Terminal(code) => ":"@ + " "@ + code,
        ExpectV::Result { field, matcher } => crate::format::result_field_text(field) + ":"@ + " "@
            + matcher_text(matcher),
        ExpectV::Error { matcher } => "error:"@ + " "@ + matcher_text(matcher),
        ExpectV::StderrCount { matcher } => "stderr.count:"@ + " "@ + matcher_text(matcher),
        ExpectV::Daemon { matcher } => "daemon:"@ + " "@ + matcher_text(matcher),
        ExpectV::Trust { matcher } => "trust:"@ + " "@ + matcher_text(matcher),
        ExpectV::ServerFeatures { matcher } => "server_features:"@ + " "@ + matcher_text(matcher),
    }
}

/// An expect line without its indent: `expect`, a space unless the tail
/// begins with the colon of a terminal expect, and the tail.
pub open spec fn expect_body(e: ExpectV) -> Seq<char> {
    match e {
        ExpectV::Terminal(_) => "expect"@ + expect_tail(e),
        _ => "expect"@ + " "@ + expect_tail(e),
    }
}

proof fn lemma_keyword_rest(kw: Seq<char>, t: Seq<char>)
    requires
        t.len() > 0,
        tight(t),
    ensures
        trim((kw + " "@ + t).subrange(kw.len() as int, (kw + " "@ + t).len() as int)) == t,
{
    reveal_strlit(" ");
    let r = kw + " "@ + t;
    assert(r.subrange(kw.len() as int, r.len() as int) =~= seq![' '] + t + Seq::<char>::empty());
    lemma_all_ws_space();
    lemma_trim_padded(seq![' '], t, seq![]);
}

/// The tail of an expect is tight and not empty.
#[verifier::spinoff_prover]
#[verifier::rlimit(40)]
pub(crate) proof fn lemma_expect_tail_tight(e: ExpectV)
    requires
        plain_expect(e),
    ensures
        tight(expect_tail(e)),
        expect_tail(e).len() > 0,
        e is Terminal ==> expect_tail(e)[0] == ':',
{
    reveal_strlit(" ");
    reveal_strlit(":");
    reveal_strlit("error:");
    reveal_strlit("stderr.count:");
    reveal_strlit("daemon:");
    reveal_strlit("trust:");
    reveal_strlit("server_features:");
    reveal_strlit("result");
    reveal_strlit("result.");
    let tail = expect_tail(e);
    // The last piece of the tail: the code or the matcher's text.
    let last = match e {
        ExpectV::Terminal(code) => code,
        ExpectV::Result { matcher, .. } => matcher_text(matcher),
        ExpectV::Error { matcher } => matcher_text(matcher),
        ExpectV::StderrCount { matcher } => matcher_text(matcher),
        ExpectV::Daemon { matcher } => matcher_text(matcher),
        ExpectV::Trust { matcher } => matcher_text(matcher),
        ExpectV::ServerFeatures { matcher } => matcher_text(matcher),
    };
    match e {
        ExpectV::Terminal(_) => {},
        ExpectV::Result { matcher, .. } => lemma_matcher_tight(matcher),
        ExpectV::Error { matcher } => lemma_matcher_tight(matcher),
        ExpectV::StderrCount { matcher } => lemma_matcher_tight(matcher),
        ExpectV::Daemon { matcher } => lemma_matcher_tight(matcher),
        ExpectV::Trust { matcher } => lemma_matcher_tight(matcher),
        ExpectV::ServerFeatures { matcher } => lemma_matcher_tight(matcher),
    }
    let head = tail.subrange(0, tail.len() - last.len());
    assert(tail =~= head + last);
    assert(head.len() > 0 && !is_ws(head[0]) && plain(head)) by {
        match e {
            ExpectV::Result { field, .. } => {
                match field {
                    Some(f) => {
                        assert(head =~= "result."@ + f + ":"@ + " "@);
                        assert forall|i: int| 0 <= i < head.len() implies head[i] != '\n'
                            && head[i] != '\r' by {
                            if 7 <= i < 7 + f.len() {
                                assert(head[i] == f[i - 7]);
                            }
                        }
                    },
                    None => {
                        assert(head =~= "result"@ + ":"@ + " "@);
                    },
                }
            },
            _ => {},
        }
    }
    assert(tail.last() == last.last());
    assert(tail[0] == head[0]);
    assert(plain(tail)) by {
        assert forall|i: int| 0 <= i < tail.len() implies tail[i] != '\n' && tail[i] != '\r' by {
            if i < head.len() {
                assert(tail[i] == head[i]);
            } else {
                assert(tail[i] == last[i - head.len()]);
            }
        }
    }
}

#[verifier::spinoff_prover]
#[verifier::rlimit(40)]
pub(crate) proof fn lemma_expect_body_rest(e: ExpectV)
    requires
        plain_expect(e),
    ensures
        trim(expect_body(e).subrange(6, expect_body(e).len() as int)) == expect_tail(e),
        expect_body(e).subrange(0, 6) == "expect"@,
        starts_with(expect_body(e), "expect"@),
        tight(expect_body(e)),
        tight(expect_tail(e)),
        expect_tail(e).len() > 0,
{
    reveal_strlit("expect");
    reveal_strlit(" ");
    lemma_expect_tail_tight(e);
    let tail = expect_tail(e);
    let body = expect_body(e);
    if e is Terminal {
        assert(body =~= "expect"@ + tail);
        assert(body.subrange(6, body.len() as int) =~= tail);
        lemma_trim_id(tail);
        assert(plain(body)) by {
            assert forall|i: int| 0 <= i < body.len() implies body[i] != '\n' && body[i] != '\r' by {
                if i >= 6 {
                    assert(body[i] == tail[i - 6]);
                }
            }
        }
    } else {
        assert(body =~= "expect"@ + (" "@ + tail));
        assert(body.subrange(6, body.len() as int) =~= seq![' '] + tail + Seq::<char>::empty());
        lemma_all_ws_space();
        lemma_trim_padded(seq![' '], tail, seq![]);
        assert(plain(body)) by {
            assert forall|i: int| 0 <= i < body.len() implies body[i] != '\n' && body[i] != '\r' by {
                if i >= 7 {
                    assert(body[i] == tail[i - 7]);
                }
            }
        }
    }
    assert(body.subrange(0, 6) =~= "expect"@);
    assert(body[0] == 'e');
    assert(body.last() == tail.last());
}

proof fn lemma_simple_expect(e: ExpectV, m: MatcherV, kw: Seq<char>)
    requires
        plain_expect(e),
        expect_matcher(m),
        expect_tail(e) == kw + " "@ + matcher_text(m),
    ensures
        trim(expect_tail(e).subrange(kw.len() as int, expect_tail(e).len() as int)) == matcher_text(m),
        parse_matcher_spec(trim(expect_tail(e).subrange(kw.len() as int, expect_tail(e).len() as int)))
            == Ok::<MatcherV, crate::parse::ParseErrorV>(m),
{
    lemma_matcher_tight(m);
    lemma_keyword_rest(kw, matcher_text(m));
    law_matcher_roundtrip(m);
}

proof fn lemma_expect_terminal(code: Seq<char>)
    requires
        plain_expect(ExpectV::Terminal(code)),
    ensures
        parse_expect_spec(expect_body(ExpectV::Terminal(code))) == Ok::<
            ExpectV,
            crate::parse::ParseErrorV,
        >(ExpectV::Terminal(code)),
{
    reveal_strlit(":");
    let e = ExpectV::Terminal(code);
    lemma_expect_body_rest(e);
    lemma_keyword_rest(":"@, code);
    let tail = expect_tail(e);
    assert(tail.subrange(0, 1) =~= ":"@);
}

proof fn lemma_expect_stderr_count(m: MatcherV)
    requires
        plain_expect(ExpectV::StderrCount { matcher: m }),
    ensures
        parse_expect_spec(expect_body(ExpectV::StderrCount { matcher: m })) == Ok::<
            ExpectV,
            crate::parse::ParseErrorV,
        >(ExpectV::StderrCount { matcher: m }),
{
    reveal_strlit(":");
    reveal_strlit("stderr.count:");
    let e = ExpectV::StderrCount { matcher: m };
    lemma_expect_body_rest(e);
    lemma_simple_expect(e, m, "stderr.count:"@);
    let tail = expect_tail(e);
    assert(tail[0] == 's');
    lemma_not_prefix_at(tail, ":"@, 0);
    assert(tail.subrange(0, 13) =~= "stderr.count:"@);
}

proof fn lemma_expect_error(m: MatcherV)
    requires
        plain_expect(ExpectV::Error { matcher: m }),
    ensures
        parse_expect_spec(expect_body(ExpectV::Error { matcher: m })) == Ok::<
            ExpectV,
            crate::parse::ParseErrorV,
        >(ExpectV::Error { matcher: m }),
{
    reveal_strlit(":");
    reveal_strlit("stderr.count:");
    reveal_strlit("error:");
    let e = ExpectV::Error { matcher: m };
    lemma_expect_body_rest(e);
    lemma_simple_expect(e, m, "error:"@);
    let tail = expect_tail(e);
    assert(tail[0] == 'e');
    lemma_not_prefix_at(tail, ":"@, 0);
    lemma_not_prefix_at(tail, "stderr.count:"@, 0);
    assert(tail.subrange(0, 6) =~= "error:"@);
}

proof fn lemma_expect_daemon(m: MatcherV)
    requires
        plain_expect(ExpectV::Daemon { matcher: m }),
    ensures
        parse_expect_spec(expect_body(ExpectV::Daemon { matcher: m })) == Ok::<
            ExpectV,
            crate::parse::ParseErrorV,
        >(ExpectV::Daemon { matcher: m }),
{
    reveal_strlit(":");
    reveal_strlit("stderr.count:");
    reveal_strlit("error:");
    reveal_strlit("result");
    reveal_strlit("daemon:");
    let e = ExpectV::Daemon { matcher: m };
    lemma_expect_body_rest(e);
    lemma_simple_expect(e, m, "daemon:"@);
    let tail = expect_tail(e);
    assert(tail[0] == 'd');
    lemma_not_prefix_at(tail, ":"@, 0);
    lemma_not_prefix_at(tail, "stderr.count:"@, 0);
    lemma_not_prefix_at(tail, "error:"@, 0);
    lemma_not_prefix_at(tail, "result"@, 0);
    assert(tail.subrange(0, 7) =~= "daemon:"@);
}

proof fn lemma_expect_trust(m: MatcherV)
    requires
        plain_expect(ExpectV::Trust { matcher: m }),
    ensures
        parse_expect_spec(expect_body(ExpectV::Trust { matcher: m })) == Ok::<
            ExpectV,
            crate::parse::ParseErrorV,
        >(ExpectV::Trust { matcher: m }),
{
    reveal_strlit(":");
    reveal_strlit("stderr.count:");
    reveal_strlit("error:");
    reveal_strlit("result");
    reveal_strlit("daemon:");
    reveal_strlit("trust:");
    let e = ExpectV::Trust { matcher: m };
    lemma_expect_body_rest(e);
    lemma_simple_expect(e, m, "trust:"@);
    let tail = expect_tail(e);
    assert(tail[0] == 't');
    lemma_not_prefix_at(tail, ":"@, 0);
    lemma_not_prefix_at(tail, "stderr.count:"@, 0);
    lemma_not_prefix_at(tail, "error:"@, 0);
    lemma_not_prefix_at(tail, "result"@, 0);
    lemma_not_prefix_at(tail, "daemon:"@, 0);
    assert(tail.subrange(0, 6) =~= "trust:"@);
}

proof fn lemma_expect_server_features(m: MatcherV)
    requires
        plain_expect(ExpectV::ServerFeatures { matcher: m }),
    ensures
        parse_expect_spec(expect_body(ExpectV::ServerFeatures { matcher: m })) == Ok::<
            ExpectV,
            crate::parse::ParseErrorV,
        >(ExpectV::ServerFeatures { matcher: m }),
{
    reveal_strlit(":");
    reveal_strlit("stderr.count:");
    reveal_strlit("error:");
    reveal_strlit("result");
    reveal_strlit("daemon:");
    reveal_strlit("trust:");
    reveal_strlit("server_features:");
    let e = ExpectV::ServerFeatures { matcher: m };
    lemma_expect_body_rest(e);
    lemma_simple_expect(e, m, "server_features:"@);
    let tail = expect_tail(e);
    assert(tail[0] == 's' && tail[1] == 'e');
    lemma_not_prefix_at(tail, ":"@, 0);
    lemma_not_prefix_at(tail, "stderr.count:"@, 1);
    lemma_not_prefix_at(tail, "error:"@, 0);
    lemma_not_prefix_at(tail, "result"@, 0);
    lemma_not_prefix_at(tail, "daemon:"@, 0);
    lemma_not_prefix_at(tail, "trust:"@, 0);
    assert(tail.subrange(0, 16) =~= "server_features:"@);
}

proof fn lemma_result_none(m: MatcherV)
    requires
        expect_matcher(m),
    ensures
        crate::parse::parse_result_expect(seq![':', ' '] + matcher_text(m)) == Some(
            Ok::<ExpectV, crate::parse::ParseErrorV>(ExpectV::Result { field: None, matcher: m }),
        ),
{
    reveal_strlit(":");
    lemma_matcher_tight(m);
    law_matcher_roundtrip(m);
    let mt = matcher_text(m);
    let after = seq![':', ' '] + mt;
    lemma_all_ws_space();
    lemma_trim_padded(seq![' '], mt, seq![]);
    assert(seq![' '] + mt + Seq::<char>::empty() =~= seq![' '] + mt);
    assert(after[0] == ':' && after.last() == mt.last());
    assert(plain(after)) by {
        assert forall|i: int| 0 <= i < after.len() implies after[i] != '\n' && after[i] != '\r' by {
            if i >= 2 {
                assert(after[i] == mt[i - 2]);
            }
        }
    }
    lemma_trim_id(after);
    assert(after.subrange(0, 1) =~= ":"@);
    assert(after.subrange(1, after.len() as int) =~= seq![' '] + mt);
}

proof fn lemma_result_field(f: Seq<char>, m: MatcherV)
    requires
        expect_matcher(m),
        tight(f),
        lacks(f, ':'),
    ensures
        crate::parse::parse_result_expect(seq!['.'] + (f + seq![':'] + (seq![' '] + matcher_text(m))))
            == Some(
            Ok::<ExpectV, crate::parse::ParseErrorV>(
                ExpectV::Result { field: Some(f), matcher: m },
            ),
        ),
{
    reveal_strlit(":");
    reveal_strlit(".");
    lemma_matcher_tight(m);
    law_matcher_roundtrip(m);
    let mt = matcher_text(m);
    let after = seq!['.'] + (f + seq![':'] + (seq![' '] + mt));
    lemma_all_ws_space();
    lemma_trim_padded(seq![' '], mt, seq![]);
    assert(seq![' '] + mt + Seq::<char>::empty() =~= seq![' '] + mt);
    assert(after[0] == '.' && after.last() == mt.last());
    assert(plain(after)) by {
        assert forall|i: int| 0 <= i < after.len() implies after[i] != '\n' && after[i] != '\r' by {
            if 1 <= i < 1 + f.len() {
                assert(after[i] == f[i - 1]);
            } else if i >= f.len() + 3 {
                assert(after[i] == mt[i - f.len() - 3]);
            }
        }
    }
    lemma_trim_id(after);
    lemma_not_prefix_at(after, ":"@, 0);
    assert(after.subrange(0, 1) =~= "."@);
    assert(after.subrange(1, after.len() as int) =~= f + seq![':'] + (seq![' '] + mt));
    crate::text::lemma_split_once_concat(f, ':', seq![' '] + mt);
    lemma_trim_id(f);
}

#[verifier::spinoff_prover]
#[verifier::rlimit(40)]
proof fn lemma_expect_result(field: Option<Seq<char>>, m: MatcherV)
    requires
        plain_expect(ExpectV::Result { field, matcher: m }),
    ensures
        parse_expect_spec(expect_body(ExpectV::Result { field, matcher: m })) == Ok::<
            ExpectV,
            crate::parse::ParseErrorV,
        >(ExpectV::Result { field, matcher: m }),
{
    reveal_strlit(":");
    reveal_strlit(" ");
    reveal_strlit("stderr.count:");
    reveal_strlit("error:");
    reveal_strlit("result");
    reveal_strlit("result.");
    let e = ExpectV::Result { field, matcher: m };
    assert(expect_body(e) == "expect"@ + " "@ + expect_tail(e));
    lemma_expect_body_rest(e);
    let mt = matcher_text(m);
    let tail = expect_tail(e);
    assert(tail[0] == 'r');
    lemma_not_prefix_at(tail, ":"@, 0);
    lemma_not_prefix_at(tail, "stderr.count:"@, 0);
    lemma_not_prefix_at(tail, "error:"@, 0);
    assert(tail.subrange(0, 6) =~= "result"@);
    let after = tail.subrange(6, tail.len() as int);
    match field {
        None => {
            assert(after =~= seq![':', ' '] + mt);
            lemma_result_none(m);
        },
        Some(f) => {
            assert(after =~= seq!['.'] + (f + seq![':'] + (seq![' '] + mt)));
            lemma_result_field(f, m);
        },
    }
}

// ---------------------------------------------------------------------------
// Expects with nothing after their key
// ---------------------------------------------------------------------------

/// An expect whose line ends right after its key: an empty terminal code,
/// or an empty exact matcher.
pub open spec fn bare_expect(e: ExpectV) -> bool {
    match e {
        ExpectV::Terminal(code) => code.len() == 0,
        ExpectV::Result { field, matcher } => matcher == MatcherV::Exact(seq![]) && match field {
            Some(f) => tight(f) && lacks(f, ':'),
            None => true,
        },
        ExpectV::Error { matcher } => matcher == MatcherV::Exact(seq![]),
        ExpectV::StderrCount { matcher } => matcher == MatcherV::Exact(seq![]),
        ExpectV::Daemon { matcher } => matcher == MatcherV::Exact(seq![]),
        ExpectV::Trust { matcher } => matcher == MatcherV::Exact(seq![]),
        ExpectV::ServerFeatures { matcher } => matcher == MatcherV::Exact(seq![]),
    }
}

/// The key part of an expect's tail: the tail without the space and the
/// code or matcher text after it.
pub open spec fn expect_key(e: ExpectV) -> Seq<char> {
    match e {
        ExpectV::Terminal(_) => ":"@,
        ExpectV::Result { field, .. } => crate::format::result_field_text(field) + ":"@,
        ExpectV::Error { .. } => "error:"@,
        ExpectV::StderrCount { .. } => "stderr.count:"@,
        ExpectV::Daemon { .. } => "daemon:"@,
        ExpectV::Trust { .. } => "trust:"@,
        ExpectV::ServerFeatures { .. } => "server_features:"@,
    }
}

/// A bare expect's line, trimmed: `expect`, a space unless the key is the
/// terminal colon, and the key.
pub open spec fn bare_read(e: ExpectV) -> Seq<char> {
    match e {
        ExpectV::Terminal(_) => "expect"@ + expect_key(e),
        _ => "expect"@ + " "@ + expect_key(e),
    }
}

/// An empty exact matcher reads back from empty text.
proof fn lemma_empty_matcher()
    ensures
        parse_matcher_spec(trim(Seq::<char>::empty())) == Ok::<MatcherV, crate::parse::ParseErrorV>(
            MatcherV::Exact(seq![]),
        ),
{
    reveal_strlit("/");
    reveal_strlit(">=");
    reveal_strlit("<=");
    reveal_strlit(">");
    reveal_strlit("<");
    lemma_trim_id(Seq::<char>::empty());
}

/// A bare expect is written as its trimmed line and a space.
#[verifier::spinoff_prover]
#[verifier::rlimit(40)]
pub proof fn lemma_bare_shape(e: ExpectV)
    requires
        bare_expect(e),
    ensures
        expect_body(e) == bare_read(e) + " "@,
        tight(bare_read(e)),
        bare_read(e).len() >= 7,
        bare_read(e).subrange(0, 6) == "expect"@,
        starts_with(bare_read(e), "expect"@),
        bare_read(e)[0] == 'e',
        trim(bare_read(e).subrange(6, bare_read(e).len() as int)) == expect_key(e),
        tight(expect_key(e)),
{
    reveal_strlit("expect");
    reveal_strlit(" ");
    reveal_strlit(":");
    reveal_strlit("error:");
    reveal_strlit("stderr.count:");
    reveal_strlit("daemon:");
    reveal_strlit("trust:");
    reveal_strlit("server_features:");
    reveal_strlit("result");
    reveal_strlit("result.");
    let k = expect_key(e);
    let r = bare_read(e);
    assert(k.last() == ':');
    assert(!is_ws(':'));
    assert(tight(k)) by {
        match e {
            ExpectV::Result { field, .. } => {
                match field {
                    Some(f) => {
                        assert(k =~= "result."@ + f + ":"@);
                        assert forall|i: int| 0 <= i < k.len() implies k[i] != '\n' && k[i] != '\r' by {
                            if 7 <= i < 7 + f.len() {
                                assert(k[i] == f[i - 7]);
                            }
                        }
                    },
                    None => {},
                }
            },
            _ => {},
        }
        assert(!is_ws(k[0]));
    }
    lemma_all_ws_space();
    if e is Terminal {
        assert(expect_body(e) =~= r + " "@);
        assert(r.subrange(6, r.len() as int) =~= k);
        lemma_trim_id(k);
        assert(plain(r)) by {
            assert forall|i: int| 0 <= i < r.len() implies r[i] != '\n' && r[i] != '\r' by {
                if i >= 6 {
                    assert(r[i] == k[i - 6]);
                }
            }
        }
    } else {
        assert(expect_body(e) =~= r + " "@);
        assert(r.subrange(6, r.len() as int) =~= seq![' '] + k + Seq::<char>::empty());
        lemma_trim_padded(seq![' '], k, seq![]);
        assert(plain(r)) by {
            assert forall|i: int| 0 <= i < r.len() implies r[i] != '\n' && r[i] != '\r' by {
                if i >= 7 {
                    assert(r[i] == k[i - 7]);
                }
            }
        }
    }
    assert(r.subrange(0, 6) =~= "expect"@);
    assert(r.last() == k.last());
}

/// A bare expect reads back from its trimmed line.
#[verifier::spinoff_prover]
#[verifier::rlimit(60)]
pub proof fn law_bare_expect_roundtrip(e: ExpectV)
    requires
        bare_expect(e),
    ensures
        parse_expect_spec(bare_read(e)) == Ok::<ExpectV, crate::parse::ParseErrorV>(e),
{
    reveal_strlit(":");
    reveal_strlit("stderr.count:");
    reveal_strlit("error:");
    reveal_strlit("result");
    reveal_strlit("result.");
    reveal_strlit(".");
    reveal_strlit("daemon:");
    reveal_strlit("trust:");
    reveal_strlit("server_features:");
    lemma_bare_shape(e);
    lemma_empty_matcher();
    let k = expect_key(e);
    assert(k.subrange(k.len() as int, k.len() as int) =~= Seq::<char>::empty());
    match e {
        ExpectV::Terminal(code) => {
            assert(k.subrange(0, 1) =~= ":"@);
            assert(k.subrange(1, 1) =~= Seq::<char>::empty());
            lemma_trim_id(Seq::<char>::empty());
            assert(code =~= Seq::<char>::empty());
        },
        ExpectV::StderrCount { .. } => {
            assert(k[0] == 's');
            lemma_not_prefix_at(k, ":"@, 0);
            assert(k.subrange(0, 13) =~= "stderr.count:"@);
        },
        ExpectV::Error { .. } => {
            assert(k[0] == 'e');
            lemma_not_prefix_at(k, ":"@, 0);
            lemma_not_prefix_at(k, "stderr.count:"@, 0);
            assert(k.subrange(0, 6) =~= "error:"@);
        },
        ExpectV::Daemon { .. } => {
            assert(k[0] == 'd');
            lemma_not_prefix_at(k, ":"@, 0);
            lemma_not_prefix_at(k, "stderr.count:"@, 0);
            lemma_not_prefix_at(k, "error:"@, 0);
            lemma_not_prefix_at(k, "result"@, 0);
            assert(k.subrange(0, 7) =~= "daemon:"@);
        },
        ExpectV::Trust { .. } => {
            assert(k[0] == 't');
            lemma_not_prefix_at(k, ":"@, 0);
            lemma_not_prefix_at(k, "stderr.count:"@, 0);
            lemma_not_prefix_at(k, "error:"@, 0);
            lemma_not_prefix_at(k, "result"@, 0);
            lemma_not_prefix_at(k, "daemon:"@, 0);
            assert(k.subrange(0, 6) =~= "trust:"@);
        },
        ExpectV::ServerFeatures { .. } => {
            assert(k[0] == 's' && k[1] == 'e');
            lemma_not_prefix_at(k, ":"@, 0);
            lemma_not_prefix_at(k, "stderr.count:"@, 1);
            lemma_not_prefix_at(k, "error:"@, 0);
            lemma_not_prefix_at(k, "result"@, 0);
            lemma_not_prefix_at(k, "daemon:"@, 0);
            lemma_not_prefix_at(k, "trust:"@, 0);
            assert(k.subrange(0, 16) =~= "server_features:"@);
        },
        ExpectV::Result { field, .. } => {
            assert(k[0] == 'r');
            lemma_not_prefix_at(k, ":"@, 0);
            lemma_not_prefix_at(k, "stderr.count:"@, 0);
            lemma_not_prefix_at(k, "error:"@, 0);
            assert(k.subrange(0, 6) =~= "result"@);
            let after = k.subrange(6, k.len() as int);
            match field {
                None => {
                    assert(after =~= ":"@);
                    lemma_trim_id(after);
                    assert(after.subrange(0, 1) =~= ":"@);
                    assert(after.subrange(1, 1) =~= Seq::<char>::empty());
                },
                Some(f) => {
                    assert(after =~= seq!['.'] + f + seq![':']);
                    assert(after[0] == '.' && after.last() == ':');
                    assert(!is_ws('.') && !is_ws(':'));
                    assert(plain(after)) by {
                        assert forall|i: int| 0 <= i < after.len() implies after[i] != '\n' && after[i] != '\r' by {
                            if 1 <= i < 1 + f.len() {
                                assert(after[i] == f[i - 1]);
                            }
                        }
                    }
                    lemma_trim_id(after);
                    lemma_not_prefix_at(after, ":"@, 0);
                    assert(after.subrange(0, 1) =~= "."@);
                    assert(after.subrange(1, after.len() as int) =~= f + seq![':'] + Seq::<char>::empty());
                    crate::text::lemma_split_once_concat(f, ':', Seq::<char>::empty());
                    lemma_trim_id(f);
                },
            }
        },
    }
}

/// An expect reads back from its line.
pub proof fn law_expect_roundtrip(e: ExpectV)
    requires
        plain_expect(e),
    ensures
        parse_expect_spec(expect_body(e)) == Ok::<ExpectV, crate::parse::ParseErrorV>(e),
{
    match e {
        ExpectV::Terminal(code) => lemma_expect_terminal(code),
        ExpectV::Result { field, matcher } => lemma_expect_result(field, matcher),
        ExpectV::Error { matcher } => lemma_expect_error(matcher),
        ExpectV::StderrCount { matcher } => lemma_expect_stderr_count(matcher),
        ExpectV::Daemon { matcher } => lemma_expect_daemon(matcher),
        ExpectV::Trust { matcher } => lemma_expect_trust(matcher),
        ExpectV::ServerFeatures { matcher } => lemma_expect_server_features(matcher),
    }
}

// ---------------------------------------------------------------------------
// Keyed lines
// ---------------------------------------------------------------------------

/// `  key: value`.
pub open spec fn kv_line(k: Seq<char>, v: Seq<char>) -> Seq<char> {
    seq![' ', ' '] + k + seq![':', ' '] + v
}

/// A key of an indented `key: value` line.
pub open spec fn key_word(k: Seq<char>) -> bool {
    k.len() > 0 && tight(k) && lacks(k, ':') && k[0] != '#' && k[0] != 'e'
}

/// A keyed line: a block line whose key and value read back.
pub proof fn lemma_kv_line(k: Seq<char>, v: Seq<char>)
    requires
        key_word(k),
        tight(v),
        v.len() > 0,
    ensures
        trim(kv_line(k, v)) == k + seq![':', ' '] + v,
        crate::text::split_once(trim(kv_line(k, v)), ':') == Some((k, seq![' '] + v)),
        trim(k) == k,
        trim(seq![' '] + v) == v,
        crate::op_args::block_line(kv_line(k, v)),
        line_ok(kv_line(k, v)),
        plain(kv_line(k, v)),
{
    reveal_strlit("  ");
    reveal_strlit("\t");
    reveal_strlit("#");
    reveal_strlit("expect");
    let line = kv_line(k, v);
    let body = k + seq![':', ' '] + v;
    assert(line =~= seq![' ', ' '] + body + Seq::<char>::empty());
    assert(body[0] == k[0] && body.last() == v.last());
    assert(plain(body)) by {
        assert forall|i: int| 0 <= i < body.len() implies body[i] != '\n' && body[i] != '\r' by {
            if i < k.len() {
                assert(body[i] == k[i]);
            } else if i >= k.len() + 2 {
                assert(body[i] == v[i - k.len() - 2]);
            }
        }
    }
    assert(crate::text::all_ws(seq![' ', ' ']));
    lemma_all_ws_space();
    lemma_trim_padded(seq![' ', ' '], body, seq![]);
    assert(body =~= k + seq![':'] + (seq![' '] + v));
    crate::text::lemma_split_once_concat(k, ':', seq![' '] + v);
    lemma_trim_id(k);
    lemma_trim_padded(seq![' '], v, seq![]);
    assert(seq![' '] + v + Seq::<char>::empty() =~= seq![' '] + v);
    assert(line.subrange(0, 2) =~= "  "@);
    lemma_not_prefix_at(body, "#"@, 0);
    lemma_not_prefix_at(body, "expect"@, 0);
    assert(plain(line)) by {
        assert forall|i: int| 0 <= i < line.len() implies line[i] != '\n' && line[i] != '\r' by {
            if i >= 2 {
                assert(line[i] == body[i - 2]);
            }
        }
    }
    assert(line.last() == v.last());
}

/// Applies block lines in order to the call built so far.
pub open spec fn apply_lines(st: crate::script::OpCallV, ls: Seq<Seq<char>>) -> Result<
    crate::script::OpCallV,
    crate::parse::ParseErrorV,
>
    decreases ls.len(),
{
    if ls.len() == 0 {
        Ok(st)
    } else {
        match crate::op_args::line_step(st, ls[0]) {
            Ok(s2) => apply_lines(s2, ls.drop_first()),
            Err(e) => Err(e),
        }
    }
}

/// Where a block stops: at the end or at a line that is not a block line.
pub open spec fn block_ends_at(lv: Seq<Seq<char>>, j: int) -> bool {
    j >= lv.len() || !crate::op_args::block_line(lv[j])
}

/// A keyed block read from the lines.
pub proof fn lemma_key_block_lines(
    lv: Seq<Seq<char>>,
    i: int,
    st: crate::script::OpCallV,
    ls: Seq<Seq<char>>,
)
    requires
        0 <= i,
        i + ls.len() <= lv.len(),
        lv.subrange(i, i + ls.len()) == ls,
        forall|k: int| 0 <= k < ls.len() ==> crate::op_args::block_line(#[trigger] ls[k]),
        block_ends_at(lv, i + ls.len()),
    ensures
        crate::op_args::key_block(lv, i, st) == match apply_lines(st, ls) {
            Ok(s) => Ok::<(crate::script::OpCallV, int), crate::parse::ParseErrorV>(
                (s, i + ls.len()),
            ),
            Err(e) => Err(e),
        },
    decreases ls.len(),
{
    if ls.len() > 0 {
        assert(lv[i] == ls[0]) by {
            assert(lv.subrange(i, i + ls.len())[0] == lv[i]);
        }
        assert(crate::op_args::block_line(ls[0]));
        match crate::op_args::line_step(st, ls[0]) {
            Ok(s2) => {
                assert(lv.subrange(i + 1, i + 1 + ls.drop_first().len()) =~= ls.drop_first());
                assert forall|k: int| 0 <= k < ls.drop_first().len() implies crate::op_args::block_line(
                    #[trigger] ls.drop_first()[k],
                ) by {
                    assert(ls.drop_first()[k] == ls[k + 1]);
                }
                lemma_key_block_lines(lv, i + 1, s2, ls.drop_first());
            },
            Err(_) => {},
        }
    }
}

// ---------------------------------------------------------------------------
// The lines of an operation call
// ---------------------------------------------------------------------------

/// The `  data: ...` line of framed data kept in the text.
pub open spec fn framed_line(d: FramedDataV) -> Seq<char> {
    match d {
        FramedDataV::Inline(b) => "  data: x\""@ + hex_text(b) + "\""@,
        FramedDataV::FileRef(p) => "  data: @file:"@ + p,
    }
}

/// The `    "name" = "value"` line of a setting override.
pub open spec fn override_line(kv: (Seq<char>, Seq<char>)) -> Seq<char> {
    "    \""@ + kv.0 + "\" = \""@ + kv.1 + "\""@
}

pub open spec fn override_lines(ov: Seq<(Seq<char>, Seq<char>)>) -> Seq<Seq<char>> {
    ov.map_values(|kv: (Seq<char>, Seq<char>)| override_line(kv))
}

/// The lines an operation call is written as (data kept in the text).
pub open spec fn op_lines(c: OpCallV) -> Seq<Seq<char>> {
    match c {
        OpCallV::SinglePath { op, path } => seq![op_name(op) + seq![' '] + path],
        OpCallV::SingleString { op, value } => seq![op_name(op) + seq![' '] + value],
        OpCallV::PathSet { op, paths } => seq![op_name(op) + seq![' '] + path_set_text(paths)],
        OpCallV::PathSetFlag { op, paths, substitute } => seq![
            op_name(op) + seq![' '] + path_set_text(paths) + if substitute {
                " substitute"@
            } else {
                seq![]
            },
        ],
        OpCallV::PathSetMode { op, paths, mode } => seq![
            op_name(op) + seq![' '] + path_set_text(paths) + seq![' '] + mode,
        ],
        OpCallV::NoArgs { op } => seq![op_name(op)],
        OpCallV::SetOptions {
            keep_failed,
            keep_going,
            try_fallback,
            verbosity,
            max_build_jobs,
            max_silent_time,
            use_build_hook,
            verbose_build,
            log_type,
            print_build_trace,
            build_cores,
            use_substitutes,
            overrides,
        } => seq![
            "SetOptions"@,
            "  keep_failed: "@ + dec(keep_failed as nat),
            "  keep_going: "@ + dec(keep_going as nat),
            "  try_fallback: "@ + dec(try_fallback as nat),
            "  verbosity: "@ + dec(verbosity as nat),
            "  max_build_jobs: "@ + dec(max_build_jobs as nat),
            "  max_silent_time: "@ + dec(max_silent_time as nat),
            "  use_build_hook: "@ + dec(use_build_hook as nat),
            "  verbose_build: "@ + dec(verbose_build as nat),
            "  log_type: "@ + dec(log_type as nat),
            "  print_build_trace: "@ + dec(print_build_trace as nat),
            "  build_cores: "@ + dec(build_cores as nat),
            "  use_substitutes: "@ + dec(use_substitutes as nat),
            "  overrides: "@ + dec(overrides.len()),
        ] + override_lines(overrides),
        OpCallV::CollectGarbage { action, paths, ignore_liveness, max_freed } => seq![
            "CollectGarbage"@,
            "  action: "@ + dec(action as nat),
            "  paths: "@ + path_set_text(paths),
            "  ignore_liveness: "@ + dec(ignore_liveness as nat),
            "  max_freed: "@ + dec(max_freed as nat),
        ],
        OpCallV::VerifyStore { check_contents, repair } => seq![
            "VerifyStore"@,
            "  check_contents: "@ + bool_text(check_contents),
            "  repair: "@ + bool_text(repair),
        ],
        OpCallV::AddPermRoot { path, gc_root } => seq!["AddPermRoot "@ + path + seq![' '] + gc_root],
        OpCallV::AddSignatures { path, sigs } => seq![
            "AddSignatures "@ + path + seq![' '] + path_set_text(sigs),
        ],
        OpCallV::AddTextToStore { suffix, text, refs } => seq![
            "AddTextToStore"@,
            "  suffix: \""@ + suffix + "\""@,
            "  text: \""@ + escape_text(text) + "\""@,
            "  refs: "@ + path_set_text(refs),
        ],
        OpCallV::AddToStore { name, cam_str, refs, repair, data } => seq![
            "AddToStore"@,
            "  name: \""@ + name + "\""@,
            "  cam_str: \""@ + cam_str + "\""@,
            "  refs: "@ + path_set_text(refs),
            "  repair: "@ + bool_text(repair),
            framed_line(data),
        ],
        OpCallV::AddMultipleToStore { repair, dont_check_sigs, data } => seq![
            "AddMultipleToStore"@,
            "  repair: "@ + bool_text(repair),
            "  dont_check_sigs: "@ + bool_text(dont_check_sigs),
            framed_line(data),
        ],
        OpCallV::AddBuildLog { path, data } => seq!["AddBuildLog "@ + path, framed_line(data)],
        OpCallV::RegisterDrvOutput { value } => seq!["RegisterDrvOutput "@ + value],
        OpCallV::QueryRealisation { value } => seq!["QueryRealisation "@ + value],
        OpCallV::QuerySubstitutablePathInfo { path } => seq!["QuerySubstitutablePathInfo "@ + path],
        OpCallV::QuerySubstitutablePathInfos { paths } => seq![
            "QuerySubstitutablePathInfos "@ + path_set_text(paths),
        ],
        OpCallV::RawBytes { op, data } => if data.len() == 0 {
            seq![op_name(op)]
        } else {
            seq![op_name(op), "  raw x\""@ + hex_text(data) + "\""@]
        },
    }
}

pub(crate) proof fn lemma_unlines_one(l: Seq<char>)
    ensures
        unlines(seq![l]) == l + seq!['\n'],
{
    assert(seq![l].drop_first() =~= Seq::<Seq<char>>::empty());
    assert(unlines(Seq::<Seq<char>>::empty()) == Seq::<char>::empty());
    assert(unlines(seq![l]) == seq![l][0] + seq!['\n'] + unlines(seq![l].drop_first()));
    assert(unlines(seq![l]) =~= l + seq!['\n']);
}

/// Lines one at a time.
proof fn lemma_unlines_push(ls: Seq<Seq<char>>, l: Seq<char>)
    ensures
        unlines(ls.push(l)) == unlines(ls) + l + seq!['\n'],
{
    assert(ls.push(l) =~= ls + seq![l]);
    crate::text::lemma_unlines_concat(ls, seq![l]);
    lemma_unlines_one(l);
    assert(unlines(ls) + (l + seq!['\n']) =~= unlines(ls) + l + seq!['\n']);
}

// ---------------------------------------------------------------------------
// The text of an operation call is its lines
// ---------------------------------------------------------------------------

proof fn lemma_unlines_2(a: Seq<char>, b: Seq<char>)
    ensures
        unlines(seq![a, b]) == a + seq!['\n'] + b + seq!['\n'],
{
    lemma_unlines_push(seq![a], b);
    lemma_unlines_one(a);
    assert(seq![a].push(b) =~= seq![a, b]);
}

proof fn lemma_framed_text(d: FramedDataV, opts: FormatOptions, counter: nat)
    requires
        !crate::format::externalizes(opts),
    ensures
        crate::format::framed_text(d, opts, counter) == framed_line(d) + seq!['\n'],
{
    reveal_strlit("\"\n");
    reveal_strlit("\"");
    match d {
        FramedDataV::Inline(b) => {
            assert(crate::format::framed_text(d, opts, counter) =~= framed_line(d) + seq!['\n']);
        },
        FramedDataV::FileRef(p) => {},
    }
}

proof fn lemma_inline_op_text(c: OpCallV, opts: FormatOptions, counter: nat)
    requires
        op_lines(c).len() == 1,
        !(c is SetOptions || c is CollectGarbage || c is VerifyStore || c is AddTextToStore
            || c is AddToStore || c is AddMultipleToStore || c is AddBuildLog || c is RawBytes),
    ensures
        crate::format::op_body_text(c, opts, counter) == unlines(op_lines(c)),
{
    lemma_unlines_one(op_lines(c)[0]);
    reveal_strlit(" substitute");
    assert(crate::format::op_body_text(c, opts, counter) =~= op_lines(c)[0] + seq!['\n']);
}

#[verifier::spinoff_prover]
proof fn lemma_collect_garbage_text(c: OpCallV, opts: FormatOptions, counter: nat)
    requires
        !crate::format::externalizes(opts),
        c is CollectGarbage,
    ensures
        crate::format::op_body_text(c, opts, counter) == unlines(op_lines(c)),
{
    reveal_strlit("\"");
    reveal_strlit("\"\n");
    let ls = op_lines(c);
    match c {
        OpCallV::CollectGarbage { .. } => {
            reveal_strlit("CollectGarbage\n");
            reveal_strlit("CollectGarbage");
            lemma_unlines_push(ls.subrange(0, 4), ls[4]);
            lemma_unlines_push(ls.subrange(0, 3), ls[3]);
            lemma_unlines_push(ls.subrange(0, 2), ls[2]);
            lemma_unlines_2(ls[0], ls[1]);
            assert(ls.subrange(0, 4).push(ls[4]) =~= ls);
            assert(ls.subrange(0, 3).push(ls[3]) =~= ls.subrange(0, 4));
            assert(ls.subrange(0, 2).push(ls[2]) =~= ls.subrange(0, 3));
            assert(ls.subrange(0, 2) =~= seq![ls[0], ls[1]]);
            assert(crate::format::op_body_text(c, opts, counter) =~= unlines(ls));
        },
        _ => {},
    }
}

#[verifier::spinoff_prover]
proof fn lemma_verify_store_text(c: OpCallV, opts: FormatOptions, counter: nat)
    requires
        !crate::format::externalizes(opts),
        c is VerifyStore,
    ensures
        crate::format::op_body_text(c, opts, counter) == unlines(op_lines(c)),
{
    reveal_strlit("\"");
    reveal_strlit("\"\n");
    let ls = op_lines(c);
    match c {
        OpCallV::VerifyStore { .. } => {
            reveal_strlit("VerifyStore\n");
            reveal_strlit("VerifyStore");
            lemma_unlines_push(ls.subrange(0, 2), ls[2]);
            lemma_unlines_2(ls[0], ls[1]);
            assert(ls.subrange(0, 2).push(ls[2]) =~= ls);
            assert(ls.subrange(0, 2) =~= seq![ls[0], ls[1]]);
            assert(crate::format::op_body_text(c, opts, counter) =~= unlines(ls));
        },
        _ => {},
    }
}

#[verifier::spinoff_prover]
proof fn lemma_add_text_to_store_text(c: OpCallV, opts: FormatOptions, counter: nat)
    requires
        !crate::format::externalizes(opts),
        c is AddTextToStore,
    ensures
        crate::format::op_body_text(c, opts, counter) == unlines(op_lines(c)),
{
    reveal_strlit("\"");
    reveal_strlit("\"\n");
    let ls = op_lines(c);
    match c {
        OpCallV::AddTextToStore { .. } => {
            reveal_strlit("AddTextToStore\n");
            reveal_strlit("AddTextToStore");
            lemma_unlines_push(ls.subrange(0, 3), ls[3]);
            lemma_unlines_push(ls.subrange(0, 2), ls[2]);
            lemma_unlines_2(ls[0], ls[1]);
            assert(ls.subrange(0, 3).push(ls[3]) =~= ls);
            assert(ls.subrange(0, 2).push(ls[2]) =~= ls.subrange(0, 3));
            assert(ls.subrange(0, 2) =~= seq![ls[0], ls[1]]);
            assert(crate::format::op_body_text(c, opts, counter) =~= unlines(ls));
        },
        _ => {},
    }
}

#[verifier::spinoff_prover]
proof fn lemma_add_to_store_text(c: OpCallV, opts: FormatOptions, counter: nat)
    requires
        !crate::format::externalizes(opts),
        c is AddToStore,
    ensures
        crate::format::op_body_text(c, opts, counter) == unlines(op_lines(c)),
{
    reveal_strlit("\"");
    reveal_strlit("\"\n");
    let ls = op_lines(c);
    match c {
        OpCallV::AddToStore { data, .. } => {
            reveal_strlit("AddToStore\n");
            reveal_strlit("AddToStore");
            lemma_framed_text(data, opts, counter);
            lemma_unlines_push(ls.subrange(0, 5), ls[5]);
            lemma_unlines_push(ls.subrange(0, 4), ls[4]);
            lemma_unlines_push(ls.subrange(0, 3), ls[3]);
            lemma_unlines_push(ls.subrange(0, 2), ls[2]);
            lemma_unlines_2(ls[0], ls[1]);
            assert(ls.subrange(0, 5).push(ls[5]) =~= ls);
            assert(ls.subrange(0, 4).push(ls[4]) =~= ls.subrange(0, 5));
            assert(ls.subrange(0, 3).push(ls[3]) =~= ls.subrange(0, 4));
            assert(ls.subrange(0, 2).push(ls[2]) =~= ls.subrange(0, 3));
            assert(ls.subrange(0, 2) =~= seq![ls[0], ls[1]]);
            assert(crate::format::op_body_text(c, opts, counter) =~= unlines(ls));
        },
        _ => {},
    }
}

#[verifier::spinoff_prover]
proof fn lemma_add_multiple_to_store_text(c: OpCallV, opts: FormatOptions, counter: nat)
    requires
        !crate::format::externalizes(opts),
        c is AddMultipleToStore,
    ensures
        crate::format::op_body_text(c, opts, counter) == unlines(op_lines(c)),
{
    reveal_strlit("\"");
    reveal_strlit("\"\n");
    let ls = op_lines(c);
    match c {
        OpCallV::AddMultipleToStore { data, .. } => {
            reveal_strlit("AddMultipleToStore\n");
            reveal_strlit("AddMultipleToStore");
            lemma_framed_text(data, opts, counter);
            lemma_unlines_push(ls.subrange(0, 3), ls[3]);
            lemma_unlines_push(ls.subrange(0, 2), ls[2]);
            lemma_unlines_2(ls[0], ls[1]);
            assert(ls.subrange(0, 3).push(ls[3]) =~= ls);
            assert(ls.subrange(0, 2).push(ls[2]) =~= ls.subrange(0, 3));
            assert(ls.subrange(0, 2) =~= seq![ls[0], ls[1]]);
            assert(crate::format::op_body_text(c, opts, counter) =~= unlines(ls));
        },
        _ => {},
    }
}

#[verifier::spinoff_prover]
proof fn lemma_add_build_log_text(c: OpCallV, opts: FormatOptions, counter: nat)
    requires
        !crate::format::externalizes(opts),
        c is AddBuildLog,
    ensures
        crate::format::op_body_text(c, opts, counter) == unlines(op_lines(c)),
{
    reveal_strlit("\"");
    reveal_strlit("\"\n");
    let ls = op_lines(c);
    match c {
        OpCallV::AddBuildLog { data, .. } => {
            lemma_framed_text(data, opts, counter);
            lemma_unlines_2(ls[0], ls[1]);
            assert(ls =~= seq![ls[0], ls[1]]);
            assert(crate::format::op_body_text(c, opts, counter) =~= unlines(ls));
        },
        _ => {},
    }
}

#[verifier::spinoff_prover]
proof fn lemma_raw_bytes_text(c: OpCallV, opts: FormatOptions, counter: nat)
    requires
        !crate::format::externalizes(opts),
        c is RawBytes,
    ensures
        crate::format::op_body_text(c, opts, counter) == unlines(op_lines(c)),
{
    reveal_strlit("\"");
    reveal_strlit("\"\n");
    let ls = op_lines(c);
    match c {
        OpCallV::RawBytes { data, .. } => {
            if data.len() == 0 {
                lemma_unlines_one(ls[0]);
                assert(ls =~= seq![ls[0]]);
            } else {
                lemma_unlines_2(ls[0], ls[1]);
                assert(ls =~= seq![ls[0], ls[1]]);
            }
            assert(crate::format::op_body_text(c, opts, counter) =~= unlines(ls));
        },
        _ => {},
    }
}

proof fn lemma_block_op_text(c: OpCallV, opts: FormatOptions, counter: nat)
    requires
        !crate::format::externalizes(opts),
        c is CollectGarbage || c is VerifyStore || c is AddTextToStore || c is AddToStore
            || c is AddMultipleToStore || c is AddBuildLog || c is RawBytes,
    ensures
        crate::format::op_body_text(c, opts, counter) == unlines(op_lines(c)),
{
    match c {
        OpCallV::CollectGarbage { .. } => lemma_collect_garbage_text(c, opts, counter),
        OpCallV::VerifyStore { .. } => lemma_verify_store_text(c, opts, counter),
        OpCallV::AddTextToStore { .. } => lemma_add_text_to_store_text(c, opts, counter),
        OpCallV::AddToStore { .. } => lemma_add_to_store_text(c, opts, counter),
        OpCallV::AddMultipleToStore { .. } => lemma_add_multiple_to_store_text(c, opts, counter),
        OpCallV::AddBuildLog { .. } => lemma_add_build_log_text(c, opts, counter),
        OpCallV::RawBytes { .. } => lemma_raw_bytes_text(c, opts, counter),
        _ => {},
    }
}

proof fn lemma_overrides_text(ov: Seq<(Seq<char>, Seq<char>)>)
    ensures
        crate::format::overrides_text(ov) == unlines(override_lines(ov)),
    decreases ov.len(),
{
    reveal_strlit("\"\n");
    reveal_strlit("\"");
    if ov.len() == 0 {
        assert(override_lines(ov) =~= Seq::<Seq<char>>::empty());
    } else {
        lemma_overrides_text(ov.drop_last());
        assert(override_lines(ov) =~= override_lines(ov.drop_last()).push(override_line(ov.last())));
        lemma_unlines_push(override_lines(ov.drop_last()), override_line(ov.last()));
        assert(crate::format::overrides_text(ov) =~= unlines(override_lines(ov)));
    }
}

#[verifier::spinoff_prover]
#[verifier::rlimit(40)]
proof fn lemma_set_options_text(c: OpCallV, opts: FormatOptions, counter: nat)
    requires
        c is SetOptions,
    ensures
        crate::format::op_body_text(c, opts, counter) == unlines(op_lines(c)),
{
    reveal_strlit("SetOptions\n");
    reveal_strlit("SetOptions");
    let ov = c->overrides;
    let ls = op_lines(c);
    let h = ls.subrange(0, 14);
    assert(ls =~= h + override_lines(ov));
    crate::text::lemma_unlines_concat(h, override_lines(ov));
    lemma_overrides_text(ov);
    lemma_unlines_push(h.subrange(0, 13), h[13]);
    assert(h.subrange(0, 13).push(h[13]) =~= h.subrange(0, 14));
    lemma_unlines_push(h.subrange(0, 12), h[12]);
    assert(h.subrange(0, 12).push(h[12]) =~= h.subrange(0, 13));
    lemma_unlines_push(h.subrange(0, 11), h[11]);
    assert(h.subrange(0, 11).push(h[11]) =~= h.subrange(0, 12));
    lemma_unlines_push(h.subrange(0, 10), h[10]);
    assert(h.subrange(0, 10).push(h[10]) =~= h.subrange(0, 11));
    lemma_unlines_push(h.subrange(0, 9), h[9]);
    assert(h.subrange(0, 9).push(h[9]) =~= h.subrange(0, 10));
    lemma_unlines_push(h.subrange(0, 8), h[8]);
    assert(h.subrange(0, 8).push(h[8]) =~= h.subrange(0, 9));
    lemma_unlines_push(h.subrange(0, 7), h[7]);
    assert(h.subrange(0, 7).push(h[7]) =~= h.subrange(0, 8));
    lemma_unlines_push(h.subrange(0, 6), h[6]);
    assert(h.subrange(0, 6).push(h[6]) =~= h.subrange(0, 7));
    lemma_unlines_push(h.subrange(0, 5), h[5]);
    assert(h.subrange(0, 5).push(h[5]) =~= h.subrange(0, 6));
    lemma_unlines_push(h.subrange(0, 4), h[4]);
    assert(h.subrange(0, 4).push(h[4]) =~= h.subrange(0, 5));
    lemma_unlines_push(h.subrange(0, 3), h[3]);
    assert(h.subrange(0, 3).push(h[3]) =~= h.subrange(0, 4));
    lemma_unlines_push(h.subrange(0, 2), h[2]);
    assert(h.subrange(0, 2).push(h[2]) =~= h.subrange(0, 3));
    lemma_unlines_2(h[0], h[1]);
    assert(h.subrange(0, 2) =~= seq![h[0], h[1]]);
    assert(h.subrange(0, 14) =~= h);
    let nl = seq!['\n'];
    assert(unlines(h) =~= h[0] + nl + h[1] + nl + h[2] + nl + h[3] + nl + h[4] + nl + h[5] + nl
        + h[6] + nl + h[7] + nl + h[8] + nl + h[9] + nl + h[10] + nl + h[11] + nl + h[12] + nl
        + h[13] + nl);
    assert(crate::format::set_options_text(c) =~= unlines(h) + crate::format::overrides_text(ov));
    assert(crate::format::op_body_text(c, opts, counter) =~= unlines(ls));
}

// ---------------------------------------------------------------------------
// Reading an operation line
// ---------------------------------------------------------------------------

/// Non-empty plain text without white space at its ends.
pub open spec fn filled(s: Seq<char>) -> bool {
    s.len() > 0 && tight(s)
}

/// A word: filled and without spaces.
pub open spec fn word(s: Seq<char>) -> bool {
    filled(s) && lacks(s, ' ')
}

pub open spec fn single_path_op(op: Op) -> bool {
    op == Op::IsValidPath || op == Op::QueryReferrers || op == Op::QueryDeriver || op
        == Op::QueryDerivationOutputs || op == Op::QueryDerivationOutputNames || op
        == Op::QueryDerivationOutputMap || op == Op::QueryValidDerivers || op == Op::QueryPathInfo
        || op == Op::EnsurePath || op == Op::AddTempRoot || op == Op::NarFromPath
}

pub open spec fn no_args_op(op: Op) -> bool {
    op == Op::SyncWithGC || op == Op::FindRoots || op == Op::QueryAllValidPaths || op
        == Op::OptimiseStore
}

/// The name and the rest of an operation line.
proof fn lemma_op_head(op: Op, args: Seq<char>)
    requires
        filled(args),
    ensures
        crate::op_args::first_word(op_name(op) + seq![' '] + args) == (op_name(op), args),
        crate::protocol::op_from_name(op_name(op)) == Some(op),
        trim(args) == args,
{
    lemma_op_name_word(op);
    lemma_word_facts(op_name(op));
    crate::text::lemma_split_once_concat(op_name(op), ' ', args);
    crate::protocol::law_op_name_roundtrip(op);
    lemma_trim_id(args);
}

/// An operation line with arguments reads as the call of its operation on
/// them.
proof fn lemma_op_line_args(op: Op, args: Seq<char>, lv: Seq<Seq<char>>, p: int)
    requires
        filled(args),
    ensures
        crate::op_args::op_line_spec(op_name(op) + seq![' '] + args, lv, p)
            == crate::op_args::op_call_spec(op, args, lv, p),
{
    lemma_op_head(op, args);
}

/// An operation line with only the name.
proof fn lemma_op_line_bare(op: Op, lv: Seq<Seq<char>>, p: int)
    ensures
        crate::op_args::op_line_spec(op_name(op), lv, p) == crate::op_args::op_call_spec(
            op,
            seq![],
            lv,
            p,
        ),
{
    lemma_op_name_word(op);
    lemma_word_facts(op_name(op));
    crate::protocol::law_op_name_roundtrip(op);
    assert(crate::text::find_char(op_name(op), ' ') is None) by {
        crate::text::lemma_find_char_from(op_name(op), ' ', 0);
    }
    assert(trim(Seq::<char>::empty()) == Seq::<char>::empty());
}

/// Text written between quotes that reads back: plain, without a
/// backslash.
pub open spec fn quotable(s: Seq<char>) -> bool {
    plain(s) && lacks(s, '\\')
}

pub open spec fn plain_data(d: FramedDataV) -> bool {
    match d {
        FramedDataV::Inline(_) => true,
        FramedDataV::FileRef(p) => tight(p),
    }
}

pub open spec fn plain_override(kv: (Seq<char>, Seq<char>)) -> bool {
    plain(kv.0) && plain(kv.1) && lacks(kv.0, '"') && lacks(kv.1, '"')
}

/// A call that is written in the form its operation is read in, with text
/// that reads back.
pub open spec fn plain_call(c: OpCallV) -> bool {
    match c {
        OpCallV::SinglePath { op, path } => single_path_op(op) && filled(path),
        OpCallV::SingleString { op, value } => (op == Op::AddIndirectRoot || op
            == Op::QueryPathFromHashPart) && filled(value),
        OpCallV::PathSet { op, paths } => (op == Op::QuerySubstitutablePaths || op
            == Op::QueryMissing) && set_items(paths),
        OpCallV::PathSetFlag { op, paths, .. } => op == Op::QueryValidPaths && set_items(paths),
        OpCallV::PathSetMode { op, paths, mode } => (op == Op::BuildPaths || op
            == Op::BuildPathsWithResults) && set_items(paths) && filled(mode),
        OpCallV::NoArgs { op } => no_args_op(op),
        OpCallV::SetOptions { overrides, .. } => forall|k: int|
            0 <= k < overrides.len() ==> plain_override(#[trigger] overrides[k]),
        OpCallV::CollectGarbage { paths, .. } => set_items(paths),
        OpCallV::VerifyStore { .. } => true,
        OpCallV::AddPermRoot { path, gc_root } => word(path) && filled(gc_root),
        OpCallV::AddSignatures { path, sigs } => word(path) && set_items(sigs),
        OpCallV::AddTextToStore { suffix, text, refs } => quotable(suffix) && lacks(text, '\\')
            && set_items(refs),
        OpCallV::AddToStore { name, cam_str, refs, data, .. } => quotable(name) && quotable(
            cam_str,
        ) && set_items(refs) && plain_data(data),
        OpCallV::AddMultipleToStore { data, .. } => plain_data(data),
        OpCallV::AddBuildLog { path, data } => filled(path) && plain_data(data),
        OpCallV::RegisterDrvOutput { value } => filled(value),
        OpCallV::QueryRealisation { value } => filled(value),
        OpCallV::QuerySubstitutablePathInfo { path } => filled(path),
        OpCallV::QuerySubstitutablePathInfos { paths } => set_items(paths),
        OpCallV::RawBytes { op, .. } => op == Op::BuildDerivation || op == Op::AddToStoreNar,
    }
}

pub(crate) proof fn lemma_path_set_filled(ps: Seq<Seq<char>>, rest: Seq<char>)
    requires
        set_items(ps),
        rest.len() == 0 || (plain(rest) && !is_ws(rest.last())),
    ensures
        filled(path_set_text(ps) + rest),
{
    reveal_strlit("{ }");
    reveal_strlit("{ ");
    reveal_strlit(" }");
    let t = path_set_text(ps) + rest;
    let pst = path_set_text(ps);
    if ps.len() > 0 {
        lemma_items_are_words(ps);
        lemma_join_shape(ps);
    }
    assert(plain(pst)) by {
        if ps.len() > 0 {
            let j = join(ps, ", "@);
            assert(pst =~= seq!['{', ' '] + j + seq![' ', '}']);
            assert(plain(j)) by {
                lemma_join_plain(ps);
            }
            assert forall|i: int| 0 <= i < pst.len() implies pst[i] != '\n' && pst[i] != '\r' by {
                if 2 <= i < 2 + j.len() {
                    assert(pst[i] == j[i - 2]);
                }
            }
        } else {
            assert(pst =~= seq!['{', ' ', '}']);
        }
    }
    assert(t[0] == '{');
    assert(!is_ws('{') && !is_ws('}'));
    if rest.len() == 0 {
        assert(t =~= pst);
        assert(t.last() == '}');
    } else {
        assert(t.last() == rest.last());
    }
    assert forall|i: int| 0 <= i < t.len() implies t[i] != '\n' && t[i] != '\r' by {
        if i < pst.len() {
            assert(t[i] == pst[i]);
        } else {
            assert(t[i] == rest[i - pst.len()]);
        }
    }
}

proof fn lemma_join_plain(ps: Seq<Seq<char>>)
    requires
        ps.len() > 0,
        set_items(ps),
    ensures
        plain(join(ps, ", "@)),
    decreases ps.len(),
{
    reveal_strlit(", ");
    assert(set_item(ps[0]));
    if ps.len() > 1 {
        let init = ps.drop_last();
        assert(set_items(init)) by {
            assert forall|k: int| 0 <= k < init.len() implies set_item(#[trigger] init[k]) by {
                assert(init[k] == ps[k]);
            }
        }
        lemma_join_plain(init);
        assert(set_item(ps.last()));
        let j = join(ps, ", "@);
        let n = join(init, ", "@).len();
        assert(j =~= join(init, ", "@) + ", "@ + ps.last());
        assert forall|i: int| 0 <= i < j.len() implies j[i] != '\n' && j[i] != '\r' by {
            if i < n {
                assert(j[i] == join(init, ", "@)[i]);
            } else if i >= n + 2 {
                assert(j[i] == ps.last()[i - n - 2]);
            }
        }
    }
}

proof fn lemma_parse_single(c: OpCallV, lv: Seq<Seq<char>>, p: int)
    requires
        plain_call(c),
        c is SinglePath || c is SingleString,
    ensures
        crate::op_args::op_line_spec(op_lines(c)[0], lv, p) == Ok::<
            (OpCallV, int),
            crate::parse::ParseErrorV,
        >((c, p)),
{
    match c {
        OpCallV::SinglePath { op, path } => lemma_op_line_args(op, path, lv, p),
        OpCallV::SingleString { op, value } => lemma_op_line_args(op, value, lv, p),
        _ => {},
    }
}

proof fn lemma_parse_no_args(c: OpCallV, lv: Seq<Seq<char>>, p: int)
    requires
        plain_call(c),
        c is NoArgs,
    ensures
        crate::op_args::op_line_spec(op_lines(c)[0], lv, p) == Ok::<
            (OpCallV, int),
            crate::parse::ParseErrorV,
        >((c, p)),
{
    match c {
        OpCallV::NoArgs { op } => lemma_op_line_bare(op, lv, p),
        _ => {},
    }
}

proof fn lemma_parse_path_set_ops(c: OpCallV, lv: Seq<Seq<char>>, p: int)
    requires
        plain_call(c),
        c is PathSet || c is PathSetFlag || c is PathSetMode || c is QuerySubstitutablePathInfos,
    ensures
        crate::op_args::op_line_spec(op_lines(c)[0], lv, p) == Ok::<
            (OpCallV, int),
            crate::parse::ParseErrorV,
        >((c, p)),
{
    reveal_strlit(" substitute");
    reveal_strlit("substitute");
    reveal_strlit("QuerySubstitutablePathInfos ");
    reveal_strlit("QuerySubstitutablePathInfos");
    match c {
        OpCallV::PathSet { op, paths } => {
            let pst = path_set_text(paths);
            assert(pst + Seq::<char>::empty() =~= pst);
            lemma_path_set_filled(paths, seq![]);
            lemma_items_are_words(paths);
            law_path_set_roundtrip(paths, seq![]);
            lemma_op_line_args(op, pst, lv, p);
        },
        OpCallV::PathSetFlag { op, paths, substitute } => {
            let pst = path_set_text(paths);
            let x: Seq<char> = if substitute {
                " substitute"@
            } else {
                seq![]
            };
            assert(op_lines(c)[0] =~= op_name(op) + seq![' '] + (pst + x));
            assert(x.len() == 0 || (plain(x) && !is_ws(x.last())));
            lemma_path_set_filled(paths, x);
            lemma_items_are_words(paths);
            law_path_set_roundtrip(paths, x);
            lemma_op_line_args(op, pst + x, lv, p);
            if substitute {
                lemma_trim_padded(seq![' '], "substitute"@, seq![]);
                lemma_all_ws_space();
                assert(seq![' '] + "substitute"@ + Seq::<char>::empty() =~= x);
            } else {
                assert(trim(x) =~= Seq::<char>::empty());
            }
        },
        OpCallV::PathSetMode { op, paths, mode } => {
            let pst = path_set_text(paths);
            let x = seq![' '] + mode;
            assert(op_lines(c)[0] =~= op_name(op) + seq![' '] + (pst + x));
            assert(plain(x) && !is_ws(x.last())) by {
                assert forall|i: int| 0 <= i < x.len() implies x[i] != '\n' && x[i] != '\r' by {
                    if i > 0 {
                        assert(x[i] == mode[i - 1]);
                    }
                }
            }
            lemma_path_set_filled(paths, x);
            lemma_items_are_words(paths);
            law_path_set_roundtrip(paths, x);
            lemma_op_line_args(op, pst + x, lv, p);
            lemma_all_ws_space();
            lemma_trim_padded(seq![' '], mode, seq![]);
            assert(seq![' '] + mode + Seq::<char>::empty() =~= x);
        },
        OpCallV::QuerySubstitutablePathInfos { paths } => {
            let pst = path_set_text(paths);
            assert("QuerySubstitutablePathInfos "@ =~= op_name(Op::QuerySubstitutablePathInfos) + seq![' ']);
            assert(op_lines(c)[0] =~= op_name(Op::QuerySubstitutablePathInfos) + seq![' '] + pst);
            assert(pst + Seq::<char>::empty() =~= pst);
            lemma_path_set_filled(paths, seq![]);
            lemma_items_are_words(paths);
            law_path_set_roundtrip(paths, seq![]);
            lemma_op_line_args(Op::QuerySubstitutablePathInfos, pst, lv, p);
        },
        _ => {},
    }
}

proof fn lemma_parse_named_value(c: OpCallV, lv: Seq<Seq<char>>, p: int)
    requires
        plain_call(c),
        c is RegisterDrvOutput || c is QueryRealisation || c is QuerySubstitutablePathInfo,
    ensures
        crate::op_args::op_line_spec(op_lines(c)[0], lv, p) == Ok::<
            (OpCallV, int),
            crate::parse::ParseErrorV,
        >((c, p)),
{
    reveal_strlit("RegisterDrvOutput ");
    reveal_strlit("RegisterDrvOutput");
    reveal_strlit("QueryRealisation ");
    reveal_strlit("QueryRealisation");
    reveal_strlit("QuerySubstitutablePathInfo ");
    reveal_strlit("QuerySubstitutablePathInfo");
    match c {
        OpCallV::RegisterDrvOutput { value } => {
            assert("RegisterDrvOutput "@ =~= op_name(Op::RegisterDrvOutput) + seq![' ']);
            lemma_op_line_args(Op::RegisterDrvOutput, value, lv, p);
        },
        OpCallV::QueryRealisation { value } => {
            assert("QueryRealisation "@ =~= op_name(Op::QueryRealisation) + seq![' ']);
            lemma_op_line_args(Op::QueryRealisation, value, lv, p);
        },
        OpCallV::QuerySubstitutablePathInfo { path } => {
            assert("QuerySubstitutablePathInfo "@ =~= op_name(Op::QuerySubstitutablePathInfo) + seq![' ']);
            lemma_op_line_args(Op::QuerySubstitutablePathInfo, path, lv, p);
        },
        _ => {},
    }
}

proof fn lemma_parse_perm_root(c: OpCallV, lv: Seq<Seq<char>>, p: int)
    requires
        plain_call(c),
        c is AddPermRoot || c is AddSignatures,
    ensures
        crate::op_args::op_line_spec(op_lines(c)[0], lv, p) == Ok::<
            (OpCallV, int),
            crate::parse::ParseErrorV,
        >((c, p)),
{
    reveal_strlit("AddPermRoot ");
    reveal_strlit("AddPermRoot");
    reveal_strlit("AddSignatures ");
    reveal_strlit("AddSignatures");
    match c {
        OpCallV::AddPermRoot { path, gc_root } => {
            let args = path + seq![' '] + gc_root;
            assert("AddPermRoot "@ =~= op_name(Op::AddPermRoot) + seq![' ']);
            assert(op_lines(c)[0] =~= op_name(Op::AddPermRoot) + seq![' '] + args);
            assert(filled(args)) by {
                assert(args[0] == path[0] && args.last() == gc_root.last());
                assert forall|i: int| 0 <= i < args.len() implies args[i] != '\n' && args[i] != '\r' by {
                    if i < path.len() {
                        assert(args[i] == path[i]);
                    } else if i > path.len() {
                        assert(args[i] == gc_root[i - path.len() - 1]);
                    }
                }
            }
            lemma_op_line_args(Op::AddPermRoot, args, lv, p);
            crate::text::lemma_split_once_concat(path, ' ', gc_root);
        },
        OpCallV::AddSignatures { path, sigs } => {
            let pst = path_set_text(sigs);
            let args = path + seq![' '] + pst;
            assert("AddSignatures "@ =~= op_name(Op::AddSignatures) + seq![' ']);
            assert(op_lines(c)[0] =~= op_name(Op::AddSignatures) + seq![' '] + args);
            lemma_path_set_filled(sigs, seq![]);
            assert(pst + Seq::<char>::empty() =~= pst);
            assert(filled(args)) by {
                assert(args[0] == path[0] && args.last() == pst.last());
                assert forall|i: int| 0 <= i < args.len() implies args[i] != '\n' && args[i] != '\r' by {
                    if i < path.len() {
                        assert(args[i] == path[i]);
                    } else if i > path.len() {
                        assert(args[i] == pst[i - path.len() - 1]);
                    }
                }
            }
            lemma_op_line_args(Op::AddSignatures, args, lv, p);
            crate::text::lemma_split_once_concat(path, ' ', pst);
            lemma_items_are_words(sigs);
            law_path_set_roundtrip(sigs, seq![]);
        },
        _ => {},
    }
}

// ---------------------------------------------------------------------------
// Reading keyed blocks
// ---------------------------------------------------------------------------

pub(crate) proof fn lemma_dec_filled(n: nat)
    ensures
        filled(dec(n)),
{
    lemma_dec_value(n);
    let d = dec(n);
    assert forall|i: int| 0 <= i < d.len() implies d[i] != '\n' && d[i] != '\r' && !is_ws(d[i]) by {
        assert(crate::num::is_digit(d[i]));
    }
}

proof fn lemma_bool_text(b: bool)
    ensures
        filled(bool_text(b)),
        crate::op_args::flag_of(bool_text(b)) == b,
{
    reveal_strlit("0");
    lemma_dec_filled(if b { 1 } else { 0 });
    assert(dec(0) =~= "0"@);
    assert(dec(1) == seq!['1']);
    if b {
        assert(dec(1)[0] != "0"@[0]);
    }
}

proof fn lemma_u64_value(n: u64)
    ensures
        crate::op_args::u64_or_zero(dec(n as nat)) == n,
        filled(dec(n as nat)),
{
    lemma_parse_dec(n as nat, u64::MAX as nat);
    lemma_dec_filled(n as nat);
}

/// A keyed line written with the format's literal prefix.
proof fn lemma_prefixed_kv(prefix: Seq<char>, k: Seq<char>, v: Seq<char>)
    requires
        prefix == seq![' ', ' '] + k + seq![':', ' '],
        key_word(k),
        filled(v),
    ensures
        prefix + v == kv_line(k, v),
        crate::op_args::block_line(prefix + v),
        plain(prefix + v),
        forall|st: OpCallV| crate::op_args::line_step(st, #[trigger] (prefix + v)) == crate::op_args::key_step(st, k, v),
{
    assert(prefix + v =~= kv_line(k, v));
    lemma_kv_line(k, v);
}

#[verifier::spinoff_prover]
#[verifier::rlimit(50)]
proof fn lemma_parse_collect_garbage(c: OpCallV, lv: Seq<Seq<char>>, p: int)
    requires
        plain_call(c),
        c is CollectGarbage,
        0 <= p,
        p + 4 <= lv.len(),
        lv.subrange(p, p + 4) == op_lines(c).drop_first(),
        block_ends_at(lv, p + 4),
    ensures
        crate::op_args::op_line_spec(op_lines(c)[0], lv, p) == Ok::<
            (OpCallV, int),
            crate::parse::ParseErrorV,
        >((c, p + 4)),
{
    reveal_strlit("CollectGarbage");
    reveal_strlit("  action: ");
    reveal_strlit("action");
    reveal_strlit("  paths: ");
    reveal_strlit("paths");
    reveal_strlit("  ignore_liveness: ");
    reveal_strlit("ignore_liveness");
    reveal_strlit("  max_freed: ");
    reveal_strlit("max_freed");
    match c {
        OpCallV::CollectGarbage { action, paths, ignore_liveness, max_freed } => {
            let ls = op_lines(c).drop_first();
            let pst = path_set_text(paths);
            lemma_u64_value(action);
            lemma_u64_value(ignore_liveness);
            lemma_u64_value(max_freed);
            lemma_path_set_filled(paths, seq![]);
            assert(pst + Seq::<char>::empty() =~= pst);
            lemma_items_are_words(paths);
            law_path_set_roundtrip(paths, seq![]);
            assert("  action: "@ =~= seq![' ', ' '] + "action"@ + seq![':', ' ']);
            lemma_prefixed_kv("  action: "@, "action"@, dec(action as nat));
            assert("  paths: "@ =~= seq![' ', ' '] + "paths"@ + seq![':', ' ']);
            lemma_prefixed_kv("  paths: "@, "paths"@, pst);
            assert("  ignore_liveness: "@ =~= seq![' ', ' '] + "ignore_liveness"@ + seq![':', ' ']);
            lemma_prefixed_kv("  ignore_liveness: "@, "ignore_liveness"@, dec(ignore_liveness as nat));
            assert("  max_freed: "@ =~= seq![' ', ' '] + "max_freed"@ + seq![':', ' ']);
            lemma_prefixed_kv("  max_freed: "@, "max_freed"@, dec(max_freed as nat));
            let st0 = OpCallV::CollectGarbage {
                action: 0,
                paths: seq![],
                ignore_liveness: 0,
                max_freed: 0,
            };
            lemma_key_block_lines(lv, p, st0, ls);
            lemma_op_line_bare(Op::CollectGarbage, lv, p);
            let st1 = OpCallV::CollectGarbage { action, paths: seq![], ignore_liveness: 0, max_freed: 0 };
            let st2 = OpCallV::CollectGarbage { action, paths, ignore_liveness: 0, max_freed: 0 };
            let st3 = OpCallV::CollectGarbage { action, paths, ignore_liveness, max_freed: 0 };
            assert(ls[0] == "  action: "@ + dec(action as nat));
            assert(ls[1] == "  paths: "@ + pst);
            assert(ls[2] == "  ignore_liveness: "@ + dec(ignore_liveness as nat));
            assert(ls[3] == "  max_freed: "@ + dec(max_freed as nat));
            assert(crate::op_args::line_step(st0, ls[0]) == crate::op_args::key_step(st0, "action"@, dec(action as nat)));
            assert(crate::op_args::key_step(st0, "action"@, dec(action as nat)) == Ok::<OpCallV, crate::parse::ParseErrorV>(st1));
            assert(crate::op_args::line_step(st0, ls[0]) == Ok::<OpCallV, crate::parse::ParseErrorV>(st1));
            assert(crate::op_args::line_step(st1, ls[1]) == crate::op_args::key_step(st1, "paths"@, pst));
            assert(crate::op_args::key_step(st1, "paths"@, pst) == Ok::<OpCallV, crate::parse::ParseErrorV>(st2));
            assert(crate::op_args::line_step(st1, ls[1]) == Ok::<OpCallV, crate::parse::ParseErrorV>(st2));
            assert(crate::op_args::line_step(st2, ls[2]) == crate::op_args::key_step(st2, "ignore_liveness"@, dec(ignore_liveness as nat)));
            assert(crate::op_args::key_step(st2, "ignore_liveness"@, dec(ignore_liveness as nat)) == Ok::<OpCallV, crate::parse::ParseErrorV>(st3));
            assert(crate::op_args::line_step(st2, ls[2]) == Ok::<OpCallV, crate::parse::ParseErrorV>(st3));
            assert(crate::op_args::line_step(st3, ls[3]) == crate::op_args::key_step(st3, "max_freed"@, dec(max_freed as nat)));
            assert(crate::op_args::key_step(st3, "max_freed"@, dec(max_freed as nat)) == Ok::<OpCallV, crate::parse::ParseErrorV>(c));
            assert(crate::op_args::line_step(st3, ls[3]) == Ok::<OpCallV, crate::parse::ParseErrorV>(c));
            reveal_with_fuel(apply_lines, 5);
            assert(ls.drop_first().drop_first().drop_first().drop_first() =~= Seq::<Seq<char>>::empty());
            assert(apply_lines(st0, ls) == Ok::<OpCallV, crate::parse::ParseErrorV>(c));
        },
        _ => {},
    }
}

// ---------------------------------------------------------------------------
// Quoted values and data
// ---------------------------------------------------------------------------

proof fn lemma_replace_absent(s: Seq<char>, f: Seq<char>, t: Seq<char>, i: int)
    requires
        0 <= i <= s.len(),
        f.len() > 0,
        lacks(s, f[0]),
    ensures
        crate::text::replace_from(s, f, t, i) == s.subrange(i, s.len() as int),
    decreases s.len() - i,
{
    if i < s.len() {
        if i + f.len() <= s.len() && s.subrange(i, i + f.len()) == f {
            assert(s.subrange(i, i + f.len())[0] == s[i]);
        }
        lemma_replace_absent(s, f, t, i + 1);
        assert(s.subrange(i, s.len() as int) =~= seq![s[i]] + s.subrange(i + 1, s.len() as int));
    } else {
        assert(s.subrange(i, s.len() as int) =~= Seq::<char>::empty());
    }
}

proof fn lemma_replace_none(s: Seq<char>, f: Seq<char>, t: Seq<char>)
    requires
        f.len() > 0,
        lacks(s, f[0]),
    ensures
        crate::text::replace(s, f, t) == s,
{
    lemma_replace_absent(s, f, t, 0);
    assert(s.subrange(0, s.len() as int) =~= s);
}

/// Text between quotes reads back as itself.
proof fn lemma_unquote(x: Seq<char>)
    requires
        quotable(x),
    ensures
        crate::parse::unquote_spec(seq!['"'] + x + seq!['"']) == x,
        filled(seq!['"'] + x + seq!['"']),
{
    reveal_strlit("\"");
    reveal_strlit("\\n");
    reveal_strlit("\\r");
    reveal_strlit("\\t");
    reveal_strlit("\\\"");
    reveal_strlit("\\\\");
    let q = seq!['"'] + x + seq!['"'];
    assert(q[0] == '"' && q.last() == '"');
    assert(!is_ws('"'));
    assert(plain(q)) by {
        assert forall|i: int| 0 <= i < q.len() implies q[i] != '\n' && q[i] != '\r' by {
            if 0 < i < q.len() - 1 {
                assert(q[i] == x[i - 1]);
            }
        }
    }
    lemma_trim_id(q);
    assert(q.subrange(0, 1) =~= "\""@);
    assert(q.subrange(q.len() - 1, q.len() as int) =~= "\""@);
    assert(q.subrange(1, q.len() - 1) =~= x);
    lemma_replace_none(x, "\\n"@, "\n"@);
    lemma_replace_none(x, "\\r"@, "\r"@);
    lemma_replace_none(x, "\\t"@, "\t"@);
    lemma_replace_none(x, "\\\""@, "\""@);
    lemma_replace_none(x, "\\\\"@, "\\"@);
}

// ---------------------------------------------------------------------------
// Undoing escapes
// ---------------------------------------------------------------------------

/// The escape letter that the `k`-th unescaping pass looks for after a
/// backslash, and the character it puts back.
pub open spec fn pass_letter(k: nat) -> char {
    if k == 0 {
        'n'
    } else if k == 1 {
        'r'
    } else if k == 2 {
        't'
    } else {
        '"'
    }
}

pub open spec fn pass_char(k: nat) -> char {
    if k == 0 {
        '\n'
    } else if k == 1 {
        '\r'
    } else if k == 2 {
        '\t'
    } else {
        '"'
    }
}

/// The escaped form of `c` after the first `k` unescaping passes.
pub open spec fn unescaped_char(k: nat, c: char) -> Seq<char> {
    if c == '\n' && k < 1 {
        seq!['\\', 'n']
    } else if c == '\r' && k < 2 {
        seq!['\\', 'r']
    } else if c == '\t' && k < 3 {
        seq!['\\', 't']
    } else if c == '"' && k < 4 {
        seq!['\\', '"']
    } else {
        seq![c]
    }
}

pub open spec fn unescaped_text(k: nat, x: Seq<char>) -> Seq<char>
    decreases x.len(),
{
    if x.len() == 0 {
        seq![]
    } else {
        unescaped_text(k, x.drop_last()) + unescaped_char(k, x.last())
    }
}

proof fn lemma_replace_shift(pre: Seq<char>, b: Seq<char>, f: Seq<char>, t: Seq<char>, j: int)
    requires
        0 <= j <= b.len(),
        f.len() > 0,
    ensures
        crate::text::replace_from(pre + b, f, t, pre.len() + j) == crate::text::replace_from(b, f, t, j),
    decreases b.len() - j,
{
    let s = pre + b;
    if j < b.len() {
        assert(s[pre.len() + j] == b[j]);
        if j + f.len() <= b.len() {
            assert(s.subrange(pre.len() + j, pre.len() + j + f.len()) =~= b.subrange(j, j + f.len()));
            if b.subrange(j, j + f.len()) == f {
                lemma_replace_shift(pre, b, f, t, j + f.len());
            } else {
                lemma_replace_shift(pre, b, f, t, j + 1);
            }
        } else {
            lemma_replace_shift(pre, b, f, t, j + 1);
        }
    }
}

/// Replacing a backslash pair works piece by piece when the first piece
/// does not end in a backslash.
proof fn lemma_replace_split(a: Seq<char>, b: Seq<char>, e: char, v: char, i: int)
    requires
        0 <= i <= a.len(),
        a.len() == 0 || a.last() != '\\',
    ensures
        crate::text::replace_from(a + b, seq!['\\', e], seq![v], i) == crate::text::replace_from(
            a,
            seq!['\\', e],
            seq![v],
            i,
        ) + crate::text::replace(b, seq!['\\', e], seq![v]),
    decreases a.len() - i,
{
    let f = seq!['\\', e];
    let t = seq![v];
    let s = a + b;
    if i == a.len() {
        lemma_replace_shift(a, b, f, t, 0);
        assert(crate::text::replace_from(a, f, t, i) == Seq::<char>::empty());
        assert(Seq::<char>::empty() + crate::text::replace(b, f, t) =~= crate::text::replace(b, f, t));
    } else {
        assert(s[i] == a[i]);
        if i + 2 <= a.len() {
            assert(s.subrange(i, i + 2) =~= a.subrange(i, i + 2));
            if a.subrange(i, i + 2) == f {
                lemma_replace_split(a, b, e, v, i + 2);
            } else {
                lemma_replace_split(a, b, e, v, i + 1);
            }
        } else {
            assert(i == a.len() - 1);
            assert(!(i + 2 <= s.len() && s.subrange(i, i + 2) == f)) by {
                if i + 2 <= s.len() && s.subrange(i, i + 2) == f {
                    assert(s.subrange(i, i + 2)[0] == s[i]);
                }
            }
            lemma_replace_split(a, b, e, v, i + 1);
        }
    }
}

proof fn lemma_replace_token(k: nat, c: char)
    requires
        k < 4,
        c != '\\',
    ensures
        crate::text::replace(unescaped_char(k, c), seq!['\\', pass_letter(k)], seq![pass_char(k)])
            == unescaped_char(k + 1, c),
{
    let f = seq!['\\', pass_letter(k)];
    let t = seq![pass_char(k)];
    let tok = unescaped_char(k, c);
    if tok.len() == 2 {
        assert(tok.subrange(0, 2) =~= tok);
        if tok == f {
            assert(crate::text::replace_from(tok, f, t, 2) == Seq::<char>::empty());
            assert(crate::text::replace(tok, f, t) =~= t);
        } else {
            assert(tok[1] != '\\');
            assert(crate::text::replace_from(tok, f, t, 2) == Seq::<char>::empty());
            assert(crate::text::replace_from(tok, f, t, 1) =~= seq![tok[1]]);
            assert(crate::text::replace(tok, f, t) =~= tok);
        }
    } else {
        assert(tok =~= seq![c]);
        assert(crate::text::replace_from(tok, f, t, 1) == Seq::<char>::empty());
        assert(crate::text::replace(tok, f, t) =~= tok);
    }
}

proof fn lemma_unescaped_last(k: nat, x: Seq<char>)
    requires
        lacks(x, '\\'),
    ensures
        unescaped_text(k, x).len() == 0 || unescaped_text(k, x).last() != '\\',
{
    if x.len() > 0 {
        assert(x[x.len() - 1] != '\\');
        let tok = unescaped_char(k, x.last());
        assert(unescaped_text(k, x).last() == tok.last());
    }
}

/// One unescaping pass undoes its escapes.
proof fn lemma_replace_pass(k: nat, x: Seq<char>)
    requires
        k < 4,
        lacks(x, '\\'),
    ensures
        crate::text::replace(unescaped_text(k, x), seq!['\\', pass_letter(k)], seq![pass_char(k)])
            == unescaped_text(k + 1, x),
    decreases x.len(),
{
    if x.len() > 0 {
        let init = x.drop_last();
        assert(lacks(init, '\\')) by {
            assert forall|i: int| 0 <= i < init.len() implies init[i] != '\\' by {
                assert(init[i] == x[i]);
            }
        }
        assert(x[x.len() - 1] != '\\');
        lemma_replace_pass(k, init);
        lemma_unescaped_last(k, init);
        lemma_replace_split(
            unescaped_text(k, init),
            unescaped_char(k, x.last()),
            pass_letter(k),
            pass_char(k),
            0,
        );
        lemma_replace_token(k, x.last());
    } else {
        assert(crate::text::replace(
            unescaped_text(k, x),
            seq!['\\', pass_letter(k)],
            seq![pass_char(k)],
        ) == Seq::<char>::empty());
    }
}

proof fn lemma_unescaped_ends(x: Seq<char>)
    requires
        lacks(x, '\\'),
    ensures
        unescaped_text(0, x) == escape_text(x),
        unescaped_text(4, x) == x,
    decreases x.len(),
{
    if x.len() > 0 {
        let init = x.drop_last();
        assert(lacks(init, '\\')) by {
            assert forall|i: int| 0 <= i < init.len() implies init[i] != '\\' by {
                assert(init[i] == x[i]);
            }
        }
        assert(x[x.len() - 1] != '\\');
        lemma_unescaped_ends(init);
        assert(init.push(x.last()) =~= x);
    }
}

/// Escaping text without backslashes and undoing the escapes gives the
/// text back.
pub proof fn law_unescape_escape(x: Seq<char>)
    requires
        lacks(x, '\\'),
    ensures
        crate::parse::unescape_spec(escape_text(x)) == x,
{
    reveal_strlit("\\n");
    reveal_strlit("\\r");
    reveal_strlit("\\t");
    reveal_strlit("\\\"");
    reveal_strlit("\\\\");
    reveal_strlit("\n");
    reveal_strlit("\r");
    reveal_strlit("\t");
    reveal_strlit("\"");
    reveal_strlit("\\");
    lemma_unescaped_ends(x);
    assert("\\n"@ =~= seq!['\\', pass_letter(0)]);
    assert("\n"@ =~= seq![pass_char(0)]);
    assert("\\r"@ =~= seq!['\\', pass_letter(1)]);
    assert("\r"@ =~= seq![pass_char(1)]);
    assert("\\t"@ =~= seq!['\\', pass_letter(2)]);
    assert("\t"@ =~= seq![pass_char(2)]);
    assert("\\\""@ =~= seq!['\\', pass_letter(3)]);
    assert("\""@ =~= seq![pass_char(3)]);
    lemma_replace_pass(0, x);
    lemma_replace_pass(1, x);
    lemma_replace_pass(2, x);
    lemma_replace_pass(3, x);
    lemma_replace_none(x, "\\\\"@, "\\"@);
}

/// Escaped text has no line breaks.
proof fn lemma_escape_plain(x: Seq<char>)
    ensures
        plain(escape_text(x)),
    decreases x.len(),
{
    if x.len() > 0 {
        lemma_escape_plain(x.drop_last());
        lemma_plain_cat(escape_text(x.drop_last()), crate::format::escape_char(x.last()));
    }
}

/// Escaped text between quotes reads back as the text, when the text has no
/// backslash.
proof fn lemma_unquote_escaped(x: Seq<char>)
    requires
        lacks(x, '\\'),
    ensures
        crate::parse::unquote_spec(seq!['"'] + escape_text(x) + seq!['"']) == x,
        filled(seq!['"'] + escape_text(x) + seq!['"']),
{
    reveal_strlit("\"");
    let e = escape_text(x);
    let q = seq!['"'] + e + seq!['"'];
    lemma_escape_plain(x);
    assert(q[0] == '"' && q.last() == '"');
    assert(!is_ws('"'));
    assert(plain(q)) by {
        assert forall|i: int| 0 <= i < q.len() implies q[i] != '\n' && q[i] != '\r' by {
            if 0 < i < q.len() - 1 {
                assert(q[i] == e[i - 1]);
            }
        }
    }
    lemma_trim_id(q);
    assert(q.subrange(0, 1) =~= "\""@);
    assert(q.subrange(q.len() - 1, q.len() as int) =~= "\""@);
    assert(q.subrange(1, q.len() - 1) =~= e);
    law_unescape_escape(x);
}

/// The value of a `data:` line.
pub open spec fn data_value(d: FramedDataV) -> Seq<char> {
    match d {
        FramedDataV::Inline(b) => seq!['x', '"'] + hex_text(b) + seq!['"'],
        FramedDataV::FileRef(p) => "@file:"@ + p,
    }
}

proof fn lemma_hex_chars(b: Seq<u8>)
    ensures
        forall|i: int| 0 <= i < hex_text(b).len() ==> {
            let c = #[trigger] hex_text(b)[i];
            ('0' <= c <= '9') || ('a' <= c <= 'f')
        },
{
    crate::num::lemma_hex_text_shape(b);
    assert forall|i: int| 0 <= i < hex_text(b).len() implies {
        let c = #[trigger] hex_text(b)[i];
        ('0' <= c <= '9') || ('a' <= c <= 'f')
    } by {
        let k = i / 2;
        assert(i == 2 * k || i == 2 * k + 1);
        let x = b[k];
        let d = if i == 2 * k { (x / 16) as nat } else { (x % 16) as nat };
        assert(hex_text(b)[i] == crate::num::hex_char(d));
        if d < 10 {
            assert(((48 + d) as u8) as char as u32 == 48 + d);
        } else {
            assert(((87 + d) as u8) as char as u32 == 87 + d);
        }
    }
}

proof fn lemma_data_value(d: FramedDataV)
    requires
        plain_data(d),
    ensures
        filled(data_value(d)),
        crate::parse::parse_data_spec(data_value(d)) == Ok::<
            FramedDataV,
            crate::parse::ParseErrorV,
        >(d),
        framed_line(d) == kv_line("data"@, data_value(d)),
{
    reveal_strlit("x\"");
    reveal_strlit("@file:");
    reveal_strlit("\"");
    reveal_strlit("data");
    reveal_strlit("  data: x\"");
    reveal_strlit("  data: @file:");
    let v = data_value(d);
    match d {
        FramedDataV::Inline(b) => {
            let h = hex_text(b);
            lemma_hex_chars(b);
            assert(v[0] == 'x' && v.last() == '"');
            assert(plain(v)) by {
                assert forall|i: int| 0 <= i < v.len() implies v[i] != '\n' && v[i] != '\r' by {
                    if 2 <= i < 2 + h.len() {
                        assert(v[i] == h[i - 2]);
                    }
                }
            }
            assert(v =~= "x\""@ + (h + seq!['"']));
            crate::text::lemma_starts_with_concat("x\""@, h + seq!['"']);
            assert((h + seq!['"']).drop_last() =~= h);
            assert(crate::text::trim_end_char(h, '"') == h) by {
                if h.len() > 0 {
                    assert(h.last() != '"');
                }
            }
            crate::num::law_hex_roundtrip(b);
            assert(framed_line(d) =~= kv_line("data"@, v));
        },
        FramedDataV::FileRef(p) => {
            assert(v[0] == '@');
            assert(v.last() == if p.len() > 0 { p.last() } else { ':' });
            assert(plain(v)) by {
                assert forall|i: int| 0 <= i < v.len() implies v[i] != '\n' && v[i] != '\r' by {
                    if i >= 6 {
                        assert(v[i] == p[i - 6]);
                    }
                }
            }
            lemma_not_prefix_at(v, "x\""@, 0);
            crate::text::lemma_starts_with_concat("@file:"@, p);
            assert(framed_line(d) =~= kv_line("data"@, v));
        },
    }
}

#[verifier::spinoff_prover]
#[verifier::rlimit(60)]
proof fn lemma_parse_verify_store(c: OpCallV, lv: Seq<Seq<char>>, p: int)
    requires
        plain_call(c),
        c is VerifyStore,
        0 <= p,
        p + 2 <= lv.len(),
        lv.subrange(p, p + 2) == op_lines(c).drop_first(),
        block_ends_at(lv, p + 2),
    ensures
        crate::op_args::op_line_spec(op_lines(c)[0], lv, p) == Ok::<
            (OpCallV, int),
            crate::parse::ParseErrorV,
        >((c, p + 2)),
{
    reveal_strlit("VerifyStore");
    reveal_strlit("  check_contents: ");
    reveal_strlit("check_contents");
    reveal_strlit("  repair: ");
    reveal_strlit("repair");
    match c {
        OpCallV::VerifyStore { check_contents, repair } => {
            let ls = op_lines(c).drop_first();
            lemma_bool_text(check_contents);
            lemma_bool_text(repair);
            let st0 = OpCallV::VerifyStore { check_contents: false, repair: false };
            let st1 = OpCallV::VerifyStore { check_contents, repair: false };
            let st2 = c;
            assert(ls[0] =~= kv_line("check_contents"@, bool_text(check_contents)));
            lemma_kv_line("check_contents"@, bool_text(check_contents));
            assert(crate::op_args::line_step(st0, ls[0]) == crate::op_args::key_step(st0, "check_contents"@, bool_text(check_contents)));
            assert(crate::op_args::key_step(st0, "check_contents"@, bool_text(check_contents)) == Ok::<OpCallV, crate::parse::ParseErrorV>(st1));
            assert(ls[1] =~= kv_line("repair"@, bool_text(repair)));
            lemma_kv_line("repair"@, bool_text(repair));
            assert(crate::op_args::line_step(st1, ls[1]) == crate::op_args::key_step(st1, "repair"@, bool_text(repair)));
            assert(crate::op_args::key_step(st1, "repair"@, bool_text(repair)) == Ok::<OpCallV, crate::parse::ParseErrorV>(st2));
            lemma_key_block_lines(lv, p, st0, ls);
            lemma_op_line_bare(Op::VerifyStore, lv, p);
            reveal_with_fuel(apply_lines, 3);
            assert(ls.drop_first().drop_first() =~= Seq::<Seq<char>>::empty());
            assert(apply_lines(st0, ls) == Ok::<OpCallV, crate::parse::ParseErrorV>(c));
        },
        _ => {},
    }
}

#[verifier::spinoff_prover]
#[verifier::rlimit(60)]
proof fn lemma_parse_add_text_to_store(c: OpCallV, lv: Seq<Seq<char>>, p: int)
    requires
        plain_call(c),
        c is AddTextToStore,
        0 <= p,
        p + 3 <= lv.len(),
        lv.subrange(p, p + 3) == op_lines(c).drop_first(),
        block_ends_at(lv, p + 3),
    ensures
        crate::op_args::op_line_spec(op_lines(c)[0], lv, p) == Ok::<
            (OpCallV, int),
            crate::parse::ParseErrorV,
        >((c, p + 3)),
{
    reveal_strlit("AddTextToStore");
    reveal_strlit("  suffix: \"");
    reveal_strlit("suffix");
    reveal_strlit("  text: \"");
    reveal_strlit("text");
    reveal_strlit("\"");
    reveal_strlit("  refs: ");
    reveal_strlit("refs");
    match c {
        OpCallV::AddTextToStore { suffix, text, refs } => {
            let ls = op_lines(c).drop_first();
            lemma_unquote(suffix);
            lemma_unquote_escaped(text);
            lemma_path_set_filled(refs, seq![]);
            assert(path_set_text(refs) + Seq::<char>::empty() =~= path_set_text(refs));
            lemma_items_are_words(refs);
            law_path_set_roundtrip(refs, seq![]);
            let st0 = OpCallV::AddTextToStore { suffix: seq![], text: seq![], refs: seq![] };
            let st1 = OpCallV::AddTextToStore { suffix, text: seq![], refs: seq![] };
            let st2 = OpCallV::AddTextToStore { suffix, text, refs: seq![] };
            let st3 = c;
            assert(ls[0] =~= kv_line("suffix"@, seq!['"'] + suffix + seq!['"']));
            lemma_kv_line("suffix"@, seq!['"'] + suffix + seq!['"']);
            assert(crate::op_args::line_step(st0, ls[0]) == crate::op_args::key_step(st0, "suffix"@, seq!['"'] + suffix + seq!['"']));
            assert(crate::op_args::key_step(st0, "suffix"@, seq!['"'] + suffix + seq!['"']) == Ok::<OpCallV, crate::parse::ParseErrorV>(st1));
            let tq = seq!['"'] + escape_text(text) + seq!['"'];
            assert(ls[1] =~= kv_line("text"@, tq));
            lemma_kv_line("text"@, tq);
            assert(crate::op_args::line_step(st1, ls[1]) == crate::op_args::key_step(st1, "text"@, tq));
            assert(crate::op_args::key_step(st1, "text"@, tq) == Ok::<OpCallV, crate::parse::ParseErrorV>(st2));
            assert(ls[2] =~= kv_line("refs"@, path_set_text(refs)));
            lemma_kv_line("refs"@, path_set_text(refs));
            assert(crate::op_args::line_step(st2, ls[2]) == crate::op_args::key_step(st2, "refs"@, path_set_text(refs)));
            assert(crate::op_args::key_step(st2, "refs"@, path_set_text(refs)) == Ok::<OpCallV, crate::parse::ParseErrorV>(st3));
            lemma_key_block_lines(lv, p, st0, ls);
            lemma_op_line_bare(Op::AddTextToStore, lv, p);
            reveal_with_fuel(apply_lines, 4);
            assert(ls.drop_first().drop_first().drop_first() =~= Seq::<Seq<char>>::empty());
            assert(apply_lines(st0, ls) == Ok::<OpCallV, crate::parse::ParseErrorV>(c));
        },
        _ => {},
    }
}

#[verifier::spinoff_prover]
#[verifier::rlimit(60)]
proof fn lemma_parse_add_to_store(c: OpCallV, lv: Seq<Seq<char>>, p: int)
    requires
        plain_call(c),
        c is AddToStore,
        0 <= p,
        p + 5 <= lv.len(),
        lv.subrange(p, p + 5) == op_lines(c).drop_first(),
        block_ends_at(lv, p + 5),
    ensures
        crate::op_args::op_line_spec(op_lines(c)[0], lv, p) == Ok::<
            (OpCallV, int),
            crate::parse::ParseErrorV,
        >((c, p + 5)),
{
    reveal_strlit("AddToStore");
    reveal_strlit("  name: \"");
    reveal_strlit("name");
    reveal_strlit("  cam_str: \"");
    reveal_strlit("cam_str");
    reveal_strlit("\"");
    reveal_strlit("  refs: ");
    reveal_strlit("refs");
    reveal_strlit("  repair: ");
    reveal_strlit("repair");
    reveal_strlit("data");
    match c {
        OpCallV::AddToStore { name, cam_str, refs, repair, data } => {
            let ls = op_lines(c).drop_first();
            lemma_unquote(name);
            lemma_unquote(cam_str);
            lemma_path_set_filled(refs, seq![]);
            assert(path_set_text(refs) + Seq::<char>::empty() =~= path_set_text(refs));
            lemma_items_are_words(refs);
            law_path_set_roundtrip(refs, seq![]);
            lemma_bool_text(repair);
            lemma_data_value(data);
            let st0 = OpCallV::AddToStore { name: seq![], cam_str: seq![], refs: seq![], repair: false, data: FramedDataV::Inline(seq![]) };
            let st1 = OpCallV::AddToStore { name, cam_str: seq![], refs: seq![], repair: false, data: FramedDataV::Inline(seq![]) };
            let st2 = OpCallV::AddToStore { name, cam_str, refs: seq![], repair: false, data: FramedDataV::Inline(seq![]) };
            let st3 = OpCallV::AddToStore { name, cam_str, refs, repair: false, data: FramedDataV::Inline(seq![]) };
            let st4 = OpCallV::AddToStore { name, cam_str, refs, repair, data: FramedDataV::Inline(seq![]) };
            let st5 = c;
            assert(ls[0] =~= kv_line("name"@, seq!['"'] + name + seq!['"']));
            lemma_kv_line("name"@, seq!['"'] + name + seq!['"']);
            assert(crate::op_args::line_step(st0, ls[0]) == crate::op_args::key_step(st0, "name"@, seq!['"'] + name + seq!['"']));
            assert(crate::op_args::key_step(st0, "name"@, seq!['"'] + name + seq!['"']) == Ok::<OpCallV, crate::parse::ParseErrorV>(st1));
            assert(ls[1] =~= kv_line("cam_str"@, seq!['"'] + cam_str + seq!['"']));
            lemma_kv_line("cam_str"@, seq!['"'] + cam_str + seq!['"']);
            assert(crate::op_args::line_step(st1, ls[1]) == crate::op_args::key_step(st1, "cam_str"@, seq!['"'] + cam_str + seq!['"']));
            assert(crate::op_args::key_step(st1, "cam_str"@, seq!['"'] + cam_str + seq!['"']) == Ok::<OpCallV, crate::parse::ParseErrorV>(st2));
            assert(ls[2] =~= kv_line("refs"@, path_set_text(refs)));
            lemma_kv_line("refs"@, path_set_text(refs));
            assert(crate::op_args::line_step(st2, ls[2]) == crate::op_args::key_step(st2, "refs"@, path_set_text(refs)));
            assert(crate::op_args::key_step(st2, "refs"@, path_set_text(refs)) == Ok::<OpCallV, crate::parse::ParseErrorV>(st3));
            assert(ls[3] =~= kv_line("repair"@, bool_text(repair)));
            lemma_kv_line("repair"@, bool_text(repair));
            assert(crate::op_args::line_step(st3, ls[3]) == crate::op_args::key_step(st3, "repair"@, bool_text(repair)));
            assert(crate::op_args::key_step(st3, "repair"@, bool_text(repair)) == Ok::<OpCallV, crate::parse::ParseErrorV>(st4));
            assert(ls[4] =~= kv_line("data"@, data_value(data)));
            lemma_kv_line("data"@, data_value(data));
            assert(crate::op_args::line_step(st4, ls[4]) == crate::op_args::key_step(st4, "data"@, data_value(data)));
            assert(crate::op_args::key_step(st4, "data"@, data_value(data)) == Ok::<OpCallV, crate::parse::ParseErrorV>(st5));
            lemma_key_block_lines(lv, p, st0, ls);
            lemma_op_line_bare(Op::AddToStore, lv, p);
            reveal_with_fuel(apply_lines, 6);
            assert(ls.drop_first().drop_first().drop_first().drop_first().drop_first() =~= Seq::<Seq<char>>::empty());
            assert(apply_lines(st0, ls) == Ok::<OpCallV, crate::parse::ParseErrorV>(c));
        },
        _ => {},
    }
}

#[verifier::spinoff_prover]
#[verifier::rlimit(60)]
proof fn lemma_parse_add_multiple(c: OpCallV, lv: Seq<Seq<char>>, p: int)
    requires
        plain_call(c),
        c is AddMultipleToStore,
        0 <= p,
        p + 3 <= lv.len(),
        lv.subrange(p, p + 3) == op_lines(c).drop_first(),
        block_ends_at(lv, p + 3),
    ensures
        crate::op_args::op_line_spec(op_lines(c)[0], lv, p) == Ok::<
            (OpCallV, int),
            crate::parse::ParseErrorV,
        >((c, p + 3)),
{
    reveal_strlit("AddMultipleToStore");
    reveal_strlit("  repair: ");
    reveal_strlit("repair");
    reveal_strlit("  dont_check_sigs: ");
    reveal_strlit("dont_check_sigs");
    reveal_strlit("data");
    match c {
        OpCallV::AddMultipleToStore { repair, dont_check_sigs, data } => {
            let ls = op_lines(c).drop_first();
            lemma_bool_text(repair);
            lemma_bool_text(dont_check_sigs);
            lemma_data_value(data);
            let st0 = OpCallV::AddMultipleToStore { repair: false, dont_check_sigs: false, data: FramedDataV::Inline(seq![]) };
            let st1 = OpCallV::AddMultipleToStore { repair, dont_check_sigs: false, data: FramedDataV::Inline(seq![]) };
            let st2 = OpCallV::AddMultipleToStore { repair, dont_check_sigs, data: FramedDataV::Inline(seq![]) };
            let st3 = c;
            assert(ls[0] =~= kv_line("repair"@, bool_text(repair)));
            lemma_kv_line("repair"@, bool_text(repair));
            assert(crate::op_args::line_step(st0, ls[0]) == crate::op_args::key_step(st0, "repair"@, bool_text(repair)));
            assert(crate::op_args::key_step(st0, "repair"@, bool_text(repair)) == Ok::<OpCallV, crate::parse::ParseErrorV>(st1));
            assert(ls[1] =~= kv_line("dont_check_sigs"@, bool_text(dont_check_sigs)));
            lemma_kv_line("dont_check_sigs"@, bool_text(dont_check_sigs));
            assert(crate::op_args::line_step(st1, ls[1]) == crate::op_args::key_step(st1, "dont_check_sigs"@, bool_text(dont_check_sigs)));
            assert(crate::op_args::key_step(st1, "dont_check_sigs"@, bool_text(dont_check_sigs)) == Ok::<OpCallV, crate::parse::ParseErrorV>(st2));
            assert(ls[2] =~= kv_line("data"@, data_value(data)));
            lemma_kv_line("data"@, data_value(data));
            assert(crate::op_args::line_step(st2, ls[2]) == crate::op_args::key_step(st2, "data"@, data_value(data)));
            assert(crate::op_args::key_step(st2, "data"@, data_value(data)) == Ok::<OpCallV, crate::parse::ParseErrorV>(st3));
            lemma_key_block_lines(lv, p, st0, ls);
            lemma_op_line_bare(Op::AddMultipleToStore, lv, p);
            reveal_with_fuel(apply_lines, 4);
            assert(ls.drop_first().drop_first().drop_first() =~= Seq::<Seq<char>>::empty());
            assert(apply_lines(st0, ls) == Ok::<OpCallV, crate::parse::ParseErrorV>(c));
        },
        _ => {},
    }
}

// ---------------------------------------------------------------------------
// Reading a SetOptions block
// ---------------------------------------------------------------------------

pub open spec fn apply_options(st: crate::op_args::OptionsState, ls: Seq<Seq<char>>) -> crate::op_args::OptionsState
    decreases ls.len(),
{
    if ls.len() == 0 {
        st
    } else {
        apply_options(crate::op_args::options_line(st, trim(ls[0])), ls.drop_first())
    }
}

proof fn lemma_options_block_lines(
    lv: Seq<Seq<char>>,
    i: int,
    st: crate::op_args::OptionsState,
    ls: Seq<Seq<char>>,
)
    requires
        0 <= i,
        i + ls.len() <= lv.len(),
        lv.subrange(i, i + ls.len()) == ls,
        forall|k: int| 0 <= k < ls.len() ==> crate::op_args::block_line(#[trigger] ls[k]),
        block_ends_at(lv, i + ls.len()),
    ensures
        crate::op_args::options_block(lv, i, st) == (apply_options(st, ls), i + ls.len()),
    decreases ls.len(),
{
    if ls.len() > 0 {
        assert(lv[i] == ls[0]) by {
            assert(lv.subrange(i, i + ls.len())[0] == lv[i]);
        }
        assert(crate::op_args::block_line(ls[0]));
        assert(lv.subrange(i + 1, i + 1 + ls.drop_first().len()) =~= ls.drop_first());
        assert forall|k: int| 0 <= k < ls.drop_first().len() implies crate::op_args::block_line(
            #[trigger] ls.drop_first()[k],
        ) by {
            assert(ls.drop_first()[k] == ls[k + 1]);
        }
        lemma_options_block_lines(
            lv,
            i + 1,
            crate::op_args::options_line(st, trim(ls[0])),
            ls.drop_first(),
        );
    }
}

/// An override line: a block line that reads back as its pair.
proof fn lemma_override_line(kv: (Seq<char>, Seq<char>))
    requires
        plain_override(kv),
    ensures
        crate::op_args::block_line(override_line(kv)),
        plain(override_line(kv)),
        trim(override_line(kv)) == seq!['"'] + kv.0 + seq!['"', ' ', '=', ' ', '"'] + kv.1 + seq!['"'],
        starts_with(trim(override_line(kv)), "\""@),
        crate::parse::parse_kv_spec(trim(override_line(kv))) == Some(kv),
{
    reveal_strlit("    \"");
    reveal_strlit("\" = \"");
    reveal_strlit("\"");
    reveal_strlit("=");
    reveal_strlit("  ");
    reveal_strlit("#");
    reveal_strlit("expect");
    let (a, b) = kv;
    let t = seq!['"'] + a + seq!['"', ' ', '=', ' ', '"'] + b + seq!['"'];
    let line = override_line(kv);
    assert(line =~= seq![' ', ' ', ' ', ' '] + t + Seq::<char>::empty());
    assert(t[0] == '"' && t.last() == '"');
    assert(plain(t)) by {
        assert forall|i: int| 0 <= i < t.len() implies t[i] != '\n' && t[i] != '\r' by {
            if 1 <= i < 1 + a.len() {
                assert(t[i] == a[i - 1]);
            } else if a.len() + 6 <= i < a.len() + 6 + b.len() {
                assert(t[i] == b[i - a.len() - 6]);
            }
        }
    }
    assert(crate::text::all_ws(seq![' ', ' ', ' ', ' ']));
    lemma_all_ws_space();
    lemma_trim_padded(seq![' ', ' ', ' ', ' '], t, seq![]);
    assert(line.subrange(0, 2) =~= "  "@);
    assert(t.subrange(0, 1) =~= "\""@);
    lemma_not_prefix_at(t, "#"@, 0);
    lemma_not_prefix_at(t, "expect"@, 0);
    assert(plain(line)) by {
        assert forall|i: int| 0 <= i < line.len() implies line[i] != '\n' && line[i] != '\r' by {
            if i >= 4 {
                assert(line[i] == t[i - 4]);
            }
        }
    }
    // Reading the pair.
    let rest = t.subrange(1, t.len() as int);
    assert(rest =~= a + seq!['"'] + (seq![' ', '=', ' ', '"'] + b + seq!['"']));
    lemma_find_char_concat(a, '"', seq![' ', '=', ' ', '"'] + b + seq!['"']);
    assert(rest.subrange(0, a.len() as int) =~= a);
    let r2src = rest.subrange(a.len() as int + 1, rest.len() as int);
    assert(r2src =~= seq![' '] + (seq!['=', ' ', '"'] + b + seq!['"']) + Seq::<char>::empty());
    let r2 = seq!['=', ' ', '"'] + b + seq!['"'];
    assert(r2[0] == '=' && r2.last() == '"');
    assert(plain(r2)) by {
        assert forall|i: int| 0 <= i < r2.len() implies r2[i] != '\n' && r2[i] != '\r' by {
            if 3 <= i < 3 + b.len() {
                assert(r2[i] == b[i - 3]);
            }
        }
    }
    lemma_trim_padded(seq![' '], r2, seq![]);
    assert(r2 =~= "="@ + (seq![' ', '"'] + b + seq!['"']));
    crate::text::lemma_starts_with_concat("="@, seq![' ', '"'] + b + seq!['"']);
    let r3 = seq![' ', '"'] + b + seq!['"'];
    let r4 = seq!['"'] + b + seq!['"'];
    assert(r3 =~= seq![' '] + r4 + Seq::<char>::empty());
    assert(plain(r4)) by {
        assert forall|i: int| 0 <= i < r4.len() implies r4[i] != '\n' && r4[i] != '\r' by {
            if 1 <= i < 1 + b.len() {
                assert(r4[i] == b[i - 1]);
            }
        }
    }
    assert(r4[0] == '"' && r4.last() == '"');
    lemma_trim_padded(seq![' '], r4, seq![]);
    assert(r4 =~= "\""@ + (b + seq!['"']));
    crate::text::lemma_starts_with_concat("\""@, b + seq!['"']);
    lemma_find_char_concat(b, '"', seq![]);
    assert(b + seq!['"'] =~= b + seq!['"'] + Seq::<char>::empty());
    assert((b + seq!['"']).subrange(0, b.len() as int) =~= b);
}

proof fn lemma_apply_overrides(st: crate::op_args::OptionsState, ov: Seq<(Seq<char>, Seq<char>)>)
    requires
        st.in_overrides,
        forall|k: int| 0 <= k < ov.len() ==> plain_override(#[trigger] ov[k]),
    ensures
        apply_options(st, override_lines(ov)) == (crate::op_args::OptionsState {
            overrides: st.overrides + ov,
            ..st
        }),
    decreases ov.len(),
{
    if ov.len() == 0 {
        assert(override_lines(ov) =~= Seq::<Seq<char>>::empty());
        assert(st.overrides + ov =~= st.overrides);
    } else {
        assert(plain_override(ov[0]));
        lemma_override_line(ov[0]);
        let st2 = crate::op_args::OptionsState { overrides: st.overrides.push(ov[0]), ..st };
        assert(crate::op_args::options_line(st, trim(override_line(ov[0]))) == st2);
        assert(override_lines(ov)[0] == override_line(ov[0]));
        assert(override_lines(ov).drop_first() =~= override_lines(ov.drop_first()));
        assert forall|k: int| 0 <= k < ov.drop_first().len() implies plain_override(
            #[trigger] ov.drop_first()[k],
        ) by {
            assert(ov.drop_first()[k] == ov[k + 1]);
        }
        lemma_apply_overrides(st2, ov.drop_first());
        assert(st.overrides.push(ov[0]) + ov.drop_first() =~= st.overrides + ov);
    }
}

proof fn lemma_option_key_0()
    ensures
        crate::op_args::option_index("keep_failed"@) == 0,
        "keep_failed"@ != "overrides"@,
        key_word("keep_failed"@),
{
    reveal_strlit("keep_failed");
    reveal_strlit("overrides");
    assert("keep_failed"@.len() != "overrides"@.len());
}

proof fn lemma_option_key_1()
    ensures
        crate::op_args::option_index("keep_going"@) == 1,
        "keep_going"@ != "overrides"@,
        key_word("keep_going"@),
{
    reveal_strlit("keep_going");
    reveal_strlit("keep_failed");
    reveal_strlit("overrides");
    assert("keep_going"@.len() != "keep_failed"@.len());
    assert("keep_going"@.len() != "overrides"@.len());
}

proof fn lemma_option_key_2()
    ensures
        crate::op_args::option_index("try_fallback"@) == 2,
        "try_fallback"@ != "overrides"@,
        key_word("try_fallback"@),
{
    reveal_strlit("try_fallback");
    reveal_strlit("keep_failed");
    reveal_strlit("keep_going");
    reveal_strlit("overrides");
    assert("try_fallback"@.len() != "keep_failed"@.len());
    assert("try_fallback"@.len() != "keep_going"@.len());
    assert("try_fallback"@.len() != "overrides"@.len());
}

proof fn lemma_option_key_3()
    ensures
        crate::op_args::option_index("verbosity"@) == 3,
        "verbosity"@ != "overrides"@,
        key_word("verbosity"@),
{
    reveal_strlit("verbosity");
    reveal_strlit("keep_failed");
    reveal_strlit("keep_going");
    reveal_strlit("try_fallback");
    reveal_strlit("overrides");
    assert("verbosity"@.len() != "keep_failed"@.len());
    assert("verbosity"@.len() != "keep_going"@.len());
    assert("verbosity"@.len() != "try_fallback"@.len());
    assert("verbosity"@[0] != "overrides"@[0]);
}

proof fn lemma_option_key_4()
    ensures
        crate::op_args::option_index("max_build_jobs"@) == 4,
        "max_build_jobs"@ != "overrides"@,
        key_word("max_build_jobs"@),
{
    reveal_strlit("max_build_jobs");
    reveal_strlit("keep_failed");
    reveal_strlit("keep_going");
    reveal_strlit("try_fallback");
    reveal_strlit("verbosity");
    reveal_strlit("overrides");
    assert("max_build_jobs"@.len() != "keep_failed"@.len());
    assert("max_build_jobs"@.len() != "keep_going"@.len());
    assert("max_build_jobs"@.len() != "try_fallback"@.len());
    assert("max_build_jobs"@.len() != "verbosity"@.len());
    assert("max_build_jobs"@.len() != "overrides"@.len());
}

proof fn lemma_option_key_5()
    ensures
        crate::op_args::option_index("max_silent_time"@) == 5,
        "max_silent_time"@ != "overrides"@,
        key_word("max_silent_time"@),
{
    reveal_strlit("max_silent_time");
    reveal_strlit("keep_failed");
    reveal_strlit("keep_going");
    reveal_strlit("try_fallback");
    reveal_strlit("verbosity");
    reveal_strlit("max_build_jobs");
    reveal_strlit("overrides");
    assert("max_silent_time"@.len() != "keep_failed"@.len());
    assert("max_silent_time"@.len() != "keep_going"@.len());
    assert("max_silent_time"@.len() != "try_fallback"@.len());
    assert("max_silent_time"@.len() != "verbosity"@.len());
    assert("max_silent_time"@.len() != "max_build_jobs"@.len());
    assert("max_silent_time"@.len() != "overrides"@.len());
}

proof fn lemma_option_key_6()
    ensures
        crate::op_args::option_index("use_build_hook"@) == 6,
        "use_build_hook"@ != "overrides"@,
        key_word("use_build_hook"@),
{
    reveal_strlit("use_build_hook");
    reveal_strlit("keep_failed");
    reveal_strlit("keep_going");
    reveal_strlit("try_fallback");
    reveal_strlit("verbosity");
    reveal_strlit("max_build_jobs");
    reveal_strlit("max_silent_time");
    reveal_strlit("overrides");
    assert("use_build_hook"@.len() != "keep_failed"@.len());
    assert("use_build_hook"@.len() != "keep_going"@.len());
    assert("use_build_hook"@.len() != "try_fallback"@.len());
    assert("use_build_hook"@.len() != "verbosity"@.len());
    assert("use_build_hook"@[0] != "max_build_jobs"@[0]);
    assert("use_build_hook"@.len() != "max_silent_time"@.len());
    assert("use_build_hook"@.len() != "overrides"@.len());
}

proof fn lemma_option_key_7()
    ensures
        crate::op_args::option_index("verbose_build"@) == 7,
        "verbose_build"@ != "overrides"@,
        key_word("verbose_build"@),
{
    reveal_strlit("verbose_build");
    reveal_strlit("keep_failed");
    reveal_strlit("keep_going");
    reveal_strlit("try_fallback");
    reveal_strlit("verbosity");
    reveal_strlit("max_build_jobs");
    reveal_strlit("max_silent_time");
    reveal_strlit("use_build_hook");
    reveal_strlit("overrides");
    assert("verbose_build"@.len() != "keep_failed"@.len());
    assert("verbose_build"@.len() != "keep_going"@.len());
    assert("verbose_build"@.len() != "try_fallback"@.len());
    assert("verbose_build"@.len() != "verbosity"@.len());
    assert("verbose_build"@.len() != "max_build_jobs"@.len());
    assert("verbose_build"@.len() != "max_silent_time"@.len());
    assert("verbose_build"@.len() != "use_build_hook"@.len());
    assert("verbose_build"@.len() != "overrides"@.len());
}

proof fn lemma_option_key_8()
    ensures
        crate::op_args::option_index("log_type"@) == 8,
        "log_type"@ != "overrides"@,
        key_word("log_type"@),
{
    reveal_strlit("log_type");
    reveal_strlit("keep_failed");
    reveal_strlit("keep_going");
    reveal_strlit("try_fallback");
    reveal_strlit("verbosity");
    reveal_strlit("max_build_jobs");
    reveal_strlit("max_silent_time");
    reveal_strlit("use_build_hook");
    reveal_strlit("verbose_build");
    reveal_strlit("overrides");
    assert("log_type"@.len() != "keep_failed"@.len());
    assert("log_type"@.len() != "keep_going"@.len());
    assert("log_type"@.len() != "try_fallback"@.len());
    assert("log_type"@.len() != "verbosity"@.len());
    assert("log_type"@.len() != "max_build_jobs"@.len());
    assert("log_type"@.len() != "max_silent_time"@.len());
    assert("log_type"@.len() != "use_build_hook"@.len());
    assert("log_type"@.len() != "verbose_build"@.len());
    assert("log_type"@.len() != "overrides"@.len());
}

proof fn lemma_option_key_9()
    ensures
        crate::op_args::option_index("print_build_trace"@) == 9,
        "print_build_trace"@ != "overrides"@,
        key_word("print_build_trace"@),
{
    reveal_strlit("print_build_trace");
    reveal_strlit("keep_failed");
    reveal_strlit("keep_going");
    reveal_strlit("try_fallback");
    reveal_strlit("verbosity");
    reveal_strlit("max_build_jobs");
    reveal_strlit("max_silent_time");
    reveal_strlit("use_build_hook");
    reveal_strlit("verbose_build");
    reveal_strlit("log_type");
    reveal_strlit("overrides");
    assert("print_build_trace"@.len() != "keep_failed"@.len());
    assert("print_build_trace"@.len() != "keep_going"@.len());
    assert("print_build_trace"@.len() != "try_fallback"@.len());
    assert("print_build_trace"@.len() != "verbosity"@.len());
    assert("print_build_trace"@.len() != "max_build_jobs"@.len());
    assert("print_build_trace"@.len() != "max_silent_time"@.len());
    assert("print_build_trace"@.len() != "use_build_hook"@.len());
    assert("print_build_trace"@.len() != "verbose_build"@.len());
    assert("print_build_trace"@.len() != "log_type"@.len());
    assert("print_build_trace"@.len() != "overrides"@.len());
}

proof fn lemma_option_key_10()
    ensures
        crate::op_args::option_index("build_cores"@) == 10,
        "build_cores"@ != "overrides"@,
        key_word("build_cores"@),
{
    reveal_strlit("build_cores");
    reveal_strlit("keep_failed");
    reveal_strlit("keep_going");
    reveal_strlit("try_fallback");
    reveal_strlit("verbosity");
    reveal_strlit("max_build_jobs");
    reveal_strlit("max_silent_time");
    reveal_strlit("use_build_hook");
    reveal_strlit("verbose_build");
    reveal_strlit("log_type");
    reveal_strlit("print_build_trace");
    reveal_strlit("overrides");
    assert("build_cores"@[0] != "keep_failed"@[0]);
    assert("build_cores"@.len() != "keep_going"@.len());
    assert("build_cores"@.len() != "try_fallback"@.len());
    assert("build_cores"@.len() != "verbosity"@.len());
    assert("build_cores"@.len() != "max_build_jobs"@.len());
    assert("build_cores"@.len() != "max_silent_time"@.len());
    assert("build_cores"@.len() != "use_build_hook"@.len());
    assert("build_cores"@.len() != "verbose_build"@.len());
    assert("build_cores"@.len() != "log_type"@.len());
    assert("build_cores"@.len() != "print_build_trace"@.len());
    assert("build_cores"@.len() != "overrides"@.len());
}

proof fn lemma_option_key_11()
    ensures
        crate::op_args::option_index("use_substitutes"@) == 11,
        "use_substitutes"@ != "overrides"@,
        key_word("use_substitutes"@),
{
    reveal_strlit("use_substitutes");
    reveal_strlit("keep_failed");
    reveal_strlit("keep_going");
    reveal_strlit("try_fallback");
    reveal_strlit("verbosity");
    reveal_strlit("max_build_jobs");
    reveal_strlit("max_silent_time");
    reveal_strlit("use_build_hook");
    reveal_strlit("verbose_build");
    reveal_strlit("log_type");
    reveal_strlit("print_build_trace");
    reveal_strlit("build_cores");
    reveal_strlit("overrides");
    assert("use_substitutes"@.len() != "keep_failed"@.len());
    assert("use_substitutes"@.len() != "keep_going"@.len());
    assert("use_substitutes"@.len() != "try_fallback"@.len());
    assert("use_substitutes"@.len() != "verbosity"@.len());
    assert("use_substitutes"@.len() != "max_build_jobs"@.len());
    assert("use_substitutes"@[0] != "max_silent_time"@[0]);
    assert("use_substitutes"@.len() != "use_build_hook"@.len());
    assert("use_substitutes"@.len() != "verbose_build"@.len());
    assert("use_substitutes"@.len() != "log_type"@.len());
    assert("use_substitutes"@.len() != "print_build_trace"@.len());
    assert("use_substitutes"@.len() != "build_cores"@.len());
    assert("use_substitutes"@.len() != "overrides"@.len());
}

/// The twelve setting names are keys, each at its place, none of them
/// `overrides`.
proof fn lemma_option_keys()
    ensures
        crate::op_args::option_index("keep_failed"@) == 0,
        "keep_failed"@ != "overrides"@,
        key_word("keep_failed"@),
        crate::op_args::option_index("keep_going"@) == 1,
        "keep_going"@ != "overrides"@,
        key_word("keep_going"@),
        crate::op_args::option_index("try_fallback"@) == 2,
        "try_fallback"@ != "overrides"@,
        key_word("try_fallback"@),
        crate::op_args::option_index("verbosity"@) == 3,
        "verbosity"@ != "overrides"@,
        key_word("verbosity"@),
        crate::op_args::option_index("max_build_jobs"@) == 4,
        "max_build_jobs"@ != "overrides"@,
        key_word("max_build_jobs"@),
        crate::op_args::option_index("max_silent_time"@) == 5,
        "max_silent_time"@ != "overrides"@,
        key_word("max_silent_time"@),
        crate::op_args::option_index("use_build_hook"@) == 6,
        "use_build_hook"@ != "overrides"@,
        key_word("use_build_hook"@),
        crate::op_args::option_index("verbose_build"@) == 7,
        "verbose_build"@ != "overrides"@,
        key_word("verbose_build"@),
        crate::op_args::option_index("log_type"@) == 8,
        "log_type"@ != "overrides"@,
        key_word("log_type"@),
        crate::op_args::option_index("print_build_trace"@) == 9,
        "print_build_trace"@ != "overrides"@,
        key_word("print_build_trace"@),
        crate::op_args::option_index("build_cores"@) == 10,
        "build_cores"@ != "overrides"@,
        key_word("build_cores"@),
        crate::op_args::option_index("use_substitutes"@) == 11,
        "use_substitutes"@ != "overrides"@,
        key_word("use_substitutes"@),
        key_word("overrides"@),
{
    lemma_option_key_0();
    lemma_option_key_1();
    lemma_option_key_2();
    lemma_option_key_3();
    lemma_option_key_4();
    lemma_option_key_5();
    lemma_option_key_6();
    lemma_option_key_7();
    lemma_option_key_8();
    lemma_option_key_9();
    lemma_option_key_10();
    lemma_option_key_11();
    reveal_strlit("overrides");
}

proof fn lemma_option_step(st: crate::op_args::OptionsState, k: Seq<char>, ix: int, v: u64)
    requires
        !st.in_overrides,
        key_word(k),
        k != "overrides"@,
        crate::op_args::option_index(k) == ix,
        0 <= ix < st.values.len(),
    ensures
        crate::op_args::options_line(st, trim(kv_line(k, dec(v as nat))))
            == (crate::op_args::OptionsState { values: st.values.update(ix, v), ..st }),
        crate::op_args::block_line(kv_line(k, dec(v as nat))),
        plain(kv_line(k, dec(v as nat))),
{
    lemma_u64_value(v);
    lemma_kv_line(k, dec(v as nat));
    assert(trim(kv_line(k, dec(v as nat)))[0] == k[0]);
}

proof fn lemma_apply_options_concat(
    st: crate::op_args::OptionsState,
    a: Seq<Seq<char>>,
    b: Seq<Seq<char>>,
)
    ensures
        apply_options(st, a + b) == apply_options(apply_options(st, a), b),
    decreases a.len(),
{
    if a.len() == 0 {
        assert(a + b =~= b);
    } else {
        assert((a + b)[0] == a[0]);
        assert((a + b).drop_first() =~= a.drop_first() + b);
        lemma_apply_options_concat(
            crate::op_args::options_line(st, trim(a[0])),
            a.drop_first(),
            b,
        );
    }
}

proof fn lemma_apply_options_steps(sts: Seq<crate::op_args::OptionsState>, ls: Seq<Seq<char>>)
    requires
        sts.len() == ls.len() + 1,
        forall|k: int|
            0 <= k < ls.len() ==> crate::op_args::options_line(sts[k], trim(#[trigger] ls[k]))
                == sts[k + 1],
    ensures
        apply_options(sts[0], ls) == sts.last(),
    decreases ls.len(),
{
    if ls.len() > 0 {
        assert(crate::op_args::options_line(sts[0], trim(ls[0])) == sts[1]);
        assert forall|k: int| 0 <= k < ls.drop_first().len() implies crate::op_args::options_line(
            sts.drop_first()[k],
            trim(#[trigger] ls.drop_first()[k]),
        ) == sts.drop_first()[k + 1] by {
            assert(ls.drop_first()[k] == ls[k + 1]);
            assert(crate::op_args::options_line(sts[k + 1], trim(ls[k + 1])) == sts[k + 2]);
        }
        lemma_apply_options_steps(sts.drop_first(), ls.drop_first());
    }
}

#[verifier::spinoff_prover]
#[verifier::rlimit(100)]
proof fn lemma_parse_set_options(c: OpCallV, lv: Seq<Seq<char>>, p: int)
    requires
        plain_call(c),
        c is SetOptions,
        0 <= p,
        p + op_lines(c).len() - 1 <= lv.len(),
        lv.subrange(p, p + op_lines(c).len() - 1) == op_lines(c).drop_first(),
        block_ends_at(lv, p + op_lines(c).len() - 1),
    ensures
        crate::op_args::op_line_spec(op_lines(c)[0], lv, p) == Ok::<
            (OpCallV, int),
            crate::parse::ParseErrorV,
        >((c, p + op_lines(c).len() - 1)),
{
    reveal_strlit("SetOptions");
    reveal_strlit("  overrides: ");
    reveal_strlit("overrides");
    match c {
        OpCallV::SetOptions {
            keep_failed,
            keep_going,
            try_fallback,
            verbosity,
            max_build_jobs,
            max_silent_time,
            use_build_hook,
            verbose_build,
            log_type,
            print_build_trace,
            build_cores,
            use_substitutes,
            overrides,
        } => {
            lemma_option_keys();
            let vals = seq![
                keep_failed,
                keep_going,
                try_fallback,
                verbosity,
                max_build_jobs,
                max_silent_time,
                use_build_hook,
                verbose_build,
                log_type,
                print_build_trace,
                build_cores,
                use_substitutes,
            ];
            let ls = op_lines(c).drop_first();
            let n = ls.len();
            let head = ls.subrange(0, 13);
            let tail = ls.subrange(13, n as int);
            assert(tail =~= override_lines(overrides));
            assert(ls =~= head + tail);
            let st0 = crate::op_args::options_start();
            let sts = Seq::new(
                14,
                |k: int|
                    crate::op_args::OptionsState {
                        values: Seq::new(12, |j: int| if j < k { vals[j] } else { 0u64 }),
                        overrides: seq![],
                        in_overrides: k == 13,
                    },
            );
            assert(sts[0] == st0) by {
                assert(sts[0].values =~= st0.values);
            }
            assert forall|k: int| 0 <= k < 12 implies (#[trigger] sts[k]).values.update(k, vals[k])
                == sts[k + 1].values by {
                assert(sts[k].values.update(k, vals[k]) =~= sts[k + 1].values);
            }
            reveal_strlit("  keep_failed: ");
            reveal_strlit("keep_failed");
            assert(ls[0] =~= kv_line("keep_failed"@, dec(vals[0] as nat)));
            lemma_option_step(sts[0], "keep_failed"@, 0, vals[0]);
            assert(crate::op_args::options_line(sts[0], trim(ls[0])) == sts[1]);
            reveal_strlit("  keep_going: ");
            reveal_strlit("keep_going");
            assert(ls[1] =~= kv_line("keep_going"@, dec(vals[1] as nat)));
            lemma_option_step(sts[1], "keep_going"@, 1, vals[1]);
            assert(crate::op_args::options_line(sts[1], trim(ls[1])) == sts[2]);
            reveal_strlit("  try_fallback: ");
            reveal_strlit("try_fallback");
            assert(ls[2] =~= kv_line("try_fallback"@, dec(vals[2] as nat)));
            lemma_option_step(sts[2], "try_fallback"@, 2, vals[2]);
            assert(crate::op_args::options_line(sts[2], trim(ls[2])) == sts[3]);
            reveal_strlit("  verbosity: ");
            reveal_strlit("verbosity");
            assert(ls[3] =~= kv_line("verbosity"@, dec(vals[3] as nat)));
            lemma_option_step(sts[3], "verbosity"@, 3, vals[3]);
            assert(crate::op_args::options_line(sts[3], trim(ls[3])) == sts[4]);
            reveal_strlit("  max_build_jobs: ");
            reveal_strlit("max_build_jobs");
            assert(ls[4] =~= kv_line("max_build_jobs"@, dec(vals[4] as nat)));
            lemma_option_step(sts[4], "max_build_jobs"@, 4, vals[4]);
            assert(crate::op_args::options_line(sts[4], trim(ls[4])) == sts[5]);
            reveal_strlit("  max_silent_time: ");
            reveal_strlit("max_silent_time");
            assert(ls[5] =~= kv_line("max_silent_time"@, dec(vals[5] as nat)));
            lemma_option_step(sts[5], "max_silent_time"@, 5, vals[5]);
            assert(crate::op_args::options_line(sts[5], trim(ls[5])) == sts[6]);
            reveal_strlit("  use_build_hook: ");
            reveal_strlit("use_build_hook");
            assert(ls[6] =~= kv_line("use_build_hook"@, dec(vals[6] as nat)));
            lemma_option_step(sts[6], "use_build_hook"@, 6, vals[6]);
            assert(crate::op_args::options_line(sts[6], trim(ls[6])) == sts[7]);
            reveal_strlit("  verbose_build: ");
            reveal_strlit("verbose_build");
            assert(ls[7] =~= kv_line("verbose_build"@, dec(vals[7] as nat)));
            lemma_option_step(sts[7], "verbose_build"@, 7, vals[7]);
            assert(crate::op_args::options_line(sts[7], trim(ls[7])) == sts[8]);
            reveal_strlit("  log_type: ");
            reveal_strlit("log_type");
            assert(ls[8] =~= kv_line("log_type"@, dec(vals[8] as nat)));
            lemma_option_step(sts[8], "log_type"@, 8, vals[8]);
            assert(crate::op_args::options_line(sts[8], trim(ls[8])) == sts[9]);
            reveal_strlit("  print_build_trace: ");
            reveal_strlit("print_build_trace");
            assert(ls[9] =~= kv_line("print_build_trace"@, dec(vals[9] as nat)));
            lemma_option_step(sts[9], "print_build_trace"@, 9, vals[9]);
            assert(crate::op_args::options_line(sts[9], trim(ls[9])) == sts[10]);
            reveal_strlit("  build_cores: ");
            reveal_strlit("build_cores");
            assert(ls[10] =~= kv_line("build_cores"@, dec(vals[10] as nat)));
            lemma_option_step(sts[10], "build_cores"@, 10, vals[10]);
            assert(crate::op_args::options_line(sts[10], trim(ls[10])) == sts[11]);
            reveal_strlit("  use_substitutes: ");
            reveal_strlit("use_substitutes");
            assert(ls[11] =~= kv_line("use_substitutes"@, dec(vals[11] as nat)));
            lemma_option_step(sts[11], "use_substitutes"@, 11, vals[11]);
            assert(crate::op_args::options_line(sts[11], trim(ls[11])) == sts[12]);
            assert(ls[12] =~= kv_line("overrides"@, dec(overrides.len())));
            lemma_dec_filled(overrides.len());
            lemma_kv_line("overrides"@, dec(overrides.len()));
            assert(sts[12].values =~= sts[13].values);
            assert(crate::op_args::options_line(sts[12], trim(ls[12])) == sts[13]);
            assert forall|k: int| 0 <= k < 13 implies crate::op_args::options_line(
                sts[k],
                trim(#[trigger] head[k]),
            ) == sts[k + 1] by {
                assert(head[k] == ls[k]);
            }
            lemma_apply_options_steps(sts, head);
            lemma_apply_overrides(sts[13], overrides);
            lemma_apply_options_concat(st0, head, tail);
            let fin = apply_options(st0, ls);
            assert(fin.values =~= vals);
            assert(fin.overrides =~= overrides);
            assert forall|k: int| 0 <= k < ls.len() implies crate::op_args::block_line(#[trigger] ls[k]) by {
                if k < 13 {
                    assert(ls[k] == head[k]);
                } else {
                    assert(ls[k] == tail[k - 13]);
                    assert(tail[k - 13] == override_line(overrides[k - 13]));
                    lemma_override_line(overrides[k - 13]);
                }
            }
            lemma_options_block_lines(lv, p, st0, ls);
            lemma_op_line_bare(Op::SetOptions, lv, p);
            assert(crate::op_args::options_call(fin) == c);
        },
        _ => {},
    }
}

proof fn lemma_parse_build_log(c: OpCallV, lv: Seq<Seq<char>>, p: int)
    requires
        plain_call(c),
        c is AddBuildLog,
        0 <= p,
        p + 1 <= lv.len(),
        lv.subrange(p, p + 1) == op_lines(c).drop_first(),
    ensures
        crate::op_args::op_line_spec(op_lines(c)[0], lv, p) == Ok::<
            (OpCallV, int),
            crate::parse::ParseErrorV,
        >((c, p + 1)),
{
    reveal_strlit("AddBuildLog ");
    reveal_strlit("AddBuildLog");
    reveal_strlit("data");
    match c {
        OpCallV::AddBuildLog { path, data } => {
            assert("AddBuildLog "@ =~= op_name(Op::AddBuildLog) + seq![' ']);
            lemma_op_line_args(Op::AddBuildLog, path, lv, p);
            lemma_data_value(data);
            let v = data_value(data);
            lemma_kv_line("data"@, v);
            assert(lv[p] == op_lines(c)[1]) by {
                assert(lv.subrange(p, p + 1)[0] == lv[p]);
            }
            assert(crate::op_args::framed_block(lv, p) == Ok::<
                (FramedDataV, int),
                crate::parse::ParseErrorV,
            >((data, p + 1)));
        },
        _ => {},
    }
}

proof fn lemma_parse_raw_bytes(c: OpCallV, lv: Seq<Seq<char>>, p: int)
    requires
        plain_call(c),
        c is RawBytes,
        0 <= p,
        p + op_lines(c).len() - 1 <= lv.len(),
        lv.subrange(p, p + op_lines(c).len() - 1) == op_lines(c).drop_first(),
        block_ends_at(lv, p + op_lines(c).len() - 1),
    ensures
        crate::op_args::op_line_spec(op_lines(c)[0], lv, p) == Ok::<
            (OpCallV, int),
            crate::parse::ParseErrorV,
        >((c, p + op_lines(c).len() - 1)),
{
    reveal_strlit("raw x\"");
    reveal_strlit("  raw x\"");
    reveal_strlit("\"");
    reveal_strlit("  ");
    reveal_strlit("#");
    reveal_strlit("expect");
    match c {
        OpCallV::RawBytes { op, data } => {
            lemma_op_line_bare(op, lv, p);
            if data.len() == 0 {
                assert(data =~= Seq::<u8>::empty());
            } else {
                let h = hex_text(data);
                let line = op_lines(c)[1];
                let t = "raw x\""@ + (h + seq!['"']);
                lemma_hex_chars(data);
                assert(line =~= seq![' ', ' '] + t + Seq::<char>::empty());
                assert(t[0] == 'r' && t.last() == '"');
                assert(plain(t)) by {
                    assert forall|i: int| 0 <= i < t.len() implies t[i] != '\n' && t[i] != '\r' by {
                        if 6 <= i < 6 + h.len() {
                            assert(t[i] == h[i - 6]);
                        }
                    }
                }
                assert(crate::text::all_ws(seq![' ', ' ']));
                lemma_all_ws_space();
                lemma_trim_padded(seq![' ', ' '], t, seq![]);
                assert(line.subrange(0, 2) =~= "  "@);
                lemma_not_prefix_at(t, "#"@, 0);
                lemma_not_prefix_at(t, "expect"@, 0);
                crate::text::lemma_starts_with_concat("raw x\""@, h + seq!['"']);
                assert((h + seq!['"']).drop_last() =~= h);
                assert(crate::text::trim_end_char(h, '"') == h) by {
                    if h.len() > 0 {
                        assert(h.last() != '"');
                    }
                }
                crate::num::law_hex_roundtrip(data);
                assert(lv[p] == line) by {
                    assert(lv.subrange(p, p + 1)[0] == lv[p]);
                }
                assert(crate::op_args::raw_block(lv, p) == (data, p + 1));
            }
        },
        _ => {},
    }
}

// ---------------------------------------------------------------------------
// Any operation call
// ---------------------------------------------------------------------------

/// The text of an operation call is its lines.
pub proof fn lemma_op_text(c: OpCallV, opts: FormatOptions, counter: nat)
    requires
        !crate::format::externalizes(opts),
    ensures
        crate::format::op_body_text(c, opts, counter) == unlines(op_lines(c)),
{
    match c {
        OpCallV::SetOptions { .. } => lemma_set_options_text(c, opts, counter),
        OpCallV::CollectGarbage { .. } => lemma_block_op_text(c, opts, counter),
        OpCallV::VerifyStore { .. } => lemma_block_op_text(c, opts, counter),
        OpCallV::AddTextToStore { .. } => lemma_block_op_text(c, opts, counter),
        OpCallV::AddToStore { .. } => lemma_block_op_text(c, opts, counter),
        OpCallV::AddMultipleToStore { .. } => lemma_block_op_text(c, opts, counter),
        OpCallV::AddBuildLog { .. } => lemma_block_op_text(c, opts, counter),
        OpCallV::RawBytes { .. } => lemma_block_op_text(c, opts, counter),
        _ => lemma_inline_op_text(c, opts, counter),
    }
}

/// An operation line, followed by the indented lines of its call, reads
/// back as the call; the result gives the line after them.
pub proof fn lemma_op_parse(c: OpCallV, lv: Seq<Seq<char>>, p: int)
    requires
        plain_call(c),
        0 <= p,
        p + op_lines(c).len() - 1 <= lv.len(),
        lv.subrange(p, p + op_lines(c).len() - 1) == op_lines(c).drop_first(),
        block_ends_at(lv, p + op_lines(c).len() - 1),
    ensures
        crate::op_args::op_line_spec(op_lines(c)[0], lv, p) == Ok::<
            (OpCallV, int),
            crate::parse::ParseErrorV,
        >((c, p + op_lines(c).len() - 1)),
{
    match c {
        OpCallV::SinglePath { .. } => lemma_parse_single(c, lv, p),
        OpCallV::SingleString { .. } => lemma_parse_single(c, lv, p),
        OpCallV::PathSet { .. } => lemma_parse_path_set_ops(c, lv, p),
        OpCallV::PathSetFlag { .. } => lemma_parse_path_set_ops(c, lv, p),
        OpCallV::PathSetMode { .. } => lemma_parse_path_set_ops(c, lv, p),
        OpCallV::NoArgs { .. } => lemma_parse_no_args(c, lv, p),
        OpCallV::SetOptions { .. } => lemma_parse_set_options(c, lv, p),
        OpCallV::CollectGarbage { .. } => lemma_parse_collect_garbage(c, lv, p),
        OpCallV::VerifyStore { .. } => lemma_parse_verify_store(c, lv, p),
        OpCallV::AddPermRoot { .. } => lemma_parse_perm_root(c, lv, p),
        OpCallV::AddSignatures { .. } => lemma_parse_perm_root(c, lv, p),
        OpCallV::AddTextToStore { .. } => lemma_parse_add_text_to_store(c, lv, p),
        OpCallV::AddToStore { .. } => lemma_parse_add_to_store(c, lv, p),
        OpCallV::AddMultipleToStore { .. } => lemma_parse_add_multiple(c, lv, p),
        OpCallV::AddBuildLog { .. } => lemma_parse_build_log(c, lv, p),
        OpCallV::RegisterDrvOutput { .. } => lemma_parse_named_value(c, lv, p),
        OpCallV::QueryRealisation { .. } => lemma_parse_named_value(c, lv, p),
        OpCallV::QuerySubstitutablePathInfo { .. } => lemma_parse_named_value(c, lv, p),
        OpCallV::QuerySubstitutablePathInfos { .. } => lemma_parse_path_set_ops(c, lv, p),
        OpCallV::RawBytes { .. } => lemma_parse_raw_bytes(c, lv, p),
    }
}

pub(crate) proof fn lemma_plain_cat(a: Seq<char>, b: Seq<char>)
    requires
        plain(a),
        plain(b),
    ensures
        plain(a + b),
{
    assert forall|i: int| 0 <= i < (a + b).len() implies (a + b)[i] != '\n' && (a + b)[i] != '\r' by {
        if i < a.len() {
            assert((a + b)[i] == a[i]);
        } else {
            assert((a + b)[i] == b[i - a.len()]);
        }
    }
}

proof fn lemma_plain_values(c: OpCallV)
    requires
        plain_call(c),
    ensures
        match c {
            OpCallV::PathSet { paths, .. } => plain(path_set_text(paths)),
            OpCallV::PathSetFlag { paths, .. } => plain(path_set_text(paths)),
            OpCallV::PathSetMode { paths, .. } => plain(path_set_text(paths)),
            OpCallV::CollectGarbage { paths, .. } => plain(path_set_text(paths)),
            OpCallV::AddSignatures { sigs, .. } => plain(path_set_text(sigs)),
            OpCallV::AddTextToStore { refs, text, .. } => plain(path_set_text(refs)) && plain(escape_text(text)),
            OpCallV::AddToStore { refs, data, .. } => plain(path_set_text(refs)) && plain(framed_line(data)),
            OpCallV::AddMultipleToStore { data, .. } => plain(framed_line(data)),
            OpCallV::AddBuildLog { data, .. } => plain(framed_line(data)),
            OpCallV::QuerySubstitutablePathInfos { paths } => plain(path_set_text(paths)),
            _ => true,
        },
        plain(op_name(op_of_call(c))),
{
    reveal_strlit("data");
    lemma_op_name_word(op_of_call(c));
    lemma_word_facts(op_name(op_of_call(c)));
    match c {
        OpCallV::PathSet { paths, .. } => lemma_path_set_filled(paths, seq![]),
        OpCallV::PathSetFlag { paths, .. } => lemma_path_set_filled(paths, seq![]),
        OpCallV::PathSetMode { paths, .. } => lemma_path_set_filled(paths, seq![]),
        OpCallV::CollectGarbage { paths, .. } => lemma_path_set_filled(paths, seq![]),
        OpCallV::AddSignatures { sigs, .. } => lemma_path_set_filled(sigs, seq![]),
        OpCallV::AddTextToStore { refs, text, .. } => {
            lemma_path_set_filled(refs, seq![]);
            lemma_escape_plain(text);
        },
        OpCallV::AddToStore { refs, data, .. } => {
            lemma_path_set_filled(refs, seq![]);
            lemma_data_value(data);
            lemma_kv_line("data"@, data_value(data));
        },
        OpCallV::AddMultipleToStore { data, .. } => {
            lemma_data_value(data);
            lemma_kv_line("data"@, data_value(data));
        },
        OpCallV::AddBuildLog { data, .. } => {
            lemma_data_value(data);
            lemma_kv_line("data"@, data_value(data));
        },
        OpCallV::QuerySubstitutablePathInfos { paths } => lemma_path_set_filled(paths, seq![]),
        _ => {},
    }
    assert(path_set_text(seq![]) + Seq::<char>::empty() =~= path_set_text(seq![]));
}

proof fn lemma_dec_after_plain(pre: Seq<char>, n: nat)
    requires
        plain(pre),
    ensures
        plain(pre + dec(n)),
{
    lemma_dec_filled(n);
    lemma_plain_cat(pre, dec(n));
}

proof fn lemma_override_plain(kv: (Seq<char>, Seq<char>))
    requires
        plain_override(kv),
    ensures
        plain(override_line(kv)),
{
    reveal_strlit("    \"");
    reveal_strlit("\" = \"");
    reveal_strlit("\"");
    assert(plain("    \""@));
    assert(plain("\" = \""@));
    assert(plain("\""@));
    lemma_plain_cat("    \""@, kv.0);
    lemma_plain_cat("    \""@ + kv.0, "\" = \""@);
    lemma_plain_cat("    \""@ + kv.0 + "\" = \""@, kv.1);
    lemma_plain_cat("    \""@ + kv.0 + "\" = \""@ + kv.1, "\""@);
}

/// Every line of a settings call is plain.
#[verifier::spinoff_prover]
#[verifier::rlimit(60)]
proof fn lemma_set_options_plain(c: OpCallV)
    requires
        c is SetOptions,
        plain_call(c),
    ensures
        forall|k: int| 0 <= k < op_lines(c).len() ==> plain(#[trigger] op_lines(c)[k]),
{
    match c {
        OpCallV::SetOptions {
            keep_failed,
            keep_going,
            try_fallback,
            verbosity,
            max_build_jobs,
            max_silent_time,
            use_build_hook,
            verbose_build,
            log_type,
            print_build_trace,
            build_cores,
            use_substitutes,
            overrides,
        } => {
            reveal_strlit("SetOptions");
            assert(plain("SetOptions"@));
            reveal_strlit("  keep_failed: ");
            assert(plain("  keep_failed: "@));
            lemma_dec_after_plain("  keep_failed: "@, keep_failed as nat);
            reveal_strlit("  keep_going: ");
            assert(plain("  keep_going: "@));
            lemma_dec_after_plain("  keep_going: "@, keep_going as nat);
            reveal_strlit("  try_fallback: ");
            assert(plain("  try_fallback: "@));
            lemma_dec_after_plain("  try_fallback: "@, try_fallback as nat);
            reveal_strlit("  verbosity: ");
            assert(plain("  verbosity: "@));
            lemma_dec_after_plain("  verbosity: "@, verbosity as nat);
            reveal_strlit("  max_build_jobs: ");
            assert(plain("  max_build_jobs: "@));
            lemma_dec_after_plain("  max_build_jobs: "@, max_build_jobs as nat);
            reveal_strlit("  max_silent_time: ");
            assert(plain("  max_silent_time: "@));
            lemma_dec_after_plain("  max_silent_time: "@, max_silent_time as nat);
            reveal_strlit("  use_build_hook: ");
            assert(plain("  use_build_hook: "@));
            lemma_dec_after_plain("  use_build_hook: "@, use_build_hook as nat);
            reveal_strlit("  verbose_build: ");
            assert(plain("  verbose_build: "@));
            lemma_dec_after_plain("  verbose_build: "@, verbose_build as nat);
            reveal_strlit("  log_type: ");
            assert(plain("  log_type: "@));
            lemma_dec_after_plain("  log_type: "@, log_type as nat);
            reveal_strlit("  print_build_trace: ");
            assert(plain("  print_build_trace: "@));
            lemma_dec_after_plain("  print_build_trace: "@, print_build_trace as nat);
            reveal_strlit("  build_cores: ");
            assert(plain("  build_cores: "@));
            lemma_dec_after_plain("  build_cores: "@, build_cores as nat);
            reveal_strlit("  use_substitutes: ");
            assert(plain("  use_substitutes: "@));
            lemma_dec_after_plain("  use_substitutes: "@, use_substitutes as nat);
            reveal_strlit("  overrides: ");
            assert(plain("  overrides: "@));
            lemma_dec_after_plain("  overrides: "@, overrides.len());
            let ol = override_lines(overrides);
            assert forall|k: int| 0 <= k < ol.len() implies plain(#[trigger] ol[k]) by {
                lemma_override_plain(overrides[k]);
            }
            let ls = op_lines(c);
            assert forall|k: int| 0 <= k < ls.len() implies plain(#[trigger] ls[k]) by {
                if k >= 14 {
                    assert(ls[k] == ol[k - 14]);
                }
            }
        },
        _ => {},
    }
}

/// The operation a call's variant names (the placeholder of a variant
/// without one).
pub open spec fn op_of_call(c: OpCallV) -> Op {
    crate::script::op_of(c)
}

/// Every line of a call is plain.
#[verifier::spinoff_prover]
#[verifier::rlimit(80)]
pub proof fn lemma_op_lines_plain(c: OpCallV)
    requires
        plain_call(c),
    ensures
        forall|k: int| 0 <= k < op_lines(c).len() ==> plain(#[trigger] op_lines(c)[k]),
{
    lemma_plain_values(c);
    lemma_dec_filled(0);
    match c {
        OpCallV::SinglePath { op, path } => {
            lemma_plain_cat(op_name(op), seq![' ']);
            lemma_plain_cat(op_name(op) + seq![' '], path);
            assert(op_lines(c)[0] =~= op_name(op) + seq![' '] + path);
        },
        OpCallV::SingleString { op, value } => {
            lemma_plain_cat(op_name(op), seq![' ']);
            lemma_plain_cat(op_name(op) + seq![' '], value);
            assert(op_lines(c)[0] =~= op_name(op) + seq![' '] + value);
        },
        OpCallV::PathSet { op, paths } => {
            lemma_plain_cat(op_name(op), seq![' ']);
            lemma_plain_cat(op_name(op) + seq![' '], path_set_text(paths));
            assert(op_lines(c)[0] =~= op_name(op) + seq![' '] + path_set_text(paths));
        },
        OpCallV::PathSetFlag { op, paths, substitute } => {
            lemma_plain_cat(op_name(op), seq![' ']);
            lemma_plain_cat(op_name(op) + seq![' '], path_set_text(paths));
            reveal_strlit(" substitute");
            assert(plain(" substitute"@));
            assert(plain(Seq::<char>::empty()));
            lemma_plain_cat(op_name(op) + seq![' '] + path_set_text(paths), (if substitute { " substitute"@ } else { seq![] }));
            assert(op_lines(c)[0] =~= op_name(op) + seq![' '] + path_set_text(paths) + (if substitute { " substitute"@ } else { seq![] }));
        },
        OpCallV::PathSetMode { op, paths, mode } => {
            lemma_plain_cat(op_name(op), seq![' ']);
            lemma_plain_cat(op_name(op) + seq![' '], path_set_text(paths));
            lemma_plain_cat(op_name(op) + seq![' '] + path_set_text(paths), seq![' ']);
            lemma_plain_cat(op_name(op) + seq![' '] + path_set_text(paths) + seq![' '], mode);
            assert(op_lines(c)[0] =~= op_name(op) + seq![' '] + path_set_text(paths) + seq![' '] + mode);
        },
        OpCallV::NoArgs { op } => {
            assert(op_lines(c)[0] =~= op_name(op));
        },
        OpCallV::CollectGarbage { action, paths, ignore_liveness, max_freed } => {
            reveal_strlit("  action: ");
            assert(plain("  action: "@));
            reveal_strlit("  ignore_liveness: ");
            assert(plain("  ignore_liveness: "@));
            reveal_strlit("  max_freed: ");
            assert(plain("  max_freed: "@));
            reveal_strlit("  paths: ");
            assert(plain("  paths: "@));
            reveal_strlit("CollectGarbage");
            assert(plain("CollectGarbage"@));
            assert(op_lines(c)[0] =~= "CollectGarbage"@);
            lemma_dec_after_plain("  action: "@, action as nat);
            assert(op_lines(c)[1] =~= "  action: "@ + dec(action as nat));
            lemma_plain_cat("  paths: "@, path_set_text(paths));
            assert(op_lines(c)[2] =~= "  paths: "@ + path_set_text(paths));
            lemma_dec_after_plain("  ignore_liveness: "@, ignore_liveness as nat);
            assert(op_lines(c)[3] =~= "  ignore_liveness: "@ + dec(ignore_liveness as nat));
            lemma_dec_after_plain("  max_freed: "@, max_freed as nat);
            assert(op_lines(c)[4] =~= "  max_freed: "@ + dec(max_freed as nat));
        },
        OpCallV::VerifyStore { check_contents, repair } => {
            reveal_strlit("  check_contents: ");
            assert(plain("  check_contents: "@));
            reveal_strlit("  repair: ");
            assert(plain("  repair: "@));
            reveal_strlit("VerifyStore");
            assert(plain("VerifyStore"@));
            assert(op_lines(c)[0] =~= "VerifyStore"@);
            lemma_bool_text(check_contents);
            lemma_plain_cat("  check_contents: "@, bool_text(check_contents));
            assert(op_lines(c)[1] =~= "  check_contents: "@ + bool_text(check_contents));
            lemma_bool_text(repair);
            lemma_plain_cat("  repair: "@, bool_text(repair));
            assert(op_lines(c)[2] =~= "  repair: "@ + bool_text(repair));
        },
        OpCallV::AddPermRoot { path, gc_root } => {
            reveal_strlit("AddPermRoot ");
            assert(plain("AddPermRoot "@));
            lemma_plain_cat("AddPermRoot "@, path);
            lemma_plain_cat("AddPermRoot "@ + path, seq![' ']);
            lemma_plain_cat("AddPermRoot "@ + path + seq![' '], gc_root);
            assert(op_lines(c)[0] =~= "AddPermRoot "@ + path + seq![' '] + gc_root);
        },
        OpCallV::AddSignatures { path, sigs } => {
            reveal_strlit("AddSignatures ");
            assert(plain("AddSignatures "@));
            lemma_plain_cat("AddSignatures "@, path);
            lemma_plain_cat("AddSignatures "@ + path, seq![' ']);
            lemma_plain_cat("AddSignatures "@ + path + seq![' '], path_set_text(sigs));
            assert(op_lines(c)[0] =~= "AddSignatures "@ + path + seq![' '] + path_set_text(sigs));
        },
        OpCallV::AddTextToStore { suffix, text, refs } => {
            reveal_strlit("  refs: ");
            assert(plain("  refs: "@));
            reveal_strlit("  suffix: \"");
            assert(plain("  suffix: \""@));
            reveal_strlit("  text: \"");
            assert(plain("  text: \""@));
            reveal_strlit("\"");
            assert(plain("\""@));
            reveal_strlit("AddTextToStore");
            assert(plain("AddTextToStore"@));
            assert(op_lines(c)[0] =~= "AddTextToStore"@);
            lemma_plain_cat("  suffix: \""@, suffix);
            lemma_plain_cat("  suffix: \""@ + suffix, "\""@);
            assert(op_lines(c)[1] =~= "  suffix: \""@ + suffix + "\""@);
            lemma_plain_cat("  text: \""@, escape_text(text));
            lemma_plain_cat("  text: \""@ + escape_text(text), "\""@);
            assert(op_lines(c)[2] =~= "  text: \""@ + escape_text(text) + "\""@);
            lemma_plain_cat("  refs: "@, path_set_text(refs));
            assert(op_lines(c)[3] =~= "  refs: "@ + path_set_text(refs));
        },
        OpCallV::AddToStore { name, cam_str, refs, repair, data } => {
            reveal_strlit("  cam_str: \"");
            assert(plain("  cam_str: \""@));
            reveal_strlit("  name: \"");
            assert(plain("  name: \""@));
            reveal_strlit("  refs: ");
            assert(plain("  refs: "@));
            reveal_strlit("  repair: ");
            assert(plain("  repair: "@));
            reveal_strlit("\"");
            assert(plain("\""@));
            reveal_strlit("AddToStore");
            assert(plain("AddToStore"@));
            assert(op_lines(c)[0] =~= "AddToStore"@);
            lemma_plain_cat("  name: \""@, name);
            lemma_plain_cat("  name: \""@ + name, "\""@);
            assert(op_lines(c)[1] =~= "  name: \""@ + name + "\""@);
            lemma_plain_cat("  cam_str: \""@, cam_str);
            lemma_plain_cat("  cam_str: \""@ + cam_str, "\""@);
            assert(op_lines(c)[2] =~= "  cam_str: \""@ + cam_str + "\""@);
            lemma_plain_cat("  refs: "@, path_set_text(refs));
            assert(op_lines(c)[3] =~= "  refs: "@ + path_set_text(refs));
            lemma_bool_text(repair);
            lemma_plain_cat("  repair: "@, bool_text(repair));
            assert(op_lines(c)[4] =~= "  repair: "@ + bool_text(repair));
            assert(op_lines(c)[5] =~= framed_line(data));
        },
        OpCallV::AddMultipleToStore { repair, dont_check_sigs, data } => {
            reveal_strlit("  dont_check_sigs: ");
            assert(plain("  dont_check_sigs: "@));
            reveal_strlit("  repair: ");
            assert(plain("  repair: "@));
            reveal_strlit("AddMultipleToStore");
            assert(plain("AddMultipleToStore"@));
            assert(op_lines(c)[0] =~= "AddMultipleToStore"@);
            lemma_bool_text(repair);
            lemma_plain_cat("  repair: "@, bool_text(repair));
            assert(op_lines(c)[1] =~= "  repair: "@ + bool_text(repair));
            lemma_bool_text(dont_check_sigs);
            lemma_plain_cat("  dont_check_sigs: "@, bool_text(dont_check_sigs));
            assert(op_lines(c)[2] =~= "  dont_check_sigs: "@ + bool_text(dont_check_sigs));
            assert(op_lines(c)[3] =~= framed_line(data));
        },
        OpCallV::AddBuildLog { path, data } => {
            reveal_strlit("AddBuildLog ");
            assert(plain("AddBuildLog "@));
            lemma_plain_cat("AddBuildLog "@, path);
            assert(op_lines(c)[0] =~= "AddBuildLog "@ + path);
            assert(op_lines(c)[1] =~= framed_line(data));
        },
        OpCallV::RegisterDrvOutput { value } => {
            reveal_strlit("RegisterDrvOutput ");
            assert(plain("RegisterDrvOutput "@));
            lemma_plain_cat("RegisterDrvOutput "@, value);
            assert(op_lines(c)[0] =~= "RegisterDrvOutput "@ + value);
        },
        OpCallV::QueryRealisation { value } => {
            reveal_strlit("QueryRealisation ");
            assert(plain("QueryRealisation "@));
            lemma_plain_cat("QueryRealisation "@, value);
            assert(op_lines(c)[0] =~= "QueryRealisation "@ + value);
        },
        OpCallV::QuerySubstitutablePathInfo { path } => {
            reveal_strlit("QuerySubstitutablePathInfo ");
            assert(plain("QuerySubstitutablePathInfo "@));
            lemma_plain_cat("QuerySubstitutablePathInfo "@, path);
            assert(op_lines(c)[0] =~= "QuerySubstitutablePathInfo "@ + path);
        },
        OpCallV::QuerySubstitutablePathInfos { paths } => {
            reveal_strlit("QuerySubstitutablePathInfos ");
            assert(plain("QuerySubstitutablePathInfos "@));
            lemma_plain_cat("QuerySubstitutablePathInfos "@, path_set_text(paths));
            assert(op_lines(c)[0] =~= "QuerySubstitutablePathInfos "@ + path_set_text(paths));
        },
        OpCallV::SetOptions { .. } => {
            lemma_set_options_plain(c);
        },
        OpCallV::RawBytes { op, data } => {
            reveal_strlit("  raw x\"");
            reveal_strlit("\"");
            assert(plain("  raw x\""@));
            assert(plain("\""@));
            if data.len() > 0 {
                lemma_hex_chars(data);
                assert(plain(hex_text(data)));
                lemma_plain_cat("  raw x\""@, hex_text(data));
                lemma_plain_cat("  raw x\""@ + hex_text(data), "\""@);
            }
        },
    }
}

} // verus!
