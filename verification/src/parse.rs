//! Parse `.nwscript` text into a Script AST.

use vstd::prelude::*;
use crate::num::{
    all_digit_chars, all_digits, digit_val, digits_in_range, digits_value, hex_decode, hex_decode_slice, parse_i64,
    parse_i64_slice, parse_unsigned, parse_unsigned_slice,
};
use crate::protocol::ProtocolVersion;
use crate::script::{
    entries_view, expects_view, Entry, EntryV, Expect, ExpectV, FramedData, FramedDataV, Matcher,
    MatcherV, Preamble, PreambleV, Script, ScriptV,
};
use crate::text::{
    chars_to_string, copy_chars, ends_with, ends_with_str, eq_str, find, find_char,
    find_char_slice, find_slice, lines, lines_slice, push_str, replace, replace_slice, split_char,
    split_char_slice, split_once, split_once_slice, split_ws, split_ws_slice, starts_with,
    starts_with_str, strip_prefix, strip_prefix_str, to_chars, trim, trim_end_char,
    trim_end_char_slice, trim_slice, trim_start_char, trim_start_char_slice,
};

verus! {

/// Why a script could not be parsed.
#[derive(Clone, Debug)]
pub enum ParseError {
    /// A preamble line that is none of the known forms (trimmed line).
    UnexpectedPreambleLine(String),
    /// A timestamp whose number could not be read.
    BadTimestamp,
    /// A timestamp without `ms` (trimmed line).
    MalformedTimestamp(String),
    /// An operation name that is not known.
    UnknownOp(String),
    /// A path set with `{` but no `}`.
    UnclosedPathSet,
    /// A `data:` value that is neither `x"..."` nor `@file:...`.
    UnsupportedDataFormat(String),
    /// An `expect` line of no known form (trimmed line).
    UnrecognizedExpect(String),
    /// A comparison matcher whose number could not be read; holds the
    /// operator.
    BadNumber(String),
    /// The text ends before the `---` that ends the preamble.
    MissingDelimiter,
    /// The preamble has no `protocol:` line.
    MissingProtocol,
    /// A line read as an expect that does not begin with `expect`.
    NotAnExpectLine,
}

pub enum ParseErrorV {
    UnexpectedPreambleLine(Seq<char>),
    BadTimestamp,
    MalformedTimestamp(Seq<char>),
    UnknownOp(Seq<char>),
    UnclosedPathSet,
    UnsupportedDataFormat(Seq<char>),
    UnrecognizedExpect(Seq<char>),
    BadNumber(Seq<char>),
    MissingDelimiter,
    MissingProtocol,
    NotAnExpectLine,
}

impl View for ParseError {
    type V = ParseErrorV;

    open spec fn view(&self) -> ParseErrorV {
        match self {
            ParseError::UnexpectedPreambleLine(s) => ParseErrorV::UnexpectedPreambleLine(s@),
            ParseError::BadTimestamp => ParseErrorV::BadTimestamp,
            ParseError::MalformedTimestamp(s) => ParseErrorV::MalformedTimestamp(s@),
            ParseError::UnknownOp(s) => ParseErrorV::UnknownOp(s@),
            ParseError::UnclosedPathSet => ParseErrorV::UnclosedPathSet,
            ParseError::UnsupportedDataFormat(s) => ParseErrorV::UnsupportedDataFormat(s@),
            ParseError::UnrecognizedExpect(s) => ParseErrorV::UnrecognizedExpect(s@),
            ParseError::BadNumber(s) => ParseErrorV::BadNumber(s@),
            ParseError::MissingDelimiter => ParseErrorV::MissingDelimiter,
            ParseError::MissingProtocol => ParseErrorV::MissingProtocol,
            ParseError::NotAnExpectLine => ParseErrorV::NotAnExpectLine,
        }
    }
}

/// The message of a parse error.
pub open spec fn parse_error_text(e: ParseErrorV) -> Seq<char> {
    match e {
        ParseErrorV::UnexpectedPreambleLine(l) => "unexpected line in preamble (missing `---` delimiter?): "@
            + l,
        ParseErrorV::BadTimestamp => "bad timestamp"@,
        ParseErrorV::MalformedTimestamp(l) => "malformed timestamp: "@ + l,
        ParseErrorV::UnknownOp(n) => "unknown op: "@ + n,
        ParseErrorV::UnclosedPathSet => "unclosed path set brace"@,
        ParseErrorV::UnsupportedDataFormat(v) => "unsupported data format: "@ + v
            + " (expected x\"...\" or @file:...)"@,
        ParseErrorV::UnrecognizedExpect(l) => "unrecognized expect: "@ + l,
        ParseErrorV::BadNumber(op) => "bad number in "@ + op,
        ParseErrorV::MissingDelimiter => "missing `---` delimiter after the preamble"@,
        ParseErrorV::MissingProtocol => "missing `protocol:` line in the preamble"@,
        ParseErrorV::NotAnExpectLine => "not an expect line"@,
    }
}

impl ParseError {
    /// The error's message.
    pub fn message(&self) -> (r: String)
        ensures
            r@ == parse_error_text(self@),
    {
        let mut s = String::new();
        match self {
            ParseError::UnexpectedPreambleLine(l) => {
                push_str(&mut s, "unexpected line in preamble (missing `---` delimiter?): ");
                push_str(&mut s, l.as_str());
            },
            ParseError::BadTimestamp => push_str(&mut s, "bad timestamp"),
            ParseError::MalformedTimestamp(l) => {
                push_str(&mut s, "malformed timestamp: ");
                push_str(&mut s, l.as_str());
            },
            ParseError::UnknownOp(n) => {
                push_str(&mut s, "unknown op: ");
                push_str(&mut s, n.as_str());
            },
            ParseError::UnclosedPathSet => push_str(&mut s, "unclosed path set brace"),
            ParseError::UnsupportedDataFormat(v) => {
                push_str(&mut s, "unsupported data format: ");
                push_str(&mut s, v.as_str());
                push_str(&mut s, " (expected x\"...\" or @file:...)");
            },
            ParseError::UnrecognizedExpect(l) => {
                push_str(&mut s, "unrecognized expect: ");
                push_str(&mut s, l.as_str());
            },
            ParseError::BadNumber(op) => {
                push_str(&mut s, "bad number in ");
                push_str(&mut s, op.as_str());
            },
            ParseError::MissingDelimiter => push_str(&mut s, "missing `---` delimiter after the preamble"),
            ParseError::MissingProtocol => push_str(&mut s, "missing `protocol:` line in the preamble"),
            ParseError::NotAnExpectLine => push_str(&mut s, "not an expect line"),
        }
        assert(s@ =~= parse_error_text(self@));
        s
    }
}

pub(crate) fn str_of(v: &[char]) -> (r: String)
    ensures
        r@ == v@,
{
    chars_to_string(v)
}

// ---------------------------------------------------------------------------
// Matchers and expects
// ---------------------------------------------------------------------------

/// A comparison matcher `op n`, or the bad-number error for `op`.
pub open spec fn numeric_matcher(
    rest: Seq<char>,
    op: Seq<char>,
    mk: spec_fn(i64) -> MatcherV,
) -> Result<MatcherV, ParseErrorV> {
    match parse_i64(trim(rest)) {
        Some(n) => Ok(mk(n as i64)),
        None => Err(ParseErrorV::BadNumber(op)),
    }
}

/// `/re/`, `>= n`, `<= n`, `> n`, `< n`, or an exact string.
pub open spec fn parse_matcher_spec(s: Seq<char>) -> Result<MatcherV, ParseErrorV> {
    if starts_with(s, "/"@) && ends_with(s, "/"@) && s.len() > 1 {
        Ok(MatcherV::Regex(s.subrange(1, s.len() - 1)))
    } else if starts_with(s, ">="@) {
        numeric_matcher(s.subrange(2, s.len() as int), ">="@, |n: i64| MatcherV::GreaterOrEqual(n))
    } else if starts_with(s, "<="@) {
        numeric_matcher(s.subrange(2, s.len() as int), "<="@, |n: i64| MatcherV::LessOrEqual(n))
    } else if starts_with(s, ">"@) {
        numeric_matcher(s.subrange(1, s.len() as int), ">"@, |n: i64| MatcherV::GreaterThan(n))
    } else if starts_with(s, "<"@) {
        numeric_matcher(s.subrange(1, s.len() as int), "<"@, |n: i64| MatcherV::LessThan(n))
    } else {
        Ok(MatcherV::Exact(s))
    }
}

pub open spec fn matcher_result_view(r: Result<Matcher, ParseError>) -> Result<MatcherV, ParseErrorV> {
    match r {
        Ok(m) => Ok(m@),
        Err(e) => Err(e@),
    }
}

fn bad_number(op: &str) -> (r: ParseError)
    ensures
        r@ == ParseErrorV::BadNumber(op@),
{
    let mut s = String::new();
    push_str(&mut s, op);
    ParseError::BadNumber(s)
}

pub fn parse_matcher(s: &[char]) -> (r: Result<Matcher, ParseError>)
    ensures
        matcher_result_view(r) == parse_matcher_spec(s@),
{
    proof {
        reveal_strlit("/");
        reveal_strlit(">=");
        reveal_strlit("<=");
        reveal_strlit(">");
        reveal_strlit("<");
    }
    if starts_with_str(s, "/") && ends_with_str(s, "/") && s.len() > 1 {
        return Ok(Matcher::Regex(str_of(&s[1..s.len() - 1])));
    }
    if starts_with_str(s, ">=") {
        let rest = trim_slice(&s[2..s.len()]);
        return match parse_i64_slice(rest) {
            Some(n) => Ok(Matcher::GreaterOrEqual(n)),
            None => Err(bad_number(">=")),
        };
    }
    if starts_with_str(s, "<=") {
        let rest = trim_slice(&s[2..s.len()]);
        return match parse_i64_slice(rest) {
            Some(n) => Ok(Matcher::LessOrEqual(n)),
            None => Err(bad_number("<=")),
        };
    }
    if starts_with_str(s, ">") {
        let rest = trim_slice(&s[1..s.len()]);
        return match parse_i64_slice(rest) {
            Some(n) => Ok(Matcher::GreaterThan(n)),
            None => Err(bad_number(">")),
        };
    }
    if starts_with_str(s, "<") {
        let rest = trim_slice(&s[1..s.len()]);
        return match parse_i64_slice(rest) {
            Some(n) => Ok(Matcher::LessThan(n)),
            None => Err(bad_number("<")),
        };
    }
    Ok(Matcher::Exact(str_of(s)))
}

pub open spec fn map_matcher(
    r: Result<MatcherV, ParseErrorV>,
    mk: spec_fn(MatcherV) -> ExpectV,
) -> Result<ExpectV, ParseErrorV> {
    match r {
        Ok(m) => Ok(mk(m)),
        Err(e) => Err(e),
    }
}

/// The `result...` forms of an expect, given what follows `result`.
pub open spec fn parse_result_expect(r: Seq<char>) -> Option<Result<ExpectV, ParseErrorV>> {
    let r2 = trim(r);
    if starts_with(r2, ":"@) {
        Some(
            map_matcher(
                parse_matcher_spec(trim(r2.subrange(1, r2.len() as int))),
                |m: MatcherV| ExpectV::Result { field: None, matcher: m },
            ),
        )
    } else if starts_with(r2, "."@) {
        match split_once(r2.subrange(1, r2.len() as int), ':') {
            Some((f, v)) => Some(
                map_matcher(
                    parse_matcher_spec(trim(v)),
                    |m: MatcherV| ExpectV::Result { field: Some(trim(f)), matcher: m },
                ),
            ),
            None => None,
        }
    } else {
        None
    }
}

/// What follows `expect` on an expect line.
pub open spec fn parse_expect_rest(line: Seq<char>, rest: Seq<char>) -> Result<ExpectV, ParseErrorV> {
    if starts_with(rest, ":"@) {
        Ok(ExpectV::Terminal(trim(rest.subrange(1, rest.len() as int))))
    } else if starts_with(rest, "stderr.count:"@) {
        map_matcher(
            parse_matcher_spec(trim(rest.subrange(13, rest.len() as int))),
            |m: MatcherV| ExpectV::StderrCount { matcher: m },
        )
    } else if starts_with(rest, "error:"@) {
        map_matcher(
            parse_matcher_spec(trim(rest.subrange(6, rest.len() as int))),
            |m: MatcherV| ExpectV::Error { matcher: m },
        )
    } else if starts_with(rest, "result"@) && parse_result_expect(rest.subrange(6, rest.len() as int)) is Some {
        parse_result_expect(rest.subrange(6, rest.len() as int))->0
    } else if starts_with(rest, "daemon:"@) {
        map_matcher(
            parse_matcher_spec(trim(rest.subrange(7, rest.len() as int))),
            |m: MatcherV| ExpectV::Daemon { matcher: m },
        )
    } else if starts_with(rest, "trust:"@) {
        map_matcher(
            parse_matcher_spec(trim(rest.subrange(6, rest.len() as int))),
            |m: MatcherV| ExpectV::Trust { matcher: m },
        )
    } else if starts_with(rest, "server_features:"@) {
        map_matcher(
            parse_matcher_spec(trim(rest.subrange(16, rest.len() as int))),
            |m: MatcherV| ExpectV::ServerFeatures { matcher: m },
        )
    } else {
        Err(ParseErrorV::UnrecognizedExpect(line))
    }
}

/// An expect line: `expect` and what follows it.
pub open spec fn parse_expect_spec(line: Seq<char>) -> Result<ExpectV, ParseErrorV> {
    if starts_with(line, "expect"@) {
        parse_expect_rest(line, trim(line.subrange(6, line.len() as int)))
    } else {
        Err(ParseErrorV::NotAnExpectLine)
    }
}

pub open spec fn expect_result_view(r: Result<Expect, ParseError>) -> Result<ExpectV, ParseErrorV> {
    match r {
        Ok(e) => Ok(e@),
        Err(e) => Err(e@),
    }
}

fn wrap_matcher(
    r: Result<Matcher, ParseError>,
    kind: u8,
) -> (out: Result<Expect, ParseError>)
    requires
        kind <= 4,
    ensures
        expect_result_view(out) == map_matcher(
            matcher_result_view(r),
            |m: MatcherV|
                if kind == 0 {
                    ExpectV::StderrCount { matcher: m }
                } else if kind == 1 {
                    ExpectV::Error { matcher: m }
                } else if kind == 2 {
                    ExpectV::Daemon { matcher: m }
                } else if kind == 3 {
                    ExpectV::Trust { matcher: m }
                } else {
                    ExpectV::ServerFeatures { matcher: m }
                },
        ),
{
    match r {
        Ok(m) => Ok(
            if kind == 0 {
                Expect::StderrCount { matcher: m }
            } else if kind == 1 {
                Expect::Error { matcher: m }
            } else if kind == 2 {
                Expect::Daemon { matcher: m }
            } else if kind == 3 {
                Expect::Trust { matcher: m }
            } else {
                Expect::ServerFeatures { matcher: m }
            },
        ),
        Err(e) => Err(e),
    }
}

fn parse_result_expect_exec(r: &[char]) -> (out: Option<Result<Expect, ParseError>>)
    ensures
        match out {
            Some(x) => parse_result_expect(r@) == Some(expect_result_view(x)),
            None => parse_result_expect(r@) is None,
        },
{
    proof {
        reveal_strlit(":");
        reveal_strlit(".");
    }
    let r2 = trim_slice(r);
    if starts_with_str(r2, ":") {
        let v = trim_slice(&r2[1..r2.len()]);
        let m = parse_matcher(v);
        let res = match m {
            Ok(m) => Ok(Expect::Result { field: None, matcher: m }),
            Err(e) => Err(e),
        };
        return Some(res);
    }
    if starts_with_str(r2, ".") {
        match split_once_slice(&r2[1..r2.len()], ':') {
            Some((f, v)) => {
                let m = parse_matcher(trim_slice(v));
                let res = match m {
                    Ok(m) => Ok(Expect::Result { field: Some(str_of(trim_slice(f))), matcher: m }),
                    Err(e) => Err(e),
                };
                return Some(res);
            },
            None => {
                return None;
            },
        }
    }
    None
}

/// Parse an expect line: `expect` and what follows it.
pub fn parse_expect(line: &[char]) -> (r: Result<Expect, ParseError>)
    ensures
        expect_result_view(r) == parse_expect_spec(line@),
{
    proof {
        reveal_strlit("expect");
        reveal_strlit(":");
    }
    if !starts_with_str(line, "expect") {
        return Err(ParseError::NotAnExpectLine);
    }
    let rest = trim_slice(&line[6..line.len()]);
    if starts_with_str(rest, ":") {
        return Ok(Expect::Terminal(str_of(trim_slice(&rest[1..rest.len()]))));
    }
    if starts_with_str(rest, "stderr.count:") {
        proof {
            reveal_strlit("stderr.count:");
        }
        return wrap_matcher(parse_matcher(trim_slice(&rest[13..rest.len()])), 0);
    }
    if starts_with_str(rest, "error:") {
        proof {
            reveal_strlit("error:");
        }
        return wrap_matcher(parse_matcher(trim_slice(&rest[6..rest.len()])), 1);
    }
    if starts_with_str(rest, "result") {
        proof {
            reveal_strlit("result");
        }
        match parse_result_expect_exec(&rest[6..rest.len()]) {
            Some(x) => {
                return x;
            },
            None => {},
        }
    }
    if starts_with_str(rest, "daemon:") {
        proof {
            reveal_strlit("daemon:");
        }
        return wrap_matcher(parse_matcher(trim_slice(&rest[7..rest.len()])), 2);
    }
    if starts_with_str(rest, "trust:") {
        proof {
            reveal_strlit("trust:");
        }
        return wrap_matcher(parse_matcher(trim_slice(&rest[6..rest.len()])), 3);
    }
    if starts_with_str(rest, "server_features:") {
        proof {
            reveal_strlit("server_features:");
        }
        return wrap_matcher(parse_matcher(trim_slice(&rest[16..rest.len()])), 4);
    }
    Err(ParseError::UnrecognizedExpect(str_of(line)))
}

// ---------------------------------------------------------------------------
// Sets, versions, strings, data
// ---------------------------------------------------------------------------

pub open spec fn map_trim(ps: Seq<Seq<char>>) -> Seq<Seq<char>> {
    ps.map_values(|p: Seq<char>| trim(p))
}

/// `{ a, b } rest` → (`[a, b]`, `rest`); a bare word is a one-item set.
pub open spec fn parse_path_set_spec(s: Seq<char>) -> Result<(Seq<Seq<char>>, Seq<char>), ParseErrorV> {
    let t = trim(s);
    if starts_with(t, "{"@) {
        match find_char(t, '}') {
            Some(end) => {
                let inner = trim(t.subrange(1, end));
                Ok(
                    (
                        if inner.len() == 0 {
                            seq![]
                        } else {
                            map_trim(split_char(inner, ','))
                        },
                        t.subrange(end + 1, t.len() as int),
                    ),
                )
            },
            None => Err(ParseErrorV::UnclosedPathSet),
        }
    } else if t.len() == 0 {
        Ok((seq![], seq![]))
    } else {
        Ok((seq![t], seq![]))
    }
}

/// Trimmed copies of the pieces.
fn trimmed_strings(ps: &Vec<Vec<char>>) -> (r: Vec<String>)
    ensures
        r.deep_view() == map_trim(ps.deep_view()),
{
    let ghost pv = ps.deep_view();
    let mut out: Vec<String> = Vec::new();
    let mut i: usize = 0;
    while i < ps.len()
        invariant
            i <= ps@.len(),
            pv == ps.deep_view(),
            out.deep_view() == map_trim(pv.subrange(0, i as int)),
        decreases ps@.len() - i,
    {
        proof {
            assert(ps[i as int].deep_view() =~= ps[i as int]@);
        }
        let t = trim_slice(ps[i].as_slice());
        let ghost before = out.deep_view();
        let st = str_of(t);
        out.push(st);
        assert(out.deep_view() =~= before.push(st@));
        assert(map_trim(pv.subrange(0, i + 1)) =~= map_trim(pv.subrange(0, i as int)).push(
            trim(pv[i as int]),
        ));
        i = i + 1;
    }
    assert(pv.subrange(0, pv.len() as int) =~= pv);
    out
}

pub open spec fn path_set_result_view(r: Result<(Vec<String>, &[char]), ParseError>) -> Result<
    (Seq<Seq<char>>, Seq<char>),
    ParseErrorV,
> {
    match r {
        Ok((v, rest)) => Ok((v.deep_view(), rest@)),
        Err(e) => Err(e@),
    }
}

pub(crate) fn path_set_slice(s: &[char]) -> (r: Result<(Vec<String>, &[char]), ParseError>)
    ensures
        path_set_result_view(r) == parse_path_set_spec(s@),
{
    proof {
        reveal_strlit("{");
    }
    let t = trim_slice(s);
    if starts_with_str(t, "{") {
        match find_char_slice(t, '}') {
            Some(end) => {
                proof {
                    crate::text::lemma_find_char_from(t@, '}', 0);
                    assert(t@.subrange(0, 1)[0] == t@[0]);
                    assert("{"@[0] == '{');
                }
                let inner = trim_slice(&t[1..end]);
                let paths = if inner.len() == 0 {
                    Vec::new()
                } else {
                    let pieces = split_char_slice(inner, ',');
                    trimmed_strings(&pieces)
                };
                let n = t.len();
                assert(end < n);
                let rest = &t[end + 1..n];
                proof {
                    if inner@.len() == 0 {
                        assert(paths.deep_view() =~= Seq::<Seq<char>>::empty());
                    }
                }
                Ok((paths, rest))
            },
            None => Err(ParseError::UnclosedPathSet),
        }
    } else if t.len() == 0 {
        let v: Vec<String> = Vec::new();
        assert(v.deep_view() =~= Seq::<Seq<char>>::empty());
        let rest = &t[0..0];
        assert(rest@ =~= Seq::<char>::empty());
        Ok((v, rest))
    } else {
        let mut v: Vec<String> = Vec::new();
        let st = str_of(t);
        v.push(st);
        assert(v.deep_view() =~= seq![t@]);
        let rest = &t[0..0];
        assert(rest@ =~= Seq::<char>::empty());
        Ok((v, rest))
    }
}

/// Parse an inline path set `{ a, b }` followed by more text.
pub fn parse_inline_path_set(s: &str) -> (r: Result<(Vec<String>, String), ParseError>)
    ensures
        match r {
            Ok((v, rest)) => parse_path_set_spec(s@) == Ok::<(Seq<Seq<char>>, Seq<char>), ParseErrorV>((v.deep_view(), rest@)),
            Err(e) => parse_path_set_spec(s@) == Err::<(Seq<Seq<char>>, Seq<char>), ParseErrorV>(e@),
        },
{
    let c = to_chars(s);
    match path_set_slice(c.as_slice()) {
        Ok((v, rest)) => Ok((v, str_of(rest))),
        Err(e) => Err(e),
    }
}

/// The non-empty items.
pub open spec fn nonempty_only(ps: Seq<Seq<char>>) -> Seq<Seq<char>>
    decreases ps.len(),
{
    if ps.len() == 0 {
        seq![]
    } else if ps.last().len() > 0 {
        nonempty_only(ps.drop_last()).push(ps.last())
    } else {
        nonempty_only(ps.drop_last())
    }
}

/// `{ a, b }` (empty items dropped), or white-space separated words.
pub open spec fn parse_feature_set_spec(s: Seq<char>) -> Seq<Seq<char>> {
    let t = trim(s);
    if starts_with(t, "{"@) && ends_with(t, "}"@) {
        let inner = trim(t.subrange(1, t.len() - 1));
        if inner.len() == 0 {
            seq![]
        } else {
            nonempty_only(map_trim(split_char(inner, ',')))
        }
    } else if t.len() == 0 {
        seq![]
    } else {
        split_ws(t)
    }
}

fn strings_of(ps: &Vec<Vec<char>>) -> (r: Vec<String>)
    ensures
        r.deep_view() == ps.deep_view(),
{
    let ghost pv = ps.deep_view();
    let mut out: Vec<String> = Vec::new();
    let mut i: usize = 0;
    while i < ps.len()
        invariant
            i <= ps@.len(),
            pv == ps.deep_view(),
            out.deep_view() == pv.subrange(0, i as int),
        decreases ps@.len() - i,
    {
        proof {
            assert(ps[i as int].deep_view() =~= ps[i as int]@);
        }
        let ghost before = out.deep_view();
        let st = str_of(ps[i].as_slice());
        out.push(st);
        assert(out.deep_view() =~= before.push(st@));
        assert(pv.subrange(0, i + 1) =~= pv.subrange(0, i as int).push(pv[i as int]));
        i = i + 1;
    }
    assert(pv.subrange(0, pv.len() as int) =~= pv);
    out
}

pub(crate) fn parse_feature_set(s: &[char]) -> (r: Vec<String>)
    ensures
        r.deep_view() == parse_feature_set_spec(s@),
{
    proof {
        reveal_strlit("{");
        reveal_strlit("}");
    }
    let t = trim_slice(s);
    if starts_with_str(t, "{") && ends_with_str(t, "}") {
        proof {
            assert(t@.subrange(0, 1)[0] == t@[0]);
            assert("{"@[0] == '{');
            assert(t@.subrange(t@.len() - 1, t@.len() as int)[0] == t@[t@.len() - 1]);
            assert("}"@[0] == '}');
        }
        let inner = trim_slice(&t[1..t.len() - 1]);
        if inner.len() == 0 {
            let v: Vec<String> = Vec::new();
            assert(v.deep_view() =~= Seq::<Seq<char>>::empty());
            v
        } else {
            let pieces = split_char_slice(inner, ',');
            let trimmed = trimmed_strings(&pieces);
            let ghost tv = trimmed.deep_view();
            let mut out: Vec<String> = Vec::new();
            let mut i: usize = 0;
            while i < trimmed.len()
                invariant
                    i <= trimmed@.len(),
                    tv == trimmed.deep_view(),
                    out.deep_view() == nonempty_only(tv.subrange(0, i as int)),
                decreases trimmed@.len() - i,
            {
                assert(tv.subrange(0, i + 1).drop_last() =~= tv.subrange(0, i as int));
                assert(trimmed[i as int]@ == tv[i as int]);
                if trimmed[i].as_str().unicode_len() > 0 {
                    let ghost before = out.deep_view();
                    out.push(trimmed[i].clone());
                    assert(out.deep_view() =~= before.push(tv[i as int]));
                }
                i = i + 1;
            }
            assert(tv.subrange(0, tv.len() as int) =~= tv);
            out
        }
    } else if t.len() == 0 {
        let v: Vec<String> = Vec::new();
        assert(v.deep_view() =~= Seq::<Seq<char>>::empty());
        v
    } else {
        let words = split_ws_slice(t);
        strings_of(&words)
    }
}

/// `major.minor`.
pub open spec fn parse_version_spec(v: Seq<char>) -> Option<ProtocolVersion> {
    let parts = split_char(v, '.');
    if parts.len() == 2 {
        match (parse_unsigned(parts[0], 65535), parse_unsigned(parts[1], 255)) {
            (Some(a), Some(b)) => Some(ProtocolVersion { major: a as u16, minor: b as u8 }),
            _ => None,
        }
    } else {
        None
    }
}

pub(crate) fn parse_version_str(v: &[char]) -> (r: Option<ProtocolVersion>)
    ensures
        r == parse_version_spec(v@),
{
    let parts = split_char_slice(v, '.');
    if parts.len() == 2 {
        proof {
            assert(parts[0]@ =~= parts.deep_view()[0]);
            assert(parts[1]@ =~= parts.deep_view()[1]);
        }
        let a = parse_unsigned_slice(parts[0].as_slice(), 65535);
        let b = parse_unsigned_slice(parts[1].as_slice(), 255);
        match (a, b) {
            (Some(a), Some(b)) => Some(ProtocolVersion::new(a as u16, b as u8)),
            _ => None,
        }
    } else {
        None
    }
}

/// Escapes in a quoted string undone, in the order `\n`, `\r`, `\t`, `\"`,
/// `\\`.
pub open spec fn unescape_spec(x: Seq<char>) -> Seq<char> {
    replace(
        replace(
            replace(replace(replace(x, "\\n"@, "\n"@), "\\r"@, "\r"@), "\\t"@, "\t"@),
            "\\\""@,
            "\""@,
        ),
        "\\\\"@,
        "\\"@,
    )
}

/// The contents of a quoted string, unescaped; other text as it is.
pub open spec fn unquote_spec(s: Seq<char>) -> Seq<char> {
    let t = trim(s);
    if starts_with(t, "\""@) && ends_with(t, "\""@) && t.len() >= 2 {
        unescape_spec(t.subrange(1, t.len() - 1))
    } else {
        t
    }
}

fn replace_lit(s: &[char], f: &str, t: &str) -> (r: Vec<char>)
    requires
        f@.len() > 0,
    ensures
        r@ == replace(s@, f@, t@),
{
    let fv = to_chars(f);
    let tv = to_chars(t);
    replace_slice(s, fv.as_slice(), tv.as_slice())
}

/// Remove surrounding quotes and undo escapes.
pub fn unquote(s: &str) -> (r: String)
    ensures
        r@ == unquote_spec(s@),
{
    let c = to_chars(s);
    str_of(unquote_slice(c.as_slice()).as_slice())
}

pub(crate) fn unquote_slice(s: &[char]) -> (r: Vec<char>)
    ensures
        r@ == unquote_spec(s@),
{
    proof {
        reveal_strlit("\"");
        reveal_strlit("\\n");
        reveal_strlit("\\r");
        reveal_strlit("\\t");
        reveal_strlit("\\\"");
        reveal_strlit("\\\\");
    }
    let t = trim_slice(s);
    if starts_with_str(t, "\"") && ends_with_str(t, "\"") && t.len() >= 2 {
        let inner = &t[1..t.len() - 1];
        let a = replace_lit(inner, "\\n", "\n");
        let b = replace_lit(a.as_slice(), "\\r", "\r");
        let c = replace_lit(b.as_slice(), "\\t", "\t");
        let d = replace_lit(c.as_slice(), "\\\"", "\"");
        replace_lit(d.as_slice(), "\\\\", "\\")
    } else {
        copy_chars(t)
    }
}

/// `"name" = "value"`.
pub open spec fn parse_kv_spec(s: Seq<char>) -> Option<(Seq<char>, Seq<char>)> {
    let t = trim(s);
    if !starts_with(t, "\""@) {
        None
    } else {
        let rest = t.subrange(1, t.len() as int);
        match find_char(rest, '"') {
            None => None,
            Some(end_name) => {
                let name = rest.subrange(0, end_name);
                let r2 = trim(rest.subrange(end_name + 1, rest.len() as int));
                match strip_prefix(r2, "="@) {
                    None => None,
                    Some(r3) => match strip_prefix(trim(r3), "\""@) {
                        None => None,
                        Some(r5) => match find_char(r5, '"') {
                            None => None,
                            Some(end_val) => Some((name, r5.subrange(0, end_val))),
                        },
                    },
                }
            },
        }
    }
}

pub(crate) fn parse_kv_pair(s: &[char]) -> (r: Option<(String, String)>)
    ensures
        match r {
            Some((a, b)) => parse_kv_spec(s@) == Some((a@, b@)),
            None => parse_kv_spec(s@) is None,
        },
{
    proof {
        reveal_strlit("\"");
    }
    let t = trim_slice(s);
    if !starts_with_str(t, "\"") {
        return None;
    }
    let rest = &t[1..t.len()];
    let end_name = match find_char_slice(rest, '"') {
        Some(e) => e,
        None => {
            return None;
        },
    };
    proof {
        crate::text::lemma_find_char_from(rest@, '"', 0);
    }
    let name = &rest[0..end_name];
    let r2 = trim_slice(&rest[end_name + 1..rest.len()]);
    let r3 = match strip_prefix_str(r2, "=") {
        Some(x) => x,
        None => {
            return None;
        },
    };
    let r5 = match strip_prefix_str(trim_slice(r3), "\"") {
        Some(x) => x,
        None => {
            return None;
        },
    };
    let end_val = match find_char_slice(r5, '"') {
        Some(e) => e,
        None => {
            return None;
        },
    };
    proof {
        crate::text::lemma_find_char_from(r5@, '"', 0);
    }
    Some((str_of(name), str_of(&r5[0..end_val])))
}

/// `x"hex"` or `@file:path`.
pub open spec fn parse_data_spec(v: Seq<char>) -> Result<FramedDataV, ParseErrorV> {
    match strip_prefix(v, "x\""@) {
        Some(rest) => Ok(FramedDataV::Inline(hex_decode(trim_end_char(rest, '"')))),
        None => match strip_prefix(v, "@file:"@) {
            Some(p) => Ok(FramedDataV::FileRef(p)),
            None => Err(ParseErrorV::UnsupportedDataFormat(v)),
        },
    }
}

pub open spec fn data_result_view(r: Result<FramedData, ParseError>) -> Result<FramedDataV, ParseErrorV> {
    match r {
        Ok(d) => Ok(d@),
        Err(e) => Err(e@),
    }
}

pub(crate) fn parse_data_value(v: &[char]) -> (r: Result<FramedData, ParseError>)
    ensures
        data_result_view(r) == parse_data_spec(v@),
{
    match strip_prefix_str(v, "x\"") {
        Some(rest) => {
            let hex = trim_end_char_slice(rest, '"');
            Ok(FramedData::Inline(hex_decode_slice(hex)))
        },
        None => match strip_prefix_str(v, "@file:") {
            Some(p) => Ok(FramedData::FileRef(str_of(p))),
            None => Err(ParseError::UnsupportedDataFormat(str_of(v))),
        },
    }
}

/// 10 to the power `k`.
pub open spec fn pow10(k: nat) -> nat
    decreases k,
{
    if k == 0 {
        1
    } else {
        10 * pow10((k - 1) as nat)
    }
}

/// The digits `d` read with the point after the first `q` of them (`q` may
/// lie outside `d`: zeros fill in), rounded half up to a whole number.
pub open spec fn rounded_at(d: Seq<char>, q: int) -> nat {
    if q <= 0 {
        if q == 0 && d.len() > 0 && digit_val(d[0]) >= 5 {
            1
        } else {
            0
        }
    } else if q >= d.len() {
        digits_value(d) * pow10((q - d.len()) as nat)
    } else {
        digits_value(d.subrange(0, q)) + if digit_val(d[q]) >= 5 {
            1nat
        } else {
            0nat
        }
    }
}

/// The first `e` or `E` at or after `i`.
pub open spec fn exp_mark_from(s: Seq<char>, i: int) -> Option<int>
    decreases s.len() - i,
{
    if i < 0 || i >= s.len() {
        None
    } else if s[i] == 'e' || s[i] == 'E' {
        Some(i)
    } else {
        exp_mark_from(s, i + 1)
    }
}

/// An exponent: an optional sign, then at least one digit.
pub open spec fn exponent_value(x: Seq<char>) -> Option<int> {
    let signed = x.len() > 0 && (x[0] == '+' || x[0] == '-');
    let ds = if signed {
        x.drop_first()
    } else {
        x
    };
    if ds.len() > 0 && all_digits(ds) {
        Some(
            if signed && x[0] == '-' {
                -(digits_value(ds) as int)
            } else {
                digits_value(ds) as int
            },
        )
    } else {
        None
    }
}

/// The digits of a mantissa `W[.F]` (`W` or `F` not empty) and how many of
/// them come before the point.
pub open spec fn mantissa(m: Seq<char>) -> Option<(Seq<char>, int)> {
    match find_char(m, '.') {
        None => if m.len() > 0 && all_digits(m) {
            Some((m, m.len() as int))
        } else {
            None
        },
        Some(d) => {
            let w = m.subrange(0, d);
            let f = m.subrange(d + 1, m.len() as int);
            if (w.len() > 0 || f.len() > 0) && all_digits(w) && all_digits(f) {
                Some((w + f, w.len() as int))
            } else {
                None
            }
        },
    }
}

/// A millisecond count as a decimal number reads — an optional `+`, digits
/// with an optional point, an optional exponent — in whole microseconds,
/// rounded half up; `None` when it is no such number or does not fit.
pub open spec fn parse_millis_spec(s: Seq<char>) -> Option<u64> {
    let t = if s.len() > 0 && s[0] == '+' {
        s.drop_first()
    } else {
        s
    };
    let (m, e) = match exp_mark_from(t, 0) {
        None => (t, Some(0int)),
        Some(k) => (t.subrange(0, k), exponent_value(t.subrange(k + 1, t.len() as int))),
    };
    match (mantissa(m), e) {
        (Some((d, p)), Some(x)) => if rounded_at(d, p + x + 3) <= u64::MAX {
            Some(rounded_at(d, p + x + 3) as u64)
        } else {
            None
        },
        _ => None,
    }
}

/// Without `e` or `E` from `i` on, no exponent mark is found there.
pub proof fn lemma_no_exp_mark(s: Seq<char>, i: int)
    requires
        0 <= i,
        forall|j: int| i <= j < s.len() ==> s[j] != 'e' && s[j] != 'E',
    ensures
        exp_mark_from(s, i) is None,
    decreases s.len() - i,
{
    if i < s.len() {
        lemma_no_exp_mark(s, i + 1);
    }
}

/// Digits written one after the other: the first part counts by the
/// power of ten that the second part's length gives.
pub proof fn lemma_digits_value_concat(a: Seq<char>, b: Seq<char>)
    ensures
        digits_value(a + b) == digits_value(a) * pow10(b.len()) + digits_value(b),
    decreases b.len(),
{
    if b.len() == 0 {
        assert(a + b =~= a);
        assert(pow10(b.len()) == 1);
        assert(digits_value(b) == 0);
        assert(digits_value(a) * pow10(b.len()) == digits_value(a));
    } else {
        let b0 = b.drop_last();
        lemma_digits_value_concat(a, b0);
        assert((a + b).drop_last() =~= a + b0);
        assert((a + b).last() == b.last());
        let pa = digits_value(a);
        let p0 = pow10(b0.len());
        let l = digit_val(b.last());
        assert(digits_value(a + b) == digits_value(a + b0) * 10 + l);
        assert(digits_value(b) == digits_value(b0) * 10 + l);
        assert(b0.len() == (b.len() - 1) as nat);
        assert(pow10(b.len()) == 10 * p0);
        let pb = pow10(b.len());
        let v0 = digits_value(b0);
        let vab0 = digits_value(a + b0);
        assert(digits_value(a + b) == pa * pb + digits_value(b)) by (nonlinear_arith)
            requires
                vab0 == pa * p0 + v0,
                digits_value(a + b) == vab0 * 10 + l,
                digits_value(b) == v0 * 10 + l,
                pb == 10 * p0,
        ;
    }
}

proof fn lemma_all_digits_sub(s: Seq<char>, a: int, b: int)
    requires
        all_digits(s),
        0 <= a <= b <= s.len(),
    ensures
        all_digits(s.subrange(a, b)),
{
    assert forall|i: int| 0 <= i < b - a implies crate::num::is_digit(#[trigger] s.subrange(a, b)[i]) by {
        assert(s.subrange(a, b)[i] == s[a + i]);
    }
}

proof fn lemma_pow10_big(k: nat)
    ensures
        pow10(k) >= 1,
        k >= 20 ==> pow10(k) > u64::MAX,
    decreases k,
{
    if k > 0 {
        lemma_pow10_big((k - 1) as nat);
        if k > 20 {
            assert(pow10(k) >= pow10((k - 1) as nat));
        } else if k == 20 {
            reveal_with_fuel(pow10, 21);
        }
    }
}

/// Saturating at `cap`: the smaller of `digits_value(d)` and `cap`.
fn digits_capped(d: &[char], cap: u128) -> (r: u128)
    requires
        all_digits(d@),
        9 <= cap <= 0x1_0000_0000_0000_0000_0000_0000,
    ensures
        r == if digits_value(d@) <= cap { digits_value(d@) } else { cap as nat },
{
    let mut acc: u128 = 0;
    let mut k: usize = 0;
    let mut over = false;
    while k < d.len()
        invariant
            k <= d@.len(),
            all_digits(d@),
            9 <= cap <= 0x1_0000_0000_0000_0000_0000_0000,
            !over ==> acc == digits_value(d@.subrange(0, k as int)) && acc <= cap,
            over ==> acc == cap && digits_value(d@.subrange(0, k as int)) > cap,
        decreases d@.len() - k,
    {
        let ghost pre = d@.subrange(0, k as int);
        assert(d@.subrange(0, k + 1).drop_last() =~= pre);
        assert(crate::num::is_digit(d@[k as int]));
        let dv: u128 = (d[k] as u32 - '0' as u32) as u128;
        assert(digits_value(d@.subrange(0, k + 1)) == digits_value(pre) * 10 + dv);
        if !over {
            if acc > (cap - dv) / 10 {
                assert(acc * 10 + dv > cap) by (nonlinear_arith)
                    requires
                        acc > (cap - dv) / 10,
                        dv <= 9,
                ;
                acc = cap;
                over = true;
            } else {
                assert(acc * 10 + dv <= cap) by (nonlinear_arith)
                    requires
                        acc <= (cap - dv) / 10,
                        dv <= 9,
                        dv <= cap,
                ;
                acc = acc * 10 + dv;
            }
        } else {
            assert(digits_value(pre) * 10 + dv >= digits_value(pre)) by (nonlinear_arith);
        }
        k = k + 1;
    }
    assert(d@.subrange(0, k as int) =~= d@);
    acc
}

/// The rounded reading of digits `d` with the point after `q` of them, when
/// it fits in a u64.
fn rounded_digits(d: &[char], q: i128) -> (r: Option<u64>)
    requires
        all_digits(d@),
    ensures
        r == if rounded_at(d@, q as int) <= u64::MAX {
            Some(rounded_at(d@, q as int) as u64)
        } else {
            None::<u64>
        },
{
    let n = d.len();
    if q <= 0 {
        if q == 0 && n > 0 && d[0] >= '5' {
            return Some(1);
        }
        return Some(0);
    }
    if q >= n as i128 {
        assert(d@.subrange(0, n as int) =~= d@);
        let v = match crate::num::digits_in_range(d, 0, 18446744073709551615u64) {
            Some(v) => v,
            None => {
                proof {
                    lemma_pow10_big((q - n) as nat);
                    assert(digits_value(d@) * pow10((q - n) as nat) >= digits_value(d@)) by (nonlinear_arith)
                        requires
                            pow10((q - n) as nat) >= 1,
                    ;
                }
                return None;
            },
        };
        if v == 0 {
            assert(rounded_at(d@, q as int) == 0) by (nonlinear_arith)
                requires
                    rounded_at(d@, q as int) == digits_value(d@) * pow10((q - n) as nat),
                    digits_value(d@) == 0,
            ;
            return Some(0);
        }
        let k128 = q - n as i128;
        if k128 >= 20 {
            proof {
                lemma_pow10_big(k128 as nat);
                assert(v * pow10(k128 as nat) >= pow10(k128 as nat)) by (nonlinear_arith)
                    requires
                        v >= 1,
                ;
            }
            return None;
        }
        let k = k128 as u32;
        assert(rounded_at(d@, q as int) == v * pow10(k as nat));
        assert(pow10(0) == 1);
        assert(v * pow10(0) == v);
        let mut acc: u64 = v;
        let mut j: u32 = 0;
        while j < k
            invariant
                j <= k,
                k < 20,
                v >= 1,
                rounded_at(d@, q as int) == v * pow10(k as nat),
                acc as nat == v * pow10(j as nat),
            decreases k - j,
        {
            if acc > 1844674407370955161u64 {
                proof {
                    lemma_pow10_big((k - j - 1) as nat);
                    assert(pow10((j + 1) as nat) == 10 * pow10(j as nat));
                    let rest = pow10((k - j - 1) as nat);
                    lemma_pow10_split(j as nat, (k - j - 1) as nat);
                    assert(v * pow10(k as nat) == (v * pow10(j as nat)) * 10 * rest) by (nonlinear_arith)
                        requires
                            pow10(k as nat) == pow10(j as nat) * 10 * rest,
                    ;
                    assert((acc as nat) * 10 * rest >= (acc as nat) * 10) by (nonlinear_arith)
                        requires
                            rest >= 1,
                    ;
                }
                return None;
            }
            proof {
                assert(pow10((j + 1) as nat) == 10 * pow10(j as nat));
                assert(v * (10 * pow10(j as nat)) == (v * pow10(j as nat)) * 10) by (nonlinear_arith);
            }
            acc = acc * 10;
            j = j + 1;
        }
        return Some(acc);
    }
    let qu = q as usize;
    let prefix = &d[0..qu];
    proof {
        lemma_all_digits_sub(d@, 0, qu as int);
    }
    assert(prefix@.subrange(0, qu as int) =~= prefix@);
    let v = match crate::num::digits_in_range(prefix, 0, 18446744073709551615u64) {
        Some(v) => v,
        None => {
            return None;
        },
    };
    assert(crate::num::is_digit(d@[qu as int]));
    if d[qu] >= '5' {
        if v == 18446744073709551615u64 {
            return None;
        }
        Some(v + 1)
    } else {
        Some(v)
    }
}

proof fn lemma_pow10_split(a: nat, b: nat)
    ensures
        pow10(a + 1 + b) == pow10(a) * 10 * pow10(b),
    decreases b,
{
    if b == 0 {
        assert(pow10(a + 1) == 10 * pow10(a));
        assert(pow10(a) * 10 * 1 == 10 * pow10(a)) by (nonlinear_arith);
    } else {
        lemma_pow10_split(a, (b - 1) as nat);
        assert(pow10(a + 1 + b) == 10 * pow10((a + 1 + b - 1) as nat));
        assert(pow10(b) == 10 * pow10((b - 1) as nat));
        assert(10 * (pow10(a) * 10 * pow10((b - 1) as nat)) == pow10(a) * 10 * (10 * pow10(
            (b - 1) as nat,
        ))) by (nonlinear_arith);
    }
}

/// Far from the digits, the reading does not depend on how far: both past
/// their end by at least 20 places, or both before their start.
proof fn lemma_rounded_far(d: Seq<char>, q1: int, q2: int)
    requires
        (q1 >= d.len() + 20 && q2 >= d.len() + 20) || (q1 < 0 && q2 < 0),
    ensures
        (rounded_at(d, q1) <= u64::MAX) == (rounded_at(d, q2) <= u64::MAX),
        rounded_at(d, q1) <= u64::MAX ==> rounded_at(d, q1) == rounded_at(d, q2),
{
    if q1 >= 0 {
        let k1 = (q1 - d.len()) as nat;
        let k2 = (q2 - d.len()) as nat;
        lemma_pow10_big(k1);
        lemma_pow10_big(k2);
        let dv = digits_value(d);
        if dv == 0 {
            assert(dv * pow10(k1) == 0 && dv * pow10(k2) == 0) by (nonlinear_arith)
                requires
                    dv == 0,
            ;
        } else {
            assert(dv * pow10(k1) >= pow10(k1) && dv * pow10(k2) >= pow10(k2)) by (nonlinear_arith)
                requires
                    dv >= 1,
            ;
        }
    }
}

/// The exponent after a mark: `None` when it is no exponent; otherwise its
/// value, held at 2^80 (or its negative) when it lies beyond.
fn read_exponent(x: &[char]) -> (r: Option<i128>)
    ensures
        r is Some <==> exponent_value(x@) is Some,
        r matches Some(e) ==> -0x1_0000_0000_0000_0000_0000 <= e <= 0x1_0000_0000_0000_0000_0000,
        r matches Some(e) ==> {
            let ev = exponent_value(x@)->0;
            ||| e == ev
            ||| (e == 0x1_0000_0000_0000_0000_0000 && ev >= 0x1_0000_0000_0000_0000_0000)
            ||| (e == -0x1_0000_0000_0000_0000_0000 && ev <= -0x1_0000_0000_0000_0000_0000)
        },
{
    let cap: u128 = 0x1_0000_0000_0000_0000_0000;
    let signed = x.len() > 0 && (x[0] == '+' || x[0] == '-');
    let ds = if signed {
        &x[1..x.len()]
    } else {
        x
    };
    assert(ds@ == if signed { x@.drop_first() } else { x@ });
    if ds.len() == 0 || !all_digit_chars(ds) {
        return None;
    }
    let mag = digits_capped(ds, cap);
    if signed && x[0] == '-' {
        Some(-(mag as i128))
    } else {
        Some(mag as i128)
    }
}

/// The digits of a mantissa and how many come before the point.
fn read_mantissa(m: &[char]) -> (r: Option<(Vec<char>, usize)>)
    ensures
        match r {
            None => mantissa(m@) is None,
            Some((v, p)) => mantissa(m@) == Some((v@, p as int)) && all_digits(v@),
        },
{
    match find_char_slice(m, '.') {
        None => {
            if m.len() == 0 || !all_digit_chars(m) {
                return None;
            }
            Some((copy_chars(m), m.len()))
        },
        Some(dot) => {
            proof {
                crate::text::lemma_find_char_from(m@, '.', 0);
            }
            let n = m.len();
            assert(dot < n);
            let w = &m[0..dot];
            let f = &m[dot + 1..n];
            if (w.len() == 0 && f.len() == 0) || !all_digit_chars(w) || !all_digit_chars(f) {
                return None;
            }
            let mut v = copy_chars(w);
            let mut i: usize = 0;
            while i < f.len()
                invariant
                    i <= f@.len(),
                    v@ == w@ + f@.subrange(0, i as int),
                decreases f@.len() - i,
            {
                v.push(f[i]);
                i = i + 1;
                assert(v@ =~= w@ + f@.subrange(0, i as int));
            }
            assert(f@.subrange(0, i as int) =~= f@);
            assert forall|j: int| 0 <= j < v@.len() implies crate::num::is_digit(#[trigger] v@[j]) by {
                if j < w@.len() {
                    assert(v@[j] == w@[j]);
                } else {
                    assert(v@[j] == f@[j - w@.len()]);
                }
            }
            Some((v, w.len()))
        },
    }
}

pub(crate) fn parse_millis(s: &[char]) -> (r: Option<u64>)
    ensures
        r == parse_millis_spec(s@),
{
    let t = if s.len() > 0 && s[0] == '+' {
        &s[1..s.len()]
    } else {
        s
    };
    assert(t@ == if s@.len() > 0 && s@[0] == '+' { s@.drop_first() } else { s@ });
    // The exponent mark, if any.
    let mut k: usize = 0;
    while k < t.len() && t[k] != 'e' && t[k] != 'E'
        invariant
            k <= t@.len(),
            exp_mark_from(t@, 0) == exp_mark_from(t@, k as int),
        decreases t@.len() - k,
    {
        k = k + 1;
    }
    let m = &t[0..k];
    let e: i128 = if k < t.len() {
        assert(exp_mark_from(t@, 0) == Some(k as int));
        match read_exponent(&t[k + 1..t.len()]) {
            Some(e) => e,
            None => {
                return None;
            },
        }
    } else {
        assert(exp_mark_from(t@, 0) is None);
        0
    };
    assert(k == t@.len() ==> m@ =~= t@);
    let (dv, p) = match read_mantissa(m) {
        Some(x) => x,
        None => {
            return None;
        },
    };
    let q: i128 = p as i128 + e + 3;
    let r = rounded_digits(dv.as_slice(), q);
    proof {
        if k < t.len() {
            let x = t@.subrange(k + 1, t@.len() as int);
            let ev = exponent_value(x)->0;
            if ev != e {
                // Held at the bound: the true exponent lies beyond it.
                assert(dv@.len() <= usize::MAX);
                lemma_rounded_far(dv@, p + ev + 3, q as int);
            }
        }
    }
    r
}


// ---------------------------------------------------------------------------
// Entries
// ---------------------------------------------------------------------------

/// `@Nms rest` (a line that begins with `@`): the time in microseconds and
/// the trimmed text after `ms`.
pub open spec fn parse_timestamp_spec(line: Seq<char>) -> Result<(Option<u64>, Seq<char>), ParseErrorV> {
    let rest = line.subrange(1, line.len() as int);
    match find(rest, "ms"@) {
        Some(p) => match parse_millis_spec(rest.subrange(0, p)) {
            Some(us) => Ok((Some(us), trim(rest.subrange(p + 2, rest.len() as int)))),
            None => Err(ParseErrorV::BadTimestamp),
        },
        None => Err(ParseErrorV::MalformedTimestamp(line)),
    }
}

fn parse_timestamp(line: &[char]) -> (r: Result<(Option<u64>, &[char]), ParseError>)
    requires
        line@.len() >= 1,
    ensures
        match r {
            Ok((t, rest)) => parse_timestamp_spec(line@) == Ok::<
                (Option<u64>, Seq<char>),
                ParseErrorV,
            >((t, rest@)),
            Err(e) => parse_timestamp_spec(line@) == Err::<(Option<u64>, Seq<char>), ParseErrorV>(
                e@,
            ),
        },
{
    let n = line.len();
    let rest = &line[1..n];
    let ms = to_chars("ms");
    proof {
        reveal_strlit("ms");
    }
    match find_slice(rest, ms.as_slice()) {
        Some(p) => {
            proof {
                crate::text::lemma_find_from_bounds(rest@, ms@, 0);
            }
            let m = rest.len();
            match parse_millis(&rest[0..p]) {
                Some(us) => Ok((Some(us), trim_slice(&rest[p + 2..m]))),
                None => Err(ParseError::BadTimestamp),
            }
        },
        None => Err(ParseError::MalformedTimestamp(str_of(line))),
    }
}

/// The indented lines after an operation from line `i` on: blank and
/// comment lines are skipped, `expect` lines are collected, and anything
/// else ends the entry.
pub open spec fn entry_expects(ls: Seq<Seq<char>>, i: int, acc: Seq<ExpectV>) -> Result<
    (Seq<ExpectV>, int),
    ParseErrorV,
>
    decreases ls.len() - i,
{
    if 0 <= i < ls.len() && crate::op_args::indented(ls[i]) {
        let t = trim(ls[i]);
        if t.len() == 0 || starts_with(t, "#"@) {
            entry_expects(ls, i + 1, acc)
        } else if starts_with(t, "expect"@) {
            match parse_expect_spec(t) {
                Ok(e) => entry_expects(ls, i + 1, acc.push(e)),
                Err(x) => Err(x),
            }
        } else {
            Ok((acc, i))
        }
    } else {
        Ok((acc, i))
    }
}

/// The entry whose operation line is line `pos`, and the first line after
/// it.
pub open spec fn entry_spec(ls: Seq<Seq<char>>, pos: int) -> Result<(EntryV, int), ParseErrorV> {
    let line = trim(ls[pos]);
    let ts = if starts_with(line, "@"@) {
        parse_timestamp_spec(line)
    } else {
        Ok((None, line))
    };
    match ts {
        Err(e) => Err(e),
        Ok((t, rest)) => match crate::op_args::op_line_spec(rest, ls, pos + 1) {
            Err(e) => Err(e),
            Ok((c, j)) => match entry_expects(ls, j, seq![]) {
                Err(e) => Err(e),
                Ok((ex, k)) => Ok(
                    (EntryV { timestamp_us: t, op_call: c, response: None, expects: ex }, k),
                ),
            },
        },
    }
}

pub proof fn lemma_entry_expects_range(ls: Seq<Seq<char>>, i: int, acc: Seq<ExpectV>)
    requires
        0 <= i <= ls.len(),
    ensures
        entry_expects(ls, i, acc) matches Ok((_, j)) ==> i <= j <= ls.len(),
    decreases ls.len() - i,
{
    if 0 <= i < ls.len() && crate::op_args::indented(ls[i]) {
        let t = trim(ls[i]);
        if t.len() == 0 || starts_with(t, "#"@) {
            lemma_entry_expects_range(ls, i + 1, acc);
        } else if starts_with(t, "expect"@) {
            match parse_expect_spec(t) {
                Ok(e) => lemma_entry_expects_range(ls, i + 1, acc.push(e)),
                Err(_) => {},
            }
        }
    }
}

/// An entry reads at least its own line and nothing past the end.
pub proof fn lemma_entry_range(ls: Seq<Seq<char>>, pos: int)
    requires
        0 <= pos < ls.len(),
    ensures
        entry_spec(ls, pos) matches Ok((_, j)) ==> pos < j <= ls.len(),
{
    let line = trim(ls[pos]);
    let ts = if starts_with(line, "@"@) {
        parse_timestamp_spec(line)
    } else {
        Ok((None, line))
    };
    match ts {
        Ok((t, rest)) => {
            crate::op_args::lemma_op_line_range(rest, ls, pos + 1);
            match crate::op_args::op_line_spec(rest, ls, pos + 1) {
                Ok((c, j)) => lemma_entry_expects_range(ls, j, seq![]),
                Err(_) => {},
            }
        },
        Err(_) => {},
    }
}

pub open spec fn entry_result_view(r: Result<(Entry, usize), ParseError>) -> Result<(EntryV, int), ParseErrorV> {
    match r {
        Ok((e, j)) => Ok((e@, j as int)),
        Err(e) => Err(e@),
    }
}

fn parse_entry_expects(ls: &Vec<Vec<char>>, pos: usize) -> (r: Result<(Vec<Expect>, usize), ParseError>)
    requires
        pos <= ls@.len(),
    ensures
        match r {
            Ok((ex, j)) => entry_expects(ls.deep_view(), pos as int, seq![]) == Ok::<
                (Seq<ExpectV>, int),
                ParseErrorV,
            >((expects_view(ex@), j as int)),
            Err(e) => entry_expects(ls.deep_view(), pos as int, seq![]) == Err::<
                (Seq<ExpectV>, int),
                ParseErrorV,
            >(e@),
        },
{
    let ghost lv = ls.deep_view();
    let mut expects: Vec<Expect> = Vec::new();
    let mut i: usize = pos;
    assert(expects_view(expects@) =~= Seq::<ExpectV>::empty());
    loop
        invariant
            pos <= i <= ls@.len(),
            lv == ls.deep_view(),
            entry_expects(lv, pos as int, seq![]) == entry_expects(
                lv,
                i as int,
                expects_view(expects@),
            ),
        decreases ls@.len() - i,
    {
        if i >= ls.len() || !crate::op_args::is_indented(crate::op_args::line_at(ls, i)) {
            return Ok((expects, i));
        }
        let t = trim_slice(crate::op_args::line_at(ls, i));
        proof {
            reveal_strlit("#");
        }
        if t.len() == 0 || starts_with_str(t, "#") {
            i = i + 1;
        } else if starts_with_str(t, "expect") {
            match parse_expect(t) {
                Ok(e) => {
                    let ghost before = expects_view(expects@);
                    expects.push(e);
                    assert(expects_view(expects@) =~= before.push(e@));
                    i = i + 1;
                },
                Err(x) => {
                    return Err(x);
                },
            }
        } else {
            return Ok((expects, i));
        }
    }
}

/// Parse the entry whose operation line is line `pos`; returns it and the
/// first line after it.
pub fn parse_entry(ls: &Vec<Vec<char>>, pos: usize) -> (r: Result<(Entry, usize), ParseError>)
    requires
        pos < ls@.len(),
    ensures
        entry_result_view(r) == entry_spec(ls.deep_view(), pos as int),
{
    let n = ls.len();
    let next = pos + 1;
    let line = trim_slice(crate::op_args::line_at(ls, pos));
    proof {
        reveal_strlit("@");
    }
    let (ts, rest) = if starts_with_str(line, "@") {
        match parse_timestamp(line) {
            Ok(x) => x,
            Err(e) => {
                return Err(e);
            },
        }
    } else {
        (None, line)
    };
    let (op_call, j) = match crate::op_args::parse_op_line(rest, ls, next) {
        Ok(x) => x,
        Err(e) => {
            return Err(e);
        },
    };
    proof {
        crate::op_args::lemma_op_line_range(rest@, ls.deep_view(), pos + 1);
    }
    let (expects, k) = match parse_entry_expects(ls, j) {
        Ok(x) => x,
        Err(e) => {
            return Err(e);
        },
    };
    Ok((Entry { timestamp_us: ts, op_call, response: None, expects }, k))
}

/// A top-level line that is skipped: blank, or a comment other than the
/// `# nwscript` header.
pub open spec fn skipped_line(t: Seq<char>) -> bool {
    t.len() == 0 || (starts_with(t, "#"@) && !starts_with(t, "# nwscript"@))
}

/// The entries from line `i` on, after those in `acc`.
pub open spec fn entries_from(ls: Seq<Seq<char>>, i: int, acc: Seq<EntryV>) -> Result<
    Seq<EntryV>,
    ParseErrorV,
>
    decreases ls.len() - i,
{
    if i < 0 || i >= ls.len() {
        Ok(acc)
    } else if skipped_line(trim(ls[i])) {
        entries_from(ls, i + 1, acc)
    } else {
        match entry_spec(ls, i) {
            Ok((e, j)) => {
                proof {
                    lemma_entry_range(ls, i);
                }
                entries_from(ls, j, acc.push(e))
            },
            Err(x) => Err(x),
        }
    }
}

fn parse_entries(ls: &Vec<Vec<char>>, pos: usize) -> (r: Result<Vec<Entry>, ParseError>)
    requires
        pos <= ls@.len(),
    ensures
        match r {
            Ok(es) => entries_from(ls.deep_view(), pos as int, seq![]) == Ok::<
                Seq<EntryV>,
                ParseErrorV,
            >(entries_view(es@)),
            Err(e) => entries_from(ls.deep_view(), pos as int, seq![]) == Err::<
                Seq<EntryV>,
                ParseErrorV,
            >(e@),
        },
{
    let ghost lv = ls.deep_view();
    let mut entries: Vec<Entry> = Vec::new();
    let mut i: usize = pos;
    assert(entries_view(entries@) =~= Seq::<EntryV>::empty());
    while i < ls.len()
        invariant
            pos <= i <= ls@.len(),
            lv == ls.deep_view(),
            entries_from(lv, pos as int, seq![]) == entries_from(
                lv,
                i as int,
                entries_view(entries@),
            ),
        decreases ls@.len() - i,
    {
        let t = trim_slice(crate::op_args::line_at(ls, i));
        proof {
            reveal_strlit("#");
        }
        if t.len() == 0 || (starts_with_str(t, "#") && !starts_with_str(t, "# nwscript")) {
            i = i + 1;
        } else {
            proof {
                lemma_entry_range(lv, i as int);
            }
            match parse_entry(ls, i) {
                Ok((e, j)) => {
                    let ghost before = entries_view(entries@);
                    entries.push(e);
                    assert(entries_view(entries@) =~= before.push(e@));
                    i = j;
                },
                Err(x) => {
                    return Err(x);
                },
            }
        }
    }
    Ok(entries)
}

// ---------------------------------------------------------------------------
// Preamble and script
// ---------------------------------------------------------------------------

/// An informational comment of the preamble (without its `#`s, trimmed):
/// `daemon:`, `trust:` and `server_features:` are recorded, others ignored.
pub open spec fn comment_step(st: PreambleV, content: Seq<char>) -> PreambleV {
    match strip_prefix(content, "daemon:"@) {
        Some(r) => PreambleV { daemon_version: Some(trim(r)), ..st },
        None => match strip_prefix(content, "trust:"@) {
            Some(r) => PreambleV { trust: Some(trim(r)), ..st },
            None => match strip_prefix(content, "server_features:"@) {
                Some(r) => PreambleV { server_features: Some(parse_feature_set_spec(trim(r))), ..st },
                None => st,
            },
        },
    }
}

/// The preamble lines from line `i` on, applied to `st` (`seen`: whether a
/// `protocol:` line was read); the result holds the preamble and the line
/// after `---`. The preamble must name the protocol and end with `---`.
pub open spec fn preamble_from(ls: Seq<Seq<char>>, i: int, st: PreambleV, seen: bool) -> Result<
    (PreambleV, int),
    ParseErrorV,
>
    decreases ls.len() - i,
{
    if i < 0 || i >= ls.len() {
        Err(ParseErrorV::MissingDelimiter)
    } else {
        let t = trim(ls[i]);
        if t.len() == 0 {
            preamble_from(ls, i + 1, st, seen)
        } else if t == "---"@ {
            if seen {
                Ok((st, i + 1))
            } else {
                Err(ParseErrorV::MissingProtocol)
            }
        } else if starts_with(t, "#"@) {
            preamble_from(ls, i + 1, comment_step(st, trim(trim_start_char(t, '#'))), seen)
        } else if starts_with(t, "protocol:"@) {
            preamble_from(
                ls,
                i + 1,
                match parse_version_spec(trim(t.subrange(9, t.len() as int))) {
                    Some(v) => PreambleV { protocol_version: v, ..st },
                    None => st,
                },
                true,
            )
        } else if starts_with(t, "features:"@) {
            preamble_from(
                ls,
                i + 1,
                PreambleV {
                    client_features: parse_feature_set_spec(trim(t.subrange(9, t.len() as int))),
                    ..st
                },
                seen,
            )
        } else if starts_with(t, "expect "@) || starts_with(t, "expect:"@) {
            match parse_expect_spec(t) {
                Ok(e) => preamble_from(
                    ls,
                    i + 1,
                    PreambleV { expects: st.expects.push(e), ..st },
                    seen,
                ),
                Err(x) => Err(x),
            }
        } else {
            Err(ParseErrorV::UnexpectedPreambleLine(t))
        }
    }
}

/// The preamble before any line: protocol 1.38 and nothing else.
pub open spec fn preamble_start() -> PreambleV {
    PreambleV {
        protocol_version: ProtocolVersion { major: 1, minor: 38 },
        client_features: seq![],
        expects: seq![],
        daemon_version: None,
        trust: None,
        server_features: None,
    }
}

/// The script that a text stands for, or why it is not one.
pub open spec fn parse_script_spec(text: Seq<char>) -> Result<ScriptV, ParseErrorV> {
    let ls = lines(text);
    match preamble_from(ls, 0, preamble_start(), false) {
        Err(e) => Err(e),
        Ok((p, j)) => match entries_from(ls, j, seq![]) {
            Ok(es) => Ok(ScriptV { preamble: p, entries: es }),
            Err(e) => Err(e),
        },
    }
}

pub proof fn lemma_preamble_range(ls: Seq<Seq<char>>, i: int, st: PreambleV, seen: bool)
    requires
        0 <= i <= ls.len(),
    ensures
        preamble_from(ls, i, st, seen) matches Ok((_, j)) ==> i <= j <= ls.len(),
    decreases ls.len() - i,
{
    if 0 <= i < ls.len() {
        let t = trim(ls[i]);
        if t.len() == 0 {
            lemma_preamble_range(ls, i + 1, st, seen);
        } else if t == "---"@ {
        } else if starts_with(t, "#"@) {
            lemma_preamble_range(ls, i + 1, comment_step(st, trim(trim_start_char(t, '#'))), seen);
        } else if starts_with(t, "protocol:"@) {
            lemma_preamble_range(
                ls,
                i + 1,
                match parse_version_spec(trim(t.subrange(9, t.len() as int))) {
                    Some(v) => PreambleV { protocol_version: v, ..st },
                    None => st,
                },
                true,
            );
        } else if starts_with(t, "features:"@) {
            lemma_preamble_range(
                ls,
                i + 1,
                PreambleV {
                    client_features: parse_feature_set_spec(trim(t.subrange(9, t.len() as int))),
                    ..st
                },
                seen,
            );
        } else if starts_with(t, "expect "@) || starts_with(t, "expect:"@) {
            match parse_expect_spec(t) {
                Ok(e) => lemma_preamble_range(
                    ls,
                    i + 1,
                    PreambleV { expects: st.expects.push(e), ..st },
                    seen,
                ),
                Err(_) => {},
            }
        }
    }
}

pub open spec fn preamble_result_view(r: Result<(Preamble, usize), ParseError>) -> Result<
    (PreambleV, int),
    ParseErrorV,
> {
    match r {
        Ok((p, j)) => Ok((p@, j as int)),
        Err(e) => Err(e@),
    }
}

fn parse_preamble(ls: &Vec<Vec<char>>) -> (r: Result<(Preamble, usize), ParseError>)
    ensures
        preamble_result_view(r) == preamble_from(ls.deep_view(), 0, preamble_start(), false),
{
    let ghost lv = ls.deep_view();
    let mut p = Preamble {
        protocol_version: ProtocolVersion::new(1, 38),
        client_features: Vec::new(),
        expects: Vec::new(),
        daemon_version: None,
        trust: None,
        server_features: None,
    };
    assert(p@ == preamble_start()) by {
        assert(p.client_features.deep_view() =~= Seq::<Seq<char>>::empty());
        assert(expects_view(p.expects@) =~= Seq::<ExpectV>::empty());
    }
    let mut i: usize = 0;
    let mut seen = false;
    while i < ls.len()
        invariant
            i <= ls@.len(),
            lv == ls.deep_view(),
            preamble_from(lv, 0, preamble_start(), false) == preamble_from(lv, i as int, p@, seen),
        decreases ls@.len() - i,
    {
        let t = trim_slice(crate::op_args::line_at(ls, i));
        proof {
            reveal_strlit("protocol:");
            reveal_strlit("features:");
        }
        if t.len() == 0 {
            i = i + 1;
        } else if eq_str(t, "---") {
            if seen {
                return Ok((p, i + 1));
            } else {
                return Err(ParseError::MissingProtocol);
            }
        } else if starts_with_str(t, "#") {
            let content = trim_slice(trim_start_char_slice(t, '#'));
            if let Some(r) = strip_prefix_str(content, "daemon:") {
                p.daemon_version = Some(str_of(trim_slice(r)));
            } else if let Some(r) = strip_prefix_str(content, "trust:") {
                p.trust = Some(str_of(trim_slice(r)));
            } else if let Some(r) = strip_prefix_str(content, "server_features:") {
                p.server_features = Some(parse_feature_set(trim_slice(r)));
            }
            i = i + 1;
        } else if starts_with_str(t, "protocol:") {
            match parse_version_str(trim_slice(&t[9..t.len()])) {
                Some(v) => {
                    p.protocol_version = v;
                },
                None => {},
            }
            seen = true;
            i = i + 1;
        } else if starts_with_str(t, "features:") {
            p.client_features = parse_feature_set(trim_slice(&t[9..t.len()]));
            i = i + 1;
        } else if starts_with_str(t, "expect ") || starts_with_str(t, "expect:") {
            proof {
                reveal_strlit("expect ");
                reveal_strlit("expect:");
                reveal_strlit("expect");
                assert(t@.subrange(0, 6) =~= t@.subrange(0, 7).subrange(0, 6));
                assert("expect "@.subrange(0, 6) =~= "expect"@);
                assert("expect:"@.subrange(0, 6) =~= "expect"@);
            }
            match parse_expect(t) {
                Ok(e) => {
                    let ghost before = expects_view(p.expects@);
                    p.expects.push(e);
                    assert(expects_view(p.expects@) =~= before.push(e@));
                    i = i + 1;
                },
                Err(x) => {
                    return Err(x);
                },
            }
        } else {
            return Err(ParseError::UnexpectedPreambleLine(str_of(t)));
        }
    }
    Err(ParseError::MissingDelimiter)
}

/// Parse a `.nwscript` text into a script.
pub fn parse_script(text: &str) -> (r: Result<Script, ParseError>)
    ensures
        match r {
            Ok(s) => parse_script_spec(text@) == Ok::<ScriptV, ParseErrorV>(s@),
            Err(e) => parse_script_spec(text@) == Err::<ScriptV, ParseErrorV>(e@),
        },
{
    let chars = to_chars(text);
    let ls = lines_slice(chars.as_slice());
    let (preamble, pos) = match parse_preamble(&ls) {
        Ok(x) => x,
        Err(e) => {
            return Err(e);
        },
    };
    proof {
        lemma_preamble_range(ls.deep_view(), 0, preamble_start(), false);
    }
    match parse_entries(&ls, pos) {
        Ok(entries) => Ok(Script { preamble, entries }),
        Err(e) => Err(e),
    }
}

} // verus!
