//! Evaluate expect assertions against daemon responses and handshake
//! information.

use vstd::prelude::*;
use crate::format::{join, push_joined};
use crate::num::{dec, dec_int, parse_i64, push_dec, push_dec_i64};
use crate::protocol::{chars_eq_str, HandshakeInfo, HandshakeInfoV};
use crate::script::{
    matcher_text, DaemonResponse, DaemonResponseV, Expect, ExpectV, Matcher,
    MatcherV, ResultData, ResultDataV,
};
use crate::text::{push_str, to_chars};
use crate::num::parse_i64_slice;

verus! {

/// Result of evaluating an expect assertion.
#[derive(Clone, Debug)]
pub struct ExpectResult {
    pub passed: bool,
    pub message: String,
}

impl View for ExpectResult {
    type V = (bool, Seq<char>);

    open spec fn view(&self) -> (bool, Seq<char>) {
        (self.passed, self.message@)
    }
}

// ---------------------------------------------------------------------------
// Outside calls
// ---------------------------------------------------------------------------

/// Whether the regular expression `pattern` compiles and matches somewhere
/// in `haystack`.
pub uninterp spec fn regex_is_match(pattern: Seq<char>, haystack: Seq<char>) -> bool;

/// Compiles `pattern` with `regex::Regex::new` and tests `haystack` with
/// `Regex::is_match`; a pattern that does not compile matches nothing. The
/// contract claims only that the answer is determined by the two strings.
#[verifier::external_body]
fn regex_matches(pattern: &str, haystack: &str) -> (r: bool)
    ensures
        r == regex_is_match(pattern@, haystack@),
{
    match regex::Regex::new(pattern) {
        Ok(re) => re.is_match(haystack),
        Err(_) => false,
    }
}

/// The `{:?}` text of a string: quoted, with escapes.
pub uninterp spec fn str_debug_text(s: Seq<char>) -> Seq<char>;

/// Formats `s` with `<str as Debug>::fmt` (through `format!("{:?}")`). The
/// contract claims only that the text is determined by the string.
#[verifier::external_body]
fn str_debug(s: &str) -> (r: String)
    ensures
        r@ == str_debug_text(s@),
{
    format!("{:?}", s)
}

/// Appends the `{:?}` text of `s`.
fn push_str_debug(out: &mut String, s: &str)
    ensures
        final(out)@ == old(out)@ + str_debug_text(s@),
{
    let d = str_debug(s);
    crate::text::push_str(out, d.as_str());
}

// ---------------------------------------------------------------------------
// Matchers
// ---------------------------------------------------------------------------

/// Whether a matcher accepts `value`, given what the regular expression
/// engine answered (`regex_match`) for a regex matcher.
pub open spec fn matcher_accepts(m: MatcherV, value: Seq<char>, regex_match: bool) -> bool {
    match m {
        MatcherV::Exact(e) => value == e,
        MatcherV::Regex(_) => regex_match,
        MatcherV::GreaterThan(n) => match parse_i64(value) {
            Some(v) => v > n,
            None => false,
        },
        MatcherV::LessThan(n) => match parse_i64(value) {
            Some(v) => v < n,
            None => false,
        },
        MatcherV::GreaterOrEqual(n) => match parse_i64(value) {
            Some(v) => v >= n,
            None => false,
        },
        MatcherV::LessOrEqual(n) => match parse_i64(value) {
            Some(v) => v <= n,
            None => false,
        },
    }
}

/// Whether a matcher accepts `value`.
pub open spec fn matches_spec(m: MatcherV, value: Seq<char>) -> bool {
    matcher_accepts(
        m,
        value,
        match m {
            MatcherV::Regex(p) => regex_is_match(p, value),
            _ => false,
        },
    )
}

/// Decide a matcher against `value`, taking the regex engine's answer for
/// a regex matcher as `regex_match`.
pub fn matcher_outcome(matcher: &Matcher, value: &str, regex_match: bool) -> (r: bool)
    ensures
        r == matcher_accepts(matcher@, value@, regex_match),
{
    match matcher {
        Matcher::Exact(expected) => {
            let a = to_chars(value);
            chars_eq_str(a.as_slice(), expected.as_str())
        },
        Matcher::Regex(_) => regex_match,
        Matcher::GreaterThan(n) => {
            let a = to_chars(value);
            match parse_i64_slice(a.as_slice()) {
                Some(v) => v > *n,
                None => false,
            }
        },
        Matcher::LessThan(n) => {
            let a = to_chars(value);
            match parse_i64_slice(a.as_slice()) {
                Some(v) => v < *n,
                None => false,
            }
        },
        Matcher::GreaterOrEqual(n) => {
            let a = to_chars(value);
            match parse_i64_slice(a.as_slice()) {
                Some(v) => v >= *n,
                None => false,
            }
        },
        Matcher::LessOrEqual(n) => {
            let a = to_chars(value);
            match parse_i64_slice(a.as_slice()) {
                Some(v) => v <= *n,
                None => false,
            }
        },
    }
}

/// Does the matcher accept `value`?
pub fn matches_value(matcher: &Matcher, value: &str) -> (r: bool)
    ensures
        r == matches_spec(matcher@, value@),
{
    let rm = match matcher {
        Matcher::Regex(pattern) => regex_matches(pattern.as_str(), value),
        _ => false,
    };
    matcher_outcome(matcher, value, rm)
}

// ---------------------------------------------------------------------------
// Debug text of expects (for misplaced handshake expects)
// ---------------------------------------------------------------------------

pub open spec fn matcher_debug(m: MatcherV) -> Seq<char> {
    match m {
        MatcherV::Exact(s) => "Exact("@ + str_debug_text(s) + ")"@,
        MatcherV::Regex(s) => "Regex("@ + str_debug_text(s) + ")"@,
        MatcherV::GreaterThan(n) => "GreaterThan("@ + dec_int(n as int) + ")"@,
        MatcherV::LessThan(n) => "LessThan("@ + dec_int(n as int) + ")"@,
        MatcherV::GreaterOrEqual(n) => "GreaterOrEqual("@ + dec_int(n as int) + ")"@,
        MatcherV::LessOrEqual(n) => "LessOrEqual("@ + dec_int(n as int) + ")"@,
    }
}

/// The `{:?}` text of an expect.
pub open spec fn expect_debug(e: ExpectV) -> Seq<char> {
    match e {
        ExpectV::Terminal(s) => "Terminal("@ + str_debug_text(s) + ")"@,
        ExpectV::Result { field, matcher } => "Result { field: "@ + (match field {
            Some(f) => "Some("@ + str_debug_text(f) + ")"@,
            None => "None"@,
        }) + ", matcher: "@ + matcher_debug(matcher) + " }"@,
        ExpectV::Error { matcher } => "Error { matcher: "@ + matcher_debug(matcher) + " }"@,
        ExpectV::StderrCount { matcher } => "StderrCount { matcher: "@ + matcher_debug(matcher)
            + " }"@,
        ExpectV::Daemon { matcher } => "Daemon { matcher: "@ + matcher_debug(matcher) + " }"@,
        ExpectV::Trust { matcher } => "Trust { matcher: "@ + matcher_debug(matcher) + " }"@,
        ExpectV::ServerFeatures { matcher } => "ServerFeatures { matcher: "@ + matcher_debug(
            matcher,
        ) + " }"@,
    }
}

fn push_matcher_debug(out: &mut String, m: &Matcher)
    ensures
        final(out)@ == old(out)@ + matcher_debug(m@),
{
    match m {
        Matcher::Exact(s) => {
            push_str(out, "Exact(");
            push_str_debug(out, s.as_str());
        },
        Matcher::Regex(s) => {
            push_str(out, "Regex(");
            push_str_debug(out, s.as_str());
        },
        Matcher::GreaterThan(n) => {
            push_str(out, "GreaterThan(");
            push_dec_i64(out, *n);
        },
        Matcher::LessThan(n) => {
            push_str(out, "LessThan(");
            push_dec_i64(out, *n);
        },
        Matcher::GreaterOrEqual(n) => {
            push_str(out, "GreaterOrEqual(");
            push_dec_i64(out, *n);
        },
        Matcher::LessOrEqual(n) => {
            push_str(out, "LessOrEqual(");
            push_dec_i64(out, *n);
        },
    }
    push_str(out, ")");
    assert(out@ =~= old(out)@ + matcher_debug(m@));
}

fn push_expect_debug(out: &mut String, e: &Expect)
    ensures
        final(out)@ == old(out)@ + expect_debug(e@),
{
    match e {
        Expect::Terminal(s) => {
            push_str(out, "Terminal(");
            push_str_debug(out, s.as_str());
            push_str(out, ")");
        },
        Expect::Result { field, matcher } => {
            push_str(out, "Result { field: ");
            match field {
                Some(f) => {
                    push_str(out, "Some(");
                    push_str_debug(out, f.as_str());
                    push_str(out, ")");
                },
                None => push_str(out, "None"),
            }
            push_str(out, ", matcher: ");
            push_matcher_debug(out, matcher);
            push_str(out, " }");
        },
        Expect::Error { matcher } => {
            push_str(out, "Error { matcher: ");
            push_matcher_debug(out, matcher);
            push_str(out, " }");
        },
        Expect::StderrCount { matcher } => {
            push_str(out, "StderrCount { matcher: ");
            push_matcher_debug(out, matcher);
            push_str(out, " }");
        },
        Expect::Daemon { matcher } => {
            push_str(out, "Daemon { matcher: ");
            push_matcher_debug(out, matcher);
            push_str(out, " }");
        },
        Expect::Trust { matcher } => {
            push_str(out, "Trust { matcher: ");
            push_matcher_debug(out, matcher);
            push_str(out, " }");
        },
        Expect::ServerFeatures { matcher } => {
            push_str(out, "ServerFeatures { matcher: ");
            push_matcher_debug(out, matcher);
            push_str(out, " }");
        },
    }
    assert(out@ =~= old(out)@ + expect_debug(e@));
}

// ---------------------------------------------------------------------------
// Outcomes
// ---------------------------------------------------------------------------

/// The message of a value check: `{name} = {value}` when it passed,
/// `{name}: expected {matcher}, got {value}` when it did not.
pub open spec fn check_message(
    name: Seq<char>,
    m: MatcherV,
    value: Seq<char>,
    passed: bool,
) -> Seq<char> {
    if passed {
        name + " = "@ + value
    } else {
        name + ": expected "@ + matcher_text(m) + ", got "@ + value
    }
}

/// How a trust status is written.
pub open spec fn trust_text(t: Option<u64>) -> Seq<char> {
    match t {
        Some(1) => "trusted"@,
        Some(2) => "not-trusted"@,
        _ => "unknown"@,
    }
}

/// `{ a, b }` as the server-features check writes it.
pub open spec fn features_text(f: Seq<Seq<char>>) -> Seq<char> {
    "{ "@ + join(f, ", "@) + " }"@
}

/// Outcome of a handshake-level expect.
pub open spec fn handshake_outcome(e: ExpectV, info: HandshakeInfoV) -> (bool, Seq<char>) {
    match e {
        ExpectV::Daemon { matcher } => {
            let value = match info.daemon_nix_version {
                Some(v) => v,
                None => "unknown"@,
            };
            let passed = matches_spec(matcher, value);
            (passed, check_message("daemon"@, matcher, value, passed))
        },
        ExpectV::Trust { matcher } => {
            let value = trust_text(info.trust_status);
            let passed = matches_spec(matcher, value);
            (passed, check_message("trust"@, matcher, value, passed))
        },
        ExpectV::ServerFeatures { matcher } => {
            let value = features_text(info.server_features);
            let passed = matches_spec(matcher, value);
            (passed, check_message("server_features"@, matcher, value, passed))
        },
        _ => (false, "non-handshake expect in preamble: "@ + expect_debug(e)),
    }
}

/// `[a, b]`.
pub open spec fn list_text(s: Seq<Seq<char>>) -> Seq<char> {
    "["@ + join(s, ", "@) + "]"@
}

/// The value a result field check reads.
pub open spec fn result_value(r: ResultDataV, field: Option<Seq<char>>) -> Option<Seq<char>> {
    match (r, field) {
        (ResultDataV::U64(v), None) => Some(dec(v as nat)),
        (ResultDataV::Str(s), None) => Some(s),
        (ResultDataV::StringSet(set), None) => Some(list_text(set)),
        (ResultDataV::PathInfo(info), Some(f)) => if f == "valid"@ {
            Some(dec(if info.valid { 1 } else { 0 }))
        } else if f == "deriver"@ {
            info.deriver
        } else if f == "narHash"@ {
            info.nar_hash
        } else if f == "narSize"@ {
            match info.nar_size {
                Some(n) => Some(dec(n as nat)),
                None => None,
            }
        } else if f == "references"@ {
            match info.references {
                Some(r) => Some(list_text(r)),
                None => None,
            }
        } else {
            None
        },
        (ResultDataV::CollectGarbage { bytes_freed }, Some(f)) => if f == "bytes_freed"@ {
            Some(dec(bytes_freed as nat))
        } else {
            None
        },
        (ResultDataV::SubstitutablePathInfo { valid, download_size, nar_size, .. }, Some(f)) =>
            if f == "valid"@ {
            Some(dec(if valid { 1 } else { 0 }))
        } else if f == "downloadSize"@ {
            match download_size {
                Some(n) => Some(dec(n as nat)),
                None => None,
            }
        } else if f == "narSize"@ {
            match nar_size {
                Some(n) => Some(dec(n as nat)),
                None => None,
            }
        } else {
            None
        },
        (ResultDataV::Missing { download_size, nar_size, .. }, Some(f)) => if f
            == "downloadSize"@ {
            Some(dec(download_size as nat))
        } else if f == "narSize"@ {
            Some(dec(nar_size as nat))
        } else {
            None
        },
        _ => None,
    }
}

/// Outcome of an op-level expect against a daemon response.
pub open spec fn expect_outcome(e: ExpectV, resp: DaemonResponseV) -> (bool, Seq<char>) {
    match e {
        ExpectV::Terminal(expected) => {
            let passed = resp.terminal == expected;
            (
                passed,
                if passed {
                    "terminal = "@ + expected
                } else {
                    "expected terminal "@ + expected + ", got "@ + resp.terminal
                },
            )
        },
        ExpectV::Result { field, matcher } => {
            let name = match field {
                Some(f) => "result."@ + f,
                None => "result"@,
            };
            let value = match resp.result {
                Some(r) => result_value(r, field),
                None => None,
            };
            match value {
                Some(v) => {
                    let passed = matches_spec(matcher, v);
                    (passed, check_message(name, matcher, v, passed))
                },
                None => (false, "result field "@ + name + " not found"@),
            }
        },
        ExpectV::Error { matcher } => match resp.error {
            Some(err) => {
                let passed = matches_spec(matcher, err.message);
                (
                    passed,
                    if passed {
                        "error matched: "@ + err.message
                    } else {
                        "error: expected "@ + matcher_text(matcher) + ", got "@ + err.message
                    },
                )
            },
            None => (false, "expected error but none received"@),
        },
        ExpectV::StderrCount { matcher } => {
            let value = dec(resp.stderr_count as nat);
            let passed = matches_spec(matcher, value);
            (passed, check_message("stderr.count"@, matcher, value, passed))
        },
        _ => (false, "handshake expect used in op context"@),
    }
}

fn check_result(name: &str, matcher: &Matcher, value: &str) -> (r: ExpectResult)
    ensures
        r@ == ({
            let passed = matches_spec(matcher@, value@);
            (passed, check_message(name@, matcher@, value@, passed))
        }),
{
    let passed = matches_value(matcher, value);
    let mut msg = String::new();
    push_str(&mut msg, name);
    if passed {
        push_str(&mut msg, " = ");
        push_str(&mut msg, value);
    } else {
        push_str(&mut msg, ": expected ");
        matcher.push_text(&mut msg);
        push_str(&mut msg, ", got ");
        push_str(&mut msg, value);
    }
    assert(msg@ =~= check_message(name@, matcher@, value@, passed));
    ExpectResult { passed, message: msg }
}

fn evaluate_handshake_expect(expect: &Expect, info: &HandshakeInfo) -> (r: ExpectResult)
    ensures
        r@ == handshake_outcome(expect@, info@),
{
    match expect {
        Expect::Daemon { matcher } => {
            let value = match &info.daemon_nix_version {
                Some(v) => v.clone(),
                None => String::from_str("unknown"),
            };
            check_result("daemon", matcher, value.as_str())
        },
        Expect::Trust { matcher } => {
            let value = match info.trust_status {
                Some(1) => "trusted",
                Some(2) => "not-trusted",
                _ => "unknown",
            };
            check_result("trust", matcher, value)
        },
        Expect::ServerFeatures { matcher } => {
            let mut value = String::new();
            push_str(&mut value, "{ ");
            push_joined(&mut value, &info.server_features, ", ");
            push_str(&mut value, " }");
            assert(value@ =~= features_text(info@.server_features));
            check_result("server_features", matcher, value.as_str())
        },
        _ => {
            let mut msg = String::new();
            push_str(&mut msg, "non-handshake expect in preamble: ");
            push_expect_debug(&mut msg, expect);
            ExpectResult { passed: false, message: msg }
        },
    }
}

fn push_list(out: &mut String, items: &Vec<String>)
    ensures
        final(out)@ == old(out)@ + list_text(items.deep_view()),
{
    push_str(out, "[");
    push_joined(out, items, ", ");
    push_str(out, "]");
    assert(out@ =~= old(out)@ + list_text(items.deep_view()));
}

fn dec_string(n: u64) -> (r: String)
    ensures
        r@ == dec(n as nat),
{
    let mut s = String::new();
    push_dec(&mut s, n);
    s
}

fn field_is(f: &Vec<char>, lit: &str) -> (r: bool)
    ensures
        r == (f@ == lit@),
{
    chars_eq_str(f.as_slice(), lit)
}

/// The value a result field check reads.
fn extract_result_value(result: &ResultData, field: &Option<String>) -> (r: Option<String>)
    ensures
        r.deep_view() == result_value(result@, field.deep_view()),
{
    match field {
        None => match result {
            ResultData::U64(v) => Some(dec_string(*v)),
            ResultData::Str(s) => Some(s.clone()),
            ResultData::StringSet(set) => {
                let mut t = String::new();
                push_list(&mut t, set);
                Some(t)
            },
            _ => None,
        },
        Some(fs) => {
            let f = to_chars(fs.as_str());
            match result {
                ResultData::PathInfo(info) => {
                    if field_is(&f, "valid") {
                        Some(dec_string(if info.valid { 1 } else { 0 }))
                    } else if field_is(&f, "deriver") {
                        info.deriver.clone()
                    } else if field_is(&f, "narHash") {
                        info.nar_hash.clone()
                    } else if field_is(&f, "narSize") {
                        match info.nar_size {
                            Some(n) => Some(dec_string(n)),
                            None => None,
                        }
                    } else if field_is(&f, "references") {
                        match &info.references {
                            Some(r) => {
                                let mut t = String::new();
                                push_list(&mut t, r);
                                Some(t)
                            },
                            None => None,
                        }
                    } else {
                        None
                    }
                },
                ResultData::CollectGarbage { bytes_freed } => {
                    if field_is(&f, "bytes_freed") {
                        Some(dec_string(*bytes_freed))
                    } else {
                        None
                    }
                },
                ResultData::SubstitutablePathInfo { valid, download_size, nar_size, .. } => {
                    if field_is(&f, "valid") {
                        Some(dec_string(if *valid { 1 } else { 0 }))
                    } else if field_is(&f, "downloadSize") {
                        match download_size {
                            Some(n) => Some(dec_string(*n)),
                            None => None,
                        }
                    } else if field_is(&f, "narSize") {
                        match nar_size {
                            Some(n) => Some(dec_string(*n)),
                            None => None,
                        }
                    } else {
                        None
                    }
                },
                ResultData::Missing { download_size, nar_size, .. } => {
                    if field_is(&f, "downloadSize") {
                        Some(dec_string(*download_size))
                    } else if field_is(&f, "narSize") {
                        Some(dec_string(*nar_size))
                    } else {
                        None
                    }
                },
                _ => None,
            }
        },
    }
}

fn evaluate_expect(expect: &Expect, response: &DaemonResponse) -> (r: ExpectResult)
    ensures
        r@ == expect_outcome(expect@, response@),
{
    match expect {
        Expect::Terminal(expected) => {
            let a = to_chars(response.terminal.as_str());
            let passed = chars_eq_str(a.as_slice(), expected.as_str());
            let mut msg = String::new();
            if passed {
                push_str(&mut msg, "terminal = ");
                push_str(&mut msg, expected.as_str());
            } else {
                push_str(&mut msg, "expected terminal ");
                push_str(&mut msg, expected.as_str());
                push_str(&mut msg, ", got ");
                push_str(&mut msg, response.terminal.as_str());
            }
            ExpectResult { passed, message: msg }
        },
        Expect::Result { field, matcher } => {
            let mut name = String::new();
            match field {
                Some(f) => {
                    push_str(&mut name, "result.");
                    push_str(&mut name, f.as_str());
                },
                None => push_str(&mut name, "result"),
            }
            let value = match &response.result {
                Some(result) => extract_result_value(result, field),
                None => None,
            };
            match value {
                Some(v) => check_result(name.as_str(), matcher, v.as_str()),
                None => {
                    let mut msg = String::new();
                    push_str(&mut msg, "result field ");
                    push_str(&mut msg, name.as_str());
                    push_str(&mut msg, " not found");
                    ExpectResult { passed: false, message: msg }
                },
            }
        },
        Expect::Error { matcher } => match &response.error {
            Some(err) => {
                let passed = matches_value(matcher, err.message.as_str());
                let mut msg = String::new();
                if passed {
                    push_str(&mut msg, "error matched: ");
                    push_str(&mut msg, err.message.as_str());
                } else {
                    push_str(&mut msg, "error: expected ");
                    matcher.push_text(&mut msg);
                    push_str(&mut msg, ", got ");
                    push_str(&mut msg, err.message.as_str());
                }
                ExpectResult { passed, message: msg }
            },
            None => {
                let mut msg = String::new();
                push_str(&mut msg, "expected error but none received");
                ExpectResult { passed: false, message: msg }
            },
        },
        Expect::StderrCount { matcher } => {
            let value = dec_string(response.stderr_count);
            check_result("stderr.count", matcher, value.as_str())
        },
        _ => {
            let mut msg = String::new();
            push_str(&mut msg, "handshake expect used in op context");
            ExpectResult { passed: false, message: msg }
        },
    }
}

/// Evaluate a list of expects against a daemon response.
pub fn evaluate_expects(expects: &[Expect], response: &DaemonResponse) -> (r: Vec<ExpectResult>)
    ensures
        r@.len() == expects@.len(),
        forall|i: int|
            0 <= i < expects@.len() ==> #[trigger] r@[i]@ == expect_outcome(
                expects@[i]@,
                response@,
            ),
{
    let mut out: Vec<ExpectResult> = Vec::new();
    let mut i: usize = 0;
    while i < expects.len()
        invariant
            i <= expects@.len(),
            out@.len() == i,
            forall|k: int|
                0 <= k < i ==> #[trigger] out@[k]@ == expect_outcome(expects@[k]@, response@),
        decreases expects@.len() - i,
    {
        out.push(evaluate_expect(&expects[i], response));
        i = i + 1;
    }
    out
}

/// Evaluate handshake-level expects against handshake information.
pub fn evaluate_handshake_expects(expects: &[Expect], info: &HandshakeInfo) -> (r: Vec<
    ExpectResult,
>)
    ensures
        r@.len() == expects@.len(),
        forall|i: int|
            0 <= i < expects@.len() ==> #[trigger] r@[i]@ == handshake_outcome(
                expects@[i]@,
                info@,
            ),
{
    let mut out: Vec<ExpectResult> = Vec::new();
    let mut i: usize = 0;
    while i < expects.len()
        invariant
            i <= expects@.len(),
            out@.len() == i,
            forall|k: int|
                0 <= k < i ==> #[trigger] out@[k]@ == handshake_outcome(expects@[k]@, info@),
        decreases expects@.len() - i,
    {
        out.push(evaluate_handshake_expect(&expects[i], info));
        i = i + 1;
    }
    out
}

} // verus!
