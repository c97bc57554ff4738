//! What a response's comment lines and an `expect result.FIELD` check read
//! of a result: the value of that very field.

use vstd::prelude::*;
use crate::expect::{expect_outcome, result_value};
use crate::format::{nl, response_text, result_text};
use crate::num::{dec, digits_value, lemma_dec_value};
use crate::script::{DaemonResponseV, ExpectV, MatcherV, PathInfoV, ResultDataV};

verus! {

/// `text` holds the line `key`, `value` and a line break.
pub open spec fn shows(text: Seq<char>, key: Seq<char>, value: Seq<char>) -> bool {
    exists|i: int|
        0 <= i && i + (key + value + nl()).len() <= text.len() && #[trigger] text.subrange(
            i,
            i + (key + value + nl()).len(),
        ) == key + value + nl()
}

/// `1` for true, `0` for false.
pub open spec fn flag_digit(b: bool) -> Seq<char> {
    if b {
        "1"@
    } else {
        "0"@
    }
}

proof fn lemma_shows(x: Seq<char>, key: Seq<char>, value: Seq<char>, y: Seq<char>)
    ensures
        shows(x + (key + value + nl()) + y, key, value),
{
    let t = x + (key + value + nl()) + y;
    let n = (key + value + nl()).len();
    assert(t.subrange(x.len() as int, x.len() as int + n) =~= key + value + nl());
}

proof fn lemma_flag_digit(b: bool)
    ensures
        dec(if b { 1 } else { 0 }) == flag_digit(b),
{
    reveal_strlit("0");
    reveal_strlit("1");
    assert(dec(0) =~= "0"@);
    assert(dec(1) =~= "1"@);
}

/// The field names that checks look up differ from one another.
proof fn lemma_field_names()
    ensures
        "valid"@ != "narSize"@,
        "valid"@ != "downloadSize"@,
        "valid"@ != "bytes_freed"@,
        "deriver"@ != "valid"@,
        "deriver"@ != "narSize"@,
        "deriver"@ != "downloadSize"@,
        "deriver"@ != "bytes_freed"@,
        "narHash"@ != "valid"@,
        "narHash"@ != "narSize"@,
        "narHash"@ != "downloadSize"@,
        "narHash"@ != "bytes_freed"@,
        "narSize"@ != "downloadSize"@,
        "narSize"@ != "bytes_freed"@,
        "downloadSize"@ != "bytes_freed"@,
        "references"@ != "valid"@,
        "references"@ != "narSize"@,
        "references"@ != "downloadSize"@,
        "references"@ != "bytes_freed"@,
        "1"@ != "0"@,
{
    reveal_strlit("references");
    reveal_strlit("valid");
    reveal_strlit("narSize");
    reveal_strlit("downloadSize");
    reveal_strlit("bytes_freed");
    reveal_strlit("deriver");
    reveal_strlit("narHash");
    reveal_strlit("0");
    reveal_strlit("1");
    assert("valid"@.len() != "narSize"@.len());
    assert("valid"@.len() != "downloadSize"@.len());
    assert("valid"@.len() != "bytes_freed"@.len());
    assert("deriver"@.len() != "valid"@.len());
    assert("deriver"@[0] != "narSize"@[0]);
    assert("deriver"@.len() != "downloadSize"@.len());
    assert("deriver"@.len() != "bytes_freed"@.len());
    assert("narHash"@.len() != "valid"@.len());
    assert("narHash"@[3] != "narSize"@[3]);
    assert("narHash"@.len() != "downloadSize"@.len());
    assert("narHash"@.len() != "bytes_freed"@.len());
    assert("narSize"@.len() != "downloadSize"@.len());
    assert("narSize"@.len() != "bytes_freed"@.len());
    assert("downloadSize"@.len() != "bytes_freed"@.len());
    assert("1"@[0] != "0"@[0]);
    assert("references"@.len() != "valid"@.len());
    assert("references"@.len() != "narSize"@.len());
    assert("references"@.len() != "downloadSize"@.len());
    assert("references"@.len() != "bytes_freed"@.len());
}

/// Each comment line `  # result.FIELD: V` that the formatter writes under
/// a response carries the value of that field of the result: `valid` as 1
/// or 0, and the sizes and freed bytes in decimal.
pub proof fn law_result_comments_carry_fields(r: ResultDataV)
    ensures
        r matches ResultDataV::PathInfo(i) ==> shows(
            result_text(r),
            "  # result.valid: "@,
            flag_digit(i.valid),
        ),
        r matches ResultDataV::PathInfo(i) ==> (i.nar_size matches Some(n) ==> shows(
            result_text(r),
            "  # result.narSize: "@,
            dec(n as nat),
        )),
        r matches ResultDataV::SubstitutablePathInfo { valid, .. } ==> shows(
            result_text(r),
            "  # result.valid: "@,
            flag_digit(valid),
        ),
        r matches ResultDataV::SubstitutablePathInfo { download_size, .. } ==> (
        download_size matches Some(n) ==> shows(
            result_text(r),
            "  # result.downloadSize: "@,
            dec(n as nat),
        )),
        r matches ResultDataV::SubstitutablePathInfo { nar_size, .. } ==> (nar_size matches Some(
            n,
        ) ==> shows(result_text(r), "  # result.narSize: "@, dec(n as nat))),
        r matches ResultDataV::Missing { download_size, .. } ==> shows(
            result_text(r),
            "  # result.downloadSize: "@,
            dec(download_size as nat),
        ),
        r matches ResultDataV::Missing { nar_size, .. } ==> shows(
            result_text(r),
            "  # result.narSize: "@,
            dec(nar_size as nat),
        ),
        r matches ResultDataV::CollectGarbage { bytes_freed } ==> shows(
            result_text(r),
            "  # result.bytes_freed: "@,
            dec(bytes_freed as nat),
        ),
{
    let e = Seq::<char>::empty();
    match r {
        ResultDataV::PathInfo(i) => {
            lemma_flag_digit(i.valid);
            let t = result_text(r);
            let v = "  # result.valid: "@ + flag_digit(i.valid) + nl();
            lemma_shows(e, "  # result.valid: "@, flag_digit(i.valid), t.subrange(v.len() as int, t.len() as int));
            assert(t =~= e + v + t.subrange(v.len() as int, t.len() as int));
            if let Some(n) = i.nar_size {
                let w = "  # result.narSize: "@ + dec(n as nat) + nl();
                let x = t.subrange(0, t.len() - w.len());
                lemma_shows(x, "  # result.narSize: "@, dec(n as nat), e);
                assert(t =~= x + w + e);
            }
        },
        ResultDataV::SubstitutablePathInfo { valid, deriver, download_size, nar_size, .. } => {
            lemma_flag_digit(valid);
            let t = result_text(r);
            let v = "  # result.valid: "@ + flag_digit(valid) + nl();
            let d = crate::format::opt_line("  # result.deriver: "@, deriver);
            let ds = crate::format::opt_u64_line("  # result.downloadSize: "@, download_size);
            let ns = crate::format::opt_u64_line("  # result.narSize: "@, nar_size);
            assert(t =~= v + d + ds + ns);
            lemma_shows(e, "  # result.valid: "@, flag_digit(valid), d + ds + ns);
            assert(t =~= e + v + (d + ds + ns));
            if let Some(n) = download_size {
                lemma_shows(v + d, "  # result.downloadSize: "@, dec(n as nat), ns);
                assert(t =~= (v + d) + ds + ns);
            }
            if let Some(n) = nar_size {
                lemma_shows(v + d + ds, "  # result.narSize: "@, dec(n as nat), e);
                assert(t =~= (v + d + ds) + ns + e);
            }
        },
        ResultDataV::Missing { will_build, will_substitute, unknown, download_size, nar_size } => {
            let t = result_text(r);
            let a = "  # result.willBuild: "@ + crate::format::path_set_text(will_build) + nl()
                + "  # result.willSubstitute: "@ + crate::format::path_set_text(will_substitute)
                + nl() + "  # result.unknown: "@ + crate::format::path_set_text(unknown) + nl();
            let ds = "  # result.downloadSize: "@ + dec(download_size as nat) + nl();
            let ns = "  # result.narSize: "@ + dec(nar_size as nat) + nl();
            assert(t =~= a + ds + ns);
            lemma_shows(a, "  # result.downloadSize: "@, dec(download_size as nat), ns);
            lemma_shows(a + ds, "  # result.narSize: "@, dec(nar_size as nat), e);
            assert(t =~= (a + ds) + ns + e);
        },
        ResultDataV::CollectGarbage { bytes_freed } => {
            let t = result_text(r);
            lemma_shows(e, "  # result.bytes_freed: "@, dec(bytes_freed as nat), e);
            assert(t =~= e + t + e);
        },
        _ => {},
    }
}

/// What a check of `result.FIELD` reads is what the response's comment line
/// for that field shows.
pub proof fn law_checks_read_what_comments_show(r: ResultDataV)
    ensures
        result_value(r, Some("valid"@)) matches Some(v) ==> shows(result_text(r), "  # result.valid: "@, v),
        result_value(r, Some("narSize"@)) matches Some(v) ==> shows(
            result_text(r),
            "  # result.narSize: "@,
            v,
        ),
        result_value(r, Some("downloadSize"@)) matches Some(v) ==> shows(
            result_text(r),
            "  # result.downloadSize: "@,
            v,
        ),
        result_value(r, Some("bytes_freed"@)) matches Some(v) ==> shows(
            result_text(r),
            "  # result.bytes_freed: "@,
            v,
        ),
{
    reveal_strlit("valid");
    reveal_strlit("narSize");
    reveal_strlit("downloadSize");
    reveal_strlit("bytes_freed");
    reveal_strlit("deriver");
    reveal_strlit("narHash");
    reveal_strlit("references");
    lemma_field_names();
    law_result_comments_carry_fields(r);
    match r {
        ResultDataV::PathInfo(i) => lemma_flag_digit(i.valid),
        ResultDataV::SubstitutablePathInfo { valid, .. } => lemma_flag_digit(valid),
        _ => {},
    }
}

/// A `result.valid` check reads 1 exactly when the path is valid, and a
/// size check reads a decimal that denotes that size; so
/// `expect result.valid: 1` passes exactly on a valid path.
pub proof fn law_checks_read_the_field(info: PathInfoV, resp: DaemonResponseV)
    ensures
        result_value(ResultDataV::PathInfo(info), Some("valid"@)) == Some(flag_digit(info.valid)),
        info.nar_size matches Some(n) ==> (result_value(
            ResultDataV::PathInfo(info),
            Some("narSize"@),
        ) matches Some(v) && digits_value(v) == n),
        resp.result == Some(ResultDataV::PathInfo(info)) ==> (expect_outcome(
            ExpectV::Result { field: Some("valid"@), matcher: MatcherV::Exact("1"@) },
            resp,
        ).0 <==> info.valid),
        resp.result == Some(ResultDataV::PathInfo(info)) ==> (expect_outcome(
            ExpectV::Result { field: Some("valid"@), matcher: MatcherV::Exact("0"@) },
            resp,
        ).0 <==> !info.valid),
{
    reveal_strlit("valid");
    reveal_strlit("narSize");
    reveal_strlit("0");
    reveal_strlit("1");
    lemma_field_names();
    lemma_flag_digit(info.valid);
    if let Some(n) = info.nar_size {
        lemma_dec_value(n as nat);
    }
}

/// The sizes that checks read of a substitutable path or of a missing-paths
/// answer are decimals that denote those sizes.
pub proof fn law_size_checks_read_the_sizes(r: ResultDataV)
    ensures
        r matches ResultDataV::Missing { download_size, nar_size, .. } ==> (result_value(
            r,
            Some("downloadSize"@),
        ) matches Some(v) && digits_value(v) == download_size) && (result_value(
            r,
            Some("narSize"@),
        ) matches Some(w) && digits_value(w) == nar_size),
        r matches ResultDataV::SubstitutablePathInfo { valid, download_size, nar_size, .. } ==> (
        result_value(r, Some("valid"@)) == Some(flag_digit(valid))) && (download_size matches Some(
            n,
        ) ==> (result_value(r, Some("downloadSize"@)) matches Some(v) && digits_value(v) == n)) && (
        nar_size matches Some(n) ==> (result_value(r, Some("narSize"@)) matches Some(v)
            && digits_value(v) == n)),
        r matches ResultDataV::CollectGarbage { bytes_freed } ==> (result_value(
            r,
            Some("bytes_freed"@),
        ) matches Some(v) && digits_value(v) == bytes_freed),
{
    reveal_strlit("valid");
    reveal_strlit("narSize");
    reveal_strlit("downloadSize");
    reveal_strlit("bytes_freed");
    lemma_field_names();
    match r {
        ResultDataV::Missing { download_size, nar_size, .. } => {
            lemma_dec_value(download_size as nat);
            lemma_dec_value(nar_size as nat);
        },
        ResultDataV::SubstitutablePathInfo { valid, download_size, nar_size, .. } => {
            lemma_flag_digit(valid);
            if let Some(n) = download_size {
                lemma_dec_value(n as nat);
            }
            if let Some(n) = nar_size {
                lemma_dec_value(n as nat);
            }
        },
        ResultDataV::CollectGarbage { bytes_freed } => {
            lemma_dec_value(bytes_freed as nat);
        },
        _ => {},
    }
}


/// The comment lines under an operation begin with its terminal message,
/// then, when there were several stderr messages, their count, then the
/// error message when there was one.
pub proof fn law_response_comments_carry_the_response(r: DaemonResponseV)
    ensures
        shows(response_text(r), "  # response: "@, r.terminal),
        r.stderr_count > 1 ==> shows(response_text(r), "  # stderr.count: "@, dec(r.stderr_count as nat)),
        r.error matches Some(e) ==> shows(response_text(r), "  # error: "@, e.message),
{
    let e = Seq::<char>::empty();
    let t = response_text(r);
    let head = "  # response: "@ + r.terminal + nl();
    let sc = if r.stderr_count > 1 {
        crate::format::u64_line("  # stderr.count: "@, r.stderr_count)
    } else {
        seq![]
    };
    let er = match r.error {
        Some(x) => "  # error: "@ + x.message + nl(),
        None => seq![],
    };
    let res = match r.result {
        Some(x) => result_text(x),
        None => seq![],
    };
    assert(t =~= head + sc + er + res);
    assert(t =~= e + head + (sc + er + res));
    lemma_shows(e, "  # response: "@, r.terminal, sc + er + res);
    if r.stderr_count > 1 {
        assert(t =~= head + sc + (er + res));
        lemma_shows(head, "  # stderr.count: "@, dec(r.stderr_count as nat), er + res);
    }
    if let Some(x) = r.error {
        assert(t =~= (head + sc) + er + res);
        lemma_shows(head + sc, "  # error: "@, x.message, res);
    }
}

} // verus!
