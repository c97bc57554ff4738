//! Reading the arguments of a serialized operation back word by word: the
//! daemon reads each u64 as eight little-endian bytes, in order.

use vstd::prelude::*;
use crate::protocol::{le_bytes, law_wire_u64_width, version_at_least, wire_u64, ProtocolVersion};
use crate::script::OpCallV;
use crate::serialize::{args_bytes, args_prefix};

verus! {

/// The number that bytes denote, least significant first.
pub open spec fn le_value(b: Seq<u8>) -> nat
    decreases b.len(),
{
    if b.len() == 0 {
        0
    } else {
        b[0] as nat + 256 * le_value(b.drop_first())
    }
}

/// The `k`-th 8-byte word of `b`, as the daemon reads it.
pub open spec fn word(b: Seq<u8>, k: int) -> nat {
    le_value(b.subrange(8 * k, 8 * k + 8))
}

pub open spec fn pow256(k: nat) -> nat
    decreases k,
{
    if k == 0 {
        1
    } else {
        256 * pow256((k - 1) as nat)
    }
}

proof fn lemma_le_roundtrip(n: nat, k: nat)
    requires
        n < pow256(k),
    ensures
        le_value(le_bytes(n, k)) == n,
    decreases k,
{
    if k > 0 {
        assert(n / 256 < pow256((k - 1) as nat));
        lemma_le_roundtrip(n / 256, (k - 1) as nat);
        assert(le_bytes(n, k).drop_first() =~= le_bytes(n / 256, (k - 1) as nat));
        assert(le_bytes(n, k)[0] == (n % 256) as u8);
    } else {
        assert(n == 0);
    }
}

/// A u64 on the wire reads back as itself.
pub proof fn law_wire_u64_reads_back(n: u64)
    ensures
        le_value(wire_u64(n)) == n,
{
    assert(pow256(8) == 0x1_0000_0000_0000_0000) by {
        reveal_with_fuel(pow256, 9);
    }
    lemma_le_roundtrip(n as nat, 8);
}

proof fn lemma_word_at(x: Seq<u8>, n: u64, y: Seq<u8>)
    requires
        x.len() % 8 == 0,
    ensures
        word(x + wire_u64(n) + y, x.len() as int / 8) == n,
{
    law_wire_u64_width(n);
    law_wire_u64_reads_back(n);
    let k = x.len() as int / 8;
    assert(8 * k == x.len());
    assert((x + wire_u64(n) + y).subrange(8 * k, 8 * k + 8) =~= wire_u64(n));
}

/// The arguments of `SetOptions` on the wire are its fields in the order
/// the daemon reads them: word 0 is `keep_failed`, then `keep_going`,
/// `try_fallback`, `verbosity`, `max_build_jobs`, `max_silent_time`,
/// `use_build_hook`, `verbose_build`, `log_type`, `print_build_trace`;
/// from protocol 1.10 `build_cores`, and from 1.12 `use_substitutes` and
/// the number of overrides.
#[verifier::spinoff_prover]
#[verifier::rlimit(100)]
pub proof fn law_set_options_words(c: OpCallV, v: ProtocolVersion, files: Seq<(Seq<char>, Seq<u8>)>)
    requires
        c is SetOptions,
    ensures
        args_bytes(c, v, files) matches Some(b) && ({
            &&& word(b, 0) == c->keep_failed
            &&& word(b, 1) == c->keep_going
            &&& word(b, 2) == c->try_fallback
            &&& word(b, 3) == c->verbosity
            &&& word(b, 4) == c->max_build_jobs
            &&& word(b, 5) == c->max_silent_time
            &&& word(b, 6) == c->use_build_hook
            &&& word(b, 7) == c->verbose_build
            &&& word(b, 8) == c->log_type
            &&& word(b, 9) == c->print_build_trace
            &&& version_at_least(v, ProtocolVersion { major: 1, minor: 10 }) ==> word(b, 10)
                == c->build_cores
            &&& version_at_least(v, ProtocolVersion { major: 1, minor: 12 }) ==> {
                let k = if version_at_least(v, ProtocolVersion { major: 1, minor: 10 }) {
                    11int
                } else {
                    10int
                };
                word(b, k) == c->use_substitutes && word(b, k + 1) == c->overrides.len() as u64
            }
        }),
{
    reveal(args_prefix);
    if let OpCallV::SetOptions {
        keep_failed,
        keep_going,
        try_fallback,
        verbosity,
        max_build_jobs,
        max_silent_time,
        use_build_hook,
        verbose_build,
        log_type,
        print_build_trace,
        build_cores,
        use_substitutes,
        overrides,
    } = c {
    law_wire_u64_width(keep_failed);
    law_wire_u64_width(keep_going);
    law_wire_u64_width(try_fallback);
    law_wire_u64_width(verbosity);
    law_wire_u64_width(max_build_jobs);
    law_wire_u64_width(max_silent_time);
    law_wire_u64_width(use_build_hook);
    law_wire_u64_width(verbose_build);
    law_wire_u64_width(log_type);
    law_wire_u64_width(print_build_trace);
    law_wire_u64_width(build_cores);
    law_wire_u64_width(use_substitutes);
    law_wire_u64_width(overrides.len() as u64);
    let v10 = version_at_least(v, ProtocolVersion { major: 1, minor: 10 });
    let v12 = version_at_least(v, ProtocolVersion { major: 1, minor: 12 });
    let bc = if v10 {
        wire_u64(build_cores)
    } else {
        seq![]
    };
    let tail = if v12 {
        wire_u64(use_substitutes) + wire_u64(overrides.len() as u64) + crate::serialize::wire_pairs(
            overrides,
        )
    } else {
        seq![]
    };
    let b = args_prefix(c, v);
    assert(args_bytes(c, v, files) == Some(b));
    let p0 = Seq::<u8>::empty();
    let p1 = p0 + wire_u64(keep_failed);
    let p2 = p1 + wire_u64(keep_going);
    let p3 = p2 + wire_u64(try_fallback);
    let p4 = p3 + wire_u64(verbosity);
    let p5 = p4 + wire_u64(max_build_jobs);
    let p6 = p5 + wire_u64(max_silent_time);
    let p7 = p6 + wire_u64(use_build_hook);
    let p8 = p7 + wire_u64(verbose_build);
    let p9 = p8 + wire_u64(log_type);
    let p10 = p9 + wire_u64(print_build_trace);
    assert(b =~= p10 + bc + tail);
    assert(b =~= p0 + wire_u64(keep_failed) + (b.subrange(8, b.len() as int)));
    lemma_word_at(p0, keep_failed, b.subrange(8, b.len() as int));
    assert(b =~= p1 + wire_u64(keep_going) + b.subrange(16, b.len() as int));
    lemma_word_at(p1, keep_going, b.subrange(16, b.len() as int));
    assert(b =~= p2 + wire_u64(try_fallback) + b.subrange(24, b.len() as int));
    lemma_word_at(p2, try_fallback, b.subrange(24, b.len() as int));
    assert(b =~= p3 + wire_u64(verbosity) + b.subrange(32, b.len() as int));
    lemma_word_at(p3, verbosity, b.subrange(32, b.len() as int));
    assert(b =~= p4 + wire_u64(max_build_jobs) + b.subrange(40, b.len() as int));
    lemma_word_at(p4, max_build_jobs, b.subrange(40, b.len() as int));
    assert(b =~= p5 + wire_u64(max_silent_time) + b.subrange(48, b.len() as int));
    lemma_word_at(p5, max_silent_time, b.subrange(48, b.len() as int));
    assert(b =~= p6 + wire_u64(use_build_hook) + b.subrange(56, b.len() as int));
    lemma_word_at(p6, use_build_hook, b.subrange(56, b.len() as int));
    assert(b =~= p7 + wire_u64(verbose_build) + b.subrange(64, b.len() as int));
    lemma_word_at(p7, verbose_build, b.subrange(64, b.len() as int));
    assert(b =~= p8 + wire_u64(log_type) + b.subrange(72, b.len() as int));
    lemma_word_at(p8, log_type, b.subrange(72, b.len() as int));
    assert(b =~= p9 + wire_u64(print_build_trace) + b.subrange(80, b.len() as int));
    lemma_word_at(p9, print_build_trace, b.subrange(80, b.len() as int));
    if v10 {
        assert(b =~= p10 + wire_u64(build_cores) + tail);
        lemma_word_at(p10, build_cores, tail);
    }
    if v12 {
        let q = p10 + bc;
        let rest = crate::serialize::wire_pairs(overrides);
        assert(b =~= q + wire_u64(use_substitutes) + (wire_u64(overrides.len() as u64) + rest));
        lemma_word_at(q, use_substitutes, wire_u64(overrides.len() as u64) + rest);
        let q2 = q + wire_u64(use_substitutes);
        assert(b =~= q2 + wire_u64(overrides.len() as u64) + rest);
        lemma_word_at(q2, overrides.len() as u64, rest);
    }
    }
}


/// The arguments of `VerifyStore` on the wire: `check_contents`, then
/// `repair`, each 1 or 0.
#[verifier::spinoff_prover]
pub proof fn law_verify_store_words(c: OpCallV, v: ProtocolVersion, files: Seq<(Seq<char>, Seq<u8>)>)
    requires
        c is VerifyStore,
    ensures
        args_bytes(c, v, files) matches Some(b) && word(b, 0) == (if c->check_contents {
            1nat
        } else {
            0nat
        }) && word(b, 1) == (if c->VerifyStore_repair {
            1nat
        } else {
            0nat
        }),
{
    reveal(args_prefix);
    if let OpCallV::VerifyStore { check_contents, repair } = c {
        let e = Seq::<u8>::empty();
        let a = wire_u64(crate::serialize::bool_u64(check_contents));
        let r = wire_u64(crate::serialize::bool_u64(repair));
        law_wire_u64_width(crate::serialize::bool_u64(check_contents));
        assert(args_prefix(c, v) =~= e + a + r);
        lemma_word_at(e, crate::serialize::bool_u64(check_contents), r);
        assert(args_prefix(c, v) =~= a + r + e);
        lemma_word_at(a, crate::serialize::bool_u64(repair), e);
    }
}

/// The arguments of `AddMultipleToStore` on the wire begin with `repair`,
/// then `dont_check_sigs`, each 1 or 0.
#[verifier::spinoff_prover]
pub proof fn law_add_multiple_words(c: OpCallV, v: ProtocolVersion, files: Seq<(Seq<char>, Seq<u8>)>)
    requires
        c is AddMultipleToStore,
    ensures
        args_bytes(c, v, files) matches Some(b) ==> word(b, 0) == (if c->AddMultipleToStore_repair {
            1nat
        } else {
            0nat
        }) && word(b, 1) == (if c->dont_check_sigs {
            1nat
        } else {
            0nat
        }),
{
    reveal(args_prefix);
    if let OpCallV::AddMultipleToStore { repair, dont_check_sigs, .. } = c {
        let e = Seq::<u8>::empty();
        let a = wire_u64(crate::serialize::bool_u64(repair));
        let d = wire_u64(crate::serialize::bool_u64(dont_check_sigs));
        law_wire_u64_width(crate::serialize::bool_u64(repair));
        law_wire_u64_width(crate::serialize::bool_u64(dont_check_sigs));
        assert(args_prefix(c, v) == a + d);
        if let Some(b) = args_bytes(c, v, files) {
            let rest = b.subrange(16, b.len() as int);
            assert(b.subrange(0, 16) =~= a + d);
            assert(b =~= e + a + (d + rest));
            lemma_word_at(e, crate::serialize::bool_u64(repair), d + rest);
            assert(b =~= a + d + rest);
            lemma_word_at(a, crate::serialize::bool_u64(dont_check_sigs), rest);
        }
    }
}

/// The arguments of `CollectGarbage` on the wire: `action`, the paths, then
/// `ignore_liveness` and `max_freed`.
#[verifier::spinoff_prover]
pub proof fn law_collect_garbage_words(c: OpCallV, v: ProtocolVersion, files: Seq<(Seq<char>, Seq<u8>)>)
    requires
        c is CollectGarbage,
    ensures
        args_bytes(c, v, files) matches Some(b) && {
            let m = 1 + crate::protocol::wire_string_set(c->CollectGarbage_paths).len() as int / 8;
            &&& word(b, 0) == c->action
            &&& word(b, m) == c->ignore_liveness
            &&& word(b, m + 1) == c->max_freed
        },
{
    reveal(args_prefix);
    if let OpCallV::CollectGarbage { action, paths, ignore_liveness, max_freed } = c {
        let e = Seq::<u8>::empty();
        let set = crate::protocol::wire_string_set(paths);
        crate::protocol::law_wire_string_set_aligned(paths);
        law_wire_u64_width(action);
        law_wire_u64_width(ignore_liveness);
        let z = wire_u64(0) + wire_u64(0) + wire_u64(0);
        let b = args_prefix(c, v);
        let after = set + wire_u64(ignore_liveness) + wire_u64(max_freed) + z;
        assert(b =~= e + wire_u64(action) + after);
        lemma_word_at(e, action, after);
        let x = wire_u64(action) + set;
        assert(b =~= x + wire_u64(ignore_liveness) + (wire_u64(max_freed) + z));
        lemma_word_at(x, ignore_liveness, wire_u64(max_freed) + z);
        let x2 = x + wire_u64(ignore_liveness);
        assert(b =~= x2 + wire_u64(max_freed) + z);
        lemma_word_at(x2, max_freed, z);
    }
}

} // verus!
