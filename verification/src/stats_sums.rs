//! How the per-type statistics of a session divide its records: each type
//! counts the framed bytes of its own operations only, and the types
//! together count every operation's framed bytes once.

use vstd::prelude::*;
use crate::stats::{
    by_total, framed_total, group_stats, names_in_order, op_stats_spec, pair_leq, stats_in_order,
    OpRecordV, OpStatsV,
};

verus! {

/// The framed bytes of an operation (0 without framed data).
pub open spec fn framed_of_record(r: OpRecordV) -> nat {
    match r.framed_bytes {
        Some(b) => b as nat,
        None => 0,
    }
}

/// The framed bytes of all operations of a session.
pub open spec fn session_framed(recs: Seq<OpRecordV>) -> nat
    decreases recs.len(),
{
    if recs.len() == 0 {
        0
    } else {
        session_framed(recs.drop_last()) + framed_of_record(recs.last())
    }
}

/// The framed bytes that per-type statistics report, added up.
pub open spec fn framed_sum(st: Seq<OpStatsV>) -> nat
    decreases st.len(),
{
    if st.len() == 0 {
        0
    } else {
        framed_sum(st.drop_last()) + st.last().total_framed_bytes
    }
}

/// The framed bytes of the statistics at the positions `s` names.
spec fn pos_sum(s: Seq<(u64, usize)>, st: Seq<OpStatsV>) -> nat
    decreases s.len(),
{
    if s.len() == 0 {
        0
    } else {
        pos_sum(s.drop_last(), st) + st[s.last().1 as int].total_framed_bytes
    }
}

/// The framed bytes of the operations named in `ns`, name by name.
spec fn names_framed(ns: Seq<Seq<char>>, recs: Seq<OpRecordV>) -> nat
    decreases ns.len(),
{
    if ns.len() == 0 {
        0
    } else {
        names_framed(ns.drop_last(), recs) + framed_total(recs, Some(ns.last()))
    }
}

proof fn lemma_session_framed(recs: Seq<OpRecordV>)
    ensures
        framed_total(recs, None) == session_framed(recs),
    decreases recs.len(),
{
    if recs.len() > 0 {
        lemma_session_framed(recs.drop_last());
    }
}

proof fn lemma_names_no_dups(recs: Seq<OpRecordV>)
    ensures
        names_in_order(recs).no_duplicates(),
        forall|i: int| 0 <= i < recs.len() ==> names_in_order(recs).contains(#[trigger] recs[i].op_name),
    decreases recs.len(),
{
    if recs.len() > 0 {
        let r0 = recs.drop_last();
        lemma_names_no_dups(r0);
        let ns = names_in_order(r0);
        assert forall|i: int| 0 <= i < recs.len() implies names_in_order(recs).contains(
            #[trigger] recs[i].op_name,
        ) by {
            if i < recs.len() - 1 {
                assert(r0[i] == recs[i]);
                let k = choose|k: int| 0 <= k < ns.len() && ns[k] == r0[i].op_name;
                if !ns.contains(recs.last().op_name) {
                    assert(ns.push(recs.last().op_name)[k] == ns[k]);
                }
            } else {
                if !ns.contains(recs.last().op_name) {
                    assert(ns.push(recs.last().op_name)[ns.len() as int] == recs.last().op_name);
                }
            }
        }
    }
}

proof fn lemma_names_len(recs: Seq<OpRecordV>)
    ensures
        names_in_order(recs).len() <= recs.len(),
    decreases recs.len(),
{
    if recs.len() > 0 {
        lemma_names_len(recs.drop_last());
    }
}

/// A name that is no operation's name counts no framed bytes.
proof fn lemma_absent_name(recs: Seq<OpRecordV>, x: Seq<char>)
    requires
        !names_in_order(recs).contains(x),
    ensures
        framed_total(recs, Some(x)) == 0,
    decreases recs.len(),
{
    if recs.len() > 0 {
        lemma_names_no_dups(recs);
        assert(recs.last() == recs[recs.len() - 1]);
        let r0 = recs.drop_last();
        let ns = names_in_order(r0);
        if ns.contains(x) {
            let k = choose|k: int| 0 <= k < ns.len() && ns[k] == x;
            if !ns.contains(recs.last().op_name) {
                assert(ns.push(recs.last().op_name)[k] == ns[k]);
            }
        }
        lemma_absent_name(r0, x);
    }
}

/// Adding one operation adds its framed bytes to its own name, if listed.
proof fn lemma_names_framed_step(ns: Seq<Seq<char>>, recs: Seq<OpRecordV>)
    requires
        recs.len() > 0,
        ns.no_duplicates(),
    ensures
        names_framed(ns, recs) == names_framed(ns, recs.drop_last()) + if ns.contains(
            recs.last().op_name,
        ) {
            framed_of_record(recs.last())
        } else {
            0
        },
    decreases ns.len(),
{
    if ns.len() > 0 {
        let n0 = ns.drop_last();
        assert(n0.no_duplicates());
        lemma_names_framed_step(n0, recs);
        let x = recs.last().op_name;
        if n0.contains(x) {
            let k = choose|k: int| 0 <= k < n0.len() && n0[k] == x;
            assert(ns[k] == x);
            assert(ns.last() != x);
            assert(ns.contains(x));
        } else if ns.last() == x {
            assert(ns.contains(x));
        } else {
            if ns.contains(x) {
                let k = choose|k: int| 0 <= k < ns.len() && ns[k] == x;
                assert(k != ns.len() - 1);
                assert(n0[k] == x);
            }
        }
    }
}

proof fn lemma_names_framed_total(recs: Seq<OpRecordV>)
    ensures
        names_framed(names_in_order(recs), recs) == framed_total(recs, None),
    decreases recs.len(),
{
    if recs.len() > 0 {
        let r0 = recs.drop_last();
        let x = recs.last().op_name;
        lemma_names_framed_total(r0);
        lemma_names_no_dups(r0);
        lemma_names_no_dups(recs);
        let ns = names_in_order(r0);
        lemma_names_framed_step(ns, recs);
        if !ns.contains(x) {
            lemma_absent_name(r0, x);
            let nx = ns.push(x);
            assert(nx.drop_last() =~= ns);
        }
    }
}

proof fn lemma_stats_in_order_sum(recs: Seq<OpRecordV>, m: int)
    requires
        0 <= m <= names_in_order(recs).len(),
    ensures
        framed_sum(stats_in_order(recs).take(m)) == names_framed(names_in_order(recs).take(m), recs),
    decreases m,
{
    if m > 0 {
        lemma_stats_in_order_sum(recs, m - 1);
        let st = stats_in_order(recs);
        let ns = names_in_order(recs);
        assert(st.take(m).drop_last() =~= st.take(m - 1));
        assert(ns.take(m).drop_last() =~= ns.take(m - 1));
        assert(st[m - 1] == group_stats(recs, ns[m - 1]));
    }
}

proof fn lemma_pointwise_sum(a: Seq<OpStatsV>, s: Seq<(u64, usize)>, st: Seq<OpStatsV>)
    requires
        a.len() == s.len(),
        forall|k: int| 0 <= k < a.len() ==> #[trigger] a[k] == st[s[k].1 as int],
    ensures
        framed_sum(a) == pos_sum(s, st),
    decreases a.len(),
{
    if a.len() > 0 {
        lemma_pointwise_sum(a.drop_last(), s.drop_last(), st);
        assert(a.last() == a[a.len() - 1]);
    }
}

proof fn lemma_pos_fold(s: Seq<(u64, usize)>, st: Seq<OpStatsV>, f: spec_fn(nat, (u64, usize)) -> nat)
    requires
        forall|acc: nat, p: (u64, usize)| #[trigger] f(acc, p) == acc + st[p.1 as int].total_framed_bytes,
    ensures
        s.fold_left(0nat, f) == pos_sum(s, st),
    decreases s.len(),
{
    if s.len() > 0 {
        lemma_pos_fold(s.drop_last(), st, f);
    }
}

/// Sorted by total duration or not, the types report the same framed bytes
/// in all.
proof fn lemma_order_keeps_sum(st: Seq<OpStatsV>)
    requires
        st.len() <= usize::MAX,
    ensures
        framed_sum(by_total(st).map_values(|p: (u64, usize)| st[p.1 as int])) == framed_sum(st),
{
    let keys = Seq::new(st.len(), |k: int| (st[k].total_duration_ns as u64, k as usize));
    let sorted = by_total(st);
    assert(sorted == keys.sort_by(pair_leq(true)));
    keys.lemma_sort_by_ensures(pair_leq(true));
    let f = |acc: nat, p: (u64, usize)| acc + st[p.1 as int].total_framed_bytes;
    assert(vstd::seq_lib::commutative_foldl(f));
    vstd::seq_lib::lemma_fold_left_permutation(sorted, keys, f, 0nat);
    lemma_pos_fold(sorted, st, f);
    lemma_pos_fold(keys, st, f);
    vstd::seq_lib::to_multiset_len(keys);
    vstd::seq_lib::to_multiset_len(sorted);
    let a = sorted.map_values(|p: (u64, usize)| st[p.1 as int]);
    lemma_pointwise_sum(a, sorted, st);
    assert forall|k: int| 0 <= k < st.len() implies #[trigger] st[k] == st[keys[k].1 as int] by {
        assert(keys[k].1 as int == k);
    }
    lemma_pointwise_sum(st, keys, st);
}

/// The framed bytes that the per-type statistics of a session report add up
/// to the framed bytes of all its operations: each operation counts once,
/// under its own type.
pub proof fn law_types_share_the_framed_bytes(recs: Seq<OpRecordV>)
    requires
        recs.len() <= usize::MAX,
    ensures
        framed_sum(op_stats_spec(recs)) == session_framed(recs),
{
    let st = stats_in_order(recs);
    let ns = names_in_order(recs);
    assert(st.len() == ns.len());
    lemma_names_len(recs);
    lemma_stats_in_order_sum(recs, ns.len() as int);
    assert(st.take(ns.len() as int) =~= st);
    assert(ns.take(ns.len() as int) =~= ns);
    lemma_names_framed_total(recs);
    lemma_session_framed(recs);
    lemma_order_keeps_sum(st);
}

/// One more operation adds its framed bytes to the statistics of its own
/// type and leaves those of every other type as they were.
pub proof fn law_framed_bytes_go_to_their_type(recs: Seq<OpRecordV>, r: OpRecordV, name: Seq<char>)
    ensures
        group_stats(recs.push(r), name).total_framed_bytes == group_stats(recs, name).total_framed_bytes
            + if r.op_name == name {
            framed_of_record(r)
        } else {
            0
        },
{
    assert(recs.push(r).drop_last() =~= recs);
}


/// One more operation counts under its own type only: it adds one to that
/// type's count (and to its failures when it failed), and its duration and
/// request bytes to that type's totals; every other type stays as it was.
pub proof fn law_operation_counts_under_its_type(recs: Seq<OpRecordV>, r: OpRecordV, name: Seq<char>)
    ensures
        group_stats(recs.push(r), name).count == group_stats(recs, name).count + if r.op_name
            == name {
            1nat
        } else {
            0nat
        },
        group_stats(recs.push(r), name).error_count == group_stats(recs, name).error_count + if r.op_name
            == name && !r.success {
            1nat
        } else {
            0nat
        },
        group_stats(recs.push(r), name).total_duration_ns == group_stats(recs, name).total_duration_ns
            + if r.op_name == name {
            r.duration_ns as nat
        } else {
            0nat
        },
        group_stats(recs.push(r), name).total_request_bytes == group_stats(
            recs,
            name,
        ).total_request_bytes + if r.op_name == name {
            r.request_bytes as nat
        } else {
            0nat
        },
{
    assert(recs.push(r).drop_last() =~= recs);
}

} // verus!
