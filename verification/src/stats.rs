//! Per-operation statistics of a recorded session: splitting the records by
//! direction, timing each operation from the timestamp indexes, and
//! aggregating counts, durations and byte volumes.
//!
//! Durations are kept in whole nanoseconds; turning them into fractional
//! milliseconds is left to the presentation.

use vstd::prelude::*;
use vstd::relations::{sorted_by, total_ordering};
use crate::decompile::{index_sorted, lemma_search_sorted, lookup_index, lookup_time, search_time};
use crate::num::{dec, push_dec, push_dec_padded, zero_pad};
use crate::protocol::{op_from_code, op_name, Op, StderrCode};
use crate::text::{push_str, starts_with};

verus! {

// ---------------------------------------------------------------------------
// Sorting pairs
// ---------------------------------------------------------------------------

/// The order of `(key, position)` pairs: by key (largest first when `desc`,
/// else smallest first), then by position.
pub open spec fn pair_leq(desc: bool) -> spec_fn((u64, usize), (u64, usize)) -> bool {
    |a: (u64, usize), b: (u64, usize)|
        if desc {
            a.0 > b.0 || (a.0 == b.0 && a.1 <= b.1)
        } else {
            a.0 < b.0 || (a.0 == b.0 && a.1 <= b.1)
        }
}

pub proof fn lemma_pair_leq_total(desc: bool)
    ensures
        total_ordering(pair_leq(desc)),
{
    let leq = pair_leq(desc);
    assert(vstd::relations::reflexive(leq));
    assert(vstd::relations::antisymmetric(leq)) by {
        assert forall|a: (u64, usize), b: (u64, usize)| #[trigger]
            leq(a, b) && #[trigger] leq(b, a) implies a == b by {
            assert(a.0 == b.0 && a.1 == b.1);
        }
    }
    assert(vstd::relations::transitive(leq));
    assert(vstd::relations::strongly_connected(leq));
}

fn pair_leq_exec(a: (u64, usize), b: (u64, usize), desc: bool) -> (r: bool)
    ensures
        r == pair_leq(desc)(a, b),
{
    if desc {
        a.0 > b.0 || (a.0 == b.0 && a.1 <= b.1)
    } else {
        a.0 < b.0 || (a.0 == b.0 && a.1 <= b.1)
    }
}

/// The pairs in the order of `pair_leq(desc)`.
pub fn sort_pairs(v: &Vec<(u64, usize)>, desc: bool) -> (r: Vec<(u64, usize)>)
    ensures
        r@ == v@.sort_by(pair_leq(desc)),
{
    let ghost leq = pair_leq(desc);
    proof {
        lemma_pair_leq_total(desc);
    }
    let mut r: Vec<(u64, usize)> = Vec::new();
    let mut i: usize = 0;
    assert(r@ =~= v@.subrange(0, 0));
    while i < v.len()
        invariant
            i <= v@.len(),
            leq == pair_leq(desc),
            total_ordering(leq),
            sorted_by(r@, leq),
            r@.to_multiset() == v@.subrange(0, i as int).to_multiset(),
        decreases v@.len() - i,
    {
        let x = v[i];
        let mut p: usize = 0;
        while p < r.len() && pair_leq_exec(r[p], x, desc)
            invariant
                p <= r@.len(),
                leq == pair_leq(desc),
                forall|q: int| 0 <= q < p ==> #[trigger] leq(r@[q], x),
            decreases r@.len() - p,
        {
            p = p + 1;
        }
        let ghost old_r = r@;
        r.insert(p, x);
        assert(r@ == old_r.insert(p as int, x));
        assert(sorted_by(r@, leq)) by {
            assert forall|a: int, b: int| 0 <= a < b < r@.len() implies #[trigger] leq(
                r@[a],
                r@[b],
            ) by {
                if b < p {
                    assert(leq(old_r[a], old_r[b]));
                } else if b == p {
                    assert(leq(old_r[a], x));
                } else if a < p {
                    assert(leq(old_r[a], x));
                    assert(!leq(old_r[p as int], x));
                    assert(leq(x, old_r[p as int]));
                    if b - 1 > p {
                        assert(leq(old_r[p as int], old_r[b - 1]));
                    }
                    assert(leq(x, old_r[b - 1]));
                } else if a == p {
                    assert(!leq(old_r[p as int], x));
                    assert(leq(x, old_r[p as int]));
                    if b - 1 > p {
                        assert(leq(old_r[p as int], old_r[b - 1]));
                    }
                } else {
                    assert(leq(old_r[a - 1], old_r[b - 1]));
                }
            }
        }
        assert(v@.subrange(0, i + 1) =~= v@.subrange(0, i as int).push(x));
        proof {
            vstd::seq_lib::to_multiset_insert(old_r, p as int, x);
            vstd::seq_lib::to_multiset_build(v@.subrange(0, i as int), x);
        }
        assert(old_r.insert(p as int, x).to_multiset() == old_r.to_multiset().insert(x));
        assert(v@.subrange(0, i as int).push(x).to_multiset() == v@.subrange(
            0,
            i as int,
        ).to_multiset().insert(x));
        i = i + 1;
    }
    proof {
        assert(v@.subrange(0, v@.len() as int) =~= v@);
        v@.lemma_sort_by_ensures(leq);
        vstd::seq_lib::lemma_sorted_unique(r@, v@.sort_by(leq), leq);
    }
    r
}

// ---------------------------------------------------------------------------
// Records
// ---------------------------------------------------------------------------

/// Which way a recorded chunk of bytes went.
#[derive(Clone, Copy, Debug, PartialEq, Eq, Structural)]
pub enum Direction {
    ClientToDaemon,
    DaemonToClient,
}

/// One recorded chunk: its direction, its time from the start of the
/// session in nanoseconds, and its bytes.
#[derive(Clone, Debug)]
pub struct Record {
    pub direction: Direction,
    pub offset_ns: u64,
    pub data: Vec<u8>,
}

pub struct RecordV {
    pub direction: Direction,
    pub offset_ns: u64,
    pub data: Seq<u8>,
}

impl View for Record {
    type V = RecordV;

    open spec fn view(&self) -> RecordV {
        RecordV { direction: self.direction, offset_ns: self.offset_ns, data: self.data@ }
    }
}

pub open spec fn records_view(v: Seq<Record>) -> Seq<RecordV> {
    v.map_values(|r: Record| r@)
}

/// The recorded bytes that went one way, in order.
pub open spec fn stream(recs: Seq<RecordV>, d: Direction) -> Seq<u8>
    decreases recs.len(),
{
    if recs.len() == 0 {
        seq![]
    } else if recs.last().direction == d {
        stream(recs.drop_last(), d) + recs.last().data
    } else {
        stream(recs.drop_last(), d)
    }
}

/// For each record that went one way, the position of its first byte in
/// that direction's stream and its time.
pub open spec fn stream_index(recs: Seq<RecordV>, d: Direction) -> Seq<(usize, u64)>
    decreases recs.len(),
{
    if recs.len() == 0 {
        seq![]
    } else if recs.last().direction == d {
        stream_index(recs.drop_last(), d).push(
            (stream(recs.drop_last(), d).len() as usize, recs.last().offset_ns),
        )
    } else {
        stream_index(recs.drop_last(), d)
    }
}

/// The number of recorded bytes.
pub open spec fn total_bytes(recs: Seq<RecordV>) -> nat
    decreases recs.len(),
{
    if recs.len() == 0 {
        0
    } else {
        total_bytes(recs.drop_last()) + recs.last().data.len()
    }
}

/// The records split by direction, each with its timestamp index.
pub struct SplitRecords {
    pub client_bytes: Vec<u8>,
    pub daemon_bytes: Vec<u8>,
    pub client_ts: Vec<(usize, u64)>,
    pub daemon_ts: Vec<(usize, u64)>,
}

proof fn lemma_stream_len(recs: Seq<RecordV>, d: Direction)
    ensures
        stream(recs, d).len() <= total_bytes(recs),
    decreases recs.len(),
{
    if recs.len() > 0 {
        lemma_stream_len(recs.drop_last(), d);
    }
}

fn append_bytes(out: &mut Vec<u8>, data: &Vec<u8>)
    ensures
        final(out)@ == old(out)@ + data@,
{
    let mut i: usize = 0;
    while i < data.len()
        invariant
            i <= data@.len(),
            out@ == old(out)@ + data@.subrange(0, i as int),
        decreases data@.len() - i,
    {
        out.push(data[i]);
        i = i + 1;
        assert(out@ =~= old(out)@ + data@.subrange(0, i as int));
    }
    assert(data@.subrange(0, data@.len() as int) =~= data@);
}

/// Split records into the client's and the daemon's byte streams, with the
/// position and time of each record in its stream.
pub fn split_records(records: &Vec<Record>) -> (r: SplitRecords)
    requires
        total_bytes(records_view(records@)) <= usize::MAX,
    ensures
        r.client_bytes@ == stream(records_view(records@), Direction::ClientToDaemon),
        r.daemon_bytes@ == stream(records_view(records@), Direction::DaemonToClient),
        r.client_ts@ == stream_index(records_view(records@), Direction::ClientToDaemon),
        r.daemon_ts@ == stream_index(records_view(records@), Direction::DaemonToClient),
        index_sorted(r.client_ts@),
        index_sorted(r.daemon_ts@),
{
    let ghost rv = records_view(records@);
    let mut result = SplitRecords {
        client_bytes: Vec::new(),
        daemon_bytes: Vec::new(),
        client_ts: Vec::new(),
        daemon_ts: Vec::new(),
    };
    let mut i: usize = 0;
    while i < records.len()
        invariant
            i <= records@.len(),
            rv == records_view(records@),
            total_bytes(rv) <= usize::MAX,
            result.client_bytes@ == stream(rv.subrange(0, i as int), Direction::ClientToDaemon),
            result.daemon_bytes@ == stream(rv.subrange(0, i as int), Direction::DaemonToClient),
            result.client_ts@ == stream_index(rv.subrange(0, i as int), Direction::ClientToDaemon),
            result.daemon_ts@ == stream_index(rv.subrange(0, i as int), Direction::DaemonToClient),
        decreases records@.len() - i,
    {
        let ghost pre = rv.subrange(0, i as int);
        let ghost next = rv.subrange(0, i + 1);
        assert(next.drop_last() =~= pre);
        assert(next.last() == records@[i as int]@);
        let rec = &records[i];
        match rec.direction {
            Direction::ClientToDaemon => {
                let pos = result.client_bytes.len();
                result.client_ts.push((pos, rec.offset_ns));
                append_bytes(&mut result.client_bytes, &rec.data);
            },
            Direction::DaemonToClient => {
                let pos = result.daemon_bytes.len();
                result.daemon_ts.push((pos, rec.offset_ns));
                append_bytes(&mut result.daemon_bytes, &rec.data);
            },
        }
        i = i + 1;
    }
    assert(rv.subrange(0, rv.len() as int) =~= rv);
    proof {
        lemma_stream_index_sorted(rv, Direction::ClientToDaemon);
        lemma_stream_index_sorted(rv, Direction::DaemonToClient);
    }
    result
}

proof fn lemma_stream_index_bound(recs: Seq<RecordV>, d: Direction)
    requires
        total_bytes(recs) <= usize::MAX,
    ensures
        forall|k: int|
            0 <= k < stream_index(recs, d).len() ==> (#[trigger] stream_index(recs, d)[k]).0
                <= stream(recs, d).len(),
    decreases recs.len(),
{
    if recs.len() > 0 {
        let prev = recs.drop_last();
        lemma_stream_index_bound(prev, d);
        lemma_stream_len(prev, d);
        assert(stream(prev, d).len() <= usize::MAX);
        if recs.last().direction == d {
            let si = stream_index(recs, d);
            assert(si == stream_index(prev, d).push(
                (stream(prev, d).len() as usize, recs.last().offset_ns),
            ));
            assert(stream(recs, d).len() == stream(prev, d).len() + recs.last().data.len());
            assert forall|k: int| 0 <= k < si.len() implies (#[trigger] si[k]).0 <= stream(
                recs,
                d,
            ).len() by {
                if k < si.len() - 1 {
                    assert(si[k] == stream_index(prev, d)[k]);
                }
            }
        }
    }
}

/// The positions in a direction's timestamp index do not decrease.
pub proof fn lemma_stream_index_sorted(recs: Seq<RecordV>, d: Direction)
    requires
        total_bytes(recs) <= usize::MAX,
    ensures
        index_sorted(stream_index(recs, d)),
    decreases recs.len(),
{
    if recs.len() > 0 {
        lemma_stream_index_sorted(recs.drop_last(), d);
        lemma_stream_index_bound(recs.drop_last(), d);
        lemma_stream_len(recs.drop_last(), d);
    }
}

// ---------------------------------------------------------------------------
// Timing
// ---------------------------------------------------------------------------

/// The time for a byte offset in a timestamp index: that of the entry a
/// binary search settles on, or 0 for an empty index.
pub fn lookup_timestamp(ts_index: &Vec<(usize, u64)>, byte_offset: usize) -> (r: u64)
    ensures
        r == search_time(ts_index@, byte_offset),
        index_sorted(ts_index@) ==> r == lookup_time(ts_index@, byte_offset),
{
    if ts_index.len() == 0 {
        return 0;
    }
    let i = lookup_index(ts_index.as_slice(), byte_offset);
    proof {
        if index_sorted(ts_index@) {
            lemma_search_sorted(ts_index@, byte_offset);
        }
    }
    ts_index[i].1
}

/// The nearest-rank position of percentile `pct` in `n` sorted values:
/// `ceil(pct / 100 * n) - 1`, kept within `0..n`.
pub open spec fn nearest_rank(n: nat, pct: nat) -> int {
    let rank = (pct * n + 99) / 100;
    let i = if rank == 0 {
        0
    } else {
        rank - 1
    };
    if i > n - 1 {
        n - 1
    } else {
        i
    }
}

/// The value at percentile `pct` of sorted values (nearest rank), or 0 when
/// there are none.
pub fn percentile(sorted: &[u64], pct: u64) -> (r: u64)
    ensures
        sorted@.len() == 0 ==> r == 0,
        sorted@.len() > 0 ==> r == sorted@[nearest_rank(sorted@.len(), pct as nat)],
{
    if sorted.len() == 0 {
        return 0;
    }
    let n = sorted.len();
    let p128 = pct as u128;
    let n128 = n as u128;
    assert(p128 * n128 <= 0xffff_ffff_ffff_ffff * 0xffff_ffff_ffff_ffff) by (nonlinear_arith)
        requires
            p128 <= 0xffff_ffff_ffff_ffff,
            n128 <= 0xffff_ffff_ffff_ffff,
    ;
    let prod: u128 = p128 * n128;
    let rank: u128 = (prod + 99) / 100;
    let i: u128 = if rank == 0 {
        0
    } else {
        rank - 1
    };
    let idx: usize = if i > (n - 1) as u128 {
        n - 1
    } else {
        i as usize
    };
    sorted[idx]
}

/// `secs.nnnnnnnnn`: a time in nanoseconds as seconds with nine decimals.
pub open spec fn timestamp_text(epoch_ns: u64) -> Seq<char> {
    dec((epoch_ns / 1_000_000_000) as nat) + "."@ + zero_pad(
        dec((epoch_ns % 1_000_000_000) as nat),
        9,
    )
}

pub fn format_timestamp(epoch_ns: u64) -> (r: String)
    ensures
        r@ == timestamp_text(epoch_ns),
{
    let secs = epoch_ns / 1_000_000_000;
    let nanos = epoch_ns % 1_000_000_000;
    let mut s = String::new();
    push_dec(&mut s, secs);
    push_str(&mut s, ".");
    push_dec_padded(&mut s, nanos, 9);
    s
}

// ---------------------------------------------------------------------------
// Aggregation
// ---------------------------------------------------------------------------

/// One operation of a session, as read from the recording.
#[derive(Clone, Debug)]
pub struct OpRecord {
    pub op_name: String,
    pub duration_ns: u64,
    pub request_bytes: usize,
    pub framed_bytes: Option<u64>,
    pub success: bool,
    pub arg_info: Option<String>,
}

pub struct OpRecordV {
    pub op_name: Seq<char>,
    pub duration_ns: u64,
    pub request_bytes: usize,
    pub framed_bytes: Option<u64>,
    pub success: bool,
    pub arg_info: Option<Seq<char>>,
}

impl View for OpRecord {
    type V = OpRecordV;

    open spec fn view(&self) -> OpRecordV {
        OpRecordV {
            op_name: self.op_name@,
            duration_ns: self.duration_ns,
            request_bytes: self.request_bytes,
            framed_bytes: self.framed_bytes,
            success: self.success,
            arg_info: self.arg_info.deep_view(),
        }
    }
}

pub open spec fn op_records_view(v: Seq<OpRecord>) -> Seq<OpRecordV> {
    v.map_values(|r: OpRecord| r@)
}

/// Statistics of one operation type, durations in nanoseconds.
#[derive(Clone, Debug)]
pub struct OpStats {
    pub op_name: String,
    pub count: usize,
    pub error_count: usize,
    pub total_duration_ns: u64,
    pub min_duration_ns: u64,
    pub max_duration_ns: u64,
    pub p50_duration_ns: u64,
    pub total_request_bytes: u64,
    pub total_framed_bytes: u64,
}

pub struct OpStatsV {
    pub op_name: Seq<char>,
    pub count: nat,
    pub error_count: nat,
    pub total_duration_ns: nat,
    pub min_duration_ns: u64,
    pub max_duration_ns: u64,
    pub p50_duration_ns: u64,
    pub total_request_bytes: nat,
    pub total_framed_bytes: nat,
}

impl View for OpStats {
    type V = OpStatsV;

    open spec fn view(&self) -> OpStatsV {
        OpStatsV {
            op_name: self.op_name@,
            count: self.count as nat,
            error_count: self.error_count as nat,
            total_duration_ns: self.total_duration_ns as nat,
            min_duration_ns: self.min_duration_ns,
            max_duration_ns: self.max_duration_ns,
            p50_duration_ns: self.p50_duration_ns,
            total_request_bytes: self.total_request_bytes as nat,
            total_framed_bytes: self.total_framed_bytes as nat,
        }
    }
}

/// The operation names in the order of their first occurrence.
pub open spec fn names_in_order(recs: Seq<OpRecordV>) -> Seq<Seq<char>>
    decreases recs.len(),
{
    if recs.len() == 0 {
        seq![]
    } else {
        let ns = names_in_order(recs.drop_last());
        if ns.contains(recs.last().op_name) {
            ns
        } else {
            ns.push(recs.last().op_name)
        }
    }
}

/// The durations of the operations with a given name, in order.
pub open spec fn named_durations(recs: Seq<OpRecordV>, name: Seq<char>) -> Seq<u64>
    decreases recs.len(),
{
    if recs.len() == 0 {
        seq![]
    } else if recs.last().op_name == name {
        named_durations(recs.drop_last(), name).push(recs.last().duration_ns)
    } else {
        named_durations(recs.drop_last(), name)
    }
}

/// How many operations with a given name failed.
pub open spec fn named_errors(recs: Seq<OpRecordV>, name: Seq<char>) -> nat
    decreases recs.len(),
{
    if recs.len() == 0 {
        0
    } else {
        named_errors(recs.drop_last(), name) + if recs.last().op_name == name
            && !recs.last().success {
            1nat
        } else {
            0nat
        }
    }
}

/// The request bytes of the operations with a given name (all of them when
/// `name` is `None`).
pub open spec fn request_total(recs: Seq<OpRecordV>, name: Option<Seq<char>>) -> nat
    decreases recs.len(),
{
    if recs.len() == 0 {
        0
    } else {
        request_total(recs.drop_last(), name) + if name is None || name == Some(
            recs.last().op_name,
        ) {
            recs.last().request_bytes as nat
        } else {
            0nat
        }
    }
}

/// The framed bytes of the operations with a given name (all of them when
/// `name` is `None`); an operation without framed data counts 0.
pub open spec fn framed_total(recs: Seq<OpRecordV>, name: Option<Seq<char>>) -> nat
    decreases recs.len(),
{
    if recs.len() == 0 {
        0
    } else {
        framed_total(recs.drop_last(), name) + if name is None || name == Some(
            recs.last().op_name,
        ) {
            match recs.last().framed_bytes {
                Some(b) => b as nat,
                None => 0nat,
            }
        } else {
            0nat
        }
    }
}

/// The durations of the operations with a given name (all of them when
/// `name` is `None`), added up.
pub open spec fn duration_total(recs: Seq<OpRecordV>, name: Option<Seq<char>>) -> nat
    decreases recs.len(),
{
    if recs.len() == 0 {
        0
    } else {
        duration_total(recs.drop_last(), name) + if name is None || name == Some(
            recs.last().op_name,
        ) {
            recs.last().duration_ns as nat
        } else {
            0nat
        }
    }
}

/// Values paired with their positions.
pub open spec fn with_positions(s: Seq<u64>) -> Seq<(u64, usize)> {
    Seq::new(s.len(), |i: int| (s[i], i as usize))
}

/// The statistics of the operations named `name`: their count, failures,
/// summed, smallest, largest and median (nearest rank) duration, and their
/// summed request and framed bytes.
pub open spec fn group_stats(recs: Seq<OpRecordV>, name: Seq<char>) -> OpStatsV {
    let durs = named_durations(recs, name);
    let sorted = with_positions(durs).sort_by(pair_leq(false));
    OpStatsV {
        op_name: name,
        count: durs.len(),
        error_count: named_errors(recs, name),
        total_duration_ns: duration_total(recs, Some(name)),
        min_duration_ns: sorted[0].0,
        max_duration_ns: sorted[durs.len() - 1].0,
        p50_duration_ns: sorted[nearest_rank(durs.len(), 50)].0,
        total_request_bytes: request_total(recs, Some(name)),
        total_framed_bytes: framed_total(recs, Some(name)),
    }
}

/// The statistics of each operation type, in the order of first occurrence.
pub open spec fn stats_in_order(recs: Seq<OpRecordV>) -> Seq<OpStatsV> {
    names_in_order(recs).map_values(|n: Seq<char>| group_stats(recs, n))
}

/// The positions of statistics, largest total duration first (ties in their
/// order).
pub open spec fn by_total(st: Seq<OpStatsV>) -> Seq<(u64, usize)> {
    Seq::new(st.len(), |k: int| (st[k].total_duration_ns as u64, k as usize)).sort_by(
        pair_leq(true),
    )
}

/// The statistics of each operation type, largest total duration first.
pub open spec fn op_stats_spec(recs: Seq<OpRecordV>) -> Seq<OpStatsV> {
    let st = stats_in_order(recs);
    by_total(st).map_values(|p: (u64, usize)| st[p.1 as int])
}

/// Whether a list of strings holds `s`.
fn contains_string(v: &Vec<String>, s: &String) -> (r: bool)
    ensures
        r == v.deep_view().contains(s@),
{
    let mut i: usize = 0;
    while i < v.len()
        invariant
            i <= v@.len(),
            forall|k: int| 0 <= k < i ==> v.deep_view()[k] != s@,
        decreases v@.len() - i,
    {
        if v[i] == *s {
            assert(v.deep_view()[i as int] == s@);
            return true;
        }
        i = i + 1;
    }
    false
}

fn names_of(recs: &Vec<OpRecord>) -> (r: Vec<String>)
    ensures
        r.deep_view() == names_in_order(op_records_view(recs@)),
{
    let ghost rv = op_records_view(recs@);
    let mut names: Vec<String> = Vec::new();
    let mut i: usize = 0;
    assert(names.deep_view() =~= names_in_order(rv.subrange(0, 0)));
    while i < recs.len()
        invariant
            i <= recs@.len(),
            rv == op_records_view(recs@),
            names.deep_view() == names_in_order(rv.subrange(0, i as int)),
        decreases recs@.len() - i,
    {
        assert(rv.subrange(0, i + 1).drop_last() =~= rv.subrange(0, i as int));
        let name = &recs[i].op_name;
        if !contains_string(&names, name) {
            let ghost before = names.deep_view();
            names.push(name.clone());
            assert(names.deep_view() =~= before.push(name@));
        }
        i = i + 1;
    }
    assert(rv.subrange(0, rv.len() as int) =~= rv);
    names
}

proof fn lemma_named_nonempty(recs: Seq<OpRecordV>, name: Seq<char>)
    requires
        names_in_order(recs).contains(name),
    ensures
        named_durations(recs, name).len() > 0,
    decreases recs.len(),
{
    if recs.len() > 0 {
        if recs.last().op_name != name {
            lemma_named_nonempty(recs.drop_last(), name);
        }
    }
}

/// Totals of a prefix, for one name or all, are within the totals of all.
proof fn lemma_totals_within(recs: Seq<OpRecordV>, i: int, name: Option<Seq<char>>)
    requires
        0 <= i <= recs.len(),
    ensures
        duration_total(recs.subrange(0, i), name) <= duration_total(recs, None),
        request_total(recs.subrange(0, i), name) <= request_total(recs, None),
        framed_total(recs.subrange(0, i), name) <= framed_total(recs, None),
        named_errors(recs.subrange(0, i), name->0) <= recs.len(),
        named_durations(recs.subrange(0, i), name->0).len() <= recs.len(),
    decreases recs.len(),
{
    if recs.len() > 0 {
        if i == recs.len() {
            assert(recs.subrange(0, i) =~= recs);
            lemma_totals_within(recs.drop_last(), recs.len() - 1, name);
            assert(recs.drop_last().subrange(0, recs.len() - 1) =~= recs.drop_last());
        } else {
            lemma_totals_within(recs.drop_last(), i, name);
            assert(recs.drop_last().subrange(0, i) =~= recs.subrange(0, i));
        }
    }
}

pub open spec fn totals_fit(recs: Seq<OpRecordV>) -> bool {
    &&& duration_total(recs, None) <= u64::MAX
    &&& request_total(recs, None) <= u64::MAX
    &&& framed_total(recs, None) <= u64::MAX
}

/// The values of sorted pairs.
fn pair_values(v: &Vec<(u64, usize)>) -> (r: Vec<u64>)
    ensures
        r@ == v@.map_values(|p: (u64, usize)| p.0),
{
    let mut r: Vec<u64> = Vec::new();
    let mut i: usize = 0;
    while i < v.len()
        invariant
            i <= v@.len(),
            r@ == v@.subrange(0, i as int).map_values(|p: (u64, usize)| p.0),
        decreases v@.len() - i,
    {
        r.push(v[i].0);
        i = i + 1;
        assert(r@ =~= v@.subrange(0, i as int).map_values(|p: (u64, usize)| p.0));
    }
    assert(v@.subrange(0, v@.len() as int) =~= v@);
    r
}

fn positions_of(s: &Vec<u64>) -> (r: Vec<(u64, usize)>)
    ensures
        r@ == with_positions(s@),
{
    let mut r: Vec<(u64, usize)> = Vec::new();
    let mut i: usize = 0;
    while i < s.len()
        invariant
            i <= s@.len(),
            r@ == with_positions(s@).subrange(0, i as int),
        decreases s@.len() - i,
    {
        r.push((s[i], i));
        i = i + 1;
        assert(r@ =~= with_positions(s@).subrange(0, i as int));
    }
    assert(with_positions(s@).subrange(0, s@.len() as int) =~= with_positions(s@));
    r
}

fn group_stats_exec(recs: &Vec<OpRecord>, name: &String) -> (r: OpStats)
    requires
        names_in_order(op_records_view(recs@)).contains(name@),
        totals_fit(op_records_view(recs@)),
    ensures
        r@ == group_stats(op_records_view(recs@), name@),
{
    let ghost rv = op_records_view(recs@);
    let mut count: usize = 0;
    let mut error_count: usize = 0;
    let mut total: u64 = 0;
    let mut request: u64 = 0;
    let mut framed: u64 = 0;
    let mut durs: Vec<u64> = Vec::new();
    let mut i: usize = 0;
    assert(durs@ =~= named_durations(rv.subrange(0, 0), name@));
    while i < recs.len()
        invariant
            i <= recs@.len(),
            rv == op_records_view(recs@),
            totals_fit(rv),
            durs@ == named_durations(rv.subrange(0, i as int), name@),
            count == durs@.len(),
            error_count == named_errors(rv.subrange(0, i as int), name@),
            total == duration_total(rv.subrange(0, i as int), Some(name@)),
            request == request_total(rv.subrange(0, i as int), Some(name@)),
            framed == framed_total(rv.subrange(0, i as int), Some(name@)),
        decreases recs@.len() - i,
    {
        let ghost pre = rv.subrange(0, i as int);
        let ghost next = rv.subrange(0, i + 1);
        assert(next.drop_last() =~= pre);
        assert(next.last() == recs@[i as int]@);
        proof {
            lemma_totals_within(rv, i + 1, Some(name@));
        }
        let rec = &recs[i];
        if rec.op_name == *name {
            durs.push(rec.duration_ns);
            count = count + 1;
            if !rec.success {
                error_count = error_count + 1;
            }
            total = total + rec.duration_ns;
            request = request + rec.request_bytes as u64;
            framed = framed + match rec.framed_bytes {
                Some(b) => b,
                None => 0,
            };
        }
        i = i + 1;
    }
    assert(rv.subrange(0, rv.len() as int) =~= rv);
    proof {
        lemma_named_nonempty(rv, name@);
    }
    let sorted = sort_pairs(&positions_of(&durs), false);
    proof {
        with_positions(durs@).lemma_sort_by_ensures(pair_leq(false));
        vstd::seq_lib::to_multiset_len(with_positions(durs@));
        vstd::seq_lib::to_multiset_len(sorted@);
    }
    assert(sorted@.len() == durs@.len());
    let vals = pair_values(&sorted);
    let n = vals.len();
    OpStats {
        op_name: name.clone(),
        count,
        error_count,
        total_duration_ns: total,
        min_duration_ns: vals[0],
        max_duration_ns: vals[n - 1],
        p50_duration_ns: percentile(vals.as_slice(), 50),
        total_request_bytes: request,
        total_framed_bytes: framed,
    }
}

/// The statistics of each operation type, largest total duration first;
/// types with equal totals keep the order of their first occurrence.
pub fn op_stats(recs: &Vec<OpRecord>) -> (r: Vec<OpStats>)
    requires
        totals_fit(op_records_view(recs@)),
    ensures
        r@.map_values(|s: OpStats| s@) == op_stats_spec(op_records_view(recs@)),
{
    let ghost rv = op_records_view(recs@);
    let names = names_of(recs);
    let ghost nv = names.deep_view();
    let mut unsorted: Vec<OpStats> = Vec::new();
    let mut keys: Vec<(u64, usize)> = Vec::new();
    let mut k: usize = 0;
    while k < names.len()
        invariant
            k <= names@.len(),
            rv == op_records_view(recs@),
            nv == names.deep_view(),
            nv == names_in_order(rv),
            totals_fit(rv),
            unsorted@.len() == k,
            keys@.len() == k,
            forall|j: int| 0 <= j < k ==> #[trigger] unsorted@[j]@ == group_stats(rv, nv[j]),
            forall|j: int|
                0 <= j < k ==> #[trigger] keys@[j] == (
                unsorted@[j]@.total_duration_ns as u64,
                j as usize,
            ),
        decreases names@.len() - k,
    {
        assert(names@[k as int]@ == nv[k as int]);
        assert(nv.contains(nv[k as int]));
        let st = group_stats_exec(recs, &names[k]);
        keys.push((st.total_duration_ns, k));
        unsorted.push(st);
        k = k + 1;
    }
    let ghost sv = stats_in_order(rv);
    assert(unsorted@.map_values(|s: OpStats| s@) =~= sv);
    assert(keys@ =~= Seq::new(sv.len(), |j: int| (sv[j].total_duration_ns as u64, j as usize)));
    let order = sort_pairs(&keys, true);
    proof {
        keys@.lemma_sort_by_ensures(pair_leq(true));
        vstd::seq_lib::to_multiset_len(keys@);
        vstd::seq_lib::to_multiset_len(order@);
        assert forall|j: int| 0 <= j < order@.len() implies #[trigger] order@[j].1 < unsorted@.len() by {
            assert(order@.contains(order@[j]));
            assert(keys@.contains(order@[j]));
        }
    }
    let mut out: Vec<OpStats> = Vec::new();
    let mut j: usize = 0;
    while j < order.len()
        invariant
            j <= order@.len(),
            order@ == by_total(sv),
            sv == unsorted@.map_values(|s: OpStats| s@),
            forall|q: int| 0 <= q < order@.len() ==> #[trigger] order@[q].1 < unsorted@.len(),
            out@.map_values(|s: OpStats| s@) == by_total(sv).subrange(0, j as int).map_values(
                |p: (u64, usize)| sv[p.1 as int],
            ),
        decreases order@.len() - j,
    {
        let ix = order[j].1;
        let st = copy_stats(&unsorted[ix]);
        let ghost before = out@.map_values(|s: OpStats| s@);
        out.push(st);
        assert(out@.map_values(|s: OpStats| s@) =~= before.push(sv[ix as int]));
        assert(by_total(sv).subrange(0, j + 1).map_values(|p: (u64, usize)| sv[p.1 as int])
            =~= by_total(sv).subrange(0, j as int).map_values(|p: (u64, usize)| sv[p.1 as int]).push(
            sv[ix as int],
        ));
        j = j + 1;
    }
    assert(by_total(sv).subrange(0, order@.len() as int) =~= by_total(sv));
    out
}

fn copy_stats(s: &OpStats) -> (r: OpStats)
    ensures
        r@ == s@,
{
    OpStats {
        op_name: s.op_name.clone(),
        count: s.count,
        error_count: s.error_count,
        total_duration_ns: s.total_duration_ns,
        min_duration_ns: s.min_duration_ns,
        max_duration_ns: s.max_duration_ns,
        p50_duration_ns: s.p50_duration_ns,
        total_request_bytes: s.total_request_bytes,
        total_framed_bytes: s.total_framed_bytes,
    }
}

/// One of the slowest operations.
#[derive(Clone, Debug)]
pub struct SlowestOp {
    pub duration_ns: u64,
    pub op_name: String,
    pub arg_info: Option<String>,
}

pub struct SlowestOpV {
    pub duration_ns: u64,
    pub op_name: Seq<char>,
    pub arg_info: Option<Seq<char>>,
}

impl View for SlowestOp {
    type V = SlowestOpV;

    open spec fn view(&self) -> SlowestOpV {
        SlowestOpV {
            duration_ns: self.duration_ns,
            op_name: self.op_name@,
            arg_info: self.arg_info.deep_view(),
        }
    }
}

/// An operation's argument note, unless it is empty.
pub open spec fn shown_info(a: Option<Seq<char>>) -> Option<Seq<char>> {
    match a {
        Some(s) => if s.len() > 0 {
            Some(s)
        } else {
            None
        },
        None => None,
    }
}

/// The positions of the operations, longest duration first (ties in their
/// order).
pub open spec fn by_duration(recs: Seq<OpRecordV>) -> Seq<(u64, usize)> {
    Seq::new(recs.len(), |i: int| (recs[i].duration_ns, i as usize)).sort_by(pair_leq(true))
}

/// The (at most) five slowest operations, slowest first.
pub open spec fn slowest_spec(recs: Seq<OpRecordV>) -> Seq<SlowestOpV> {
    let order = by_duration(recs);
    let n = if order.len() < 5 {
        order.len()
    } else {
        5
    };
    order.subrange(0, n as int).map_values(
        |p: (u64, usize)|
            SlowestOpV {
                duration_ns: recs[p.1 as int].duration_ns,
                op_name: recs[p.1 as int].op_name,
                arg_info: shown_info(recs[p.1 as int].arg_info),
            },
    )
}

/// A queried store path and how often it was queried.
#[derive(Clone, Debug)]
pub struct PathCount {
    pub path: String,
    pub count: usize,
}

pub struct PathCountV {
    pub path: Seq<char>,
    pub count: nat,
}

impl View for PathCount {
    type V = PathCountV;

    open spec fn view(&self) -> PathCountV {
        PathCountV { path: self.path@, count: self.count as nat }
    }
}

/// An argument note that names a store path: non-empty, beginning with `/`.
pub open spec fn is_path_info(a: Option<Seq<char>>) -> bool {
    match a {
        Some(s) => s.len() > 0 && starts_with(s, "/"@),
        None => false,
    }
}

/// The queried paths in the order of their first occurrence.
pub open spec fn paths_in_order(recs: Seq<OpRecordV>) -> Seq<Seq<char>>
    decreases recs.len(),
{
    if recs.len() == 0 {
        seq![]
    } else {
        let ps = paths_in_order(recs.drop_last());
        if is_path_info(recs.last().arg_info) && !ps.contains(recs.last().arg_info->0) {
            ps.push(recs.last().arg_info->0)
        } else {
            ps
        }
    }
}

/// How many operations have `p` as their argument note.
pub open spec fn path_count(recs: Seq<OpRecordV>, p: Seq<char>) -> nat
    decreases recs.len(),
{
    if recs.len() == 0 {
        0
    } else {
        path_count(recs.drop_last(), p) + if recs.last().arg_info == Some(p) {
            1nat
        } else {
            0nat
        }
    }
}

/// The positions of the queried paths, most queried first (ties in the order
/// of first occurrence).
pub open spec fn by_count(recs: Seq<OpRecordV>) -> Seq<(u64, usize)> {
    let ps = paths_in_order(recs);
    Seq::new(ps.len(), |k: int| (path_count(recs, ps[k]) as u64, k as usize)).sort_by(
        pair_leq(true),
    )
}

/// The (at most) ten most queried paths, most queried first.
pub open spec fn top_paths_spec(recs: Seq<OpRecordV>) -> Seq<PathCountV> {
    let ps = paths_in_order(recs);
    let order = by_count(recs);
    let n = if order.len() < 10 {
        order.len()
    } else {
        10
    };
    order.subrange(0, n as int).map_values(
        |p: (u64, usize)|
            PathCountV { path: ps[p.1 as int], count: path_count(recs, ps[p.1 as int]) },
    )
}

proof fn lemma_sorted_positions(keys: Seq<(u64, usize)>, n: nat)
    requires
        keys.len() == n,
        forall|j: int| 0 <= j < n ==> (#[trigger] keys[j]).1 < n,
    ensures
        keys.sort_by(pair_leq(true)).len() == n,
        forall|j: int|
            0 <= j < n ==> (#[trigger] keys.sort_by(pair_leq(true))[j]).1 < n,
{
    lemma_pair_leq_total(true);
    keys.lemma_sort_by_ensures(pair_leq(true));
    vstd::seq_lib::to_multiset_len(keys);
    vstd::seq_lib::to_multiset_len(keys.sort_by(pair_leq(true)));
    let sorted = keys.sort_by(pair_leq(true));
    assert forall|j: int| 0 <= j < n implies (#[trigger] sorted[j]).1 < n by {
        assert(sorted.contains(sorted[j]));
        assert(keys.contains(sorted[j]));
    }
}

fn shown_info_exec(a: &Option<String>) -> (r: Option<String>)
    ensures
        r.deep_view() == shown_info(a.deep_view()),
{
    match a {
        Some(s) => if s.as_str().unicode_len() > 0 {
            Some(s.clone())
        } else {
            None
        },
        None => None,
    }
}

/// The five slowest operations.
pub fn slowest_ops(recs: &Vec<OpRecord>) -> (r: Vec<SlowestOp>)
    ensures
        r@.map_values(|s: SlowestOp| s@) == slowest_spec(op_records_view(recs@)),
{
    let ghost rv = op_records_view(recs@);
    let mut keys: Vec<(u64, usize)> = Vec::new();
    let mut i: usize = 0;
    while i < recs.len()
        invariant
            i <= recs@.len(),
            rv == op_records_view(recs@),
            keys@ == Seq::new(i as nat, |k: int| (rv[k].duration_ns, k as usize)),
        decreases recs@.len() - i,
    {
        keys.push((recs[i].duration_ns, i));
        i = i + 1;
        assert(keys@ =~= Seq::new(i as nat, |k: int| (rv[k].duration_ns, k as usize)));
    }
    let order = sort_pairs(&keys, true);
    proof {
        lemma_sorted_positions(keys@, rv.len());
    }
    let n: usize = if order.len() < 5 {
        order.len()
    } else {
        5
    };
    let mut out: Vec<SlowestOp> = Vec::new();
    let mut j: usize = 0;
    while j < n
        invariant
            j <= n <= order@.len(),
            rv == op_records_view(recs@),
            order@ == by_duration(rv),
            order@.len() == rv.len(),
            forall|q: int| 0 <= q < order@.len() ==> (#[trigger] order@[q]).1 < rv.len(),
            out@.map_values(|s: SlowestOp| s@) == slowest_spec(rv).subrange(0, j as int),
            slowest_spec(rv).len() == n,
        decreases n - j,
    {
        let ix = order[j].1;
        let rec = &recs[ix];
        let item = SlowestOp {
            duration_ns: rec.duration_ns,
            op_name: rec.op_name.clone(),
            arg_info: shown_info_exec(&rec.arg_info),
        };
        let ghost before = out@.map_values(|s: SlowestOp| s@);
        out.push(item);
        assert(out@.map_values(|s: SlowestOp| s@) =~= before.push(item@));
        assert(slowest_spec(rv).subrange(0, j + 1) =~= slowest_spec(rv).subrange(0, j as int).push(
            slowest_spec(rv)[j as int],
        ));
        j = j + 1;
    }
    assert(slowest_spec(rv).subrange(0, n as int) =~= slowest_spec(rv));
    out
}

fn is_path_info_exec(a: &Option<String>) -> (r: bool)
    ensures
        r == is_path_info(a.deep_view()),
{
    match a {
        Some(s) => {
            let c = crate::text::to_chars(s.as_str());
            c.len() > 0 && crate::text::starts_with_str(c.as_slice(), "/")
        },
        None => false,
    }
}

fn paths_of(recs: &Vec<OpRecord>) -> (r: Vec<String>)
    ensures
        r.deep_view() == paths_in_order(op_records_view(recs@)),
{
    let ghost rv = op_records_view(recs@);
    let mut paths: Vec<String> = Vec::new();
    let mut i: usize = 0;
    assert(paths.deep_view() =~= paths_in_order(rv.subrange(0, 0)));
    while i < recs.len()
        invariant
            i <= recs@.len(),
            rv == op_records_view(recs@),
            paths.deep_view() == paths_in_order(rv.subrange(0, i as int)),
        decreases recs@.len() - i,
    {
        assert(rv.subrange(0, i + 1).drop_last() =~= rv.subrange(0, i as int));
        assert(rv.subrange(0, i + 1).last() == recs@[i as int]@);
        if is_path_info_exec(&recs[i].arg_info) {
            match &recs[i].arg_info {
                Some(p) => {
                    if !contains_string(&paths, p) {
                        let ghost before = paths.deep_view();
                        paths.push(p.clone());
                        assert(paths.deep_view() =~= before.push(p@));
                    }
                },
                None => {},
            }
        }
        i = i + 1;
    }
    assert(rv.subrange(0, rv.len() as int) =~= rv);
    paths
}

proof fn lemma_path_count_bound(recs: Seq<OpRecordV>, p: Seq<char>)
    ensures
        path_count(recs, p) <= recs.len(),
    decreases recs.len(),
{
    if recs.len() > 0 {
        lemma_path_count_bound(recs.drop_last(), p);
    }
}

fn count_path(recs: &Vec<OpRecord>, p: &String) -> (r: usize)
    ensures
        r == path_count(op_records_view(recs@), p@),
{
    let ghost rv = op_records_view(recs@);
    let mut c: usize = 0;
    let mut i: usize = 0;
    while i < recs.len()
        invariant
            i <= recs@.len(),
            rv == op_records_view(recs@),
            c == path_count(rv.subrange(0, i as int), p@),
        decreases recs@.len() - i,
    {
        assert(rv.subrange(0, i + 1).drop_last() =~= rv.subrange(0, i as int));
        assert(rv.subrange(0, i + 1).last() == recs@[i as int]@);
        proof {
            lemma_path_count_bound(rv.subrange(0, i + 1), p@);
        }
        let hit = match &recs[i].arg_info {
            Some(a) => *a == *p,
            None => false,
        };
        if hit {
            c = c + 1;
        }
        i = i + 1;
    }
    assert(rv.subrange(0, rv.len() as int) =~= rv);
    c
}

/// The ten most queried store paths.
pub fn top_paths(recs: &Vec<OpRecord>) -> (r: Vec<PathCount>)
    ensures
        r@.map_values(|p: PathCount| p@) == top_paths_spec(op_records_view(recs@)),
{
    let ghost rv = op_records_view(recs@);
    let paths = paths_of(recs);
    let ghost pv = paths.deep_view();
    let mut counts: Vec<usize> = Vec::new();
    let mut keys: Vec<(u64, usize)> = Vec::new();
    let mut k: usize = 0;
    while k < paths.len()
        invariant
            k <= paths@.len(),
            rv == op_records_view(recs@),
            pv == paths.deep_view(),
            pv == paths_in_order(rv),
            counts@.len() == k,
            forall|j: int| 0 <= j < k ==> #[trigger] counts@[j] == path_count(rv, pv[j]),
            keys@ == Seq::new(k as nat, |j: int| (path_count(rv, pv[j]) as u64, j as usize)),
        decreases paths@.len() - k,
    {
        assert(paths@[k as int]@ == pv[k as int]);
        let c = count_path(recs, &paths[k]);
        counts.push(c);
        keys.push((c as u64, k));
        k = k + 1;
        assert(keys@ =~= Seq::new(k as nat, |j: int| (path_count(rv, pv[j]) as u64, j as usize)));
    }
    let order = sort_pairs(&keys, true);
    proof {
        lemma_sorted_positions(keys@, pv.len());
    }
    let n: usize = if order.len() < 10 {
        order.len()
    } else {
        10
    };
    let mut out: Vec<PathCount> = Vec::new();
    let mut j: usize = 0;
    while j < n
        invariant
            j <= n <= order@.len(),
            rv == op_records_view(recs@),
            pv == paths.deep_view(),
            pv == paths_in_order(rv),
            counts@.len() == pv.len(),
            forall|q: int| 0 <= q < pv.len() ==> #[trigger] counts@[q] == path_count(rv, pv[q]),
            order@ == by_count(rv),
            order@.len() == pv.len(),
            forall|q: int| 0 <= q < order@.len() ==> (#[trigger] order@[q]).1 < pv.len(),
            out@.map_values(|p: PathCount| p@) == top_paths_spec(rv).subrange(0, j as int),
            top_paths_spec(rv).len() == n,
        decreases n - j,
    {
        let ix = order[j].1;
        assert(paths@[ix as int]@ == pv[ix as int]);
        let item = PathCount { path: paths[ix].clone(), count: counts[ix] };
        let ghost before = out@.map_values(|p: PathCount| p@);
        out.push(item);
        assert(out@.map_values(|p: PathCount| p@) =~= before.push(item@));
        assert(top_paths_spec(rv).subrange(0, j + 1) =~= top_paths_spec(rv).subrange(
            0,
            j as int,
        ).push(top_paths_spec(rv)[j as int]));
        j = j + 1;
    }
    assert(top_paths_spec(rv).subrange(0, n as int) =~= top_paths_spec(rv));
    out
}

/// Per-type statistics (largest total duration first), the five slowest
/// operations and the ten most queried paths.
pub fn aggregate(op_records: &Vec<OpRecord>) -> (r: (Vec<OpStats>, Vec<SlowestOp>, Vec<PathCount>))
    requires
        totals_fit(op_records_view(op_records@)),
    ensures
        r.0@.map_values(|s: OpStats| s@) == op_stats_spec(op_records_view(op_records@)),
        r.1@.map_values(|s: SlowestOp| s@) == slowest_spec(op_records_view(op_records@)),
        r.2@.map_values(|p: PathCount| p@) == top_paths_spec(op_records_view(op_records@)),
{
    (op_stats(op_records), slowest_ops(op_records), top_paths(op_records))
}

// ---------------------------------------------------------------------------
// Session totals
// ---------------------------------------------------------------------------

/// How many operations failed.
pub open spec fn failures(recs: Seq<OpRecordV>) -> nat
    decreases recs.len(),
{
    if recs.len() == 0 {
        0
    } else {
        failures(recs.drop_last()) + if recs.last().success {
            0nat
        } else {
            1nat
        }
    }
}

/// Totals of a session: operations, failures, bytes each way, and the time
/// from the first record to the last.
#[derive(Clone, Debug)]
pub struct SessionTotals {
    pub total_ops: usize,
    pub total_errors: usize,
    pub duration_ns: Option<u64>,
    pub client_to_daemon_bytes: usize,
    pub daemon_to_client_bytes: usize,
}

proof fn lemma_failures_bound(recs: Seq<OpRecordV>)
    ensures
        failures(recs) <= recs.len(),
    decreases recs.len(),
{
    if recs.len() > 0 {
        lemma_failures_bound(recs.drop_last());
    }
}

/// The totals of a session. The last record must not be earlier than the
/// first.
pub fn session_totals(records: &Vec<Record>, op_records: &Vec<OpRecord>) -> (r: SessionTotals)
    requires
        total_bytes(records_view(records@)) <= usize::MAX,
        records@.len() > 0 ==> records@[0].offset_ns <= records@.last().offset_ns,
    ensures
        r.total_ops == op_records@.len(),
        r.total_errors == failures(op_records_view(op_records@)),
        r.client_to_daemon_bytes == stream(
            records_view(records@),
            Direction::ClientToDaemon,
        ).len(),
        r.daemon_to_client_bytes == stream(
            records_view(records@),
            Direction::DaemonToClient,
        ).len(),
        r.duration_ns == if records@.len() > 0 {
            Some((records@.last().offset_ns - records@[0].offset_ns) as u64)
        } else {
            None
        },
{
    let ghost rv = records_view(records@);
    let ghost ov = op_records_view(op_records@);
    let mut c2d: usize = 0;
    let mut d2c: usize = 0;
    let mut i: usize = 0;
    while i < records.len()
        invariant
            i <= records@.len(),
            rv == records_view(records@),
            total_bytes(rv) <= usize::MAX,
            c2d == stream(rv.subrange(0, i as int), Direction::ClientToDaemon).len(),
            d2c == stream(rv.subrange(0, i as int), Direction::DaemonToClient).len(),
            c2d + d2c <= total_bytes(rv.subrange(0, i as int)),
        decreases records@.len() - i,
    {
        let ghost next = rv.subrange(0, i + 1);
        assert(next.drop_last() =~= rv.subrange(0, i as int));
        assert(next.last() == records@[i as int]@);
        proof {
            lemma_total_bytes_prefix(rv, i + 1);
        }
        match records[i].direction {
            Direction::ClientToDaemon => {
                c2d = c2d + records[i].data.len();
            },
            Direction::DaemonToClient => {
                d2c = d2c + records[i].data.len();
            },
        }
        i = i + 1;
    }
    assert(rv.subrange(0, rv.len() as int) =~= rv);
    let mut errors: usize = 0;
    let mut j: usize = 0;
    while j < op_records.len()
        invariant
            j <= op_records@.len(),
            ov == op_records_view(op_records@),
            errors == failures(ov.subrange(0, j as int)),
        decreases op_records@.len() - j,
    {
        let ghost next = ov.subrange(0, j + 1);
        assert(next.drop_last() =~= ov.subrange(0, j as int));
        assert(next.last() == op_records@[j as int]@);
        proof {
            lemma_failures_bound(next);
        }
        if !op_records[j].success {
            errors = errors + 1;
        }
        j = j + 1;
    }
    assert(ov.subrange(0, ov.len() as int) =~= ov);
    let duration_ns = if records.len() > 0 {
        let n = records.len();
        Some(records[n - 1].offset_ns - records[0].offset_ns)
    } else {
        None
    };
    SessionTotals {
        total_ops: op_records.len(),
        total_errors: errors,
        duration_ns,
        client_to_daemon_bytes: c2d,
        daemon_to_client_bytes: d2c,
    }
}

proof fn lemma_total_bytes_prefix(recs: Seq<RecordV>, i: int)
    requires
        0 <= i <= recs.len(),
    ensures
        total_bytes(recs.subrange(0, i)) <= total_bytes(recs),
    decreases recs.len(),
{
    if recs.len() > 0 {
        if i == recs.len() {
            assert(recs.subrange(0, i) =~= recs);
        } else {
            lemma_total_bytes_prefix(recs.drop_last(), i);
            assert(recs.drop_last().subrange(0, i) =~= recs.subrange(0, i));
        }
    }
}

// ---------------------------------------------------------------------------
// Reading operations
// ---------------------------------------------------------------------------

/// Whether a code read where an operation should begin can be one: the
/// reader stops at 0 and at codes above 64.
pub fn plausible_op_code(code: u64) -> (r: bool)
    ensures
        r == (code != 0 && code <= 64),
{
    code != 0 && code <= 64
}

/// The name shown for an operation code: the operation's name, or
/// `Unknown(code)`.
pub open spec fn op_label(code: u64) -> Seq<char> {
    match op_from_code(code) {
        Some(op) => op_name(op),
        None => "Unknown("@ + dec(code as nat) + ")"@,
    }
}

pub fn op_display_name(code: u64) -> (r: String)
    ensures
        r@ == op_label(code),
{
    let mut s = String::new();
    match Op::from_u64(code) {
        Some(op) => push_str(&mut s, op.name()),
        None => {
            push_str(&mut s, "Unknown(");
            push_dec(&mut s, code);
            push_str(&mut s, ")");
        },
    }
    s
}

/// When an operation started and how long it took. It starts at the time of
/// the client's first byte of it; it ends at the time of the daemon's last
/// byte of its reply, or at its start when the daemon sent nothing.
pub open spec fn op_timing_spec(
    client_ts: Seq<(usize, u64)>,
    daemon_ts: Seq<(usize, u64)>,
    client_before: usize,
    daemon_before: usize,
    daemon_after: usize,
) -> (u64, u64) {
    let start = search_time(client_ts, client_before);
    let end = if daemon_after > daemon_before {
        search_time(daemon_ts, (daemon_after - 1) as usize)
    } else {
        start
    };
    (start, if end >= start { (end - start) as u64 } else { 0 })
}

pub fn op_timing(
    client_ts: &Vec<(usize, u64)>,
    daemon_ts: &Vec<(usize, u64)>,
    client_before: usize,
    daemon_before: usize,
    daemon_after: usize,
) -> (r: (u64, u64))
    ensures
        r == op_timing_spec(client_ts@, daemon_ts@, client_before, daemon_before, daemon_after),
{
    let start = lookup_timestamp(client_ts, client_before);
    let end = if daemon_after > daemon_before {
        lookup_timestamp(daemon_ts, daemon_after - 1)
    } else {
        start
    };
    (start, end.saturating_sub(start))
}

/// The record of one operation read from a session: its name by code, its
/// duration from the two timestamp indexes, the bytes the client sent for it
/// (from `client_before` to `client_after`), the size of its framed data
/// if any, whether the daemon ended it with `Last`, and what was noted of
/// its arguments.
pub fn op_record(
    op_code: u64,
    client_ts: &Vec<(usize, u64)>,
    daemon_ts: &Vec<(usize, u64)>,
    client_before: usize,
    client_after: usize,
    daemon_before: usize,
    daemon_after: usize,
    framed_bytes: Option<u64>,
    terminal: Option<StderrCode>,
    arg_info: Option<String>,
) -> (r: OpRecord)
    requires
        client_before <= client_after,
    ensures
        r@.op_name == op_label(op_code),
        r@.duration_ns == op_timing_spec(
            client_ts@,
            daemon_ts@,
            client_before,
            daemon_before,
            daemon_after,
        ).1,
        r@.request_bytes == client_after - client_before,
        r@.framed_bytes == framed_bytes,
        r@.success == (terminal == Some(StderrCode::Last)),
        r@.arg_info == arg_info.deep_view(),
{
    let (_, duration_ns) = op_timing(client_ts, daemon_ts, client_before, daemon_before, daemon_after);
    let success = match terminal {
        Some(StderrCode::Last) => true,
        _ => false,
    };
    OpRecord {
        op_name: op_display_name(op_code),
        duration_ns,
        request_bytes: client_after - client_before,
        framed_bytes,
        success,
        arg_info,
    }
}

} // verus!
