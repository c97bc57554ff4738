//! Building a script from a recorded session: the preamble from the
//! handshake, the time of each operation from the recording's timestamp
//! index, and the captured daemon response.

use vstd::prelude::*;
use crate::protocol::{op_from_code, HandshakeInfo, Op, StderrCode};
use crate::script::{
    terminal_name, terminal_text, DaemonResponse, DaemonResponseV, Entry, ErrorInfo, ExpectV,
    OpCall, OpCallV, Preamble, PreambleV, ResultData, ResultDataV,
};
use crate::text::push_str;

verus! {

/// A copy of a list of strings.
pub fn clone_strings(v: &Vec<String>) -> (r: Vec<String>)
    ensures
        r.deep_view() == v.deep_view(),
{
    let r = v.clone();
    assert forall|i: int| 0 <= i < r@.len() implies r@[i]@ == v@[i]@ by {
        assert(cloned::<String>(v[i], r[i]));
    }
    assert(r.deep_view() =~= v.deep_view());
    r
}

/// The name of a handshake trust status: 1 is trusted, 2 not trusted.
pub open spec fn trust_label(t: u64) -> Seq<char> {
    if t == 1 {
        "trusted"@
    } else if t == 2 {
        "not-trusted"@
    } else {
        "unknown"@
    }
}

pub fn trust_name(t: u64) -> (r: String)
    ensures
        r@ == trust_label(t),
{
    let mut s = String::new();
    if t == 1 {
        push_str(&mut s, "trusted");
    } else if t == 2 {
        push_str(&mut s, "not-trusted");
    } else {
        push_str(&mut s, "unknown");
    }
    s
}

/// The preamble of a recorded session: the negotiated version, the
/// features on both sides, the daemon's version and its trust status, and no
/// expects.
pub open spec fn recorded_preamble(info: crate::protocol::HandshakeInfoV) -> PreambleV {
    PreambleV {
        protocol_version: info.negotiated_version,
        client_features: info.client_features,
        expects: seq![],
        daemon_version: info.daemon_nix_version,
        trust: match info.trust_status {
            Some(t) => Some(trust_label(t)),
            None => None,
        },
        server_features: Some(info.server_features),
    }
}

/// Build the preamble of a recorded session from its handshake.
pub fn decompile_preamble(info: &HandshakeInfo) -> (p: Preamble)
    ensures
        p@ == recorded_preamble(info@),
{
    let trust = match info.trust_status {
        Some(t) => Some(trust_name(t)),
        None => None,
    };
    let daemon_version = match &info.daemon_nix_version {
        Some(v) => Some(v.clone()),
        None => None,
    };
    let p = Preamble {
        protocol_version: info.negotiated_version,
        client_features: clone_strings(&info.client_features),
        expects: Vec::new(),
        daemon_version,
        trust,
        server_features: Some(clone_strings(&info.server_features)),
    };
    assert(crate::script::expects_view(p.expects@) =~= Seq::<crate::script::ExpectV>::empty());
    p
}

// ---------------------------------------------------------------------------
// Timestamp index
// ---------------------------------------------------------------------------

/// The offsets of the index do not decrease.
pub open spec fn index_sorted(ix: Seq<(usize, u64)>) -> bool {
    forall|a: int, b: int| 0 <= a <= b < ix.len() ==> ix[a].0 <= ix[b].0
}

/// The first position from `i` on whose offset is at least `off`, or the
/// length.
pub open spec fn first_at_least(ix: Seq<(usize, u64)>, off: usize, i: int) -> int
    decreases ix.len() - i,
{
    if i < 0 || i >= ix.len() {
        ix.len() as int
    } else if ix[i].0 >= off {
        i
    } else {
        first_at_least(ix, off, i + 1)
    }
}

/// The entry of a sorted, non-empty index whose time applies to byte offset
/// `off`: the first entry at `off` if there is one; otherwise the last entry
/// before `off`, or the first entry when `off` precedes them all (what a
/// binary search for `off` settles on).
pub open spec fn lookup_pos(ix: Seq<(usize, u64)>, off: usize) -> int {
    let lb = first_at_least(ix, off, 0);
    if lb < ix.len() && ix[lb].0 == off {
        lb
    } else if lb == 0 {
        0
    } else {
        lb - 1
    }
}

/// The time that a sorted index gives byte offset `off`; 0 for an empty
/// index.
pub open spec fn lookup_time(ix: Seq<(usize, u64)>, off: usize) -> u64 {
    if ix.len() == 0 {
        0
    } else {
        ix[lookup_pos(ix, off)].1
    }
}

/// Where a binary search for `off` between `lo` and `hi` ends: each probe
/// looks at the middle entry and goes right past it when its offset is below
/// `off`, left otherwise.
pub open spec fn search_end(ix: Seq<(usize, u64)>, off: usize, lo: int, hi: int) -> int
    decreases hi - lo,
{
    if 0 <= lo < hi <= ix.len() {
        let mid = lo + (hi - lo) / 2;
        if ix[mid].0 < off {
            search_end(ix, off, mid + 1, hi)
        } else {
            search_end(ix, off, lo, mid)
        }
    } else {
        lo
    }
}

/// The position the search settles on, for any index: the end of the search
/// when the entry there is at `off`; otherwise the entry before it, or the
/// first entry.
pub open spec fn search_pos(ix: Seq<(usize, u64)>, off: usize) -> int {
    let lo = search_end(ix, off, 0, ix.len() as int);
    if lo < ix.len() && ix[lo].0 == off {
        lo
    } else if lo == 0 {
        0
    } else {
        lo - 1
    }
}

/// The time the search gives byte offset `off`; 0 for an empty index.
pub open spec fn search_time(ix: Seq<(usize, u64)>, off: usize) -> u64 {
    if ix.len() == 0 {
        0
    } else {
        ix[search_pos(ix, off)].1
    }
}

proof fn lemma_search_end_range(ix: Seq<(usize, u64)>, off: usize, lo: int, hi: int)
    requires
        0 <= lo <= hi <= ix.len(),
    ensures
        lo <= search_end(ix, off, lo, hi) <= hi,
    decreases hi - lo,
{
    if lo < hi {
        let mid = lo + (hi - lo) / 2;
        if ix[mid].0 < off {
            lemma_search_end_range(ix, off, mid + 1, hi);
        } else {
            lemma_search_end_range(ix, off, lo, mid);
        }
    }
}

/// On a sorted index the search settles on the entry that `lookup_pos`
/// describes.
pub proof fn lemma_search_sorted(ix: Seq<(usize, u64)>, off: usize)
    requires
        index_sorted(ix),
        ix.len() > 0,
    ensures
        search_pos(ix, off) == lookup_pos(ix, off),
        search_time(ix, off) == lookup_time(ix, off),
{
    lemma_search_bounds(ix, off, 0, ix.len() as int);
    let lo = search_end(ix, off, 0, ix.len() as int);
    lemma_search_end_range(ix, off, 0, ix.len() as int);
    lemma_first_at_least(ix, off, 0, lo);
}

proof fn lemma_search_bounds(ix: Seq<(usize, u64)>, off: usize, lo: int, hi: int)
    requires
        index_sorted(ix),
        0 <= lo <= hi <= ix.len(),
        forall|k: int| 0 <= k < lo ==> #[trigger] ix[k].0 < off,
        forall|k: int| hi <= k < ix.len() ==> #[trigger] ix[k].0 >= off,
    ensures
        forall|k: int| 0 <= k < search_end(ix, off, lo, hi) ==> #[trigger] ix[k].0 < off,
        search_end(ix, off, lo, hi) < ix.len() ==> ix[search_end(ix, off, lo, hi)].0 >= off,
    decreases hi - lo,
{
    if lo < hi {
        let mid = lo + (hi - lo) / 2;
        if ix[mid].0 < off {
            assert forall|k: int| 0 <= k < mid + 1 implies #[trigger] ix[k].0 < off by {
                if k >= lo {
                    assert(ix[k].0 <= ix[mid].0);
                }
            }
            lemma_search_bounds(ix, off, mid + 1, hi);
        } else {
            assert forall|k: int| mid <= k < ix.len() implies #[trigger] ix[k].0 >= off by {
                assert(ix[mid].0 <= ix[k].0);
            }
            lemma_search_bounds(ix, off, lo, mid);
        }
    }
}

proof fn lemma_first_at_least(ix: Seq<(usize, u64)>, off: usize, i: int, lo: int)
    requires
        0 <= i <= lo <= ix.len(),
        forall|k: int| 0 <= k < lo ==> #[trigger] ix[k].0 < off,
        lo < ix.len() ==> ix[lo].0 >= off,
    ensures
        first_at_least(ix, off, i) == lo,
    decreases lo - i,
{
    if i < lo {
        lemma_first_at_least(ix, off, i + 1, lo);
    }
}

/// The position in a non-empty index whose time applies to byte offset
/// `off`, found by binary search.
pub fn lookup_index(ix: &[(usize, u64)], off: usize) -> (r: usize)
    requires
        ix@.len() > 0,
    ensures
        r < ix@.len(),
        r == search_pos(ix@, off),
        index_sorted(ix@) ==> r == lookup_pos(ix@, off),
{
    let mut lo: usize = 0;
    let mut hi: usize = ix.len();
    while lo < hi
        invariant
            lo <= hi <= ix@.len(),
            search_end(ix@, off, lo as int, hi as int) == search_end(ix@, off, 0, ix@.len() as int),
        decreases hi - lo,
    {
        let mid = lo + (hi - lo) / 2;
        if ix[mid].0 < off {
            lo = mid + 1;
        } else {
            hi = mid;
        }
    }
    proof {
        lemma_search_end_range(ix@, off, 0, ix@.len() as int);
        if index_sorted(ix@) {
            lemma_search_sorted(ix@, off);
        }
    }
    if lo < ix.len() && ix[lo].0 == off {
        lo
    } else if lo == 0 {
        0
    } else {
        lo - 1
    }
}

/// The time in microseconds for byte offset `off` in a recording's
/// timestamp index, if the index has any entry.
pub fn lookup_timestamp_us(ix: &[(usize, u64)], off: usize) -> (r: Option<u64>)
    ensures
        ix@.len() == 0 <==> r is None,
        ix@.len() > 0 ==> r == Some(search_time(ix@, off)),
        index_sorted(ix@) && ix@.len() > 0 ==> r == Some(lookup_time(ix@, off)),
{
    if ix.len() == 0 {
        return None;
    }
    let i = lookup_index(ix, off);
    proof {
        if index_sorted(ix@) {
            lemma_search_sorted(ix@, off);
        }
    }
    Some(ix[i].1)
}

// ---------------------------------------------------------------------------
// Responses
// ---------------------------------------------------------------------------

/// The recorded response of an operation: its terminal code's name, how many
/// stderr messages came before it, and what was read after it.
pub fn daemon_response(
    terminal: Option<StderrCode>,
    stderr_count: u64,
    result: Option<ResultData>,
    error: Option<ErrorInfo>,
) -> (r: DaemonResponse)
    ensures
        r@.terminal == terminal_text(terminal),
        r@.stderr_count == stderr_count,
        r@.result == (match result {
            Some(d) => Some(d@),
            None => None::<crate::script::ResultDataV>,
        }),
        r@.error == (match error {
            Some(e) => Some(e@),
            None => None::<crate::script::ErrorInfoV>,
        }),
{
    DaemonResponse { terminal: terminal_name(terminal), stderr_count, result, error }
}

// ---------------------------------------------------------------------------
// Entries
// ---------------------------------------------------------------------------

/// The call a recorded operation reads as: the decoded call; for a known
/// operation whose arguments are not decoded, its raw form without bytes;
/// for an unknown code, a raw placeholder.
pub open spec fn recorded_call(op: Option<Op>, args: Option<OpCallV>) -> OpCallV {
    match op {
        Some(o) => match args {
            Some(c) => c,
            None => OpCallV::RawBytes { op: o, data: seq![] },
        },
        None => OpCallV::RawBytes { op: Op::IsValidPath, data: seq![] },
    }
}

/// The entry of one recorded operation with wire code `op_code`, from what
/// was read for it: the arguments (if decoded), the terminal stderr code,
/// the number of stderr messages, the result read after the terminal code
/// and the error. The result is kept only after `Last` for a known
/// operation; the entry has no expects.
pub fn recorded_entry(
    op_code: u64,
    timestamp_us: Option<u64>,
    args: Option<OpCall>,
    terminal: Option<StderrCode>,
    stderr_count: u64,
    result: Option<ResultData>,
    error: Option<ErrorInfo>,
) -> (e: Entry)
    ensures
        e@.timestamp_us == timestamp_us,
        e@.op_call == recorded_call(
            op_from_code(op_code),
            match args {
                Some(c) => Some(c@),
                None => None::<OpCallV>,
            },
        ),
        e@.response == Some(
            DaemonResponseV {
                terminal: terminal_text(terminal),
                stderr_count,
                result: if terminal == Some(StderrCode::Last) && op_from_code(op_code) is Some {
                    match result {
                        Some(d) => Some(d@),
                        None => None::<ResultDataV>,
                    }
                } else {
                    None::<ResultDataV>
                },
                error: match error {
                    Some(x) => Some(x@),
                    None => None::<crate::script::ErrorInfoV>,
                },
            },
        ),
        e@.expects == Seq::<ExpectV>::empty(),
{
    let op = Op::from_u64(op_code);
    let op_call = match op {
        Some(o) => match args {
            Some(c) => c,
            None => OpCall::RawBytes { op: o, data: Vec::new() },
        },
        None => OpCall::RawBytes { op: Op::IsValidPath, data: Vec::new() },
    };
    let is_last = match terminal {
        Some(StderrCode::Last) => true,
        _ => false,
    };
    let kept = if is_last && op.is_some() {
        result
    } else {
        None
    };
    let response = daemon_response(terminal, stderr_count, kept, error);
    let e = Entry { timestamp_us, op_call, response: Some(response), expects: Vec::new() };
    proof {
        assert(e@.op_call == recorded_call(
            op_from_code(op_code),
            match args {
                Some(c) => Some(c@),
                None => None::<OpCallV>,
            },
        ));
        assert(e@.expects =~= Seq::<ExpectV>::empty());
    }
    e
}

} // verus!
