//! Character-sequence helpers with the semantics of the `str` methods the
//! script format relies on (trimming, prefixes, searching, splitting).

use vstd::prelude::*;

verus! {

/// Unicode `White_Space`, the set that `char::is_whitespace` tests.
pub open spec fn is_ws(c: char) -> bool {
    let u = c as u32;
    (0x9 <= u && u <= 0xD) || u == 0x20 || u == 0x85 || u == 0xA0 || u == 0x1680
        || (0x2000 <= u && u <= 0x200A) || u == 0x2028 || u == 0x2029 || u == 0x202F
        || u == 0x205F || u == 0x3000
}

pub fn char_is_ws(c: char) -> (r: bool)
    ensures
        r == is_ws(c),
{
    let u = c as u32;
    (0x9 <= u && u <= 0xD) || u == 0x20 || u == 0x85 || u == 0xA0 || u == 0x1680
        || (0x2000 <= u && u <= 0x200A) || u == 0x2028 || u == 0x2029 || u == 0x202F
        || u == 0x205F || u == 0x3000
}

/// The characters of a string, in order.
pub fn to_chars(s: &str) -> (v: Vec<char>)
    ensures
        v@ == s@,
{
    let mut v: Vec<char> = Vec::new();
    broadcast use vstd::string::axiom_spec_iter;
    for c in it: s.chars()
        invariant
            v@ == it.seq().take(it.index() as int),
    {
        v.push(c);
    }
    v
}

// ---------------------------------------------------------------------------
// Trimming
// ---------------------------------------------------------------------------

/// `s` without its leading white space.
pub open spec fn trim_start(s: Seq<char>) -> Seq<char>
    decreases s.len(),
{
    if s.len() > 0 && is_ws(s[0]) {
        trim_start(s.drop_first())
    } else {
        s
    }
}

/// `s` without its trailing white space.
pub open spec fn trim_end(s: Seq<char>) -> Seq<char>
    decreases s.len(),
{
    if s.len() > 0 && is_ws(s.last()) {
        trim_end(s.drop_last())
    } else {
        s
    }
}

/// `s` without leading and trailing white space (`str::trim`).
pub open spec fn trim(s: Seq<char>) -> Seq<char> {
    trim_end(trim_start(s))
}

pub fn trim_start_slice(s: &[char]) -> (r: &[char])
    ensures
        r@ == trim_start(s@),
{
    let mut i: usize = 0;
    assert(s@.subrange(0, s@.len() as int) =~= s@);
    while i < s.len() && char_is_ws(s[i])
        invariant
            i <= s@.len(),
            trim_start(s@.subrange(i as int, s@.len() as int)) == trim_start(s@),
        decreases s@.len() - i,
    {
        assert(s@.subrange(i as int, s@.len() as int).drop_first() =~= s@.subrange(
            i + 1,
            s@.len() as int,
        ));
        i = i + 1;
    }
    assert(s@.subrange(0, s@.len() as int) =~= s@);
    &s[i..s.len()]
}

pub fn trim_end_slice(s: &[char]) -> (r: &[char])
    ensures
        r@ == trim_end(s@),
{
    let mut j: usize = s.len();
    assert(s@.subrange(0, s@.len() as int) =~= s@);
    while j > 0 && char_is_ws(s[j - 1])
        invariant
            j <= s@.len(),
            trim_end(s@.subrange(0, j as int)) == trim_end(s@),
        decreases j,
    {
        assert(s@.subrange(0, j as int).drop_last() =~= s@.subrange(0, j - 1));
        j = j - 1;
    }
    assert(s@.subrange(0, s@.len() as int) =~= s@);
    &s[0..j]
}

pub fn trim_slice(s: &[char]) -> (r: &[char])
    ensures
        r@ == trim(s@),
{
    let t = trim_start_slice(s);
    trim_end_slice(t)
}

// ---------------------------------------------------------------------------
// Prefixes and searching
// ---------------------------------------------------------------------------

pub open spec fn starts_with(s: Seq<char>, p: Seq<char>) -> bool {
    p.len() <= s.len() && s.subrange(0, p.len() as int) == p
}

pub open spec fn ends_with(s: Seq<char>, p: Seq<char>) -> bool {
    p.len() <= s.len() && s.subrange(s.len() - p.len(), s.len() as int) == p
}

/// Does `s[at..]` begin with `p`?
pub fn matches_at(s: &[char], at: usize, p: &[char]) -> (r: bool)
    requires
        at <= s@.len(),
    ensures
        r == (at + p@.len() <= s@.len() && s@.subrange(at as int, at + p@.len()) == p@),
{
    if p.len() > s.len() - at {
        return false;
    }
    let mut k: usize = 0;
    while k < p.len()
        invariant
            at + p@.len() <= s@.len(),
            s@.len() <= usize::MAX,
            k <= p@.len(),
            forall|m: int| 0 <= m < k ==> s@[at + m] == p@[m],
        decreases p@.len() - k,
    {
        if s[at + k] != p[k] {
            assert(s@.subrange(at as int, at + p@.len())[k as int] != p@[k as int]);
            return false;
        }
        k = k + 1;
    }
    assert(s@.subrange(at as int, at + p@.len()) =~= p@);
    true
}

pub fn starts_with_slice(s: &[char], p: &[char]) -> (r: bool)
    ensures
        r == starts_with(s@, p@),
{
    matches_at(s, 0, p)
}

pub fn ends_with_slice(s: &[char], p: &[char]) -> (r: bool)
    ensures
        r == ends_with(s@, p@),
{
    if p.len() > s.len() {
        return false;
    }
    matches_at(s, s.len() - p.len(), p)
}

/// `str::strip_prefix`.
pub open spec fn strip_prefix(s: Seq<char>, p: Seq<char>) -> Option<Seq<char>> {
    if starts_with(s, p) {
        Some(s.subrange(p.len() as int, s.len() as int))
    } else {
        None
    }
}

pub fn strip_prefix_slice<'a>(s: &'a [char], p: &[char]) -> (r: Option<&'a [char]>)
    ensures
        match r {
            Some(t) => strip_prefix(s@, p@) == Some(t@),
            None => strip_prefix(s@, p@) is None,
        },
{
    if starts_with_slice(s, p) {
        Some(&s[p.len()..s.len()])
    } else {
        None
    }
}

/// First position at or after `i` where `p` (non-empty) occurs in `s`.
pub open spec fn find_from(s: Seq<char>, p: Seq<char>, i: int) -> Option<int>
    decreases s.len() - i,
{
    if p.len() == 0 {
        Some(i)
    } else if i < 0 || i + p.len() > s.len() {
        None
    } else if s.subrange(i, i + p.len()) == p {
        Some(i)
    } else {
        find_from(s, p, i + 1)
    }
}

/// `str::find` with a string pattern.
pub open spec fn find(s: Seq<char>, p: Seq<char>) -> Option<int> {
    find_from(s, p, 0)
}

pub proof fn lemma_find_from_bounds(s: Seq<char>, p: Seq<char>, i: int)
    requires
        0 <= i,
        p.len() > 0,
    ensures
        find_from(s, p, i) matches Some(j) ==> i <= j && j + p.len() <= s.len() && s.subrange(
            j,
            j + p.len(),
        ) == p,
    decreases s.len() - i,
{
    if i + p.len() <= s.len() && s.subrange(i, i + p.len()) != p {
        lemma_find_from_bounds(s, p, i + 1);
    }
}

pub fn find_slice(s: &[char], p: &[char]) -> (r: Option<usize>)
    ensures
        match r {
            Some(j) => find(s@, p@) == Some(j as int),
            None => find(s@, p@) is None,
        },
{
    if p.len() == 0 {
        return Some(0);
    }
    let mut i: usize = 0;
    while i <= s.len()
        invariant
            p@.len() > 0,
            find_from(s@, p@, i as int) == find(s@, p@),
        decreases s@.len() + 1 - i,
    {
        if p.len() > s.len() - i {
            return None;
        }
        if matches_at(s, i, p) {
            return Some(i);
        }
        i = i + 1;
    }
    None
}

/// First position at or after `i` holding `c`.
pub open spec fn find_char_from(s: Seq<char>, c: char, i: int) -> Option<int>
    decreases s.len() - i,
{
    if i < 0 || i >= s.len() {
        None
    } else if s[i] == c {
        Some(i)
    } else {
        find_char_from(s, c, i + 1)
    }
}

pub open spec fn find_char(s: Seq<char>, c: char) -> Option<int> {
    find_char_from(s, c, 0)
}

pub proof fn lemma_find_char_from(s: Seq<char>, c: char, i: int)
    requires
        0 <= i,
    ensures
        match find_char_from(s, c, i) {
            Some(j) => i <= j < s.len() && s[j] == c && forall|k: int| i <= k < j ==> s[k] != c,
            None => forall|k: int| i <= k < s.len() ==> s[k] != c,
        },
    decreases s.len() - i,
{
    if i < s.len() && s[i] != c {
        lemma_find_char_from(s, c, i + 1);
    }
}

pub fn find_char_slice(s: &[char], c: char) -> (r: Option<usize>)
    ensures
        match r {
            Some(j) => find_char(s@, c) == Some(j as int),
            None => find_char(s@, c) is None,
        },
{
    let mut i: usize = 0;
    while i < s.len()
        invariant
            i <= s@.len(),
            find_char_from(s@, c, i as int) == find_char(s@, c),
        decreases s@.len() - i,
    {
        if s[i] == c {
            return Some(i);
        }
        i = i + 1;
    }
    None
}

/// `str::split_once` with a character pattern.
pub open spec fn split_once(s: Seq<char>, c: char) -> Option<(Seq<char>, Seq<char>)> {
    match find_char(s, c) {
        Some(i) => Some((s.subrange(0, i), s.subrange(i + 1, s.len() as int))),
        None => None,
    }
}

pub fn split_once_slice<'a>(s: &'a [char], c: char) -> (r: Option<(&'a [char], &'a [char])>)
    ensures
        match r {
            Some((a, b)) => split_once(s@, c) == Some((a@, b@)),
            None => split_once(s@, c) is None,
        },
{
    match find_char_slice(s, c) {
        Some(i) => {
            proof {
                lemma_find_char_from(s@, c, 0);
            }
            let n = s.len();
            assert(i < n);
            Some((&s[0..i], &s[i + 1..n]))
        },
        None => None,
    }
}

/// `s` without leading copies of `c` (`str::trim_start_matches`).
pub open spec fn trim_start_char(s: Seq<char>, c: char) -> Seq<char>
    decreases s.len(),
{
    if s.len() > 0 && s[0] == c {
        trim_start_char(s.drop_first(), c)
    } else {
        s
    }
}

/// `s` without trailing copies of `c` (`str::trim_end_matches`).
pub open spec fn trim_end_char(s: Seq<char>, c: char) -> Seq<char>
    decreases s.len(),
{
    if s.len() > 0 && s.last() == c {
        trim_end_char(s.drop_last(), c)
    } else {
        s
    }
}

pub fn trim_start_char_slice(s: &[char], c: char) -> (r: &[char])
    ensures
        r@ == trim_start_char(s@, c),
{
    let mut i: usize = 0;
    assert(s@.subrange(0, s@.len() as int) =~= s@);
    while i < s.len() && s[i] == c
        invariant
            i <= s@.len(),
            trim_start_char(s@.subrange(i as int, s@.len() as int), c) == trim_start_char(s@, c),
        decreases s@.len() - i,
    {
        assert(s@.subrange(i as int, s@.len() as int).drop_first() =~= s@.subrange(
            i + 1,
            s@.len() as int,
        ));
        i = i + 1;
    }
    assert(s@.subrange(0, s@.len() as int) =~= s@);
    &s[i..s.len()]
}

pub fn trim_end_char_slice(s: &[char], c: char) -> (r: &[char])
    ensures
        r@ == trim_end_char(s@, c),
{
    let mut j: usize = s.len();
    assert(s@.subrange(0, s@.len() as int) =~= s@);
    while j > 0 && s[j - 1] == c
        invariant
            j <= s@.len(),
            trim_end_char(s@.subrange(0, j as int), c) == trim_end_char(s@, c),
        decreases j,
    {
        assert(s@.subrange(0, j as int).drop_last() =~= s@.subrange(0, j - 1));
        j = j - 1;
    }
    assert(s@.subrange(0, s@.len() as int) =~= s@);
    &s[0..j]
}

// ---------------------------------------------------------------------------
// Splitting and replacing
// ---------------------------------------------------------------------------

/// `str::split` on a character: the pieces of `s[start..]` scanned from `i`.
pub open spec fn split_from(s: Seq<char>, c: char, start: int, i: int) -> Seq<Seq<char>>
    decreases s.len() - i,
{
    if i >= s.len() {
        seq![s.subrange(start, s.len() as int)]
    } else if s[i] == c {
        seq![s.subrange(start, i)] + split_from(s, c, i + 1, i + 1)
    } else {
        split_from(s, c, start, i + 1)
    }
}

pub open spec fn split_char(s: Seq<char>, c: char) -> Seq<Seq<char>> {
    split_from(s, c, 0, 0)
}

pub fn copy_chars(s: &[char]) -> (v: Vec<char>)
    ensures
        v@ == s@,
{
    let mut v: Vec<char> = Vec::new();
    let mut i: usize = 0;
    while i < s.len()
        invariant
            i <= s@.len(),
            v@ == s@.subrange(0, i as int),
        decreases s@.len() - i,
    {
        v.push(s[i]);
        i = i + 1;
        assert(v@ =~= s@.subrange(0, i as int));
    }
    assert(s@.subrange(0, s@.len() as int) =~= s@);
    v
}

pub fn split_char_slice(s: &[char], c: char) -> (r: Vec<Vec<char>>)
    ensures
        r.deep_view() == split_char(s@, c),
{
    let mut out: Vec<Vec<char>> = Vec::new();
    let mut start: usize = 0;
    let mut i: usize = 0;
    while i < s.len()
        invariant
            start <= i <= s@.len(),
            out.deep_view() + split_from(s@, c, start as int, i as int) == split_char(s@, c),
        decreases s@.len() - i,
    {
        if s[i] == c {
            let piece = copy_chars(&s[start..i]);
            let ghost before = out.deep_view();
            assert(piece.deep_view() =~= piece@);
            out.push(piece);
            assert(out.deep_view() =~= before + seq![s@.subrange(start as int, i as int)]);
            assert(out.deep_view() + split_from(s@, c, i + 1, i + 1) =~= before + split_from(
                s@,
                c,
                start as int,
                i as int,
            ));
            start = i + 1;
        }
        i = i + 1;
    }
    let piece = copy_chars(&s[start..s.len()]);
    let ghost before = out.deep_view();
    assert(piece.deep_view() =~= piece@);
    out.push(piece);
    assert(split_from(s@, c, start as int, i as int) == seq![s@.subrange(start as int, s@.len() as int)]);
    assert(out.deep_view() =~= before + split_from(s@, c, start as int, i as int));
    out
}

/// `s` without one trailing carriage return.
pub open spec fn strip_cr(s: Seq<char>) -> Seq<char> {
    if s.len() > 0 && s.last() == '\r' {
        s.drop_last()
    } else {
        s
    }
}

/// `str::lines`: the lines of `s[start..]` scanned from `i`.
pub open spec fn lines_from(s: Seq<char>, start: int, i: int) -> Seq<Seq<char>>
    decreases s.len() - i,
{
    if i >= s.len() {
        if start < s.len() {
            seq![s.subrange(start, s.len() as int)]
        } else {
            seq![]
        }
    } else if s[i] == '\n' {
        seq![strip_cr(s.subrange(start, i))] + lines_from(s, i + 1, i + 1)
    } else {
        lines_from(s, start, i + 1)
    }
}

pub open spec fn lines(s: Seq<char>) -> Seq<Seq<char>> {
    lines_from(s, 0, 0)
}

pub fn lines_slice(s: &[char]) -> (r: Vec<Vec<char>>)
    ensures
        r.deep_view() == lines(s@),
{
    let mut out: Vec<Vec<char>> = Vec::new();
    let mut start: usize = 0;
    let mut i: usize = 0;
    while i < s.len()
        invariant
            start <= i <= s@.len(),
            out.deep_view() + lines_from(s@, start as int, i as int) == lines(s@),
        decreases s@.len() - i,
    {
        if s[i] == '\n' {
            let mut end = i;
            if end > start && s[end - 1] == '\r' {
                end = end - 1;
            }
            let piece = copy_chars(&s[start..end]);
            let ghost before = out.deep_view();
            assert(piece.deep_view() =~= piece@);
            out.push(piece);
            assert(strip_cr(s@.subrange(start as int, i as int)) =~= s@.subrange(
                start as int,
                end as int,
            ));
            assert(out.deep_view() =~= before + seq![strip_cr(s@.subrange(start as int, i as int))]);
            assert(out.deep_view() + lines_from(s@, i + 1, i + 1) =~= before + lines_from(
                s@,
                start as int,
                i as int,
            ));
            start = i + 1;
        }
        i = i + 1;
    }
    if start < s.len() {
        let piece = copy_chars(&s[start..s.len()]);
        let ghost before = out.deep_view();
        assert(piece.deep_view() =~= piece@);
        out.push(piece);
        assert(lines_from(s@, start as int, i as int) == seq![s@.subrange(start as int, s@.len() as int)]);
        assert(out.deep_view() =~= before + lines_from(s@, start as int, i as int));
    } else {
        assert(out.deep_view() =~= out.deep_view() + lines_from(s@, start as int, i as int));
    }
    out
}

/// `str::split_whitespace`, outside a word, scanning from `i`.
pub open spec fn words_from(s: Seq<char>, i: int) -> Seq<Seq<char>>
    decreases s.len() - i, 1int,
{
    if i >= s.len() {
        seq![]
    } else if is_ws(s[i]) {
        words_from(s, i + 1)
    } else {
        word_at(s, i, i + 1)
    }
}

/// `str::split_whitespace`, inside a word that began at `start`.
pub open spec fn word_at(s: Seq<char>, start: int, i: int) -> Seq<Seq<char>>
    decreases s.len() - i, 0int,
{
    if i >= s.len() {
        seq![s.subrange(start, s.len() as int)]
    } else if is_ws(s[i]) {
        seq![s.subrange(start, i)] + words_from(s, i + 1)
    } else {
        word_at(s, start, i + 1)
    }
}

pub open spec fn split_ws(s: Seq<char>) -> Seq<Seq<char>> {
    words_from(s, 0)
}

pub fn split_ws_slice(s: &[char]) -> (r: Vec<Vec<char>>)
    ensures
        r.deep_view() == split_ws(s@),
{
    let mut out: Vec<Vec<char>> = Vec::new();
    let mut in_word = false;
    let mut start: usize = 0;
    let mut i: usize = 0;
    while i < s.len()
        invariant
            start <= i <= s@.len(),
            in_word ==> start < i,
            out.deep_view() + (if in_word {
                word_at(s@, start as int, i as int)
            } else {
                words_from(s@, i as int)
            }) == split_ws(s@),
        decreases s@.len() - i,
    {
        let ws = char_is_ws(s[i]);
        if in_word {
            if ws {
                let piece = copy_chars(&s[start..i]);
                let ghost before = out.deep_view();
                assert(piece.deep_view() =~= piece@);
                out.push(piece);
                assert(out.deep_view() =~= before + seq![s@.subrange(start as int, i as int)]);
                assert(out.deep_view() + words_from(s@, i + 1) =~= before + word_at(
                    s@,
                    start as int,
                    i as int,
                ));
                in_word = false;
            }
        } else {
            if !ws {
                start = i;
                in_word = true;
            }
        }
        i = i + 1;
    }
    if in_word {
        let piece = copy_chars(&s[start..s.len()]);
        let ghost before = out.deep_view();
        assert(piece.deep_view() =~= piece@);
        out.push(piece);
        assert(word_at(s@, start as int, i as int) == seq![s@.subrange(start as int, s@.len() as int)]);
        assert(out.deep_view() =~= before + word_at(s@, start as int, i as int));
    } else {
        assert(out.deep_view() =~= out.deep_view() + words_from(s@, i as int));
    }
    out
}

/// `str::replace` of the non-empty pattern `f` by `t`, from position `i`.
pub open spec fn replace_from(s: Seq<char>, f: Seq<char>, t: Seq<char>, i: int) -> Seq<char>
    decreases s.len() - i,
{
    if i >= s.len() || i < 0 {
        seq![]
    } else if f.len() > 0 && i + f.len() <= s.len() && s.subrange(i, i + f.len()) == f {
        t + replace_from(s, f, t, i + f.len())
    } else {
        seq![s[i]] + replace_from(s, f, t, i + 1)
    }
}

pub open spec fn replace(s: Seq<char>, f: Seq<char>, t: Seq<char>) -> Seq<char> {
    replace_from(s, f, t, 0)
}

pub fn replace_slice(s: &[char], f: &[char], t: &[char]) -> (r: Vec<char>)
    requires
        f@.len() > 0,
    ensures
        r@ == replace(s@, f@, t@),
{
    let mut out: Vec<char> = Vec::new();
    let mut i: usize = 0;
    while i < s.len()
        invariant
            i <= s@.len(),
            f@.len() > 0,
            out@ + replace_from(s@, f@, t@, i as int) == replace(s@, f@, t@),
        decreases s@.len() - i,
    {
        if matches_at(s, i, f) {
            let mut k: usize = 0;
            let ghost before = out@;
            while k < t.len()
                invariant
                    k <= t@.len(),
                    out@ == before + t@.subrange(0, k as int),
                decreases t@.len() - k,
            {
                out.push(t[k]);
                k = k + 1;
                assert(out@ =~= before + t@.subrange(0, k as int));
            }
            assert(t@.subrange(0, t@.len() as int) =~= t@);
            assert(out@ + replace_from(s@, f@, t@, i + f@.len()) =~= before + replace_from(
                s@,
                f@,
                t@,
                i as int,
            ));
            i = i + f.len();
        } else {
            let ghost before = out@;
            out.push(s[i]);
            assert(out@ + replace_from(s@, f@, t@, i + 1) =~= before + replace_from(
                s@,
                f@,
                t@,
                i as int,
            ));
            i = i + 1;
        }
    }
    assert(out@ =~= out@ + replace_from(s@, f@, t@, i as int));
    out
}

// ---------------------------------------------------------------------------
// Building strings
// ---------------------------------------------------------------------------

/// Appends one character to a string. Calls `String::push`, which the
/// standard library documents as appending the given `char` to the end.
#[verifier::external_body]
pub fn push_char(s: &mut String, c: char)
    ensures
        final(s)@ == old(s)@.push(c),
{
    s.push(c);
}

/// Appends a character slice to a string.
pub fn push_chars(out: &mut String, v: &[char])
    ensures
        final(out)@ == old(out)@ + v@,
{
    let mut i: usize = 0;
    while i < v.len()
        invariant
            i <= v@.len(),
            out@ == old(out)@ + v@.subrange(0, i as int),
        decreases v@.len() - i,
    {
        push_char(out, v[i]);
        i = i + 1;
        assert(out@ =~= old(out)@ + v@.subrange(0, i as int));
    }
    assert(v@.subrange(0, v@.len() as int) =~= v@);
}

/// A new string holding exactly the given characters.
pub fn chars_to_string(v: &[char]) -> (s: String)
    ensures
        s@ == v@,
{
    let mut s = String::new();
    push_chars(&mut s, v);
    s
}

/// Appends a string slice.
pub fn push_str(out: &mut String, t: &str)
    ensures
        final(out)@ == old(out)@ + t@,
{
    let v = to_chars(t);
    push_chars(out, v.as_slice());
}

pub fn starts_with_str(s: &[char], lit: &str) -> (r: bool)
    ensures
        r == starts_with(s@, lit@),
{
    let p = to_chars(lit);
    starts_with_slice(s, p.as_slice())
}

pub fn ends_with_str(s: &[char], lit: &str) -> (r: bool)
    ensures
        r == ends_with(s@, lit@),
{
    let p = to_chars(lit);
    ends_with_slice(s, p.as_slice())
}

pub fn strip_prefix_str<'a>(s: &'a [char], lit: &str) -> (r: Option<&'a [char]>)
    ensures
        match r {
            Some(t) => strip_prefix(s@, lit@) == Some(t@),
            None => strip_prefix(s@, lit@) is None,
        },
{
    let p = to_chars(lit);
    strip_prefix_slice(s, p.as_slice())
}

pub fn eq_str(s: &[char], lit: &str) -> (r: bool)
    ensures
        r == (s@ == lit@),
{
    let p = to_chars(lit);
    if p.len() != s.len() {
        return false;
    }
    let r = starts_with_slice(s, p.as_slice());
    assert(r ==> s@.subrange(0, p@.len() as int) =~= s@);
    assert(s@ == p@ ==> s@.subrange(0, p@.len() as int) =~= s@);
    r
}

// ---------------------------------------------------------------------------
// Facts used to read back formatted text
// ---------------------------------------------------------------------------

pub open spec fn all_ws(w: Seq<char>) -> bool {
    forall|i: int| 0 <= i < w.len() ==> is_ws(#[trigger] w[i])
}

/// Neither end of `t` is white space.
pub open spec fn edges_not_ws(t: Seq<char>) -> bool {
    t.len() == 0 || (!is_ws(t[0]) && !is_ws(t.last()))
}

pub proof fn lemma_trim_start_ws(w: Seq<char>, t: Seq<char>)
    requires
        all_ws(w),
        t.len() == 0 || !is_ws(t[0]),
    ensures
        trim_start(w + t) == t,
    decreases w.len(),
{
    if w.len() > 0 {
        assert((w + t)[0] == w[0]);
        assert((w + t).drop_first() =~= w.drop_first() + t);
        lemma_trim_start_ws(w.drop_first(), t);
    } else {
        assert(w + t =~= t);
    }
}

pub proof fn lemma_trim_end_ws(t: Seq<char>, w: Seq<char>)
    requires
        all_ws(w),
        t.len() == 0 || !is_ws(t.last()),
    ensures
        trim_end(t + w) == t,
    decreases w.len(),
{
    if w.len() > 0 {
        assert((t + w).last() == w.last());
        assert((t + w).drop_last() =~= t + w.drop_last());
        lemma_trim_end_ws(t, w.drop_last());
    } else {
        assert(t + w =~= t);
    }
}

/// Trimming removes white space around text whose ends are not white space.
pub proof fn lemma_trim_padded(w1: Seq<char>, t: Seq<char>, w2: Seq<char>)
    requires
        all_ws(w1),
        all_ws(w2),
        edges_not_ws(t),
    ensures
        trim(w1 + t + w2) == t,
{
    if t.len() == 0 {
        assert(w1 + t + w2 =~= w1 + w2);
        assert(all_ws(w1 + w2));
        lemma_trim_start_ws(w1 + w2, seq![]);
        assert(w1 + w2 + Seq::<char>::empty() =~= w1 + w2);
        assert(trim_end(Seq::<char>::empty()) == Seq::<char>::empty());
    } else {
        assert(w1 + t + w2 =~= w1 + (t + w2));
        assert((t + w2)[0] == t[0]);
        lemma_trim_start_ws(w1, t + w2);
        lemma_trim_end_ws(t, w2);
    }
}

pub proof fn lemma_trim_id(t: Seq<char>)
    requires
        edges_not_ws(t),
    ensures
        trim(t) == t,
{
    lemma_trim_padded(seq![], t, seq![]);
    assert(Seq::<char>::empty() + t + Seq::<char>::empty() =~= t);
}

pub proof fn lemma_starts_with_concat(a: Seq<char>, b: Seq<char>)
    ensures
        starts_with(a + b, a),
        strip_prefix(a + b, a) == Some(b),
{
    assert((a + b).subrange(0, a.len() as int) =~= a);
    assert((a + b).subrange(a.len() as int, (a + b).len() as int) =~= b);
}

pub proof fn lemma_find_char_concat(x: Seq<char>, c: char, y: Seq<char>)
    requires
        forall|i: int| 0 <= i < x.len() ==> x[i] != c,
    ensures
        find_char(x + seq![c] + y, c) == Some(x.len() as int),
{
    let s = x + seq![c] + y;
    lemma_find_char_from(s, c, 0);
    match find_char(s, c) {
        Some(j) => {
            if j > x.len() {
                assert(s[x.len() as int] == c);
            } else if j < x.len() {
                assert(s[j] == x[j]);
            }
        },
        None => {
            assert(s[x.len() as int] == c);
        },
    }
}

pub proof fn lemma_split_once_concat(k: Seq<char>, c: char, v: Seq<char>)
    requires
        forall|i: int| 0 <= i < k.len() ==> k[i] != c,
    ensures
        split_once(k + seq![c] + v, c) == Some((k, v)),
{
    lemma_find_char_concat(k, c, v);
    let s = k + seq![c] + v;
    assert(s.subrange(0, k.len() as int) =~= k);
    assert(s.subrange(k.len() as int + 1, s.len() as int) =~= v);
}

/// Lines each followed by a line feed.
pub open spec fn unlines(ls: Seq<Seq<char>>) -> Seq<char>
    decreases ls.len(),
{
    if ls.len() == 0 {
        seq![]
    } else {
        ls[0] + seq!['\n'] + unlines(ls.drop_first())
    }
}

/// A line that `str::lines` gives back as it is: no line feed in it and no
/// carriage return at its end.
pub open spec fn line_ok(l: Seq<char>) -> bool {
    (forall|i: int| 0 <= i < l.len() ==> l[i] != '\n') && (l.len() == 0 || l.last() != '\r')
}

pub proof fn lemma_unlines_concat(a: Seq<Seq<char>>, b: Seq<Seq<char>>)
    ensures
        unlines(a + b) == unlines(a) + unlines(b),
    decreases a.len(),
{
    if a.len() == 0 {
        assert(a + b =~= b);
        assert(unlines(a) + unlines(b) =~= unlines(b));
    } else {
        assert((a + b).drop_first() =~= a.drop_first() + b);
        assert((a + b)[0] == a[0]);
        lemma_unlines_concat(a.drop_first(), b);
        assert(unlines(a + b) =~= unlines(a) + unlines(b));
    }
}

proof fn lemma_lines_shift(pre: Seq<char>, rest: Seq<char>, a: int, b: int)
    requires
        0 <= a <= b <= rest.len(),
    ensures
        lines_from(pre + rest, pre.len() + a, pre.len() + b) == lines_from(rest, a, b),
    decreases rest.len() - b,
{
    let s = pre + rest;
    if b >= rest.len() {
        if a < rest.len() {
            assert(s.subrange(pre.len() + a, s.len() as int) =~= rest.subrange(a, rest.len() as int));
        }
    } else {
        assert(s[pre.len() + b] == rest[b]);
        if rest[b] == '\n' {
            assert(s.subrange(pre.len() + a, pre.len() + b) =~= rest.subrange(a, b));
            lemma_lines_shift(pre, rest, b + 1, b + 1);
        } else {
            lemma_lines_shift(pre, rest, a, b + 1);
        }
    }
}

proof fn lemma_lines_first(p: Seq<char>, rest: Seq<char>, i: int)
    requires
        line_ok(p),
        0 <= i <= p.len(),
    ensures
        lines_from(p + seq!['\n'] + rest, 0, i) == seq![p] + lines(rest),
    decreases p.len() - i,
{
    let s = p + seq!['\n'] + rest;
    if i < p.len() {
        assert(s[i] == p[i]);
        lemma_lines_first(p, rest, i + 1);
    } else {
        assert(s[i] == '\n');
        assert(s.subrange(0, i) =~= p);
        assert(strip_cr(p) == p);
        assert(s =~= (p + seq!['\n']) + rest);
        lemma_lines_shift(p + seq!['\n'], rest, 0, 0);
    }
}

/// `str::lines` gives back lines joined with line feeds.
pub proof fn lemma_lines_unlines(ls: Seq<Seq<char>>)
    requires
        forall|k: int| 0 <= k < ls.len() ==> line_ok(#[trigger] ls[k]),
    ensures
        lines(unlines(ls)) == ls,
    decreases ls.len(),
{
    if ls.len() > 0 {
        assert(line_ok(ls[0]));
        lemma_lines_first(ls[0], unlines(ls.drop_first()), 0);
        assert forall|k: int| 0 <= k < ls.drop_first().len() implies line_ok(
            #[trigger] ls.drop_first()[k],
        ) by {
            assert(ls.drop_first()[k] == ls[k + 1]);
        }
        lemma_lines_unlines(ls.drop_first());
        assert(ls =~= seq![ls[0]] + ls.drop_first());
    }
}

} // verus!
