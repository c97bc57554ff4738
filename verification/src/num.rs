//! Decimal and hexadecimal text: the integer syntax of `str::parse`, the
//! output of `{}` / `{:0N}` formatting, and hex byte strings.

use vstd::prelude::*;
use crate::text::{push_char, push_chars, replace, replace_slice, to_chars};

verus! {

// ---------------------------------------------------------------------------
// Decimal digits
// ---------------------------------------------------------------------------

pub open spec fn is_digit(c: char) -> bool {
    '0' <= c && c <= '9'
}

pub open spec fn digit_val(c: char) -> nat {
    (c as u32 - '0' as u32) as nat
}

pub open spec fn all_digits(s: Seq<char>) -> bool {
    forall|i: int| 0 <= i < s.len() ==> is_digit(#[trigger] s[i])
}

/// The number that a string of decimal digits denotes.
pub open spec fn digits_value(s: Seq<char>) -> nat
    decreases s.len(),
{
    if s.len() == 0 {
        0
    } else {
        digits_value(s.drop_last()) * 10 + digit_val(s.last())
    }
}

/// The digits of an unsigned integer literal: a leading `+` is dropped when
/// something follows it.
pub open spec fn unsigned_digits(s: Seq<char>) -> Seq<char> {
    if s.len() >= 2 && s[0] == '+' {
        s.drop_first()
    } else {
        s
    }
}

/// What `str::parse` gives for an unsigned integer type whose largest value
/// is `max`.
pub open spec fn parse_unsigned(s: Seq<char>, max: nat) -> Option<nat> {
    let d = unsigned_digits(s);
    if d.len() > 0 && all_digits(d) && digits_value(d) <= max {
        Some(digits_value(d))
    } else {
        None
    }
}

/// What `str::parse::<i64>` gives.
pub open spec fn parse_i64(s: Seq<char>) -> Option<int> {
    if s.len() >= 2 && s[0] == '-' {
        let d = s.drop_first();
        if all_digits(d) && digits_value(d) <= 0x8000_0000_0000_0000 {
            Some(-(digits_value(d) as int))
        } else {
            None
        }
    } else {
        match parse_unsigned(s, 0x7fff_ffff_ffff_ffff) {
            Some(v) => Some(v as int),
            None => None,
        }
    }
}

pub proof fn lemma_digits_prefix_mono(s: Seq<char>, i: int, j: int)
    requires
        0 <= i <= j <= s.len(),
        all_digits(s),
    ensures
        digits_value(s.subrange(0, i)) <= digits_value(s.subrange(0, j)),
    decreases j - i,
{
    if i < j {
        lemma_digits_prefix_mono(s, i, j - 1);
        assert(s.subrange(0, j).drop_last() =~= s.subrange(0, j - 1));
    }
}

proof fn lemma_step_bound(acc: nat, d: nat, max: nat)
    requires
        d <= 9,
        9 <= max,
        acc <= (max - d) / 10,
    ensures
        acc * 10 + d <= max,
{
    assert(acc * 10 <= ((max - d) / 10) * 10) by (nonlinear_arith)
        requires
            acc <= (max - d) / 10,
    ;
    assert(((max - d) / 10) * 10 <= max - d) by (nonlinear_arith)
        requires
            max - d >= 0,
    ;
}

proof fn lemma_step_over(acc: nat, d: nat, max: nat)
    requires
        d <= 9,
        9 <= max,
        acc > (max - d) / 10,
    ensures
        acc * 10 + d > max,
{
    assert(acc * 10 + d > max) by (nonlinear_arith)
        requires
            acc >= (max - d) / 10 + 1,
            max - d >= 0,
            d <= 9,
    ;
}

/// Whether every character is a decimal digit.
pub fn all_digit_chars(s: &[char]) -> (r: bool)
    ensures
        r == all_digits(s@),
{
    let mut i: usize = 0;
    while i < s.len()
        invariant
            i <= s@.len(),
            forall|k: int| 0 <= k < i ==> is_digit(#[trigger] s@[k]),
        decreases s@.len() - i,
    {
        if !('0' <= s[i] && s[i] <= '9') {
            return false;
        }
        i = i + 1;
    }
    true
}

/// Value of the digit string `s[from..]`, or `None` when a character is not a
/// digit or the value exceeds `max`.
pub fn digits_in_range(s: &[char], from: usize, max: u64) -> (r: Option<u64>)
    requires
        from <= s@.len(),
        9 <= max,
    ensures
        ({
            let d = s@.subrange(from as int, s@.len() as int);
            match r {
                Some(v) => all_digits(d) && digits_value(d) <= max && v == digits_value(d),
                None => !(all_digits(d) && digits_value(d) <= max),
            }
        }),
{
    let ghost d = s@.subrange(from as int, s@.len() as int);
    let mut acc: u64 = 0;
    let mut k: usize = from;
    while k < s.len()
        invariant
            from <= k <= s@.len(),
            9 <= max,
            d == s@.subrange(from as int, s@.len() as int),
            all_digits(d.subrange(0, k - from)),
            acc == digits_value(d.subrange(0, k - from)),
            acc <= max,
        decreases s@.len() - k,
    {
        let c = s[k];
        if !('0' <= c && c <= '9') {
            assert(d[k - from] == c);
            return None;
        }
        let dv: u64 = (c as u32 - '0' as u32) as u64;
        assert(d.subrange(0, k + 1 - from).drop_last() =~= d.subrange(0, k - from));
        if acc > (max - dv) / 10 {
            proof {
                lemma_step_over(acc as nat, dv as nat, max as nat);
                if all_digits(d) {
                    lemma_digits_prefix_mono(d, k + 1 - from, d.len() as int);
                    assert(d.subrange(0, d.len() as int) =~= d);
                }
            }
            return None;
        }
        proof {
            lemma_step_bound(acc as nat, dv as nat, max as nat);
        }
        acc = acc * 10 + dv;
        k = k + 1;
        assert(all_digits(d.subrange(0, k - from)));
    }
    assert(d.subrange(0, k - from) =~= d);
    Some(acc)
}

/// `str::parse` for an unsigned type whose largest value is `max`.
pub fn parse_unsigned_slice(s: &[char], max: u64) -> (r: Option<u64>)
    requires
        9 <= max,
    ensures
        match r {
            Some(v) => parse_unsigned(s@, max as nat) == Some(v as nat),
            None => parse_unsigned(s@, max as nat) is None,
        },
{
    let from: usize = if s.len() >= 2 && s[0] == '+' {
        1
    } else {
        0
    };
    assert(s@.subrange(from as int, s@.len() as int) =~= unsigned_digits(s@));
    if s.len() - from == 0 {
        return None;
    }
    digits_in_range(s, from, max)
}

pub fn parse_u64_slice(s: &[char]) -> (r: Option<u64>)
    ensures
        match r {
            Some(v) => parse_unsigned(s@, u64::MAX as nat) == Some(v as nat),
            None => parse_unsigned(s@, u64::MAX as nat) is None,
        },
{
    parse_unsigned_slice(s, u64::MAX)
}

pub fn parse_i64_slice(s: &[char]) -> (r: Option<i64>)
    ensures
        match r {
            Some(v) => parse_i64(s@) == Some(v as int),
            None => parse_i64(s@) is None,
        },
{
    if s.len() >= 2 && s[0] == '-' {
        assert(s@.subrange(1, s@.len() as int) =~= s@.drop_first());
        match digits_in_range(s, 1, 0x8000_0000_0000_0000u64) {
            Some(v) => {
                let r: i128 = 0 - (v as i128);
                Some(r as i64)
            },
            None => None,
        }
    } else {
        match parse_unsigned_slice(s, 0x7fff_ffff_ffff_ffffu64) {
            Some(v) => Some(v as i64),
            None => None,
        }
    }
}

// ---------------------------------------------------------------------------
// Decimal output
// ---------------------------------------------------------------------------

pub open spec fn digit_char(n: nat) -> char {
    ((48 + n % 10) as u8) as char
}

/// The `{}` text of a natural number.
pub open spec fn dec(n: nat) -> Seq<char>
    decreases n,
{
    if n < 10 {
        seq![digit_char(n)]
    } else {
        dec(n / 10).push(digit_char(n % 10))
    }
}

/// The `{}` text of an integer.
pub open spec fn dec_int(n: int) -> Seq<char> {
    if n < 0 {
        seq!['-'] + dec((-n) as nat)
    } else {
        dec(n as nat)
    }
}

/// `t` preceded by enough zeros to be at least `w` characters long.
pub open spec fn zero_pad(t: Seq<char>, w: nat) -> Seq<char> {
    if t.len() < w {
        Seq::new((w - t.len()) as nat, |k: int| '0') + t
    } else {
        t
    }
}

pub fn push_dec(out: &mut String, n: u64)
    ensures
        final(out)@ == old(out)@ + dec(n as nat),
    decreases n,
{
    if n >= 10 {
        push_dec(out, n / 10);
    }
    let c: char = ((48 + n % 10) as u8) as char;
    push_char(out, c);
    assert(out@ =~= old(out)@ + dec(n as nat));
}

pub fn push_dec_i64(out: &mut String, n: i64)
    ensures
        final(out)@ == old(out)@ + dec_int(n as int),
{
    if n < 0 {
        push_char(out, '-');
        let m: u64 = (0 - (n as i128)) as u64;
        push_dec(out, m);
        assert(out@ =~= old(out)@ + dec_int(n as int));
    } else {
        push_dec(out, n as u64);
    }
}

/// Appends `n` zero-padded to width `w` (`{:0w}`).
pub fn push_dec_padded(out: &mut String, n: u64, w: usize)
    ensures
        final(out)@ == old(out)@ + zero_pad(dec(n as nat), w as nat),
{
    let mut digits = String::new();
    push_dec(&mut digits, n);
    let dv = to_chars(digits.as_str());
    if dv.len() < w {
        let mut k: usize = 0;
        let fill: usize = w - dv.len();
        while k < fill
            invariant
                k <= fill,
                out@ == old(out)@ + Seq::new(k as nat, |m: int| '0'),
            decreases fill - k,
        {
            push_char(out, '0');
            k = k + 1;
            assert(out@ =~= old(out)@ + Seq::new(k as nat, |m: int| '0'));
        }
    }
    push_chars(out, dv.as_slice());
    assert(out@ =~= old(out)@ + zero_pad(dec(n as nat), w as nat));
}

// ---------------------------------------------------------------------------
// Hexadecimal
// ---------------------------------------------------------------------------

pub open spec fn hex_char(n: nat) -> char {
    if n < 10 {
        ((48 + n) as u8) as char
    } else {
        ((87 + n) as u8) as char
    }
}

/// Lower-case hex text of bytes, two digits per byte (`{:02x}` each).
pub open spec fn hex_text(b: Seq<u8>) -> Seq<char>
    decreases b.len(),
{
    if b.len() == 0 {
        seq![]
    } else {
        hex_text(b.drop_last()) + seq![hex_char((b.last() / 16) as nat), hex_char((b.last() % 16) as nat)]
    }
}

pub fn push_hex(out: &mut String, b: &[u8])
    ensures
        final(out)@ == old(out)@ + hex_text(b@),
{
    let mut i: usize = 0;
    while i < b.len()
        invariant
            i <= b@.len(),
            out@ == old(out)@ + hex_text(b@.subrange(0, i as int)),
        decreases b@.len() - i,
    {
        let x = b[i];
        let hi: u8 = x / 16;
        let lo: u8 = x % 16;
        let ch: char = if hi < 10 { (48 + hi) as char } else { (87 + hi) as char };
        let cl: char = if lo < 10 { (48 + lo) as char } else { (87 + lo) as char };
        push_char(out, ch);
        push_char(out, cl);
        assert(b@.subrange(0, i + 1).drop_last() =~= b@.subrange(0, i as int));
        i = i + 1;
        assert(out@ =~= old(out)@ + hex_text(b@.subrange(0, i as int)));
    }
    assert(b@.subrange(0, b@.len() as int) =~= b@);
}

pub open spec fn is_hex_digit(c: char) -> bool {
    ('0' <= c && c <= '9') || ('a' <= c && c <= 'f') || ('A' <= c && c <= 'F')
}

pub open spec fn hex_val(c: char) -> nat {
    if '0' <= c && c <= '9' {
        (c as u32 - 48) as nat
    } else if 'a' <= c && c <= 'f' {
        (c as u32 - 87) as nat
    } else {
        (c as u32 - 55) as nat
    }
}

/// `u8::from_str_radix` of the two-character text `a b` in base 16.
pub open spec fn hex_pair(a: char, b: char) -> Option<u8> {
    if a == '+' {
        if is_hex_digit(b) {
            Some(hex_val(b) as u8)
        } else {
            None
        }
    } else if is_hex_digit(a) && is_hex_digit(b) {
        Some((hex_val(a) * 16 + hex_val(b)) as u8)
    } else {
        None
    }
}

/// Bytes from consecutive character pairs of `h[i..]`; pairs that are not
/// hex are skipped and a lone final character is ignored.
pub open spec fn hex_pairs_from(h: Seq<char>, i: int) -> Seq<u8>
    decreases h.len() - i,
{
    if i < 0 || i + 1 >= h.len() {
        seq![]
    } else {
        match hex_pair(h[i], h[i + 1]) {
            Some(b) => seq![b] + hex_pairs_from(h, i + 2),
            None => hex_pairs_from(h, i + 2),
        }
    }
}

/// Decoding of hex text after removing spaces.
pub open spec fn hex_decode(h: Seq<char>) -> Seq<u8> {
    hex_pairs_from(replace(h, seq![' '], seq![]), 0)
}

fn hex_val_exec(c: char) -> (r: Option<u8>)
    ensures
        match r {
            Some(v) => is_hex_digit(c) && v as nat == hex_val(c),
            None => !is_hex_digit(c),
        },
{
    if '0' <= c && c <= '9' {
        Some((c as u32 - 48) as u8)
    } else if 'a' <= c && c <= 'f' {
        Some((c as u32 - 87) as u8)
    } else if 'A' <= c && c <= 'F' {
        Some((c as u32 - 55) as u8)
    } else {
        None
    }
}

fn hex_pair_exec(a: char, b: char) -> (r: Option<u8>)
    ensures
        r == hex_pair(a, b),
{
    if a == '+' {
        match hex_val_exec(b) {
            Some(v) => Some(v),
            None => None,
        }
    } else {
        match (hex_val_exec(a), hex_val_exec(b)) {
            (Some(x), Some(y)) => Some(x * 16 + y),
            _ => None,
        }
    }
}

pub fn hex_decode_slice(h: &[char]) -> (r: Vec<u8>)
    ensures
        r@ == hex_decode(h@),
{
    let space = [' '];
    let empty: [char; 0] = [];
    let g = replace_slice(h, space.as_slice(), empty.as_slice());
    assert(space@ =~= seq![' ']);
    assert(empty@ =~= Seq::<char>::empty());
    let mut out: Vec<u8> = Vec::new();
    let mut i: usize = 0;
    while i < g.len() && g.len() - i >= 2
        invariant
            i <= g@.len() + 1,
            out@ + hex_pairs_from(g@, i as int) == hex_pairs_from(g@, 0),
        decreases g@.len() + 1 - i,
    {
        let ghost before = out@;
        match hex_pair_exec(g[i], g[i + 1]) {
            Some(b) => {
                out.push(b);
                assert(out@ + hex_pairs_from(g@, i + 2) =~= before + hex_pairs_from(
                    g@,
                    i as int,
                ));
            },
            None => {},
        }
        i = i + 2;
    }
    assert(out@ =~= out@ + hex_pairs_from(g@, i as int));
    out
}

// ---------------------------------------------------------------------------
// Reading back what was written
// ---------------------------------------------------------------------------

proof fn lemma_digit_char(k: nat)
    requires
        k < 10,
    ensures
        is_digit(digit_char(k)),
        digit_val(digit_char(k)) == k,
{
    assert(((48 + k % 10) as u8) as char as u32 == 48 + k % 10);
}

/// The decimal text of `n` is a non-empty string of digits denoting `n`.
pub proof fn lemma_dec_value(n: nat)
    ensures
        dec(n).len() > 0,
        all_digits(dec(n)),
        digits_value(dec(n)) == n,
    decreases n,
{
    lemma_digit_char(n % 10);
    if n >= 10 {
        lemma_dec_value(n / 10);
        let d = dec(n);
        assert(d.drop_last() =~= dec(n / 10));
        assert(d.last() == digit_char(n % 10));
        assert(digits_value(d) == digits_value(dec(n / 10)) * 10 + digit_val(digit_char(n % 10)));
        assert((n / 10) * 10 + n % 10 == n);
        assert(digit_val(digit_char(n % 10)) == n % 10);
        assert(digits_value(dec(n / 10)) == n / 10);
        assert(digits_value(d) == n);
        assert forall|i: int| 0 <= i < d.len() implies is_digit(#[trigger] d[i]) by {
            if i < d.len() - 1 {
                assert(d[i] == dec(n / 10)[i]);
            }
        }
    } else {
        assert(n % 10 == n);
        assert(dec(n).drop_last() =~= Seq::<char>::empty());
        assert(dec(n).last() == digit_char(n % 10));
        assert(digits_value(dec(n)) == digits_value(dec(n).drop_last()) * 10 + digit_val(dec(n).last()));
        assert(digits_value(dec(n)) == n);
    }
}

/// `str::parse` reads back the decimal text of any value within range.
pub proof fn lemma_parse_dec(n: nat, max: nat)
    requires
        n <= max,
    ensures
        parse_unsigned(dec(n), max) == Some(n),
{
    lemma_dec_value(n);
    assert(is_digit(dec(n)[0]));
    assert(unsigned_digits(dec(n)) == dec(n));
}

/// `str::parse::<i64>` reads back the decimal text of any `i64`.
pub proof fn lemma_parse_dec_int(n: i64)
    ensures
        parse_i64(dec_int(n as int)) == Some(n as int),
{
    if n < 0 {
        let m = (-(n as int)) as nat;
        lemma_dec_value(m);
        let t = dec_int(n as int);
        assert(t == seq!['-'] + dec(m));
        assert(t.drop_first() =~= dec(m));
        assert(t[0] == '-');
    } else {
        lemma_parse_dec(n as nat, 0x7fff_ffff_ffff_ffff);
        lemma_dec_value(n as nat);
        assert(is_digit(dec(n as nat)[0]));
    }
}

/// A digit string zero-padded on the left denotes the same number.
pub proof fn lemma_zero_pad_value(t: Seq<char>, w: nat)
    requires
        all_digits(t),
    ensures
        all_digits(zero_pad(t, w)),
        digits_value(zero_pad(t, w)) == digits_value(t),
        zero_pad(t, w).len() >= w,
        zero_pad(t, w).len() >= t.len(),
    decreases w,
{
    if t.len() < w {
        let z = zero_pad(t, w);
        let zeros = Seq::new((w - t.len()) as nat, |k: int| '0');
        assert(z == zeros + t);
        lemma_zeros_then(zeros, t);
    }
}

proof fn lemma_zeros_then(zeros: Seq<char>, t: Seq<char>)
    requires
        forall|k: int| 0 <= k < zeros.len() ==> zeros[k] == '0',
        all_digits(t),
    ensures
        all_digits(zeros + t),
        digits_value(zeros + t) == digits_value(t),
    decreases t.len(),
{
    let z = zeros + t;
    assert forall|i: int| 0 <= i < z.len() implies is_digit(#[trigger] z[i]) by {
        if i < zeros.len() {
            assert(z[i] == zeros[i]);
        } else {
            assert(z[i] == t[i - zeros.len()]);
        }
    }
    if t.len() == 0 {
        assert(z =~= zeros);
        lemma_zeros_value(zeros);
    } else {
        assert(z.drop_last() =~= zeros + t.drop_last());
        assert(all_digits(t.drop_last())) by {
            assert forall|i: int| 0 <= i < t.drop_last().len() implies is_digit(
                #[trigger] t.drop_last()[i],
            ) by {
                assert(t.drop_last()[i] == t[i]);
            }
        }
        lemma_zeros_then(zeros, t.drop_last());
        assert(z.last() == t.last());
    }
}

proof fn lemma_zeros_value(zeros: Seq<char>)
    requires
        forall|k: int| 0 <= k < zeros.len() ==> zeros[k] == '0',
    ensures
        digits_value(zeros) == 0,
    decreases zeros.len(),
{
    if zeros.len() > 0 {
        lemma_zeros_value(zeros.drop_last());
    }
}

/// Hex text has two characters per byte, the high digit first.
pub proof fn lemma_hex_text_shape(b: Seq<u8>)
    ensures
        hex_text(b).len() == 2 * b.len(),
        forall|k: int|
            0 <= k < b.len() ==> hex_text(b)[2 * k] == hex_char((b[k] / 16) as nat) && hex_text(
                b,
            )[2 * k + 1] == hex_char((b[k] % 16) as nat),
    decreases b.len(),
{
    if b.len() > 0 {
        lemma_hex_text_shape(b.drop_last());
        let h = hex_text(b);
        assert forall|k: int| 0 <= k < b.len() implies h[2 * k] == hex_char(
            (b[k] / 16) as nat,
        ) && h[2 * k + 1] == hex_char((b[k] % 16) as nat) by {
            if k < b.len() - 1 {
                assert(b.drop_last()[k] == b[k]);
            }
        }
    }
}

proof fn lemma_hex_pair_of(x: u8)
    ensures
        hex_pair(hex_char((x / 16) as nat), hex_char((x % 16) as nat)) == Some(x),
{
    let hi = (x / 16) as nat;
    let lo = (x % 16) as nat;
    assert(hi < 16 && lo < 16);
    assert(forall|d: nat| #![trigger hex_char(d)] d < 16 ==> is_hex_digit(hex_char(d)) && hex_val(hex_char(d)) == d && hex_char(d) != '+') by {
        assert forall|d: nat| #![trigger hex_char(d)] d < 16 implies is_hex_digit(hex_char(d)) && hex_val(hex_char(d)) == d && hex_char(d) != '+' by {
            if d < 10 {
                assert(((48 + d) as u8) as char as u32 == 48 + d);
            } else {
                assert(((87 + d) as u8) as char as u32 == 87 + d);
            }
        }
    }
    assert(hex_val(hex_char(hi)) * 16 + hex_val(hex_char(lo)) == x);
}

proof fn lemma_hex_pairs_of(b: Seq<u8>, k: int)
    requires
        0 <= k <= b.len(),
    ensures
        hex_pairs_from(hex_text(b), 2 * k) == b.subrange(k, b.len() as int),
    decreases b.len() - k,
{
    lemma_hex_text_shape(b);
    if k < b.len() {
        lemma_hex_pair_of(b[k]);
        lemma_hex_pairs_of(b, k + 1);
        assert(b.subrange(k, b.len() as int) =~= seq![b[k]] + b.subrange(k + 1, b.len() as int));
    } else {
        assert(b.subrange(k, b.len() as int) =~= Seq::<u8>::empty());
    }
}

proof fn lemma_replace_absent(s: Seq<char>, f: Seq<char>, t: Seq<char>, i: int)
    requires
        0 <= i <= s.len(),
        f.len() == 1,
        forall|k: int| 0 <= k < s.len() ==> s[k] != f[0],
    ensures
        crate::text::replace_from(s, f, t, i) == s.subrange(i, s.len() as int),
    decreases s.len() - i,
{
    if i < s.len() {
        lemma_replace_absent(s, f, t, i + 1);
        assert(s.subrange(i, i + 1)[0] == s[i]);
        assert(s.subrange(i, s.len() as int) =~= seq![s[i]] + s.subrange(i + 1, s.len() as int));
    } else {
        assert(s.subrange(i, s.len() as int) =~= Seq::<char>::empty());
    }
}

/// Decoding the hex text of bytes gives the bytes back.
pub proof fn law_hex_roundtrip(b: Seq<u8>)
    ensures
        hex_decode(hex_text(b)) == b,
{
    lemma_hex_text_shape(b);
    let h = hex_text(b);
    assert forall|k: int| 0 <= k < h.len() implies h[k] != seq![' '][0] by {
        let j = k / 2;
        assert(k == 2 * j || k == 2 * j + 1);
        let x = b[j];
        assert(hex_char((x / 16) as nat) != ' ' && hex_char((x % 16) as nat) != ' ') by {
            let hi = (x / 16) as nat;
            let lo = (x % 16) as nat;
            assert(hex_char(hi) as u32 >= 48) by {
                if hi < 10 {
                    assert(((48 + hi) as u8) as char as u32 == 48 + hi);
                } else {
                    assert(((87 + hi) as u8) as char as u32 == 87 + hi);
                }
            }
            assert(hex_char(lo) as u32 >= 48) by {
                if lo < 10 {
                    assert(((48 + lo) as u8) as char as u32 == 48 + lo);
                } else {
                    assert(((87 + lo) as u8) as char as u32 == 87 + lo);
                }
            }
        }
    }
    lemma_replace_absent(h, seq![' '], seq![], 0);
    assert(h.subrange(0, h.len() as int) =~= h);
    lemma_hex_pairs_of(b, 0);
    assert(b.subrange(0, b.len() as int) =~= b);
}

} // verus!
