//! Parsing the decimal text read back from hardware attribute files.
//!
//! At startup the primary path's attribute files seed the UI state: the
//! color file holds whitespace-separated decimal channel values, the
//! brightness file one decimal integer surrounded by whitespace. A color
//! read succeeds exactly when the file's tokens that denote 8-bit values
//! number three; a brightness read succeeds exactly when the trimmed
//! content denotes a 32-bit signed integer. Whitespace is the ASCII kind.

use vstd::prelude::*;

use crate::content::{brightness_line, color_line};
use crate::dec::{all_digits, dec_rep, dec_rep_i, dec_val, is_digit, lemma_dec_rep,
    lemma_dec_val_nonneg};

verus! {

/// Whether a byte is ASCII whitespace.
pub open spec fn is_ws(b: u8) -> bool {
    b == 9 || b == 10 || b == 11 || b == 12 || b == 13 || b == 32
}

/// The first position at or after `i` holding a non-whitespace byte, or the
/// length when only whitespace follows.
pub open spec fn skip_ws(s: Seq<u8>, i: int) -> int
    decreases s.len() - i,
{
    if i < 0 || i >= s.len() {
        s.len() as int
    } else if is_ws(s[i]) {
        skip_ws(s, i + 1)
    } else {
        i
    }
}

/// The first position at or after `i` holding a whitespace byte, or the
/// length: the end of the token that starts at `i`.
pub open spec fn token_end(s: Seq<u8>, i: int) -> int
    decreases s.len() - i,
{
    if i < 0 || i >= s.len() {
        s.len() as int
    } else if is_ws(s[i]) {
        i
    } else {
        token_end(s, i + 1)
    }
}

/// The position where the trailing whitespace of `s.subrange(0, i)` starts,
/// scanning leftwards from `i`.
pub open spec fn rskip_ws(s: Seq<u8>, i: int) -> int
    decreases i,
{
    if i <= 0 {
        0
    } else if is_ws(s[i - 1]) {
        rskip_ws(s, i - 1)
    } else {
        i
    }
}

/// The content with leading and trailing ASCII whitespace removed.
pub open spec fn trimmed(s: Seq<u8>) -> Seq<u8> {
    let lo = skip_ws(s, 0);
    if lo >= s.len() {
        Seq::empty()
    } else {
        s.subrange(lo, rskip_ws(s, s.len() as int))
    }
}

/// A token with an optional leading plus sign removed.
pub open spec fn unsigned_body(t: Seq<u8>) -> Seq<u8> {
    if t.len() > 0 && t[0] == 43 {
        t.subrange(1, t.len() as int)
    } else {
        t
    }
}

/// Whether a token denotes an 8-bit value: an optional plus sign, then one
/// or more digits, reading back to at most 255.
pub open spec fn is_dec_u8(t: Seq<u8>) -> bool {
    unsigned_body(t).len() > 0 && all_digits(unsigned_body(t)) && dec_val(unsigned_body(t)) <= 255
}

/// The value an 8-bit token denotes.
pub open spec fn u8_token_val(t: Seq<u8>) -> int {
    dec_val(unsigned_body(t))
}

/// Whether a token carries a leading minus sign.
pub open spec fn is_negative(t: Seq<u8>) -> bool {
    t.len() > 0 && t[0] == 45
}

/// A token with an optional leading plus or minus sign removed.
pub open spec fn signed_body(t: Seq<u8>) -> Seq<u8> {
    if t.len() > 0 && (t[0] == 43 || t[0] == 45) {
        t.subrange(1, t.len() as int)
    } else {
        t
    }
}

/// Whether a token denotes a 32-bit signed value: an optional sign, then
/// one or more digits, reading back to a value that fits.
pub open spec fn is_dec_i32(t: Seq<u8>) -> bool {
    signed_body(t).len() > 0 && all_digits(signed_body(t)) && (if is_negative(t) {
        dec_val(signed_body(t)) <= 0x8000_0000
    } else {
        dec_val(signed_body(t)) <= 0x7FFF_FFFF
    })
}

/// The value a 32-bit token denotes.
pub open spec fn i32_token_val(t: Seq<u8>) -> int {
    if is_negative(t) {
        -dec_val(signed_body(t))
    } else {
        dec_val(signed_body(t))
    }
}

proof fn lemma_skip_ws(s: Seq<u8>, i: int)
    requires
        0 <= i <= s.len(),
    ensures
        i <= skip_ws(s, i) <= s.len(),
        skip_ws(s, i) < s.len() ==> !is_ws(s[skip_ws(s, i)]),
    decreases s.len() - i,
{
    if i < s.len() && is_ws(s[i]) {
        lemma_skip_ws(s, i + 1);
    }
}

proof fn lemma_token_end(s: Seq<u8>, i: int)
    requires
        0 <= i <= s.len(),
    ensures
        i <= token_end(s, i) <= s.len(),
    decreases s.len() - i,
{
    if i < s.len() && !is_ws(s[i]) {
        lemma_token_end(s, i + 1);
    }
}

/// The values denoted by the 8-bit tokens of `s` at or after `i`, in order.
/// Tokens that denote no 8-bit value are passed over, as a read of the
/// color file passes over what it cannot parse.
pub open spec fn u8_values_from(s: Seq<u8>, i: int) -> Seq<int>
    decreases s.len() - i,
    via u8_values_from_dec
{
    let j = skip_ws(s, i);
    if j >= s.len() {
        Seq::empty()
    } else {
        let k = token_end(s, j);
        let t = s.subrange(j, k);
        if is_dec_u8(t) {
            seq![u8_token_val(t)] + u8_values_from(s, k)
        } else {
            u8_values_from(s, k)
        }
    }
}

#[via_fn]
proof fn u8_values_from_dec(s: Seq<u8>, i: int) {
    let j = skip_ws(s, i);
    if j < s.len() {
        if 0 <= i <= s.len() {
            lemma_skip_ws(s, i);
            lemma_token_end(s, j + 1);
        }
    }
}

/// Whether a byte is ASCII whitespace.
pub fn is_ws_byte(b: u8) -> (r: bool)
    ensures
        r == is_ws(b),
{
    b == 9 || b == 10 || b == 11 || b == 12 || b == 13 || b == 32
}

/// Read the digit run `s.subrange(start, end)` into a value, refusing the
/// run when it is empty, holds a non-digit, or reads back above `cap`.
fn parse_digits_capped(s: &Vec<u8>, start: usize, end: usize, cap: u64) -> (r: Option<u64>)
    requires
        start <= end <= s@.len(),
        cap <= 0x8000_0000,
    ensures
        ({
            let body = s@.subrange(start as int, end as int);
            match r {
                Some(v) => body.len() > 0 && all_digits(body) && dec_val(body) == v && v <= cap,
                None => !(body.len() > 0 && all_digits(body) && dec_val(body) <= cap),
            }
        }),
{
    let ghost body = s@.subrange(start as int, end as int);
    if start == end {
        return None;
    }
    let mut acc: u64 = 0;
    let mut i: usize = start;
    while i < end
        invariant
            start <= i <= end <= s@.len(),
            cap <= 0x8000_0000,
            body == s@.subrange(start as int, end as int),
            all_digits(s@.subrange(start as int, i as int)),
            acc <= cap + 1,
            dec_val(s@.subrange(start as int, i as int)) <= cap ==> acc == dec_val(
                s@.subrange(start as int, i as int),
            ),
            dec_val(s@.subrange(start as int, i as int)) > cap ==> acc == cap + 1,
        decreases end - i,
    {
        let b = s[i];
        let ghost pre = s@.subrange(start as int, i as int);
        let ghost cur = s@.subrange(start as int, i + 1);
        proof {
            assert(cur.drop_last() =~= pre);
            assert(cur.last() == s@[i as int]);
        }
        if b < 48 || b > 57 {
            proof {
                assert(body[i - start] == s@[i as int]);
                assert(!is_digit(body[i - start]));
            }
            return None;
        }
        proof {
            lemma_dec_val_nonneg(pre);
            if dec_val(pre) > cap {
                assert(dec_val(cur) == dec_val(pre) * 10 + (s@[i as int] - 48));
                assert(dec_val(pre) >= cap + 1);
                assert(dec_val(pre) * 10 >= (cap + 1) * 10);
            }
        }
        let next: u64 = acc * 10 + ((b - 48) as u64);
        acc = if next > cap {
            cap + 1
        } else {
            next
        };
        i = i + 1;
    }
    proof {
        assert(s@.subrange(start as int, end as int) =~= body);
    }
    if acc > cap {
        None
    } else {
        Some(acc)
    }
}

/// Parse one token as an 8-bit decimal value: an optional plus sign, then
/// digits reading back to at most 255.
fn parse_u8_token(s: &Vec<u8>, start: usize, end: usize) -> (r: Option<u8>)
    requires
        start <= end <= s@.len(),
    ensures
        ({
            let t = s@.subrange(start as int, end as int);
            match r {
                Some(v) => is_dec_u8(t) && v as int == u8_token_val(t),
                None => !is_dec_u8(t),
            }
        }),
{
    let ghost t = s@.subrange(start as int, end as int);
    let body_start: usize = if start < end && s[start] == 43 {
        start + 1
    } else {
        start
    };
    proof {
        assert(unsigned_body(t) =~= s@.subrange(body_start as int, end as int));
    }
    match parse_digits_capped(s, body_start, end, 255) {
        Some(v) => Some(v as u8),
        None => None,
    }
}

/// Parse one token as a 32-bit signed decimal value: an optional sign, then
/// digits reading back to a value that fits.
fn parse_i32_token(s: &Vec<u8>, start: usize, end: usize) -> (r: Option<i32>)
    requires
        start <= end <= s@.len(),
    ensures
        ({
            let t = s@.subrange(start as int, end as int);
            match r {
                Some(v) => is_dec_i32(t) && v as int == i32_token_val(t),
                None => !is_dec_i32(t),
            }
        }),
{
    let ghost t = s@.subrange(start as int, end as int);
    let negative = start < end && s[start] == 45;
    let body_start: usize = if start < end && (s[start] == 43 || s[start] == 45) {
        start + 1
    } else {
        start
    };
    proof {
        assert(signed_body(t) =~= s@.subrange(body_start as int, end as int));
    }
    let cap: u64 = if negative {
        0x8000_0000
    } else {
        0x7FFF_FFFF
    };
    match parse_digits_capped(s, body_start, end, cap) {
        Some(v) => {
            if negative {
                Some((-(v as i64)) as i32)
            } else {
                Some(v as i32)
            }
        },
        None => None,
    }
}

/// The values of a sequence of bytes, each widened to an integer.
pub open spec fn widened(s: Seq<u8>) -> Seq<int> {
    Seq::new(s.len(), |i: int| s[i] as int)
}

/// Parse the content of a color attribute file. The read succeeds exactly
/// when the tokens of the content that denote 8-bit values number three,
/// and then yields those three values in order.
pub fn parse_color(content: &Vec<u8>) -> (r: Option<(u8, u8, u8)>)
    ensures
        match r {
            Some(t) => u8_values_from(content@, 0) == seq![t.0 as int, t.1 as int, t.2 as int],
            None => u8_values_from(content@, 0).len() != 3,
        },
{
    let ghost s = content@;
    let n = content.len();
    let mut i: usize = 0;
    let mut vals: Vec<u8> = Vec::new();
    while i < n
        invariant
            i <= n == s.len(),
            s == content@,
            u8_values_from(s, 0) == widened(vals@) + u8_values_from(s, i as int),
        decreases n - i,
    {
        let ghost i_entry = i as int;
        // Skip the whitespace before the next token.
        while i < n && is_ws_byte(content[i])
            invariant
                i_entry <= i <= n == s.len(),
                s == content@,
                skip_ws(s, i_entry) == skip_ws(s, i as int),
            decreases n - i,
        {
            i = i + 1;
        }
        proof {
            assert(skip_ws(s, i as int) == i as int || i == n);
            assert(skip_ws(s, i_entry) == i as int);
            if i == n {
                assert(u8_values_from(s, i_entry) =~= u8_values_from(s, i as int));
            } else {
                assert(u8_values_from(s, i_entry) == u8_values_from(s, i as int));
            }
        }
        if i < n {
            // Find the end of the token.
            let ghost tok_start = i as int;
            let mut k: usize = i;
            while k < n && !is_ws_byte(content[k])
                invariant
                    tok_start <= k <= n == s.len(),
                    s == content@,
                    token_end(s, tok_start) == token_end(s, k as int),
                decreases n - k,
            {
                k = k + 1;
            }
            proof {
                assert(token_end(s, k as int) == k as int);
                lemma_token_end(s, tok_start + 1);
                assert(token_end(s, tok_start) == token_end(s, tok_start + 1));
                assert(k > i);
            }
            let ghost t = s.subrange(tok_start, k as int);
            proof {
                assert(skip_ws(s, tok_start) == tok_start);
                assert(u8_values_from(s, tok_start) == (if is_dec_u8(t) {
                    seq![u8_token_val(t)] + u8_values_from(s, k as int)
                } else {
                    u8_values_from(s, k as int)
                }));
            }
            match parse_u8_token(content, i, k) {
                Some(v) => {
                    vals.push(v);
                    proof {
                        assert(widened(vals@) =~= widened(vals@.drop_last()).push(v as int));
                        assert(widened(vals@) + u8_values_from(s, k as int) =~= widened(
                            vals@.drop_last(),
                        ) + u8_values_from(s, tok_start));
                    }
                },
                None => {},
            }
            i = k;
        }
    }
    proof {
        assert(u8_values_from(s, n as int) =~= Seq::<int>::empty());
        assert(u8_values_from(s, 0) =~= widened(vals@));
    }
    if vals.len() == 3 {
        let r = (vals[0], vals[1], vals[2]);
        proof {
            assert(widened(vals@) =~= seq![vals@[0] as int, vals@[1] as int, vals@[2] as int]);
        }
        Some(r)
    } else {
        None
    }
}

/// Parse the content of a brightness attribute file. The read succeeds
/// exactly when the content, trimmed of surrounding whitespace, denotes a
/// 32-bit signed integer.
pub fn parse_brightness(content: &Vec<u8>) -> (r: Option<i32>)
    ensures
        match r {
            Some(v) => is_dec_i32(trimmed(content@)) && v as int == i32_token_val(
                trimmed(content@),
            ),
            None => !is_dec_i32(trimmed(content@)),
        },
{
    let ghost s = content@;
    let n = content.len();
    let mut lo: usize = 0;
    while lo < n && is_ws_byte(content[lo])
        invariant
            lo <= n == s.len(),
            s == content@,
            skip_ws(s, 0) == skip_ws(s, lo as int),
        decreases n - lo,
    {
        lo = lo + 1;
    }
    proof {
        assert(skip_ws(s, 0) == lo as int);
    }
    if lo == n {
        proof {
            assert(trimmed(s) =~= Seq::<u8>::empty());
            assert(signed_body(trimmed(s)) =~= Seq::<u8>::empty());
        }
        return None;
    }
    let mut hi: usize = n;
    while hi > lo + 1 && is_ws_byte(content[hi - 1])
        invariant
            lo + 1 <= hi <= n == s.len(),
            s == content@,
            rskip_ws(s, n as int) == rskip_ws(s, hi as int),
        decreases hi,
    {
        hi = hi - 1;
    }
    proof {
        if is_ws(s[hi - 1]) {
            assert(hi == lo + 1);
            assert(!is_ws(s[lo as int]));
            assert(false);
        }
        assert(rskip_ws(s, hi as int) == hi as int);
        assert(trimmed(s) =~= s.subrange(lo as int, hi as int));
    }
    parse_i32_token(content, lo, hi)
}

proof fn lemma_token_end_run(s: Seq<u8>, i: int, k: int)
    requires
        0 <= i <= k <= s.len(),
        forall|t: int| i <= t < k ==> !is_ws(#[trigger] s[t]),
        k == s.len() || is_ws(s[k]),
    ensures
        token_end(s, i) == k,
    decreases k - i,
{
    if i < k {
        lemma_token_end_run(s, i + 1, k);
    }
}

/// One token of digits, ended by whitespace or the end of the content,
/// contributes exactly its value to the values the content denotes.
proof fn lemma_u8_values_token(s: Seq<u8>, i: int, k: int)
    requires
        0 <= i < k <= s.len(),
        forall|t: int| i <= t < k ==> is_digit(#[trigger] s[t]),
        dec_val(s.subrange(i, k)) <= 255,
        k == s.len() || is_ws(s[k]),
    ensures
        u8_values_from(s, i) == seq![dec_val(s.subrange(i, k))] + u8_values_from(s, k),
{
    assert(forall|t: int| i <= t < k ==> !is_ws(#[trigger] s[t]));
    assert(skip_ws(s, i) == i);
    lemma_token_end_run(s, i, k);
    let t = s.subrange(i, k);
    assert(is_digit(t[0]));
    assert(unsigned_body(t) == t);
    assert(all_digits(t));
    assert(is_dec_u8(t));
    assert(u8_token_val(t) == dec_val(t));
}

/// Whitespace before a token does not change the values a content denotes.
proof fn lemma_u8_values_ws(s: Seq<u8>, i: int)
    requires
        0 <= i < s.len(),
        is_ws(s[i]),
    ensures
        u8_values_from(s, i) == u8_values_from(s, i + 1),
{
    assert(skip_ws(s, i) == skip_ws(s, i + 1));
}

/// The color content the writer renders reads back to exactly the three
/// channels it was rendered from: writing a color and then reading the
/// color attribute at the next startup yields the same triple.
pub proof fn lemma_color_line_reads_back(r: u8, g: u8, b: u8)
    ensures
        u8_values_from(color_line(r, g, b), 0) == seq![r as int, g as int, b as int],
{
    let s = color_line(r, g, b);
    let ra = dec_rep(r as nat);
    let ga = dec_rep(g as nat);
    let ba = dec_rep(b as nat);
    lemma_dec_rep(r as nat);
    lemma_dec_rep(g as nat);
    lemma_dec_rep(b as nat);
    let la = ra.len() as int;
    let lb = ga.len() as int;
    let lc = ba.len() as int;
    assert(s.len() == la + lb + lc + 3);
    assert(s.subrange(0, la) =~= ra);
    assert(s[la] == 32);
    assert(s.subrange(la + 1, la + 1 + lb) =~= ga);
    assert(s[la + 1 + lb] == 32);
    assert(s.subrange(la + 2 + lb, la + 2 + lb + lc) =~= ba);
    assert(s[la + 2 + lb + lc] == 10);
    lemma_u8_values_token(s, 0, la);
    lemma_u8_values_ws(s, la);
    lemma_u8_values_token(s, la + 1, la + 1 + lb);
    lemma_u8_values_ws(s, la + 1 + lb);
    lemma_u8_values_token(s, la + 2 + lb, la + 2 + lb + lc);
    lemma_u8_values_ws(s, la + 2 + lb + lc);
    assert(u8_values_from(s, s.len() as int) =~= Seq::<int>::empty());
    assert(u8_values_from(s, 0) =~= seq![r as int, g as int, b as int]);
}

/// The brightness content the writer renders reads back to exactly the
/// value it was rendered from: writing a brightness and then reading the
/// brightness attribute at the next startup yields the same value.
pub proof fn lemma_brightness_line_reads_back(v: i32)
    ensures
        is_dec_i32(trimmed(brightness_line(v as int))),
        i32_token_val(trimmed(brightness_line(v as int))) == v,
{
    let s = brightness_line(v as int);
    let d = dec_rep_i(v as int);
    let n = s.len() as int;
    if v < 0 {
        lemma_dec_rep((-v) as nat);
        assert(d == seq![45u8] + dec_rep((-v) as nat));
    } else {
        lemma_dec_rep(v as nat);
    }
    assert(!is_ws(s[0]));
    assert(skip_ws(s, 0) == 0);
    assert(s[n - 1] == 10);
    assert(is_digit(s[n - 2]));
    assert(rskip_ws(s, n) == rskip_ws(s, n - 1));
    assert(rskip_ws(s, n - 1) == n - 1);
    assert(trimmed(s) =~= d);
    if v < 0 {
        assert(signed_body(d) =~= dec_rep((-v) as nat));
        assert(is_negative(d));
        assert(dec_val(signed_body(d)) == -v <= 0x8000_0000);
    } else {
        assert(is_digit(d[0]));
        assert(signed_body(d) == d);
        assert(!is_negative(d));
        assert(dec_val(signed_body(d)) == v <= 0x7FFF_FFFF);
    }
}

} // verus!
