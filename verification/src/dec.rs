//! Decimal text of integer values.
//!
//! The hardware attribute files and the persisted snapshot carry values as
//! ASCII decimal text. `dec_rep` gives the canonical digit string of a
//! natural number, `dec_rep_i` the signed form, and `dec_val` reads a digit
//! string back. The executable formatters are proved to produce exactly the
//! canonical representation, and the canonical representation reads back to
//! the value it was made from.

use vstd::prelude::*;

verus! {

/// Whether a byte is an ASCII decimal digit.
pub open spec fn is_digit(b: u8) -> bool {
    48 <= b <= 57
}

/// Whether every byte of `t` is an ASCII decimal digit.
pub open spec fn all_digits(t: Seq<u8>) -> bool {
    forall|i: int| 0 <= i < t.len() ==> is_digit(#[trigger] t[i])
}

/// The canonical decimal digit string of `n`: no sign, no leading zero
/// except for the single digit of zero itself.
pub open spec fn dec_rep(n: nat) -> Seq<u8>
    decreases n,
{
    if n < 10 {
        seq![(48 + n) as u8]
    } else {
        dec_rep(n / 10).push((48 + n % 10) as u8)
    }
}

/// The signed decimal digit string of `v`: a leading minus sign for
/// negative values.
pub open spec fn dec_rep_i(v: int) -> Seq<u8> {
    if v < 0 {
        seq![45u8] + dec_rep((-v) as nat)
    } else {
        dec_rep(v as nat)
    }
}

/// The numeric value of a digit string, most significant digit first.
/// Meaningful only when `all_digits` holds of the string.
pub open spec fn dec_val(t: Seq<u8>) -> int
    decreases t.len(),
{
    if t.len() == 0 {
        0
    } else {
        dec_val(t.drop_last()) * 10 + (t.last() - 48)
    }
}

/// The canonical representation is made of digits, is never empty, and
/// reads back to the value it represents.
pub proof fn lemma_dec_rep(n: nat)
    ensures
        dec_rep(n).len() >= 1,
        all_digits(dec_rep(n)),
        dec_val(dec_rep(n)) == n,
    decreases n,
{
    if n < 10 {
        let d = (48 + n) as u8;
        assert(seq![d].drop_last() =~= Seq::<u8>::empty());
        assert(dec_val(Seq::<u8>::empty()) == 0);
        assert(dec_val(seq![d]) == dec_val(seq![d].drop_last()) * 10 + (seq![d].last() - 48));
    } else {
        lemma_dec_rep(n / 10);
        let prefix = dec_rep(n / 10);
        let d = (48 + n % 10) as u8;
        assert(prefix.push(d).drop_last() =~= prefix);
        assert(prefix.push(d).last() == d);
        assert(dec_val(dec_rep(n)) == dec_val(prefix) * 10 + (d - 48));
        assert(n / 10 * 10 + n % 10 == n);
        assert forall|i: int| 0 <= i < dec_rep(n).len() implies is_digit(#[trigger] dec_rep(n)[i]) by {
            if i < prefix.len() {
                assert(dec_rep(n)[i] == prefix[i]);
            }
        }
    }
}

/// A digit string reads back to a non-negative value.
pub proof fn lemma_dec_val_nonneg(t: Seq<u8>)
    requires
        all_digits(t),
    ensures
        dec_val(t) >= 0,
    decreases t.len(),
{
    if t.len() > 0 {
        assert(all_digits(t.drop_last())) by {
            assert(forall|i: int| 0 <= i < t.len() - 1 ==> t.drop_last()[i] == #[trigger] t[i]);
        }
        lemma_dec_val_nonneg(t.drop_last());
    }
}

/// Format a natural number as its canonical decimal digit string.
pub fn fmt_u32(n: u32) -> (r: Vec<u8>)
    ensures
        r@ == dec_rep(n as nat),
    decreases n,
{
    if n < 10 {
        let mut r: Vec<u8> = Vec::new();
        r.push((48 + n) as u8);
        assert(r@ =~= dec_rep(n as nat));
        r
    } else {
        let mut r = fmt_u32(n / 10);
        r.push((48 + n % 10) as u8);
        assert(r@ =~= dec_rep(n as nat));
        r
    }
}

/// Format a signed value as its signed decimal digit string.
pub fn fmt_i32(v: i32) -> (r: Vec<u8>)
    ensures
        r@ == dec_rep_i(v as int),
{
    if v >= 0 {
        fmt_u32(v as u32)
    } else {
        let m: u32 = (-(v as i64)) as u32;
        let mut r: Vec<u8> = Vec::new();
        r.push(45);
        let mut digits = fmt_u32(m);
        r.append(&mut digits);
        assert(r@ =~= dec_rep_i(v as int));
        r
    }
}

} // verus!
