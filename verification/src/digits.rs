//! ASCII digit strings: decimal and lowercase-hex renderings of unsigned
//! integers, and the numeric value of a digit string.  These are the
//! building blocks of the wire-protocol codec.

use vstd::prelude::*;

verus! {

/// ASCII byte of one decimal digit value.
pub open spec fn dec_digit(d: nat) -> u8
    recommends
        d < 10,
{
    (48 + d) as u8
}

/// Decimal rendering of `n`, most significant digit first, no leading
/// zeros (a single `0` for zero).
pub open spec fn dec_digits(n: nat) -> Seq<u8>
    decreases n,
{
    if n < 10 {
        seq![dec_digit(n)]
    } else {
        dec_digits(n / 10) + seq![dec_digit(n % 10)]
    }
}

/// ASCII byte of one hex digit value, lowercase.
pub open spec fn hex_digit(d: nat) -> u8
    recommends
        d < 16,
{
    if d < 10 {
        (48 + d) as u8
    } else {
        (87 + d) as u8
    }
}

/// Lowercase hex rendering of `n`, zero-padded on the left to at least
/// `w` digits; the shape of `{:0w$x}` formatting.
pub open spec fn hex_digits_wide(n: nat, w: nat) -> Seq<u8>
    decreases n, w,
{
    if n < 16 && w <= 1 {
        seq![hex_digit(n)]
    } else {
        hex_digits_wide(n / 16, if w == 0 { 0 } else { (w - 1) as nat }) + seq![hex_digit(n % 16)]
    }
}

pub open spec fn is_dec_digit(b: u8) -> bool {
    48 <= b <= 57
}

pub open spec fn is_hex_digit(b: u8) -> bool {
    is_dec_digit(b) || 97 <= b <= 102 || 65 <= b <= 70
}

pub open spec fn dec_val(b: u8) -> nat
    recommends
        is_dec_digit(b),
{
    (b - 48) as nat
}

pub open spec fn hex_val(b: u8) -> nat
    recommends
        is_hex_digit(b),
{
    if 48 <= b <= 57 {
        (b - 48) as nat
    } else if 97 <= b <= 102 {
        (b - 87) as nat
    } else {
        (b - 55) as nat
    }
}

/// Value of a decimal digit string, most significant digit first.
pub open spec fn dec_seq_val(s: Seq<u8>) -> nat
    decreases s.len(),
{
    if s.len() == 0 {
        0
    } else {
        dec_seq_val(s.drop_last()) * 10 + dec_val(s.last())
    }
}

/// Value of a hex digit string, most significant digit first.
pub open spec fn hex_seq_val(s: Seq<u8>) -> nat
    decreases s.len(),
{
    if s.len() == 0 {
        0
    } else {
        hex_seq_val(s.drop_last()) * 16 + hex_val(s.last())
    }
}

/// Every byte of a decimal rendering is a decimal digit, and there is at
/// least one of them.
pub proof fn lemma_dec_digits_shape(n: nat)
    ensures
        dec_digits(n).len() >= 1,
        forall|i: int| 0 <= i < dec_digits(n).len() ==> is_dec_digit(#[trigger] dec_digits(n)[i]),
    decreases n,
{
    if n >= 10 {
        lemma_dec_digits_shape(n / 10);
    }
}

/// Reading a decimal rendering back gives the number it renders.
pub proof fn lemma_dec_digits_value(n: nat)
    ensures
        dec_seq_val(dec_digits(n)) == n,
    decreases n,
{
    if n < 10 {
        let s = seq![dec_digit(n)];
        assert(s.drop_last() =~= Seq::<u8>::empty());
        assert(dec_seq_val(Seq::<u8>::empty()) == 0);
        assert(dec_val(dec_digit(n)) == n);
        assert(dec_seq_val(s) == n);
    } else {
        lemma_dec_digits_value(n / 10);
        let s = dec_digits(n);
        assert(s.drop_last() =~= dec_digits(n / 10));
        assert(s.last() == dec_digit(n % 10));
        assert(dec_seq_val(s) == (n / 10) * 10 + (n % 10));
        assert((n / 10) * 10 + (n % 10) == n) by (nonlinear_arith);
    }
}

/// Every byte of a hex rendering is a hex digit, and there is at least
/// one of them.
pub proof fn lemma_hex_digits_shape(n: nat, w: nat)
    ensures
        hex_digits_wide(n, w).len() >= 1,
        forall|i: int| 0 <= i < hex_digits_wide(n, w).len() ==> is_hex_digit(
            #[trigger] hex_digits_wide(n, w)[i],
        ),
    decreases n, w,
{
    if !(n < 16 && w <= 1) {
        lemma_hex_digits_shape(n / 16, if w == 0 { 0 } else { (w - 1) as nat });
    }
}

/// Reading a hex rendering back gives the number it renders, whatever
/// the padding width.
pub proof fn lemma_hex_digits_value(n: nat, w: nat)
    ensures
        hex_seq_val(hex_digits_wide(n, w)) == n,
    decreases n, w,
{
    if n < 16 && w <= 1 {
        let s = seq![hex_digit(n)];
        assert(s.drop_last() =~= Seq::<u8>::empty());
        assert(hex_seq_val(Seq::<u8>::empty()) == 0);
        assert(hex_val(hex_digit(n)) == n);
        assert(hex_seq_val(s) == n);
    } else {
        let w2 = if w == 0 { 0 } else { (w - 1) as nat };
        lemma_hex_digits_value(n / 16, w2);
        let s = hex_digits_wide(n, w);
        assert(s.drop_last() =~= hex_digits_wide(n / 16, w2));
        assert(s.last() == hex_digit(n % 16));
        assert(hex_seq_val(s) == (n / 16) * 16 + (n % 16));
        assert((n / 16) * 16 + (n % 16) == n) by (nonlinear_arith);
    }
}

/// Appends the decimal rendering of `n` to `v`.
pub fn push_dec_u16(v: &mut Vec<u8>, n: u16)
    ensures
        final(v)@ == old(v)@ + dec_digits(n as nat),
    decreases n,
{
    if n < 10 {
        v.push(48 + n as u8);
        assert(v@ =~= old(v)@ + dec_digits(n as nat));
    } else {
        push_dec_u16(v, n / 10);
        v.push(48 + (n % 10) as u8);
        assert(48 + ((n as nat) % 10) < 256) by (nonlinear_arith);
        assert(v@ =~= old(v)@ + dec_digits(n as nat));
    }
}

fn hex_digit_byte(d: u32) -> (b: u8)
    requires
        d < 16,
    ensures
        b == hex_digit(d as nat),
{
    if d < 10 {
        48 + d as u8
    } else {
        87 + d as u8
    }
}

/// Appends the lowercase hex rendering of `n`, zero-padded to at least
/// `w` digits, to `v`.
pub fn push_hex_u32(v: &mut Vec<u8>, n: u32, w: usize)
    ensures
        final(v)@ == old(v)@ + hex_digits_wide(n as nat, w as nat),
    decreases n, w,
{
    if n < 16 && w <= 1 {
        let b = hex_digit_byte(n);
        v.push(b);
        assert(v@ =~= old(v)@ + hex_digits_wide(n as nat, w as nat));
    } else {
        push_hex_u32(v, n / 16, if w == 0 { 0 } else { w - 1 });
        let b = hex_digit_byte(n % 16);
        v.push(b);
        assert(v@ =~= old(v)@ + hex_digits_wide(n as nat, w as nat));
    }
}

} // verus!
