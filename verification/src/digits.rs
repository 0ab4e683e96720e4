//! Positional notation shared by the decimal and hexadecimal formatters and
//! parsers: what a digit string means, and what the formatters produce.
use vstd::prelude::*;

verus! {

/// ASCII for a digit value below 16, lower-case for 10..15.
pub open spec fn digit_char(d: nat) -> u8 {
    if d < 10 {
        (48 + d) as u8
    } else {
        (87 + d) as u8
    }
}

/// Value of a hex digit in either case: `0-9`, `a-f`, `A-F`.
pub open spec fn is_hex_char(b: u8) -> bool {
    (48 <= b && b <= 57) || (97 <= b && b <= 102) || (65 <= b && b <= 70)
}

/// Value of a character accepted by `is_hex_char` (0 for any other byte).
pub open spec fn digit_value(b: u8) -> nat {
    if 48 <= b && b <= 57 {
        (b - 48) as nat
    } else if 97 <= b && b <= 102 {
        (b - 87) as nat
    } else if 65 <= b && b <= 70 {
        (b - 55) as nat
    } else {
        0
    }
}

/// The number a digit string stands for in base `radix`, most significant
/// digit first.
pub open spec fn radix_value(s: Seq<u8>, radix: nat) -> nat
    decreases s.len(),
{
    if s.len() == 0 {
        0
    } else {
        radix_value(s.drop_last(), radix) * radix + digit_value(s.last())
    }
}

/// `v` with its `k` lowest digits (base `radix`) removed.
pub open spec fn shift(v: nat, k: nat, radix: nat) -> nat
    decreases k,
{
    if k == 0 || radix == 0 {
        v
    } else {
        shift(v, (k - 1) as nat, radix) / radix
    }
}

/// The `k` lowest digits of `v` in base `radix`, most significant first.
pub open spec fn low_digits(v: nat, k: nat, radix: nat) -> Seq<u8>
    decreases k,
{
    if k == 0 || radix == 0 {
        seq![]
    } else {
        low_digits(v / radix, (k - 1) as nat, radix).push(digit_char(v % radix))
    }
}

/// How many decimal digits `v` is written with (one for zero).
pub open spec fn dec_len(v: nat) -> nat
    decreases v,
{
    if v < 10 {
        1
    } else {
        1 + dec_len(v / 10)
    }
}

/// `v` in decimal without leading zeros.
pub open spec fn dec_digits(v: nat) -> Seq<u8> {
    low_digits(v, dec_len(v), 10)
}

/// `k` zero characters.
pub open spec fn zeros(k: nat) -> Seq<u8> {
    Seq::new(k, |i: int| 48u8)
}

pub proof fn lemma_digit_char(d: nat)
    requires
        d < 16,
    ensures
        is_hex_char(digit_char(d)),
        digit_value(digit_char(d)) == d,
        d < 10 ==> 48 <= digit_char(d) <= 57,
        digit_char(d) == 48 <==> d == 0,
{
}

/// Removing one more digit: the recursion can peel from either end.
pub proof fn lemma_shift_succ(v: nat, k: nat, radix: nat)
    requires
        radix > 1,
    ensures
        shift(v, k + 1, radix) == shift(v / radix, k, radix),
    decreases k,
{
    assert(shift(v, k + 1, radix) == shift(v, k, radix) / radix);
    if k > 0 {
        lemma_shift_succ(v, (k - 1) as nat, radix);
        assert(shift(v / radix, k, radix) == shift(v / radix, (k - 1) as nat, radix) / radix);
    }
}

/// Once all digits are gone, they stay gone.
pub proof fn lemma_shift_zero_mono(v: nat, k: nat, j: nat, radix: nat)
    requires
        radix > 1,
        shift(v, k, radix) == 0,
        k <= j,
    ensures
        shift(v, j, radix) == 0,
    decreases j - k,
{
    if j > k {
        lemma_shift_zero_mono(v, k, (j - 1) as nat, radix);
    }
}

/// Every character of `low_digits` is a digit of the base.
pub proof fn lemma_low_digits_chars(v: nat, k: nat, radix: nat)
    requires
        1 < radix <= 16,
    ensures
        low_digits(v, k, radix).len() == k,
        forall|i: int|
            0 <= i < k ==> is_hex_char(#[trigger] low_digits(v, k, radix)[i])
                && digit_value(low_digits(v, k, radix)[i]) < radix,
    decreases k,
{
    if k > 0 {
        lemma_low_digits_chars(v / radix, (k - 1) as nat, radix);
        lemma_digit_char(v % radix);
    }
}

/// The lowest `k + 1` digits are the digit at position `k` followed by the
/// lowest `k`.
pub proof fn lemma_low_digits_prepend(v: nat, k: nat, radix: nat)
    requires
        radix > 1,
    ensures
        low_digits(v, k + 1, radix) == seq![digit_char(shift(v, k, radix) % radix)] + low_digits(
            v,
            k,
            radix,
        ),
    decreases k,
{
    if k == 0 {
        assert(low_digits(v / radix, 0, radix) == Seq::<u8>::empty());
        assert(low_digits(v, 1, radix) =~= seq![digit_char(v % radix)]);
    } else {
        lemma_low_digits_prepend(v / radix, (k - 1) as nat, radix);
        lemma_shift_succ(v, (k - 1) as nat, radix);
        assert(low_digits(v, k + 1, radix) =~= seq![digit_char(shift(v, k, radix) % radix)]
            + low_digits(v, k, radix));
    }
}

/// Leading positions beyond the value's length are zeros.
pub proof fn lemma_low_digits_pad(v: nat, k: nat, j: nat, radix: nat)
    requires
        radix > 1,
        shift(v, k, radix) == 0,
        k <= j,
    ensures
        low_digits(v, j, radix) == zeros((j - k) as nat) + low_digits(v, k, radix),
    decreases j - k,
{
    if j == k {
        assert(zeros(0) + low_digits(v, k, radix) =~= low_digits(v, k, radix));
    } else {
        lemma_low_digits_pad(v, k, (j - 1) as nat, radix);
        lemma_low_digits_prepend(v, (j - 1) as nat, radix);
        lemma_shift_zero_mono(v, k, (j - 1) as nat, radix);
        assert(digit_char(0) == 48u8);
        let top = shift(v, (j - 1) as nat, radix);
        assert(top % radix == 0) by (nonlinear_arith)
            requires
                top == 0,
                radix > 1,
        ;
        assert(zeros((j - k) as nat) =~= seq![48u8] + zeros((j - 1 - k) as nat));
        assert(low_digits(v, j, radix) =~= zeros((j - k) as nat) + low_digits(v, k, radix));
    }
}

/// Reading the lowest `k` digits back gives the number, when it has no more
/// than `k` digits.
pub proof fn lemma_low_digits_value(v: nat, k: nat, radix: nat)
    requires
        1 < radix <= 16,
        shift(v, k, radix) == 0,
    ensures
        radix_value(low_digits(v, k, radix), radix) == v,
    decreases k,
{
    if k > 0 {
        lemma_shift_succ(v, (k - 1) as nat, radix);
        lemma_low_digits_value(v / radix, (k - 1) as nat, radix);
        let s = low_digits(v, k, radix);
        assert(s.drop_last() =~= low_digits(v / radix, (k - 1) as nat, radix));
        lemma_digit_char(v % radix);
        vstd::arithmetic::div_mod::lemma_fundamental_div_mod(v as int, radix as int);
        assert(v == (v / radix) * radix + v % radix) by (nonlinear_arith)
            requires
                v == radix * (v / radix) + v % radix,
        ;
    }
}

/// `dec_len` is exactly the number of divisions by ten that clear `v`.
pub proof fn lemma_dec_len(v: nat)
    ensures
        1 <= dec_len(v),
        shift(v, dec_len(v), 10) == 0,
        v > 0 ==> forall|k: nat| k < dec_len(v) ==> #[trigger] shift(v, k, 10) != 0,
    decreases v,
{
    if v < 10 {
        assert(shift(v, 1, 10) == shift(v, 0, 10) / 10);
    } else {
        lemma_dec_len(v / 10);
        lemma_shift_succ(v, dec_len(v / 10), 10);
        assert forall|k: nat| k < dec_len(v) implies #[trigger] shift(v, k, 10) != 0 by {
            if k > 0 {
                lemma_shift_succ(v, (k - 1) as nat, 10);
            }
        }
    }
}

/// A `u32` has at most ten decimal digits.
pub proof fn lemma_u32_dec_len(v: u32)
    ensures
        shift(v as nat, 10, 10) == 0,
        dec_len(v as nat) <= 10,
{
    let x = v as nat;
    assert(shift(x, 0, 10) == x);
    assert(shift(x, 1, 10) == x / 10);
    assert(shift(x, 1, 10) <= 429496729);
    assert(shift(x, 2, 10) == shift(x, 1, 10) / 10);
    assert(shift(x, 2, 10) <= 42949672);
    assert(shift(x, 3, 10) == shift(x, 2, 10) / 10);
    assert(shift(x, 3, 10) <= 4294967);
    assert(shift(x, 4, 10) == shift(x, 3, 10) / 10);
    assert(shift(x, 4, 10) <= 429496);
    assert(shift(x, 5, 10) == shift(x, 4, 10) / 10);
    assert(shift(x, 5, 10) <= 42949);
    assert(shift(x, 6, 10) == shift(x, 5, 10) / 10);
    assert(shift(x, 6, 10) <= 4294);
    assert(shift(x, 7, 10) == shift(x, 6, 10) / 10);
    assert(shift(x, 7, 10) <= 429);
    assert(shift(x, 8, 10) == shift(x, 7, 10) / 10);
    assert(shift(x, 8, 10) <= 42);
    assert(shift(x, 9, 10) == shift(x, 8, 10) / 10);
    assert(shift(x, 9, 10) <= 4);
    assert(shift(x, 10, 10) == shift(x, 9, 10) / 10);
    lemma_dec_len(x);
    if dec_len(x) > 10 {
        assert(shift(x, 10, 10) != 0);
    }
}

/// A `u32` has at most eight hexadecimal digits.
pub proof fn lemma_u32_hex_len(v: u32)
    ensures
        shift(v as nat, 8, 16) == 0,
{
    let x = v as nat;
    assert(shift(x, 0, 16) == x);
    assert(shift(x, 1, 16) == x / 16);
    assert(shift(x, 1, 16) <= 0xFFF_FFFF);
    assert(shift(x, 2, 16) == shift(x, 1, 16) / 16);
    assert(shift(x, 2, 16) <= 0xFF_FFFF);
    assert(shift(x, 3, 16) == shift(x, 2, 16) / 16);
    assert(shift(x, 3, 16) <= 0xF_FFFF);
    assert(shift(x, 4, 16) == shift(x, 3, 16) / 16);
    assert(shift(x, 4, 16) <= 0xFFFF);
    assert(shift(x, 5, 16) == shift(x, 4, 16) / 16);
    assert(shift(x, 5, 16) <= 0xFFF);
    assert(shift(x, 6, 16) == shift(x, 5, 16) / 16);
    assert(shift(x, 6, 16) <= 0xFF);
    assert(shift(x, 7, 16) == shift(x, 6, 16) / 16);
    assert(shift(x, 7, 16) <= 0xF);
    assert(shift(x, 8, 16) == shift(x, 7, 16) / 16);
}

/// The digits of `v` written in `k >= dec_len(v)` places: zeros, then the
/// digits without leading zeros.
pub proof fn lemma_dec_padded(v: nat, k: nat)
    requires
        shift(v, k, 10) == 0,
        k >= 1,
    ensures
        dec_len(v) <= k,
        low_digits(v, k, 10) == zeros((k - dec_len(v)) as nat) + dec_digits(v),
{
    lemma_dec_len(v);
    if dec_len(v) > k {
        if v > 0 {
            assert(shift(v, k, 10) != 0);
        }
        assert(dec_len(v) == 1);
    }
    lemma_low_digits_pad(v, dec_len(v), k, 10);
}

/// The leading digit of a positive number is not zero.
pub proof fn lemma_dec_digits_lead(v: nat)
    ensures
        dec_digits(v).len() == dec_len(v),
        v > 0 ==> dec_digits(v)[0] != 48u8,
        v == 0 ==> dec_digits(v) == seq![48u8],
{
    lemma_dec_len(v);
    lemma_low_digits_chars(v, dec_len(v), 10);
    let l = dec_len(v);
    lemma_low_digits_prepend(v, (l - 1) as nat, 10);
    if v > 0 {
        let top = shift(v, (l - 1) as nat, 10);
        assert(top != 0);
        assert(shift(v, l, 10) == top / 10);
        assert(top < 10);
        lemma_digit_char(top % 10);
    } else {
        assert(low_digits(0, 1, 10) =~= seq![48u8]);
    }
}

} // verus!
