//! Number parsing for command arguments.
use vstd::prelude::*;
use vstd::string::StringSliceAdditionalSpecFns;
use crate::digits::{
    dec_digits, digit_char, digit_value, is_hex_char, lemma_dec_len, lemma_digit_char,
    lemma_low_digits_chars, lemma_low_digits_value, lemma_u32_dec_len, lemma_u32_hex_len,
    low_digits, radix_value,
};

verus! {

/// The string starts with `0x` or `0X`.
pub open spec fn has_hex_prefix(s: Seq<u8>) -> bool {
    s.len() >= 2 && s[0] == 48u8 && (s[1] == 120u8 || s[1] == 88u8)
}

/// Base a number string is read in: 16 after a `0x`/`0X` prefix, else 10.
pub open spec fn number_radix(s: Seq<u8>) -> nat {
    if has_hex_prefix(s) {
        16
    } else {
        10
    }
}

/// The digits of a number string: everything after the prefix, if any.
pub open spec fn number_body(s: Seq<u8>) -> Seq<u8> {
    if has_hex_prefix(s) {
        s.skip(2)
    } else {
        s
    }
}

/// A digit of the base: `0-9`, and in base 16 also `a-f`/`A-F`.
pub open spec fn is_digit_of(b: u8, radix: nat) -> bool {
    if radix == 16 {
        is_hex_char(b)
    } else {
        48 <= b && b <= 57
    }
}

/// Length of the longest prefix made of digits of the base.
pub open spec fn digit_run(s: Seq<u8>, radix: nat) -> nat
    decreases s.len(),
{
    if s.len() == 0 {
        0
    } else if is_digit_of(s[0], radix) {
        1 + digit_run(s.skip(1), radix)
    } else {
        0
    }
}

/// What `parse_u32` yields: the digits of the string's base up to the first
/// character that is not one, read in that base, saturated at `u32::MAX`
/// (0 when there are none).
pub open spec fn parse_u32_spec(s: Seq<u8>) -> u32 {
    let body = number_body(s);
    let radix = number_radix(s);
    let v = radix_value(body.take(digit_run(body, radix) as int), radix);
    if v > u32::MAX {
        u32::MAX
    } else {
        v as u32
    }
}

/// A string `parse_hex` accepts: at most 32 hex characters, an even number.
pub open spec fn is_hex_string(s: Seq<u8>) -> bool {
    &&& s.len() <= 32
    &&& s.len() % 2 == 0
    &&& forall|i: int| 0 <= i < s.len() ==> is_hex_char(#[trigger] s[i])
}

/// Byte `i` of a hex string: the value of characters `2i` and `2i + 1`.
pub open spec fn hex_byte_at(s: Seq<u8>, i: int) -> u8 {
    (digit_value(s[2 * i]) * 16 + digit_value(s[2 * i + 1])) as u8
}

/// `digit_run` is the position of the first character that is not a digit
/// of the base.
pub proof fn lemma_digit_run(s: Seq<u8>, radix: nat, i: int)
    requires
        0 <= i <= s.len(),
        forall|j: int| 0 <= j < i ==> is_digit_of(#[trigger] s[j], radix),
        i == s.len() || !is_digit_of(s[i], radix),
    ensures
        digit_run(s, radix) == i,
    decreases i,
{
    if i > 0 {
        let t = s.skip(1);
        assert forall|j: int| 0 <= j < i - 1 implies is_digit_of(#[trigger] t[j], radix) by {
            assert(t[j] == s[j + 1]);
        }
        lemma_digit_run(t, radix, i - 1);
    }
}

/// Saturating one more digit onto a saturated value is saturating the exact
/// value.
proof fn lemma_saturate_step(v: nat, radix: nat, d: nat)
    requires
        radix >= 1,
    ensures
        ({
            let m = u32::MAX as nat;
            let sv = if v > m { m } else { v };
            let t = sv * radix + d;
            let exact = v * radix + d;
            (if t > m { m } else { t }) == (if exact > m { m } else { exact })
        }),
{
    let m = u32::MAX as nat;
    if v > m {
        assert(v * radix >= v) by (nonlinear_arith)
            requires
                radix >= 1,
        ;
        assert(m * radix >= m) by (nonlinear_arith)
            requires
                radix >= 1,
        ;
    }
}

/// Value of a hex digit in either case.
pub fn hex_val(c: u8) -> (r: Option<u8>)
    ensures
        r == (if is_hex_char(c) {
            Some(digit_value(c) as u8)
        } else {
            None::<u8>
        }),
{
    if 48 <= c && c <= 57 {
        Some(c - 48)
    } else if 97 <= c && c <= 102 {
        Some(c - 97 + 10)
    } else if 65 <= c && c <= 70 {
        Some(c - 65 + 10)
    } else {
        None
    }
}

/// Parses a `&str` as `u32`. A leading "0x" selects hex, otherwise decimal.
/// Stops at the first character that is not a digit of that base, and
/// saturates at `u32::MAX` on overflow.
pub fn parse_u32(s: &str) -> (r: u32)
    ensures
        r == parse_u32_spec(s.spec_bytes()),
{
    parse_u32_bytes(s.as_bytes())
}

/// `parse_u32` on the bytes of a string.
pub fn parse_u32_bytes(b: &[u8]) -> (r: u32)
    ensures
        r == parse_u32_spec(b@),
{
    let ghost bytes = b@;
    let hex = b.len() >= 2 && b[0] == 48u8 && (b[1] == 120u8 || b[1] == 88u8);
    let start: usize = if hex {
        2
    } else {
        0
    };
    let radix: u32 = if hex {
        16
    } else {
        10
    };
    let ghost body = number_body(bytes);
    assert(body =~= bytes.skip(start as int));
    let mut n: u32 = 0;
    let mut i: usize = start;
    while i < b.len()
        invariant_except_break
            start <= i <= b@.len(),
            b@ == bytes,
            body =~= bytes.skip(start as int),
            radix as nat == number_radix(bytes),
            hex <==> radix == 16,
            forall|j: int| 0 <= j < i - start ==> is_digit_of(#[trigger] body[j], radix as nat),
            n as nat == (if radix_value(body.take(i - start), radix as nat) > u32::MAX {
                u32::MAX as nat
            } else {
                radix_value(body.take(i - start), radix as nat)
            }),
        ensures
            start <= i <= b@.len(),
            forall|j: int| 0 <= j < i - start ==> is_digit_of(#[trigger] body[j], radix as nat),
            i == b@.len() || !is_digit_of(body[i - start], radix as nat),
            n as nat == (if radix_value(body.take(i - start), radix as nat) > u32::MAX {
                u32::MAX as nat
            } else {
                radix_value(body.take(i - start), radix as nat)
            }),
        decreases b@.len() - i,
    {
        let c = b[i];
        let d = if hex || (48 <= c && c <= 57) {
            match hex_val(c) {
                Some(d) => d,
                None => {
                    break;
                },
            }
        } else {
            break;
        };
        let ghost k = i - start;
        proof {
            let prefix = body.take(k + 1);
            assert(prefix.drop_last() =~= body.take(k));
            assert(prefix.last() == b@[i as int]);
            lemma_saturate_step(radix_value(body.take(k), radix as nat), radix as nat, d as nat);
        }
        let m = match n.checked_mul(radix) {
            Some(m) => m,
            None => u32::MAX,
        };
        n = m.saturating_add(d as u32);
        i = i + 1;
    }
    proof {
        lemma_digit_run(body, radix as nat, i - start);
    }
    n
}

/// Parses a hex string (no "0x" prefix) into a fixed 16-byte array + length.
/// Returns None on: > 32 hex chars, odd length, or non-hex character.
pub fn parse_hex(s: &str) -> (r: Option<([u8; 16], usize)>)
    ensures
        r is Some <==> is_hex_string(s.spec_bytes()),
        r matches Some((out, n)) ==> {
            &&& n == s.spec_bytes().len() / 2
            &&& forall|i: int| 0 <= i < n ==> out@[i] == hex_byte_at(s.spec_bytes(), i)
            &&& forall|i: int| n <= i < 16 ==> out@[i] == 0
        },
{
    parse_hex_bytes(s.as_bytes())
}

/// `parse_hex` on the bytes of a string.
pub fn parse_hex_bytes(b: &[u8]) -> (r: Option<([u8; 16], usize)>)
    ensures
        r is Some <==> is_hex_string(b@),
        r matches Some((out, n)) ==> {
            &&& n == b@.len() / 2
            &&& forall|i: int| 0 <= i < n ==> out@[i] == hex_byte_at(b@, i)
            &&& forall|i: int| n <= i < 16 ==> out@[i] == 0
        },
{
    if b.len() > 32 || b.len() % 2 != 0 {
        return None;
    }
    let mut out: [u8; 16] = [0u8; 16];
    let n = b.len() / 2;
    let mut i: usize = 0;
    while i < n
        invariant
            n == b@.len() / 2,
            b@.len() % 2 == 0,
            b@.len() <= 32,
            i <= n,
            out@.len() == 16,
            forall|j: int| 0 <= j < 2 * i ==> is_hex_char(#[trigger] b@[j]),
            forall|j: int| 0 <= j < i ==> out@[j] == hex_byte_at(b@, j),
            forall|j: int| i <= j < 16 ==> out@[j] == 0,
        decreases n - i,
    {
        let hi = match hex_val(b[2 * i]) {
            Some(h) => h,
            None => {
                return None;
            },
        };
        let lo = match hex_val(b[2 * i + 1]) {
            Some(l) => l,
            None => {
                return None;
            },
        };
        assert((hi << 4u8) | lo == hi * 16 + lo) by (bit_vector)
            requires
                hi < 16,
                lo < 16,
        ;
        out[i] = (hi << 4u8) | lo;
        proof {
            assert forall|j: int| 0 <= j < 2 * (i + 1) implies is_hex_char(#[trigger] b@[j]) by {
                if j >= 2 * i {
                    assert(j == 2 * i || j == 2 * i + 1);
                }
            }
        }
        i = i + 1;
    }
    Some((out, n))
}

/// A string of digits of the base, without prefix, reads as its value.
proof fn lemma_parse_digits(s: Seq<u8>, v: u32, radix: nat)
    requires
        radix == 10 || radix == 16,
        forall|i: int| 0 <= i < s.len() ==> is_digit_of(#[trigger] s[i], radix),
        number_body(s) == s,
        number_radix(s) == radix,
        radix_value(s, radix) == v,
    ensures
        parse_u32_spec(s) == v,
{
    lemma_digit_run(s, radix, s.len() as int);
    assert(s.take(s.len() as int) =~= s);
}

/// `parse_u32` reads back the decimal rendering of `format_u32` and
/// `serial_write_u32`.
pub proof fn lemma_parse_u32_dec_digits(v: u32)
    ensures
        parse_u32_spec(dec_digits(v as nat)) == v,
{
    let s = dec_digits(v as nat);
    lemma_dec_len(v as nat);
    lemma_low_digits_chars(v as nat, crate::digits::dec_len(v as nat), 10);
    lemma_low_digits_value(v as nat, crate::digits::dec_len(v as nat), 10);
    if s.len() >= 2 {
        assert(digit_value(s[1]) < 10);
        assert(s[1] != 120u8 && s[1] != 88u8);
    }
    lemma_parse_digits(s, v, 10);
}

/// `parse_u32` reads back the zero-padded rendering of `u32::fmt_dec`.
pub proof fn lemma_parse_u32_fmt_dec(v: u32)
    ensures
        parse_u32_spec(low_digits(v as nat, 10, 10)) == v,
{
    let s = low_digits(v as nat, 10, 10);
    lemma_u32_dec_len(v);
    lemma_low_digits_chars(v as nat, 10, 10);
    lemma_low_digits_value(v as nat, 10, 10);
    assert(digit_value(s[1]) < 10);
    assert(s[1] != 120u8 && s[1] != 88u8);
    lemma_parse_digits(s, v, 10);
}

/// `parse_u32` reads back the `0x` rendering of `u32::fmt_hex`.
pub proof fn lemma_parse_u32_fmt_hex(v: u32)
    ensures
        parse_u32_spec(seq![48u8, 120u8] + low_digits(v as nat, 8, 16)) == v,
{
    let s = seq![48u8, 120u8] + low_digits(v as nat, 8, 16);
    let body = low_digits(v as nat, 8, 16);
    lemma_u32_hex_len(v);
    lemma_low_digits_chars(v as nat, 8, 16);
    lemma_low_digits_value(v as nat, 8, 16);
    assert(has_hex_prefix(s));
    assert(number_body(s) =~= body);
    assert forall|j: int| 0 <= j < body.len() implies is_digit_of(#[trigger] body[j], 16) by {}
    lemma_digit_run(body, 16, body.len() as int);
    assert(body.take(body.len() as int) =~= body);
}

} // verus!
