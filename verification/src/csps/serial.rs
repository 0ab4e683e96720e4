//! Serial output formatting and line assembly for the CSPS firmware.
use vstd::prelude::*;
use vstd::string::StringSliceAdditionalSpecFns;
use vstd::arithmetic::power2::pow2;
use crate::digits::{
    dec_digits, digit_char, lemma_dec_digits_lead, lemma_dec_padded, lemma_low_digits_chars,
    lemma_u32_dec_len, low_digits, zeros,
};
use crate::sdi_write::FormatDec;
use crate::text::{append, to_vec};
use crate::tx::{push, sends, TxPipe};
use crate::line_buf::{line_bytes, LineBuf, LineChannel};

verus! {

/// Decimal rendering of `v` without leading zeros.
pub fn format_u32(v: u32) -> (r: Vec<u8>)
    ensures
        r@ == dec_digits(v as nat),
{
    let buf = v.fmt_dec();
    let mut skip: usize = 0;
    proof {
        lemma_u32_dec_len(v);
        lemma_dec_padded(v as nat, 10);
        lemma_dec_digits_lead(v as nat);
    }
    let ghost lead = (10 - crate::digits::dec_len(v as nat)) as int;
    while skip < 9 && buf[skip] == 48u8
        invariant
            skip <= 9,
            buf@ == zeros(lead as nat) + dec_digits(v as nat),
            buf@.len() == 10,
            skip <= lead,
            0 <= lead <= 9,
            v > 0 ==> dec_digits(v as nat)[0] != 48u8,
            v == 0 ==> lead == 9,
        decreases 9 - skip,
    {
        proof {
            if skip == lead && v > 0 {
                assert(buf@[skip as int] == dec_digits(v as nat)[0]);
            }
        }
        skip = skip + 1;
    }
    proof {
        if v > 0 && skip < lead {
            assert(buf@[skip as int] == 48u8);
        }
    }
    let mut out: Vec<u8> = Vec::new();
    let mut i: usize = skip;
    while i < 10
        invariant
            skip <= i <= 10,
            buf@.len() == 10,
            out@ == buf@.subrange(skip as int, i as int),
        decreases 10 - i,
    {
        out.push(buf[i]);
        i = i + 1;
        proof {
            assert(buf@.subrange(skip as int, i as int) =~= buf@.subrange(skip as int, i - 1).push(
                buf@[i - 1],
            ));
        }
    }
    proof {
        assert(out@ =~= dec_digits(v as nat));
    }
    out
}

/// Two lower-case hex digits for a byte.
pub fn format_hex_byte(v: u8) -> (r: [u8; 2])
    ensures
        r@ == low_digits(v as nat, 2, 16),
{
    assert((v >> 4u8) == v / 16 && (v & 0x0fu8) == v % 16) by (bit_vector);
    let hi = v >> 4u8;
    let lo = v & 0x0fu8;
    let h: u8 = if hi < 10 {
        48 + hi
    } else {
        87 + hi
    };
    let l: u8 = if lo < 10 {
        48 + lo
    } else {
        87 + lo
    };
    proof {
        let x = v as nat;
        assert(low_digits(x / 16 / 16, 0, 16) =~= Seq::<u8>::empty());
        assert((x / 16) % 16 == x / 16);
        assert(low_digits(x / 16, 1, 16) =~= seq![digit_char(x / 16)]);
        assert(low_digits(x, 2, 16) =~= seq![digit_char(x / 16), digit_char(x % 16)]);
    }
    let r: [u8; 2] = [h, l];
    proof {
        assert(r@ =~= seq![h, l]);
    }
    r
}

/// Register value for the fraction bits of a fixed-point number: `f` after
/// `k` long-division steps in base ten against `2^scale`.
pub open spec fn frac_state(f: nat, scale: nat, k: nat) -> nat
    decreases k,
{
    if k == 0 {
        f
    } else {
        (frac_state(f, scale, (k - 1) as nat) * 10) % pow2(scale)
    }
}

/// Decimal digit `k` (0 = first after the point) of `f / 2^scale`, truncated.
pub open spec fn frac_digit(f: nat, scale: nat, k: nat) -> u8 {
    (48 + (frac_state(f, scale, k) * 10) / pow2(scale)) as u8
}

/// The first `n` decimal digits of the fraction `f / 2^scale`.
pub open spec fn frac_digits(f: nat, scale: nat, n: nat) -> Seq<u8> {
    Seq::new(n, |k: int| frac_digit(f, scale, k as nat))
}

/// What `serial_write_fixed` prints after the integer part: nothing when no
/// digits are asked for or there are no fraction bits, else a point and
/// `min(digits, 4)` truncated decimal digits of the fraction.
pub open spec fn fixed_fraction_text(raw: u16, scale: u8, digits: u8) -> Seq<u8> {
    if digits == 0 || scale == 0 {
        seq![]
    } else {
        let n: nat = if digits > 4 {
            4
        } else {
            digits as nat
        };
        seq![46u8] + frac_digits((raw as nat) % pow2(scale as nat), scale as nat, n)
    }
}

/// The full rendering of a fixed-point value with `scale` fraction bits.
pub open spec fn fixed_text(raw: u16, scale: u8, digits: u8) -> Seq<u8> {
    dec_digits((raw as nat) / pow2(scale as nat)) + fixed_fraction_text(raw, scale, digits)
}

/// The fraction part of a fixed-point rendering (see `fixed_fraction_text`).
pub fn format_fixed_fraction(raw: u16, scale: u8, digits: u8) -> (r: Vec<u8>)
    requires
        scale < 16,
    ensures
        r@ == fixed_fraction_text(raw, scale, digits),
{
    if digits == 0 || scale == 0 {
        return Vec::new();
    }
    let s = scale as u32;
    proof {
        vstd::bits::lemma_u32_pow2_no_overflow(s as nat);
        vstd::bits::lemma_u32_shl_is_mul(1, s);
        vstd::arithmetic::power2::lemma_pow2_pos(s as nat);
        vstd::arithmetic::power2::lemma2_to64();
        vstd::arithmetic::power2::lemma_pow2_strictly_increases(s as nat, 16);
    }
    let p: u32 = 1u32 << s;
    let mask: u32 = p - 1;
    proof {
        assert(mask as nat == vstd::bits::low_bits_mask(s as nat));
        vstd::bits::lemma_u32_low_bits_mask_is_mod(raw as u32, s as nat);
    }
    let ghost f0 = (raw as nat) % pow2(s as nat);
    let mut f: u32 = raw as u32 & mask;
    let n: usize = if digits > 4 {
        4
    } else {
        digits as usize
    };
    let mut out: Vec<u8> = Vec::new();
    out.push(46u8);
    let mut i: usize = 0;
    while i < n
        invariant
            n <= 4,
            i <= n,
            s < 16,
            p as nat == pow2(s as nat),
            pow2(s as nat) <= 0x8000,
            mask as nat == vstd::bits::low_bits_mask(s as nat),
            f as nat == frac_state(f0, s as nat, i as nat),
            f < p,
            out@ == seq![46u8] + frac_digits(f0, s as nat, i as nat),
        decreases n - i,
    {
        let t: u32 = f * 10;
        proof {
            vstd::bits::lemma_u32_shr_is_div(t, s);
            vstd::bits::lemma_u32_low_bits_mask_is_mod(t, s as nat);
            assert(t / p < 10) by (nonlinear_arith)
                requires
                    t == f * 10,
                    f < p,
                    p > 0,
            ;
        }
        let d: u8 = (t >> s) as u8;
        out.push(48u8 + d);
        proof {
            assert(out@ =~= seq![46u8] + frac_digits(f0, s as nat, (i + 1) as nat));
        }
        f = t & mask;
        i = i + 1;
    }
    out
}

/// Queues `data` for the UART; drops what does not fit while the pipe is
/// full (see `sends`).
pub fn serial_write<const N: usize>(tx: &mut TxPipe<'_, N>, data: &[u8])
    ensures
        sends(*old(tx), *final(tx), data@),
{
    let _ = push(tx, data);
}

/// Queues two hex digits (`format_hex_byte`).
pub fn serial_write_hex<const N: usize>(tx: &mut TxPipe<'_, N>, v: u8)
    ensures
        sends(*old(tx), *final(tx), low_digits(v as nat, 2, 16)),
{
    let h = format_hex_byte(v);
    let _ = push(tx, &h);
}

/// Queues `v` in decimal (`format_u32`).
pub fn serial_write_u32<const N: usize>(tx: &mut TxPipe<'_, N>, v: u32)
    ensures
        sends(*old(tx), *final(tx), dec_digits(v as nat)),
{
    let t = format_u32(v);
    let _ = push(tx, t.as_slice());
}

/// The rendering of a fixed-point value (see `fixed_text`).
pub fn format_fixed(raw: u16, scale: u8, digits: u8) -> (r: Vec<u8>)
    requires
        scale < 16,
    ensures
        r@ == fixed_text(raw, scale, digits),
{
    proof {
        vstd::bits::lemma_u16_shr_is_div(raw, scale as u16);
        vstd::arithmetic::power2::lemma2_to64();
    }
    let mut out = format_u32((raw >> scale) as u32);
    assert(out@ == dec_digits((raw as nat) / pow2(scale as nat)));
    let f = format_fixed_fraction(raw, scale, digits);
    append(&mut out, f.as_slice());
    assert(out@ =~= fixed_text(raw, scale, digits));
    out
}

/// Print a fixed-point value: `raw` with `scale` fractional bits, the
/// integer part first, then the point and up to four truncated digits.
/// `serial_write_fixed(0x0C4C, 8, 3)` prints "12.296".
pub fn serial_write_fixed<const N: usize>(tx: &mut TxPipe<'_, N>, raw: u16, scale: u8, digits: u8)
    requires
        scale < 16,
    ensures
        sends(*old(tx), *final(tx), fixed_text(raw, scale, digits)),
{
    let t = format_fixed(raw, scale, digits);
    let _ = push(tx, t.as_slice());
}

/// A printable ASCII character (what a command line may hold).
pub open spec fn is_printable(b: u8) -> bool {
    0x20 <= b && b <= 0x7e
}

/// A byte as it enters the line: upper-cased when `ucase` is on.
pub open spec fn line_char(b: u8, ucase: bool) -> u8 {
    if ucase && 97 <= b && b <= 122 {
        (b - 32) as u8
    } else {
        b
    }
}

/// What one received byte does to the line being assembled.
pub struct RxEffect {
    /// The line it completes, if any.
    pub line: Option<Seq<u8>>,
    /// The text echoed back (empty when echo is off).
    pub echo: Seq<u8>,
}

/// The reader's state after one byte, and what the byte does: CR or LF ends
/// the line (once for a CR LF pair or a run of line ends), ESC discards it,
/// a printable character is appended (upper-cased if `ucase`) and a line
/// that would exceed 64 bytes is discarded with an error; other bytes are
/// ignored. With `echo` on, the user sees the effect.
pub open spec fn rx_next(line: Seq<u8>, crlf: bool, b: u8, echo: bool, ucase: bool) -> (
    Seq<u8>,
    bool,
    RxEffect,
) {
    if b == 10 || b == 13 {
        if !crlf {
            (
                seq![],
                true,
                RxEffect {
                    line: Some(line),
                    echo: if echo {
                        "\r\n".spec_bytes()
                    } else {
                        seq![]
                    },
                },
            )
        } else {
            (line, crlf, RxEffect { line: None, echo: seq![] })
        }
    } else if b == 0x1b {
        (
            seq![],
            crlf,
            RxEffect {
                line: None,
                echo: if echo {
                    "\r\n## ".spec_bytes()
                } else {
                    seq![]
                },
            },
        )
    } else if is_printable(b) {
        let c = line_char(b, ucase);
        if line.len() < 64 {
            (
                line.push(c),
                false,
                RxEffect {
                    line: None,
                    echo: if echo {
                        seq![c]
                    } else {
                        seq![]
                    },
                },
            )
        } else {
            (
                seq![],
                false,
                RxEffect {
                    line: None,
                    echo: if echo {
                        seq![c] + "\r\n!! ERR-LINE\r\n## ".spec_bytes()
                    } else {
                        seq![]
                    },
                },
            )
        }
    } else {
        (line, crlf, RxEffect { line: None, echo: seq![] })
    }
}

/// The receive side's line state: the line so far and whether the last line
/// end has been seen (so that CR LF counts once).
pub struct RxState {
    pub line: LineBuf,
    pub crlf: bool,
}

impl RxState {
    /// The line holds at most 64 printable characters.
    pub open spec fn wf(self) -> bool {
        &&& line_bytes(self.line).len() <= 64
        &&& forall|i: int|
            0 <= i < line_bytes(self.line).len() ==> is_printable(#[trigger] line_bytes(self.line)[i])
    }

    /// An empty line, no line end seen.
    pub fn new() -> (r: RxState)
        ensures
            r.wf(),
            line_bytes(r.line) == Seq::<u8>::empty(),
            !r.crlf,
    {
        RxState { line: LineBuf::new(), crlf: false }
    }
}

/// One received byte (see `rx_next`): updates the line state and returns the
/// echo text and the completed line, if any.
pub fn rx_byte(state: &mut RxState, b: u8, echo: bool, ucase: bool) -> (r: (Vec<u8>, Option<LineBuf>))
    requires
        old(state).wf(),
    ensures
        final(state).wf(),
        ({
            let (l, c, e) = rx_next(line_bytes(old(state).line), old(state).crlf, b, echo, ucase);
            &&& line_bytes(final(state).line) == l
            &&& final(state).crlf == c
            &&& r.0@ == e.echo
            &&& (r.1 is Some <==> e.line is Some)
            &&& (r.1 matches Some(sent) ==> Some(line_bytes(sent)) == e.line)
        }),
{
    if b == 10 || b == 13 {
        if !state.crlf {
            let echo_text = if echo {
                to_vec("\r\n".as_bytes())
            } else {
                Vec::new()
            };
            let done = state.line.copy();
            state.line.clear();
            state.crlf = true;
            (echo_text, Some(done))
        } else {
            (Vec::new(), None)
        }
    } else if b == 0x1b {
        state.line.clear();
        let echo_text = if echo {
            to_vec("\r\n## ".as_bytes())
        } else {
            Vec::new()
        };
        (echo_text, None)
    } else if 0x20 <= b && b <= 0x7e {
        let c = if ucase && b >= 97 && b <= 122 {
            b - 0x20
        } else {
            b
        };
        let mut echo_text: Vec<u8> = Vec::new();
        if echo {
            echo_text.push(c);
        }
        let ghost before = line_bytes(state.line);
        match state.line.push_ascii(c) {
            Ok(()) => {
                proof {
                    assert forall|i: int|
                        0 <= i < line_bytes(state.line).len() implies is_printable(
                        #[trigger] line_bytes(state.line)[i],
                    ) by {
                        if i < before.len() {
                            assert(line_bytes(state.line)[i] == before[i]);
                        }
                    }
                }
            },
            Err(()) => {
                state.line.clear();
                if echo {
                    append(&mut echo_text, "\r\n!! ERR-LINE\r\n## ".as_bytes());
                }
            },
        }
        state.crlf = false;
        (echo_text, None)
    } else {
        (Vec::new(), None)
    }
}

/// What a run of bytes does, each handled as `rx_next` says: the line state
/// afterwards, the lines completed, in order, and the echo text.
pub open spec fn rx_run(line: Seq<u8>, crlf: bool, bytes: Seq<u8>, echo: bool, ucase: bool) -> (
    Seq<u8>,
    bool,
    Seq<Seq<u8>>,
    Seq<u8>,
)
    decreases bytes.len(),
{
    if bytes.len() == 0 {
        (line, crlf, seq![], seq![])
    } else {
        let (l, c, lines, e) = rx_run(line, crlf, bytes.drop_last(), echo, ucase);
        let (l2, c2, eff) = rx_next(l, c, bytes.last(), echo, ucase);
        (
            l2,
            c2,
            match eff.line {
                Some(done) => lines.push(done),
                None => lines,
            },
            e + eff.echo,
        )
    }
}

/// Handles a chunk read from the UART: each byte as `rx_byte` says. Every
/// completed line is offered to `lines` (the channel drops it if the handler
/// has not taken the previous one), and the echo of the chunk is queued on
/// `tx` (see `rx_run`).
pub fn rx_process<const N: usize>(
    state: &mut RxState,
    bytes: &[u8],
    echo: bool,
    ucase: bool,
    tx: &mut TxPipe<'_, N>,
    lines: &mut LineChannel<'_>,
)
    requires
        old(state).wf(),
    ensures
        final(state).wf(),
        ({
            let (l, c, done, e) = rx_run(
                line_bytes(old(state).line),
                old(state).crlf,
                bytes@,
                echo,
                ucase,
            );
            &&& line_bytes(final(state).line) == l
            &&& final(state).crlf == c
            &&& final(lines).port == old(lines).port
            &&& final(lines).offered@ == old(lines).offered@ + done
            &&& sends(*old(tx), *final(tx), e)
        }),
{
    let ghost l0 = line_bytes(state.line);
    let ghost c0 = state.crlf;
    let ghost offered0 = lines.offered@;
    let mut echoed: Vec<u8> = Vec::new();
    let mut i: usize = 0;
    proof {
        assert(bytes@.take(0) =~= Seq::<u8>::empty());
        assert(offered0 + Seq::<Seq<u8>>::empty() =~= offered0);
    }
    while i < bytes.len()
        invariant
            state.wf(),
            i <= bytes@.len(),
            ({
                let (l, c, done, e) = rx_run(l0, c0, bytes@.take(i as int), echo, ucase);
                &&& line_bytes(state.line) == l
                &&& state.crlf == c
                &&& lines.offered@ == offered0 + done
                &&& echoed@ == e
            }),
            lines.port == old(lines).port,
        decreases bytes@.len() - i,
    {
        let ghost t = bytes@.take(i + 1);
        proof {
            assert(t.drop_last() =~= bytes@.take(i as int));
            assert(t.last() == bytes@[i as int]);
        }
        let (echo_text, line) = rx_byte(state, bytes[i], echo, ucase);
        append(&mut echoed, echo_text.as_slice());
        match line {
            Some(l) => {
                let ghost before = lines.offered@;
                let _ = lines.try_send(l);
                proof {
                    let (_, _, done, _) = rx_run(l0, c0, bytes@.take(i as int), echo, ucase);
                    assert(before.push(line_bytes(l)) =~= offered0 + done.push(line_bytes(l)));
                }
            },
            None => {},
        }
        i = i + 1;
    }
    proof {
        assert(bytes@.take(bytes@.len() as int) =~= bytes@);
    }
    serial_write(tx, echoed.as_slice());
}

/// A line of at most 64 printable characters.
pub open spec fn line_ok(l: Seq<u8>) -> bool {
    &&& l.len() <= 64
    &&& forall|i: int| 0 <= i < l.len() ==> is_printable(#[trigger] l[i])
}

/// No lower-case letter.
pub open spec fn no_lower(l: Seq<u8>) -> bool {
    forall|i: int| 0 <= i < l.len() ==> !(97 <= #[trigger] l[i] && l[i] <= 122)
}

/// Every line the reader hands on holds at most 64 printable characters, and
/// the line being assembled stays so.
pub proof fn lemma_rx_lines_ok(line: Seq<u8>, crlf: bool, b: u8, echo: bool, ucase: bool)
    requires
        line_ok(line),
    ensures
        ({
            let (l, _, e) = rx_next(line, crlf, b, echo, ucase);
            &&& line_ok(l)
            &&& e.line matches Some(sent) ==> line_ok(sent)
        }),
{
    let (l, _, _) = rx_next(line, crlf, b, echo, ucase);
    assert forall|i: int| 0 <= i < l.len() implies is_printable(#[trigger] l[i]) by {
        if i < line.len() {
            assert(l[i] == line[i]);
        }
    }
}

/// With upper-casing on, no line the reader hands on holds a lower-case
/// letter.
pub proof fn lemma_rx_upper_case(line: Seq<u8>, crlf: bool, b: u8, echo: bool)
    requires
        no_lower(line),
    ensures
        ({
            let (l, _, e) = rx_next(line, crlf, b, echo, true);
            &&& no_lower(l)
            &&& e.line matches Some(sent) ==> no_lower(sent)
        }),
{
    let (l, _, _) = rx_next(line, crlf, b, echo, true);
    assert forall|i: int| 0 <= i < l.len() implies !(97 <= #[trigger] l[i] && l[i] <= 122) by {
        if i < line.len() {
            assert(l[i] == line[i]);
        }
    }
}

/// A CR LF pair (or any two line ends in a row) completes one line: the
/// first hands on the line so far, the second does nothing.
pub proof fn lemma_crlf_one_line(line: Seq<u8>, b1: u8, b2: u8, echo: bool, ucase: bool)
    requires
        b1 == 13 || b1 == 10,
        b2 == 13 || b2 == 10,
    ensures
        ({
            let (l1, c1, e1) = rx_next(line, false, b1, echo, ucase);
            let (l2, c2, e2) = rx_next(l1, c1, b2, echo, ucase);
            &&& e1.line == Some(line)
            &&& e2.line is None
            &&& l2 == Seq::<u8>::empty()
            &&& c2
        }),
{
}

} // verus!
