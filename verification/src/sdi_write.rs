//! Output over the SDI debug link: how a byte stream is cut into the
//! eight-byte packets the debugger polls for, and fixed-width hex and decimal
//! renderings of `u32` that need no `core::fmt`.
//!
//! A packet is two little-endian words: `DATA0` holds the payload length in
//! its low byte followed by up to three payload bytes, `DATA1` the next four.
//! `DATA1` is written first; writing `DATA0` hands the packet over.
use vstd::prelude::*;
use crate::digits::{
    lemma_low_digits_pad, lemma_low_digits_prepend, low_digits, shift, zeros,
};

verus! {

/// Payload bytes per packet.
pub const PACKET_PAYLOAD: usize = 7;

/// Little-endian value of four bytes.
pub open spec fn le_word(b0: u8, b1: u8, b2: u8, b3: u8) -> int {
    b0 + b1 * 0x100 + b2 * 0x1_0000 + b3 * 0x100_0000
}

/// Byte `i` of a chunk, zero past its end.
pub open spec fn byte_or_zero(chunk: Seq<u8>, i: int) -> u8 {
    if 0 <= i < chunk.len() {
        chunk[i]
    } else {
        0
    }
}

/// The `(DATA0, DATA1)` words that carry `chunk`.
pub open spec fn packet_words(chunk: Seq<u8>) -> (int, int) {
    (
        le_word(
            chunk.len() as u8,
            byte_or_zero(chunk, 0),
            byte_or_zero(chunk, 1),
            byte_or_zero(chunk, 2),
        ),
        le_word(
            byte_or_zero(chunk, 3),
            byte_or_zero(chunk, 4),
            byte_or_zero(chunk, 5),
            byte_or_zero(chunk, 6),
        ),
    )
}

/// The packets for `buf`, in order: consecutive chunks of seven bytes, the
/// last one shorter.
pub open spec fn packets_of(buf: Seq<u8>) -> Seq<(int, int)>
    decreases buf.len(),
{
    if buf.len() == 0 {
        seq![]
    } else if buf.len() <= 7 {
        seq![packet_words(buf)]
    } else {
        seq![packet_words(buf.take(7))] + packets_of(buf.skip(7))
    }
}

/// The words that carry one chunk of at most seven bytes.
pub fn sdi_packet(chunk: &[u8]) -> (words: (u32, u32))
    requires
        chunk@.len() <= 7,
    ensures
        words.0 as int == packet_words(chunk@).0,
        words.1 as int == packet_words(chunk@).1,
{
    let n = chunk.len();
    let mut pkt: [u8; 8] = [0u8; 8];
    pkt[0] = n as u8;
    let mut i: usize = 0;
    while i < n
        invariant
            n == chunk@.len(),
            n <= 7,
            i <= n,
            pkt@.len() == 8,
            pkt@[0] == n as u8,
            forall|j: int| 0 <= j < i ==> pkt@[j + 1] == chunk@[j],
            forall|j: int| i < j && j < 8 ==> pkt@[j] == 0,
        decreases n - i,
    {
        pkt[i + 1] = chunk[i];
        i = i + 1;
    }
    let w0: u32 = pkt[0] as u32 + pkt[1] as u32 * 0x100 + pkt[2] as u32 * 0x1_0000 + pkt[3] as u32
        * 0x100_0000;
    let w1: u32 = pkt[4] as u32 + pkt[5] as u32 * 0x100 + pkt[6] as u32 * 0x1_0000 + pkt[7] as u32
        * 0x100_0000;
    (w0, w1)
}

/// Cut `buf` into the packet words to send, in order.
pub fn sdi_packets(buf: &[u8]) -> (out: Vec<(u32, u32)>)
    ensures
        out@.len() == packets_of(buf@).len(),
        forall|i: int|
            0 <= i < out@.len() ==> out@[i].0 as int == #[trigger] packets_of(buf@)[i].0
                && out@[i].1 as int == packets_of(buf@)[i].1,
{
    let mut out: Vec<(u32, u32)> = Vec::new();
    let mut start: usize = 0;
    proof {
        let f = |w: (u32, u32)| (w.0 as int, w.1 as int);
        assert(buf@.skip(0) =~= buf@);
        assert(out@.map_values(f) + packets_of(buf@) =~= packets_of(buf@));
    }
    while start < buf.len()
        invariant
            start <= buf@.len(),
            packets_of(buf@) == out@.map_values(|w: (u32, u32)| (w.0 as int, w.1 as int))
                + packets_of(buf@.skip(start as int)),
        decreases buf@.len() - start,
    {
        let ghost rest = buf@.skip(start as int);
        let n = if buf.len() - start < 7 {
            buf.len() - start
        } else {
            7
        };
        let chunk = vstd::slice::slice_subrange(buf, start, start + n);
        let w = sdi_packet(chunk);
        proof {
            if rest.len() <= 7 {
                assert(chunk@ =~= rest);
                assert(buf@.skip(start + n) =~= Seq::<u8>::empty());
            } else {
                assert(chunk@ =~= rest.take(7));
                assert(buf@.skip(start + n) =~= rest.skip(7));
            }
        }
        let ghost before = out@;
        out.push(w);
        proof {
            let f = |w: (u32, u32)| (w.0 as int, w.1 as int);
            assert(out@.map_values(f) =~= before.map_values(f).push(f(w)));
            assert(packets_of(rest) =~= seq![packet_words(chunk@)] + packets_of(
                buf@.skip(start + n),
            ));
            assert(packets_of(buf@) =~= out@.map_values(f) + packets_of(buf@.skip(start + n)));
        }
        start = start + n;
    }
    proof {
        let f = |w: (u32, u32)| (w.0 as int, w.1 as int);
        assert(buf@.skip(start as int) =~= Seq::<u8>::empty());
        assert(packets_of(buf@) =~= out@.map_values(f));
    }
    out
}

/// Writes the `10 - lo` lowest digits of `v` in base `radix` into
/// `buf[lo..]`, leaving `buf[..lo]` as it was.
fn write_digits(buf: &mut [u8; 10], lo: usize, v: u32, radix: u32)
    requires
        lo <= 10,
        1 < radix <= 16,
        forall|j: int| lo <= j < 10 ==> old(buf)@[j] == 48u8,
    ensures
        final(buf)@.subrange(lo as int, 10) == low_digits(v as nat, (10 - lo) as nat, radix as nat),
        final(buf)@.subrange(0, lo as int) == old(buf)@.subrange(0, lo as int),
{
    let mut n = v;
    let mut idx: usize = 10;
    proof {
        assert(buf@.subrange(10, 10) =~= low_digits(v as nat, 0, radix as nat));
    }
    while n > 0 && idx > lo
        invariant
            lo <= idx <= 10,
            1 < radix <= 16,
            buf@.len() == 10,
            n as nat == shift(v as nat, (10 - idx) as nat, radix as nat),
            buf@.subrange(idx as int, 10) == low_digits(v as nat, (10 - idx) as nat, radix as nat),
            forall|j: int| lo <= j < idx ==> buf@[j] == 48u8,
            buf@.subrange(0, lo as int) == old(buf)@.subrange(0, lo as int),
        decreases idx,
    {
        let d = n % radix;
        let c: u8 = if d < 10 {
            (48 + d) as u8
        } else {
            (87 + d) as u8
        };
        proof {
            lemma_low_digits_prepend(v as nat, (10 - idx) as nat, radix as nat);
        }
        let ghost prev = buf@;
        buf[idx - 1] = c;
        proof {
            assert(buf@.subrange(idx - 1, 10) =~= seq![c] + prev.subrange(idx as int, 10));
            assert(buf@.subrange(0, lo as int) =~= prev.subrange(0, lo as int));
        }
        idx = idx - 1;
        n = n / radix;
    }
    proof {
        if n == 0 {
            lemma_low_digits_pad(v as nat, (10 - idx) as nat, (10 - lo) as nat, radix as nat);
            assert(buf@.subrange(lo as int, 10) =~= buf@.subrange(lo as int, idx as int)
                + buf@.subrange(idx as int, 10));
            assert(buf@.subrange(lo as int, idx as int) =~= zeros((idx - lo) as nat));
        }
    }
}

/// Fixed-width hexadecimal rendering.
pub trait FormatHex {
    type Output;

    fn fmt_hex(self) -> Self::Output;
}

impl FormatHex for u32 {
    type Output = [u8; 10];

    /// `0x` followed by exactly eight lower-case hex digits.
    fn fmt_hex(self) -> (r: [u8; 10])
        ensures
            r@ == seq![48u8, 120u8] + low_digits(self as nat, 8, 16),
    {
        let mut buf: [u8; 10] = [48u8; 10];
        buf[1] = 120u8;
        write_digits(&mut buf, 2, self, 16);
        proof {
            assert(buf@ =~= buf@.subrange(0, 2) + buf@.subrange(2, 10));
        }
        buf
    }
}

/// Fixed-width decimal rendering.
pub trait FormatDec {
    type Output;

    fn fmt_dec(self) -> Self::Output;
}

impl FormatDec for u32 {
    type Output = [u8; 10];

    /// Exactly ten decimal digits, zero-padded on the left (`u32::MAX` has
    /// ten digits, so nothing is lost).
    fn fmt_dec(self) -> (r: [u8; 10])
        ensures
            r@ == low_digits(self as nat, 10, 10),
    {
        let mut buf: [u8; 10] = [48u8; 10];
        write_digits(&mut buf, 0, self, 10);
        proof {
            assert(buf@ =~= buf@.subrange(0, 10));
        }
        buf
    }
}

/// Byte `k` (0..3, least significant first) of a word.
pub open spec fn word_byte(w: int, k: int) -> u8 {
    if k == 0 {
        (w % 256) as u8
    } else if k == 1 {
        (w / 256 % 256) as u8
    } else if k == 2 {
        (w / 256 / 256 % 256) as u8
    } else {
        (w / 256 / 256 / 256 % 256) as u8
    }
}

/// What the debugger reads out of one packet: the low byte of `DATA0` is the
/// count, and that many bytes follow it across `DATA0` and `DATA1`.
pub open spec fn packet_payload(p: (int, int)) -> Seq<u8> {
    seq![
        word_byte(p.0, 1),
        word_byte(p.0, 2),
        word_byte(p.0, 3),
        word_byte(p.1, 0),
        word_byte(p.1, 1),
        word_byte(p.1, 2),
        word_byte(p.1, 3),
    ].take(word_byte(p.0, 0) as int)
}

/// Everything the debugger reads out of a run of packets, in order.
pub open spec fn payloads(ps: Seq<(int, int)>) -> Seq<u8>
    decreases ps.len(),
{
    if ps.len() == 0 {
        seq![]
    } else {
        packet_payload(ps[0]) + payloads(ps.skip(1))
    }
}

/// The bytes of a little-endian word are the bytes it was made of.
proof fn lemma_le_word_bytes(b0: u8, b1: u8, b2: u8, b3: u8)
    ensures
        word_byte(le_word(b0, b1, b2, b3), 0) == b0,
        word_byte(le_word(b0, b1, b2, b3), 1) == b1,
        word_byte(le_word(b0, b1, b2, b3), 2) == b2,
        word_byte(le_word(b0, b1, b2, b3), 3) == b3,
{
    let w = le_word(b0, b1, b2, b3);
    let w1 = b1 + b2 * 256 + b3 * 0x1_0000;
    let w2 = b2 + b3 * 256;
    vstd::arithmetic::div_mod::lemma_fundamental_div_mod_converse(w, 256, w1, b0 as int);
    vstd::arithmetic::div_mod::lemma_fundamental_div_mod_converse(w1, 256, w2, b1 as int);
    vstd::arithmetic::div_mod::lemma_fundamental_div_mod_converse(w2, 256, b3 as int, b2 as int);
    vstd::arithmetic::div_mod::lemma_fundamental_div_mod_converse(b3 as int, 256, 0, b3 as int);
}

/// A chunk of one to seven bytes is read back whole from its packet.
proof fn lemma_packet_payload(chunk: Seq<u8>)
    requires
        1 <= chunk.len() <= 7,
    ensures
        packet_payload(packet_words(chunk)) == chunk,
        1 <= word_byte(packet_words(chunk).0, 0) <= 7,
{
    lemma_le_word_bytes(
        chunk.len() as u8,
        byte_or_zero(chunk, 0),
        byte_or_zero(chunk, 1),
        byte_or_zero(chunk, 2),
    );
    lemma_le_word_bytes(
        byte_or_zero(chunk, 3),
        byte_or_zero(chunk, 4),
        byte_or_zero(chunk, 5),
        byte_or_zero(chunk, 6),
    );
    assert(packet_payload(packet_words(chunk)) =~= chunk);
}

/// What the debugger reads out of the packets of `buf` is `buf`, and every
/// packet carries one to seven bytes.
pub proof fn lemma_packets_round_trip(buf: Seq<u8>)
    ensures
        payloads(packets_of(buf)) == buf,
        forall|i: int|
            0 <= i < packets_of(buf).len() ==> 1 <= word_byte(#[trigger] packets_of(buf)[i].0, 0)
                <= 7,
    decreases buf.len(),
{
    if buf.len() == 0 {
    } else if buf.len() <= 7 {
        lemma_packet_payload(buf);
        let ps = packets_of(buf);
        assert(ps.skip(1) =~= Seq::<(int, int)>::empty());
        assert(ps[0] == packet_words(buf));
        assert(payloads(ps.skip(1)) == Seq::<u8>::empty());
        assert(payloads(ps) =~= buf);
    } else {
        let head = buf.take(7);
        let rest = buf.skip(7);
        lemma_packet_payload(head);
        lemma_packets_round_trip(rest);
        let ps = packets_of(buf);
        assert(ps.skip(1) =~= packets_of(rest));
        assert(payloads(ps) =~= head + rest);
        assert(head + rest =~= buf);
        assert forall|i: int|
            0 <= i < ps.len() implies 1 <= word_byte(#[trigger] ps[i].0, 0) <= 7 by {
            if i > 0 {
                assert(ps[i] == packets_of(rest)[i - 1]);
            }
        }
    }
}

} // verus!
