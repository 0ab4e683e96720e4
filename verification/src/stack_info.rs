//! Stack high-water mark: the stack area is painted with a pattern at start
//! and later scanned for how much of it was never touched.
use vstd::prelude::*;
use vstd::string::StringSliceAdditionalSpecFns;
use crate::digits::low_digits;
use crate::sdi_write::FormatHex;
use crate::text::{append, to_vec};

verus! {

/// The paint pattern.
pub const PAINT: u32 = 0xAAAA_AAAA;

/// End of the 2 KB SRAM (base 0x2000_0000).
pub const RAM_TOP: usize = 0x2000_0800;

/// Bytes left unpainted below the stack pointer for the painting frame.
pub const PAINT_HEADROOM: usize = 64;

/// `addr` rounded up to a multiple of four.
pub fn align_up4(addr: usize) -> (r: usize)
    requires
        addr <= usize::MAX - 3,
    ensures
        r % 4 == 0,
        addr <= r < addr + 4,
{
    let a = addr + 3;
    assert((a & !3usize) % 4 == 0 && (a & !3usize) <= a && a - (a & !3usize) < 4) by (bit_vector);
    a & !3usize
}

/// `addr` rounded down to a multiple of four.
pub fn align_down4(addr: usize) -> (r: usize)
    ensures
        r % 4 == 0,
        r <= addr < r + 4,
{
    assert((addr & !3usize) % 4 == 0 && (addr & !3usize) <= addr && addr - (addr & !3usize) < 4)
        by (bit_vector);
    addr & !3usize
}

/// The word range to paint, as `(bottom, top)`: from the end of `.bss`
/// rounded up to a word, to 64 bytes below the stack pointer rounded down.
pub fn paint_range(ebss: usize, sp: usize) -> (r: (usize, usize))
    requires
        ebss <= usize::MAX - 3,
        sp >= PAINT_HEADROOM,
    ensures
        r.0 % 4 == 0 && ebss <= r.0 < ebss + 4,
        r.1 % 4 == 0 && r.1 <= sp - 64 < r.1 + 4,
{
    (align_up4(ebss), align_down4(sp - PAINT_HEADROOM))
}

/// Number of leading words still holding the paint pattern.
pub open spec fn painted_words(words: Seq<u32>) -> nat
    decreases words.len(),
{
    if words.len() == 0 {
        0
    } else if words[0] == PAINT {
        1 + painted_words(words.skip(1))
    } else {
        0
    }
}

proof fn lemma_painted_words(words: Seq<u32>, i: int)
    requires
        0 <= i <= words.len(),
        forall|j: int| 0 <= j < i ==> #[trigger] words[j] == PAINT,
        i == words.len() || words[i] != PAINT,
    ensures
        painted_words(words) == i,
    decreases i,
{
    if i > 0 {
        let t = words.skip(1);
        assert forall|j: int| 0 <= j < i - 1 implies #[trigger] t[j] == PAINT by {
            assert(t[j] == words[j + 1]);
        }
        lemma_painted_words(t, i - 1);
    }
}

/// Bytes of stack never touched: the painted words at the bottom of the
/// stack area, `words` read upwards from the end of `.bss`.
pub fn untouched_bytes(words: &[u32]) -> (r: usize)
    requires
        words@.len() * 4 <= usize::MAX,
    ensures
        r == 4 * painted_words(words@),
{
    let mut i: usize = 0;
    while i < words.len() && words[i] == PAINT
        invariant
            i <= words@.len(),
            forall|j: int| 0 <= j < i ==> #[trigger] words@[j] == PAINT,
        decreases words@.len() - i,
    {
        i = i + 1;
    }
    proof {
        lemma_painted_words(words@, i as int);
    }
    i * 4
}

/// The stack report line: `STACK:`, the key, the stack pointer and the
/// untouched bytes in `0x` hex, each followed by a space, then a line feed.
pub open spec fn stack_info_spec(key: Seq<u8>, sp: u32, hwm: u32) -> Seq<u8> {
    "STACK: ".spec_bytes() + key + " ".spec_bytes() + seq![48u8, 120u8] + low_digits(
        sp as nat,
        8,
        16,
    ) + " ".spec_bytes() + seq![48u8, 120u8] + low_digits(hwm as nat, 8, 16) + " \n".spec_bytes()
}

/// The stack report line for `key` (see `stack_info_spec`).
pub fn stack_info_text(key: &[u8], sp: u32, hwm: u32) -> (r: Vec<u8>)
    ensures
        r@ == stack_info_spec(key@, sp, hwm),
{
    let mut out = to_vec("STACK: ".as_bytes());
    append(&mut out, key);
    append(&mut out, " ".as_bytes());
    let a = sp.fmt_hex();
    append(&mut out, &a);
    append(&mut out, " ".as_bytes());
    let b = hwm.fmt_hex();
    append(&mut out, &b);
    append(&mut out, " \n".as_bytes());
    out
}

} // verus!
