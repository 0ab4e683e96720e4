//! The serial echo firmware: received text is collected into lines and each
//! line is answered.
use vstd::prelude::*;
use vstd::string::StringSliceAdditionalSpecFns;
use crate::line_buf::{is_continuation, line_bytes, LineBuf};
use crate::text::{append, bytes_eq, to_vec};
use crate::tx::{delivered, push, TxPipe};
use crate::ufmt::{crlf, crlf_translate};
use crate::tokens::{lemma_token_span, token, token_span, token_spans};

verus! {

/// The serial port as a text sink; line feeds go out as CR LF.
pub struct TxSink;

impl TxSink {
    /// Queues `s` on the pipe with each bare line feed sent as CR LF; `Err`
    /// when the pipe filled up, the rest being dropped (see `delivered`).
    pub fn write_str<const N: usize>(&mut self, tx: &mut TxPipe<'_, N>, s: &str) -> (r: Result<(), ()>)
        ensures
            delivered(*old(tx), *final(tx), crlf(s.spec_bytes()), r is Ok),
    {
        let t = crlf_translate(s.as_bytes());
        push(tx, t.as_slice())
    }
}

/// Line end characters: CR or LF.
pub open spec fn is_line_end(b: u8) -> bool {
    b == 10 || b == 13
}

/// Position of the first line end in `s`, if any.
pub open spec fn first_line_end(s: Seq<u8>) -> Option<int>
    decreases s.len(),
{
    if s.len() == 0 {
        None
    } else if is_line_end(s[0]) {
        Some(0)
    } else {
        match first_line_end(s.skip(1)) {
            Some(i) => Some(i + 1),
            None => None,
        }
    }
}

/// The complete lines in `s` and what follows the last line end.
pub open spec fn split_lines(s: Seq<u8>) -> (Seq<Seq<u8>>, Seq<u8>)
    decreases s.len(),
{
    match first_line_end(s) {
        Some(i) => if 0 <= i < s.len() {
            let (rest_lines, tail) = split_lines(s.skip(i + 1));
            (seq![s.take(i)] + rest_lines, tail)
        } else {
            (seq![], s)
        },
        None => (seq![], s),
    }
}

/// The lines a chunk of text completes, and what the buffer then holds: the
/// chunk is added to the buffer if it fits in 64 bytes; if not, what the
/// buffer holds is handed on as a line, emptied, and the chunk is lost.
pub open spec fn chunk_spec(buf: Seq<u8>, chunk: Seq<u8>) -> (Seq<Seq<u8>>, Seq<u8>) {
    if buf.len() + chunk.len() <= 64 {
        split_lines(buf + chunk)
    } else {
        (seq![buf], seq![])
    }
}

/// All bytes are ASCII.
pub open spec fn all_ascii(s: Seq<u8>) -> bool {
    forall|i: int| 0 <= i < s.len() ==> #[trigger] s[i] < 128
}

proof fn lemma_first_line_end(s: Seq<u8>, i: int)
    requires
        0 <= i <= s.len(),
        forall|j: int| 0 <= j < i ==> !is_line_end(#[trigger] s[j]),
        i == s.len() || is_line_end(s[i]),
    ensures
        first_line_end(s) == (if i < s.len() {
            Some(i)
        } else {
            None::<int>
        }),
    decreases i,
{
    if i > 0 {
        let t = s.skip(1);
        assert forall|j: int| 0 <= j < i - 1 implies !is_line_end(#[trigger] t[j]) by {
            assert(t[j] == s[j + 1]);
        }
        lemma_first_line_end(t, i - 1);
    }
}

/// Position of the first CR or LF.
pub fn find_line_end(s: &[u8]) -> (r: Option<usize>)
    ensures
        r matches Some(i) ==> first_line_end(s@) == Some(i as int) && i < s@.len(),
        r is None ==> first_line_end(s@) is None,
{
    let mut i: usize = 0;
    while i < s.len() && !(s[i] == 10 || s[i] == 13)
        invariant
            i <= s@.len(),
            forall|j: int| 0 <= j < i ==> !is_line_end(#[trigger] s@[j]),
        decreases s@.len() - i,
    {
        i = i + 1;
    }
    proof {
        lemma_first_line_end(s@, i as int);
    }
    if i < s.len() {
        Some(i)
    } else {
        None
    }
}

/// Feeds one chunk of received ASCII text into the line buffer and returns
/// the lines it completes, in order (see `chunk_spec`).
pub fn serial_read_chunk(buf: &mut LineBuf, chunk: &str) -> (lines: Vec<Vec<u8>>)
    requires
        line_bytes(*old(buf)).len() <= 64,
        all_ascii(line_bytes(*old(buf))),
        all_ascii(chunk.spec_bytes()),
    ensures
        line_bytes(*final(buf)).len() <= 64,
        all_ascii(line_bytes(*final(buf))),
        lines@.map_values(|l: Vec<u8>| l@) == chunk_spec(line_bytes(*old(buf)), chunk.spec_bytes()).0,
        line_bytes(*final(buf)) == chunk_spec(line_bytes(*old(buf)), chunk.spec_bytes()).1,
{
    let ghost old_bytes = line_bytes(*buf);
    let mut lines: Vec<Vec<u8>> = Vec::new();
    match buf.push_str(chunk) {
        Ok(()) => {},
        Err(()) => {
            let whole = to_vec(buf.as_bytes());
            lines.push(whole);
            buf.clear();
            proof {
                assert(lines@.map_values(|l: Vec<u8>| l@) =~= seq![old_bytes]);
                assert(split_lines(Seq::<u8>::empty()) == (Seq::<Seq<u8>>::empty(), Seq::<u8>::empty()));
            }
            return lines;
        },
    }
    let ghost all = line_bytes(*buf);
    proof {
        assert(all =~= old_bytes + chunk.spec_bytes());
        assert(lines@.map_values(|l: Vec<u8>| l@) + split_lines(all).0 =~= split_lines(all).0);
    }
    loop
        invariant
            line_bytes(*buf).len() <= 64,
            all_ascii(line_bytes(*buf)),
            lines@.map_values(|l: Vec<u8>| l@) + split_lines(line_bytes(*buf)).0 == split_lines(
                all,
            ).0,
            split_lines(line_bytes(*buf)).1 == split_lines(all).1,
        ensures
            split_lines(line_bytes(*buf)) == (Seq::<Seq<u8>>::empty(), line_bytes(*buf)),
        decreases line_bytes(*buf).len(),
    {
        let cur = buf.as_bytes();
        match find_line_end(cur) {
            Some(i) => {
                let ghost before = line_bytes(*buf);
                let line = to_vec(vstd::slice::slice_subrange(cur, 0, i));
                let ghost lines_before = lines@.map_values(|l: Vec<u8>| l@);
                lines.push(line);
                buf.drain_front(i + 1);
                proof {
                    assert(before.take(i as int) =~= before.subrange(0, i as int));
                    assert(lines@.map_values(|l: Vec<u8>| l@) =~= lines_before.push(before.take(i as int)));
                    let (rl, tl) = split_lines(before.skip(i + 1));
                    assert(split_lines(before) == (seq![before.take(i as int)] + rl, tl));
                    assert(lines@.map_values(|l: Vec<u8>| l@) + rl =~= lines_before + (seq![before.take(i as int)] + rl));
                    assert forall|j: int| 0 <= j < line_bytes(*buf).len() implies #[trigger] line_bytes(*buf)[j] < 128 by {
                        assert(line_bytes(*buf)[j] == before[j + i + 1]);
                    }
                }
            },
            None => {
                proof {
                    assert(split_lines(line_bytes(*buf)) == (Seq::<Seq<u8>>::empty(), line_bytes(*buf)));
                }
                break;
            },
        }
    }
    proof {
        let m = lines@.map_values(|l: Vec<u8>| l@);
        assert(m + Seq::<Seq<u8>>::empty() =~= m);
    }
    lines
}

/// The reply to a line: nothing for a blank line; `-- Hello >>NAME<<` for
/// `hello [NAME]` (NAME defaults to `There`); else `-- CMD: WORD` for its
/// first word. Each reply ends with a line feed.
pub open spec fn reply_spec(line: Seq<u8>) -> Seq<u8> {
    match token(line, 0) {
        None => seq![],
        Some(w) => if w == "hello".spec_bytes() {
            "-- Hello >>".spec_bytes() + (match token(line, 1) {
                Some(n) => n,
                None => "There".spec_bytes(),
            }) + "<<\n".spec_bytes()
        } else {
            "-- CMD: ".spec_bytes() + w + "\n".spec_bytes()
        },
    }
}

/// The reply to a line (see `reply_spec`), before line-end translation.
pub fn handle_cmd(line: &[u8]) -> (r: Vec<u8>)
    ensures
        r@ == reply_spec(line@),
{
    let spans = token_spans(line, 2);
    if spans.len() == 0 {
        return Vec::new();
    }
    let (a0, e0) = spans[0];
    proof {
        lemma_token_span(line@, 0);
    }
    let w0 = vstd::slice::slice_subrange(line, a0, e0);
    if bytes_eq(w0, "hello".as_bytes()) {
        let mut out = to_vec("-- Hello >>".as_bytes());
        if spans.len() > 1 {
            let (a1, e1) = spans[1];
            proof {
                lemma_token_span(line@, 1);
            }
            append(&mut out, vstd::slice::slice_subrange(line, a1, e1));
        } else {
            append(&mut out, "There".as_bytes());
        }
        append(&mut out, "<<\n".as_bytes());
        out
    } else {
        let mut out = to_vec("-- CMD: ".as_bytes());
        append(&mut out, w0);
        append(&mut out, "\n".as_bytes());
        out
    }
}

/// No line handed on holds a line end, and neither does what is kept.
pub proof fn lemma_split_lines_clean(s: Seq<u8>)
    ensures
        forall|k: int, j: int|
            0 <= k < split_lines(s).0.len() && 0 <= j < split_lines(s).0[k].len() ==> !is_line_end(
                #[trigger] split_lines(s).0[k][j],
            ),
        first_line_end(split_lines(s).1) is None,
    decreases s.len(),
{
    match first_line_end(s) {
        Some(i) => {
            lemma_first_line_end_props(s);
            if 0 <= i < s.len() {
                let rest = s.skip(i + 1);
                lemma_split_lines_clean(rest);
                let lines = split_lines(s).0;
                assert forall|k: int, j: int|
                    0 <= k < lines.len() && 0 <= j < lines[k].len() implies !is_line_end(
                    #[trigger] lines[k][j],
                ) by {
                    if k == 0 {
                        assert(lines[0] == s.take(i));
                        assert(lines[0][j] == s[j]);
                    } else {
                        assert(lines[k] == split_lines(rest).0[k - 1]);
                    }
                }
            }
        },
        None => {},
    }
}

/// The first line end is a line end, with none before it.
proof fn lemma_first_line_end_props(s: Seq<u8>)
    ensures
        first_line_end(s) matches Some(i) ==> 0 <= i < s.len() && is_line_end(s[i]) && forall|
            j: int,
        | 0 <= j < i ==> !is_line_end(#[trigger] s[j]),
    decreases s.len(),
{
    if s.len() > 0 && !is_line_end(s[0]) {
        let t = s.skip(1);
        lemma_first_line_end_props(t);
        if first_line_end(t) is Some {
            let i = first_line_end(t).unwrap();
            assert forall|j: int| 0 <= j < i + 1 implies !is_line_end(#[trigger] s[j]) by {
                if j > 0 {
                    assert(s[j] == t[j - 1]);
                }
            }
        }
    }
}

} // verus!
