//! Text output sinks: the SDI debug link and a UART, both turning a bare
//! line feed into CR LF.
use vstd::prelude::*;

verus! {

/// Names the SDI debug link as a text sink. The firmware writes its text as
/// it is, cut into the packets of `sdi_packets`.
pub struct Sdi;

/// The byte(s) the translation emits for byte `i` of `s`: a line feed not
/// preceded by a carriage return becomes CR LF.
pub open spec fn crlf_piece(s: Seq<u8>, i: int) -> Seq<u8> {
    if s[i] == 10 && !(i > 0 && s[i - 1] == 13) {
        seq![13u8, 10u8]
    } else {
        seq![s[i]]
    }
}

/// `s` with every bare LF turned into CR LF.
pub open spec fn crlf(s: Seq<u8>) -> Seq<u8>
    decreases s.len(),
{
    if s.len() == 0 {
        seq![]
    } else {
        crlf(s.drop_last()) + crlf_piece(s, s.len() - 1)
    }
}

/// Every LF is preceded by a CR.
pub open spec fn no_bare_lf(s: Seq<u8>) -> bool {
    forall|i: int| 0 <= i < s.len() && #[trigger] s[i] == 10 ==> i > 0 && s[i - 1] == 13
}

proof fn lemma_crlf_piece_prefix(s: Seq<u8>, i: int, n: int)
    requires
        0 <= i < n <= s.len(),
    ensures
        crlf_piece(s.take(n), i) == crlf_piece(s, i),
{
}

/// Translates line ends for a serial terminal: a LF not preceded by a CR
/// becomes CR LF.
pub fn crlf_translate(s: &[u8]) -> (r: Vec<u8>)
    ensures
        r@ == crlf(s@),
{
    let mut out: Vec<u8> = Vec::new();
    let mut i: usize = 0;
    while i < s.len()
        invariant
            i <= s@.len(),
            out@ == crlf(s@.take(i as int)),
        decreases s@.len() - i,
    {
        let ghost prefix = s@.take(i + 1);
        if s[i] == 10 && !(i > 0 && s[i - 1] == 13) {
            out.push(13);
        }
        out.push(s[i]);
        proof {
            assert(prefix.drop_last() =~= s@.take(i as int));
            lemma_crlf_piece_prefix(s@, i as int, i + 1);
            assert(out@ =~= crlf(prefix));
        }
        i = i + 1;
    }
    proof {
        assert(s@.take(s@.len() as int) =~= s@);
    }
    out
}

/// The translation leaves no bare LF.
pub proof fn lemma_crlf_no_bare_lf(s: Seq<u8>)
    ensures
        no_bare_lf(crlf(s)),
    decreases s.len(),
{
    if s.len() > 0 {
        lemma_crlf_no_bare_lf(s.drop_last());
        let a = crlf(s.drop_last());
        let p = crlf_piece(s, s.len() - 1);
        let t = a + p;
        assert forall|i: int| 0 <= i < t.len() && #[trigger] t[i] == 10 implies i > 0 && t[i - 1] == 13 by {
            if i >= a.len() {
                if p.len() == 1 {
                    // the last byte is an LF preceded by CR in `s`; the CR is the
                    // last byte of `a`
                    lemma_crlf_last(s.drop_last());
                }
            }
        }
    }
}

/// The translation ends with the same byte as the input.
proof fn lemma_crlf_last(s: Seq<u8>)
    requires
        s.len() > 0,
    ensures
        crlf(s).len() > 0,
        crlf(s).last() == s.last(),
{
}

/// Text without a bare LF is left alone, so translating twice is the same
/// as translating once.
pub proof fn lemma_crlf_idempotent(s: Seq<u8>)
    ensures
        crlf(crlf(s)) == crlf(s),
{
    lemma_crlf_no_bare_lf(s);
    lemma_crlf_fixed(crlf(s));
}

/// Text without a bare LF is left alone.
pub proof fn lemma_crlf_fixed(t: Seq<u8>)
    requires
        no_bare_lf(t),
    ensures
        crlf(t) == t,
    decreases t.len(),
{
    if t.len() > 0 {
        let d = t.drop_last();
        assert(no_bare_lf(d)) by {
            assert forall|i: int| 0 <= i < d.len() && #[trigger] d[i] == 10 implies i > 0 && d[i - 1] == 13 by {
                assert(t[i] == d[i]);
            }
        }
        lemma_crlf_fixed(d);
        assert(crlf_piece(t, t.len() - 1) =~= seq![t.last()]);
        assert(t =~= d + seq![t.last()]);
    }
}

} // verus!
