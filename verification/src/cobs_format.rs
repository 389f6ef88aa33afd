//! COBS framing (Consistent Overhead Byte Stuffing): a message is rewritten
//! without zero bytes and a zero byte ends it, so that frames can be told
//! apart on a serial line.
use vstd::prelude::*;

verus! {

/// No byte of `s` is zero.
pub open spec fn zero_free(s: Seq<u8>) -> bool {
    forall|i: int| 0 <= i < s.len() ==> #[trigger] s[i] != 0
}

/// The number of bytes before the first zero of `s` (all of `s` if none is).
pub open spec fn zero_free_len(s: Seq<u8>) -> nat
    decreases s.len(),
{
    if s.len() == 0 || s[0] == 0 {
        0
    } else {
        1 + zero_free_len(s.drop_first())
    }
}

/// `zero_free_len` is the index of the first zero, or the length.
pub proof fn lemma_zero_free_len(s: Seq<u8>)
    ensures
        zero_free_len(s) <= s.len(),
        zero_free(s.take(zero_free_len(s) as int)),
        zero_free_len(s) < s.len() ==> s[zero_free_len(s) as int] == 0,
    decreases s.len(),
{
    if s.len() > 0 && s[0] != 0 {
        let t = s.drop_first();
        lemma_zero_free_len(t);
        let k: int = zero_free_len(t) as int;
        assert forall|i: int| 0 <= i < k + 1 implies #[trigger] s.take(k + 1)[i] != 0 by {
            if i > 0 {
                assert(s.take(k + 1)[i] == t.take(k)[i - 1]);
            }
        }
    }
}

/// Before a zero-free prefix, the first zero is found in what follows.
pub proof fn lemma_zero_free_len_append(a: Seq<u8>, b: Seq<u8>)
    requires
        zero_free(a),
    ensures
        zero_free_len(a + b) == a.len() + zero_free_len(b),
    decreases a.len(),
{
    if a.len() > 0 {
        assert(a[0] != 0);
        assert((a + b)[0] == a[0]);
        assert((a + b).drop_first() =~= a.drop_first() + b);
        assert(zero_free(a.drop_first())) by {
            assert forall|i: int| 0 <= i < a.drop_first().len() implies #[trigger] a.drop_first()[i]
                != 0 by {
                assert(a.drop_first()[i] == a[i + 1]);
            }
        }
        lemma_zero_free_len_append(a.drop_first(), b);
    } else {
        assert(a + b =~= b);
    }
}

/// The COBS encoding of `s`, without the final zero: each run of at most 254
/// non-zero bytes is preceded by its length plus one; a run that ends at a
/// zero stands for the run and that zero, and a full run of 254 bytes, coded
/// 255, stands for the bytes alone.
pub open spec fn cobs_encode(s: Seq<u8>) -> Seq<u8>
    decreases s.len(),
{
    let k: int = zero_free_len(s) as int;
    proof {
        lemma_zero_free_len(s);
    }
    if k >= 254 {
        seq![255u8] + s.take(254) + cobs_encode(s.skip(254))
    } else if k == s.len() {
        seq![(k + 1) as u8] + s
    } else {
        seq![(k + 1) as u8] + s.take(k) + cobs_encode(s.skip(k + 1))
    }
}

/// The framed message: the COBS encoding followed by the zero that ends it.
pub open spec fn cobs_frame(s: Seq<u8>) -> Seq<u8> {
    cobs_encode(s).push(0)
}

/// Decoding zero-free COBS blocks. A block whose code runs past the end is
/// invalid. A code byte of zero reads as a code of one.
pub open spec fn cobs_decode_blocks(s: Seq<u8>) -> Option<Seq<u8>>
    decreases s.len(),
{
    if s.len() == 0 {
        Some(Seq::empty())
    } else {
        let code: int = if s[0] == 0 { 1 } else { s[0] as int };
        if code > s.len() {
            None
        } else {
            let data = s.subrange(1, code);
            let rest = s.skip(code);
            match cobs_decode_blocks(rest) {
                Some(r) => Some(
                    if code != 255 && rest.len() > 0 {
                        data + seq![0u8] + r
                    } else {
                        data + r
                    },
                ),
                None => None,
            }
        }
    }
}

/// Decoding a COBS frame in place: an empty buffer is an error; otherwise
/// the bytes before the first zero (or all of them) are decoded.
pub open spec fn cobs_decode(buf: Seq<u8>) -> Option<Seq<u8>> {
    if buf.len() == 0 {
        None
    } else {
        cobs_decode_blocks(buf.take(zero_free_len(buf) as int))
    }
}

/// A COBS encoding is never empty and holds no zero.
pub proof fn lemma_cobs_encode_zero_free(s: Seq<u8>)
    ensures
        cobs_encode(s).len() >= 1,
        zero_free(cobs_encode(s)),
    decreases s.len(),
{
    lemma_zero_free_len(s);
    let k: int = zero_free_len(s) as int;
    let e = cobs_encode(s);
    if k >= 254 {
        let t = s.take(254);
        assert(t =~= s.take(k).take(254));
        lemma_cobs_encode_zero_free(s.skip(254));
        let r = cobs_encode(s.skip(254));
        assert(e =~= seq![255u8] + t + r);
        assert forall|i: int| 0 <= i < e.len() implies #[trigger] e[i] != 0 by {
            if 1 <= i < 255 {
                assert(e[i] == s.take(k)[i - 1]);
            } else if i >= 255 {
                assert(e[i] == r[i - 255]);
            }
        }
    } else if k == s.len() {
        assert(s.take(k) =~= s);
        assert forall|i: int| 0 <= i < e.len() implies #[trigger] e[i] != 0 by {
            if i >= 1 {
                assert(e[i] == s[i - 1]);
            }
        }
    } else {
        let t = s.take(k);
        lemma_cobs_encode_zero_free(s.skip(k + 1));
        let r = cobs_encode(s.skip(k + 1));
        assert(e =~= seq![(k + 1) as u8] + t + r);
        assert forall|i: int| 0 <= i < e.len() implies #[trigger] e[i] != 0 by {
            if 1 <= i < k + 1 {
                assert(e[i] == t[i - 1]);
            } else if i >= k + 1 {
                assert(e[i] == r[i - k - 1]);
            }
        }
    }
}

/// Decoding the COBS encoding of `s` gives back `s`.
pub proof fn lemma_cobs_decode_encode(s: Seq<u8>)
    ensures
        cobs_decode_blocks(cobs_encode(s)) == Some(s),
    decreases s.len(),
{
    lemma_zero_free_len(s);
    let k: int = zero_free_len(s) as int;
    let e = cobs_encode(s);
    if k >= 254 {
        let r = cobs_encode(s.skip(254));
        lemma_cobs_decode_encode(s.skip(254));
        assert(e =~= seq![255u8] + s.take(254) + r);
        assert(e.subrange(1, 255) =~= s.take(254));
        assert(e.skip(255) =~= r);
        assert(e[0] == 255u8);
        assert(s.take(254) + s.skip(254) =~= s);
    } else if k == s.len() {
        assert(e =~= seq![(k + 1) as u8] + s);
        assert(e.subrange(1, k + 1) =~= s);
        assert(e.skip(k + 1) =~= Seq::<u8>::empty());
        assert(e[0] == (k + 1) as u8);
        assert(((k + 1) as u8) as int == k + 1);
        assert(cobs_decode_blocks(Seq::<u8>::empty()) == Some(Seq::<u8>::empty()));
        assert(s + Seq::<u8>::empty() =~= s);
    } else {
        let r = cobs_encode(s.skip(k + 1));
        lemma_cobs_decode_encode(s.skip(k + 1));
        lemma_cobs_encode_zero_free(s.skip(k + 1));
        assert(e =~= seq![(k + 1) as u8] + s.take(k) + r);
        assert(e.subrange(1, k + 1) =~= s.take(k));
        assert(e.skip(k + 1) =~= r);
        assert(e[0] == (k + 1) as u8);
        assert(((k + 1) as u8) as int == k + 1);
        assert(r.len() > 0);
        assert(s[k] == 0);
        assert(s.take(k) + seq![0u8] + s.skip(k + 1) =~= s);
    }
}

/// Decoding a frame, followed by anything, gives back the message.
pub proof fn lemma_cobs_frame_roundtrip(s: Seq<u8>, rest: Seq<u8>)
    ensures
        cobs_decode(cobs_frame(s) + rest) == Some(s),
        zero_free_len(cobs_frame(s) + rest) == cobs_encode(s).len(),
{
    let e = cobs_encode(s);
    lemma_cobs_encode_zero_free(s);
    let buf = cobs_frame(s) + rest;
    assert(buf =~= e + (seq![0u8] + rest));
    lemma_zero_free_len_append(e, seq![0u8] + rest);
    assert((seq![0u8] + rest)[0] == 0);
    assert(buf.take(e.len() as int) =~= e);
    lemma_cobs_decode_encode(s);
}

/// A message shorter than 254 bytes gains exactly one byte by COBS encoding.
pub proof fn lemma_cobs_encode_len(s: Seq<u8>)
    requires
        s.len() < 254,
    ensures
        cobs_encode(s).len() == s.len() + 1,
    decreases s.len(),
{
    lemma_zero_free_len(s);
    let k: int = zero_free_len(s) as int;
    if k < s.len() {
        lemma_cobs_encode_len(s.skip(k + 1));
    }
}

} // verus!
