//! Cutting a stream of serial bytes into framed commands, and appending
//! framed commands to an outgoing stream.
use vstd::prelude::*;
use bytes::BufMut;
use crate::cmd::{Cmd, cmd_frame, cmd_from_frame, lemma_cmd_frame_len, lemma_cmd_frame_roundtrip};
use crate::cobs_format::{lemma_zero_free_len, zero_free_len};
use crate::error::{Error, PostcardError};
use crate::frame::{cmd_vec_as_slice, cmd_vec_bytes};

verus! {

#[verifier::external_type_specification]
#[verifier::external_body]
pub struct ExBytesMut(bytes::BytesMut);

/// The bytes that a `BytesMut` buffer holds, in order.
pub uninterp spec fn buffer_bytes(b: bytes::BytesMut) -> Seq<u8>;

/// `<BytesMut as AsRef<[u8]>>::as_ref`: the bytes the buffer holds.
#[verifier::external_body]
fn buffer_as_slice(b: &bytes::BytesMut) -> (res: &[u8])
    ensures
        res@ == buffer_bytes(*b),
{
    b.as_ref()
}

/// `<BytesMut as DerefMut>::deref_mut`: the bytes the buffer holds, to
/// change in place; the buffer afterwards holds what the slice holds then.
#[verifier::external_body]
fn buffer_as_mut_slice(b: &mut bytes::BytesMut) -> (res: &mut [u8])
    ensures
        res@ == buffer_bytes(*old(b)),
        final(res)@ == buffer_bytes(*final(b)),
{
    b.as_mut()
}

/// `BytesMut::split_to`: the first `at` bytes move to the returned buffer,
/// the rest stay (it panics when `at` is past the end).
#[verifier::external_body]
fn buffer_split_to(b: &mut bytes::BytesMut, at: usize) -> (res: bytes::BytesMut)
    requires
        at <= buffer_bytes(*old(b)).len(),
    ensures
        buffer_bytes(res) == buffer_bytes(*old(b)).take(at as int),
        buffer_bytes(*final(b)) == buffer_bytes(*old(b)).skip(at as int),
{
    b.split_to(at)
}

/// `BytesMut::reserve`: makes room for `additional` more bytes and keeps the
/// contents (it panics when the capacity would overflow).
#[verifier::external_body]
fn buffer_reserve(b: &mut bytes::BytesMut, additional: usize)
    requires
        buffer_bytes(*old(b)).len() + additional <= isize::MAX,
    ensures
        buffer_bytes(*final(b)) == buffer_bytes(*old(b)),
{
    b.reserve(additional)
}

/// `<BytesMut as BufMut>::put` of a byte slice: appends the bytes.
#[verifier::external_body]
fn buffer_put(b: &mut bytes::BytesMut, data: &[u8])
    requires
        buffer_bytes(*old(b)).len() + data@.len() <= isize::MAX,
    ensures
        buffer_bytes(*final(b)) == buffer_bytes(*old(b)) + data@,
{
    b.put(data)
}

/// One decoding step on the bytes `b` of the input buffer: when a zero byte
/// ends a frame, the frame up to and including it is read as a command and
/// removed; otherwise nothing is read and the buffer stays.
pub open spec fn codec_decode_step(b: Seq<u8>) -> (Result<Option<Cmd>, Error>, Seq<u8>) {
    let k: int = zero_free_len(b) as int;
    if k == b.len() {
        (Ok(None), b)
    } else {
        (
            match cmd_from_frame(b.take(k + 1)) {
                Ok(c) => Ok(Some(c)),
                Err(e) => Err(e),
            },
            b.skip(k + 1),
        )
    }
}

/// The serial line codec: commands travel as COBS-framed postcard bytes,
/// each frame ended by a zero byte.
pub struct Codec;

impl Codec {
    /// Takes one framed command off the front of `src`, if a whole frame is
    /// there.
    pub fn decode(&mut self, src: &mut bytes::BytesMut) -> (res: Result<Option<Cmd>, Error>)
        ensures
            (res, buffer_bytes(*final(src))) == codec_decode_step(buffer_bytes(*old(src))),
    {
        let ghost b = buffer_bytes(*src);
        proof {
            lemma_zero_free_len(b);
        }
        let view = buffer_as_slice(src);
        let len = view.len();
        let mut i: usize = 0;
        while i < len && view[i] != 0
            invariant
                len == b.len(),
                view@ == b,
                i <= len,
                i <= zero_free_len(b),
                zero_free_len(b) <= b.len(),
                zero_free_len(b) < b.len() ==> b[zero_free_len(b) as int] == 0,
                forall|j: int| 0 <= j < i ==> b[j] != 0,
            decreases len - i,
        {
            proof {
                if i == zero_free_len(b) && i < len {
                    assert(b[i as int] == 0);
                }
            }
            i = i + 1;
        }
        assert(i == zero_free_len(b)) by {
            if i < zero_free_len(b) {
                assert(b.take(zero_free_len(b) as int)[i as int] == b[i as int]);
            }
        }
        if i == len {
            Ok(None)
        } else {
            let mut frame = buffer_split_to(src, i + 1);
            let bytes = buffer_as_mut_slice(&mut frame);
            match Cmd::from_vec(bytes) {
                Ok(cmd) => Ok(Some(cmd)),
                Err(e) => Err(e),
            }
        }
    }

    /// Appends the framed bytes of `cmd` to `buf`. A buffer that could not
    /// grow by the frame without passing `isize::MAX` bytes is left as it is,
    /// and the frame is refused as not fitting.
    pub fn encode(&mut self, cmd: Cmd, buf: &mut bytes::BytesMut) -> (res: Result<(), Error>)
        ensures
            buffer_bytes(*old(buf)).len() + cmd_frame(cmd).len() <= isize::MAX ==> res is Ok
                && buffer_bytes(*final(buf)) == buffer_bytes(*old(buf)) + cmd_frame(cmd),
            buffer_bytes(*old(buf)).len() + cmd_frame(cmd).len() > isize::MAX ==> res == Err::<
                (),
                Error,
            >(Error::Postcard(PostcardError::SerializeBufferFull)) && buffer_bytes(*final(buf))
                == buffer_bytes(*old(buf)),
    {
        proof {
            lemma_cmd_frame_len(cmd);
        }
        let data = match cmd.to_vec() {
            Ok(d) => d,
            Err(e) => return Err(e),
        };
        let bytes = cmd_vec_as_slice(&data);
        let held = buffer_as_slice(buf).len();
        let limit = isize::MAX as usize;
        if held > limit || bytes.len() > limit - held {
            return Err(Error::Postcard(PostcardError::SerializeBufferFull));
        }
        buffer_reserve(buf, bytes.len());
        buffer_put(buf, bytes);
        Ok(())
    }
}

/// What `Codec::decode` does on a buffer that starts with the frame of a
/// command: it returns the command and leaves what followed the frame.
pub proof fn lemma_codec_decode_frame(c: Cmd, rest: Seq<u8>)
    ensures
        codec_decode_step(cmd_frame(c) + rest) == (Ok::<Option<Cmd>, Error>(Some(c)), rest),
{
    lemma_cmd_frame_roundtrip(c, rest);
    lemma_cmd_frame_len(c);
    let b = cmd_frame(c) + rest;
    let n = cmd_frame(c).len();
    assert(b.take(n as int) =~= cmd_frame(c));
    assert(b.skip(n as int) =~= rest);
    lemma_cmd_frame_roundtrip(c, Seq::empty());
    assert(cmd_frame(c) + Seq::<u8>::empty() =~= cmd_frame(c));
}

/// A buffer without a zero byte holds no whole frame: `Codec::decode`
/// returns `None` and leaves the buffer as it was.
pub proof fn lemma_codec_decode_partial(b: Seq<u8>)
    requires
        forall|i: int| 0 <= i < b.len() ==> b[i] != 0,
    ensures
        codec_decode_step(b) == (Ok::<Option<Cmd>, Error>(None), b),
    decreases b.len(),
{
    if b.len() > 0 {
        assert(b[0] != 0);
        lemma_codec_decode_partial(b.drop_first());
    }
}

/// Encoding a command into a buffer and decoding that buffer gives the
/// command back and leaves the buffer empty.
pub proof fn lemma_codec_encode_decode(c: Cmd)
    ensures
        codec_decode_step(Seq::<u8>::empty() + cmd_frame(c)) == (
            Ok::<Option<Cmd>, Error>(Some(c)),
            Seq::<u8>::empty(),
        ),
{
    assert(Seq::<u8>::empty() + cmd_frame(c) =~= cmd_frame(c) + Seq::<u8>::empty());
    lemma_codec_decode_frame(c, Seq::empty());
}

/// The bytes of the frames of `cs`, one after the other.
pub open spec fn frames(cs: Seq<Cmd>) -> Seq<u8>
    decreases cs.len(),
{
    if cs.len() == 0 {
        Seq::empty()
    } else {
        cmd_frame(cs[0]) + frames(cs.drop_first())
    }
}

/// `n` decoding steps on the buffer bytes `b`: what each step returned, and
/// the bytes left.
pub open spec fn codec_decode_steps(b: Seq<u8>, n: nat) -> (Seq<Result<Option<Cmd>, Error>>, Seq<u8>)
    decreases n,
{
    if n == 0 {
        (Seq::empty(), b)
    } else {
        let (first, left) = codec_decode_step(b);
        let (more, rest) = codec_decode_steps(left, (n - 1) as nat);
        (seq![first] + more, rest)
    }
}

/// Commands encoded one after the other come out of the decoder in the same
/// order, one per step, and what followed them is left in the buffer.
pub proof fn lemma_codec_stream(cs: Seq<Cmd>, rest: Seq<u8>)
    ensures
        codec_decode_steps(frames(cs) + rest, cs.len()) == (
            cs.map_values(|c: Cmd| Ok::<Option<Cmd>, Error>(Some(c))),
            rest,
        ),
    decreases cs.len(),
{
    if cs.len() == 0 {
        assert(frames(cs) + rest =~= rest);
        assert(cs.map_values(|c: Cmd| Ok::<Option<Cmd>, Error>(Some(c))) =~= Seq::empty());
    } else {
        let tail = cs.drop_first();
        assert(frames(cs) + rest =~= cmd_frame(cs[0]) + (frames(tail) + rest));
        lemma_codec_decode_frame(cs[0], frames(tail) + rest);
        lemma_codec_stream(tail, rest);
        assert(cs.map_values(|c: Cmd| Ok::<Option<Cmd>, Error>(Some(c))) =~= seq![
            Ok::<Option<Cmd>, Error>(Some(cs[0])),
        ] + tail.map_values(|c: Cmd| Ok::<Option<Cmd>, Error>(Some(c))));
    }
}

} // verus!
