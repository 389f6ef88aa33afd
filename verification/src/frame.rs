//! The fixed-capacity byte buffers that hold one framed command, and the
//! calls into postcard and cobs that frame and unframe it.
use vstd::prelude::*;
use postcard::ser_flavors::{Cobs, Flavor, HVec};
use crate::cmd::CMD_MAX_SIZE;
use crate::cobs_format::{cobs_decode, cobs_frame, zero_free_len};

verus! {

/// A heapless vector of bytes with room for one framed command.
pub type CmdVec = heapless::Vec<u8, CMD_MAX_SIZE>;

#[verifier::external_type_specification]
#[verifier::external_body]
#[verifier::reject_recursive_types(T)]
pub struct ExHeaplessVec<T, const N: usize>(heapless::Vec<T, N>);

/// The bytes that a command buffer holds, in order.
pub uninterp spec fn cmd_vec_bytes(v: heapless::Vec<u8, CMD_MAX_SIZE>) -> Seq<u8>;

/// Frames `body` with postcard's COBS flavor into a command buffer, as
/// `postcard::to_vec_cobs` does with the bytes it serializes: a header byte
/// is reserved, every byte of `body` is pushed through the COBS encoder
/// (`Flavor::try_extend`), and `finalize` writes the last code and the
/// terminating zero. Claimed: on success the buffer holds the COBS frame of
/// `body`; a frame that fits in the buffer always succeeds (the heapless
/// buffer only refuses pushes beyond its capacity, and the encoder never
/// writes more bytes than the frame has). The postcard error itself, always
/// `SerializeBufferFull` here, is dropped.
#[verifier::external_body]
pub(crate) fn postcard_cobs_frame(body: &[u8]) -> (res: Option<CmdVec>)
    ensures
        res matches Some(v) ==> cmd_vec_bytes(v) == cobs_frame(body@),
        cobs_frame(body@).len() <= CMD_MAX_SIZE ==> res is Some,
{
    let mut flavor = Cobs::try_new(HVec::<CMD_MAX_SIZE>::default()).ok()?;
    flavor.try_extend(body).ok()?;
    flavor.finalize().ok()
}

/// `heapless::Vec::as_slice`: the bytes the buffer holds.
#[verifier::external_body]
pub(crate) fn cmd_vec_as_slice(v: &CmdVec) -> (res: &[u8])
    ensures
        res@ == cmd_vec_bytes(*v),
{
    v.as_slice()
}

/// `heapless::Vec::as_mut` (through `AsMut<[u8]>`): the bytes the buffer
/// holds, to change in place; the buffer afterwards holds what the slice
/// holds then.
#[verifier::external_body]
pub(crate) fn cmd_vec_as_mut_slice(v: &mut CmdVec) -> (res: &mut [u8])
    ensures
        res@ == cmd_vec_bytes(*old(v)),
        final(res)@ == cmd_vec_bytes(*final(v)),
{
    v.as_mut()
}

/// `heapless::Vec::from_slice`: a buffer holding a copy of `s`, or an error
/// when `s` is longer than the capacity.
#[verifier::external_body]
pub(crate) fn cmd_vec_from_slice(s: &[u8]) -> (res: Result<CmdVec, ()>)
    ensures
        res is Ok <==> s@.len() <= CMD_MAX_SIZE,
        res matches Ok(v) ==> cmd_vec_bytes(v) == s@,
{
    heapless::Vec::from_slice(s)
}

/// `cobs::decode_in_place`, the decoding step of `postcard::from_bytes_cobs`:
/// decodes the bytes before the first zero of `buf` (all of them if there is
/// none) into the start of `buf` and returns the decoded length; an empty
/// buffer or a block that runs past the end is an error. Claimed: the
/// buffer keeps its length, every byte from the first zero on (the decoder
/// writes only behind the byte it reads, which is before that zero) is left
/// as it was, and on success the first bytes are the decoded message. Which
/// `cobs::DecodeError` came back is dropped.
#[verifier::external_body]
pub(crate) fn cobs_decode_in_place(buf: &mut [u8]) -> (res: Option<usize>)
    ensures
        final(buf)@.len() == old(buf)@.len(),
        final(buf)@.skip(zero_free_len(old(buf)@) as int) == old(buf)@.skip(
            zero_free_len(old(buf)@) as int,
        ),
        match res {
            Some(n) => n <= old(buf)@.len() && cobs_decode(old(buf)@) == Some(
                final(buf)@.take(n as int),
            ),
            None => cobs_decode(old(buf)@) is None,
        },
{
    cobs::decode_in_place(buf).ok()
}

} // verus!
