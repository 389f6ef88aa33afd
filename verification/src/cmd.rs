//! The commands exchanged between the browser, the server and the boards,
//! and their postcard encoding.
use vstd::prelude::*;
use crate::error::{Error, PostcardError};
use crate::cobs_format::{
    cobs_decode, cobs_frame, lemma_cobs_encode_len, lemma_cobs_frame_roundtrip, zero_free_len,
};
use crate::frame::{cmd_vec_bytes, cobs_decode_in_place, postcard_cobs_frame, CmdVec};
use crate::wire::{
    bool_byte, bool_parse, lemma_varint_bytes_len, lemma_varint_roundtrip, push_varint_u32,
    read_bool, read_varint_u32, varint_bytes, varint_parse,
};

verus! {

/// A temperature reading, in sensor units.
pub type Temperature = u32;

/// A humidity reading, in sensor units.
pub type Humidity = u32;

/// A message of the robot protocol.
#[derive(Debug, Clone, Copy, PartialEq, Eq, Structural)]
pub enum Cmd {
    Hello,
    Ping,
    Pong,
    Button,
    Hue(u8),
    Led(bool),
    Relay(bool),
    Weather(Temperature, Humidity),
}

impl Cmd {
    /// The largest postcard encoding of a command: one discriminant byte and
    /// two five-byte varints.
    pub const POSTCARD_MAX_SIZE: usize = 11;
}

/// Room for the biggest command plus the two bytes that COBS framing adds.
pub const CMD_MAX_SIZE: usize = Cmd::POSTCARD_MAX_SIZE + 2;

/// The postcard bytes of a command: its variant index as a varint (one byte,
/// as there are eight variants), then its fields in order.
pub open spec fn cmd_postcard(c: Cmd) -> Seq<u8> {
    match c {
        Cmd::Hello => seq![0u8],
        Cmd::Ping => seq![1u8],
        Cmd::Pong => seq![2u8],
        Cmd::Button => seq![3u8],
        Cmd::Hue(h) => seq![4u8, h],
        Cmd::Led(b) => seq![5u8, bool_byte(b)],
        Cmd::Relay(b) => seq![6u8, bool_byte(b)],
        Cmd::Weather(t, h) => seq![7u8] + varint_bytes(t as nat) + varint_bytes(h as nat),
    }
}

/// The fields of the variant with index `tag`, read from `rest`.
pub open spec fn cmd_fields_parse(tag: u32, rest: Seq<u8>) -> Result<Cmd, PostcardError> {
    if tag == 0 {
        Ok(Cmd::Hello)
    } else if tag == 1 {
        Ok(Cmd::Ping)
    } else if tag == 2 {
        Ok(Cmd::Pong)
    } else if tag == 3 {
        Ok(Cmd::Button)
    } else if tag == 4 {
        if rest.len() == 0 {
            Err(PostcardError::DeserializeUnexpectedEnd)
        } else {
            Ok(Cmd::Hue(rest[0]))
        }
    } else if tag == 5 {
        match bool_parse(rest) {
            Ok(b) => Ok(Cmd::Led(b)),
            Err(e) => Err(e),
        }
    } else if tag == 6 {
        match bool_parse(rest) {
            Ok(b) => Ok(Cmd::Relay(b)),
            Err(e) => Err(e),
        }
    } else if tag == 7 {
        match varint_parse(rest) {
            Ok((t, n)) => match varint_parse(rest.skip(n as int)) {
                Ok((h, _)) => Ok(Cmd::Weather(t, h)),
                Err(e) => Err(e),
            },
            Err(e) => Err(e),
        }
    } else {
        Err(PostcardError::SerdeDeCustom)
    }
}

/// Reading a command from the start of `s`, the way postcard does: the
/// variant index as a varint, then the fields. Bytes after the command are
/// ignored.
pub open spec fn cmd_parse(s: Seq<u8>) -> Result<Cmd, PostcardError> {
    match varint_parse(s) {
        Ok((tag, n)) => cmd_fields_parse(tag, s.skip(n as int)),
        Err(e) => Err(e),
    }
}

/// The postcard bytes of a command take between one and eleven bytes.
pub proof fn lemma_cmd_postcard_len(c: Cmd)
    ensures
        1 <= cmd_postcard(c).len() <= Cmd::POSTCARD_MAX_SIZE,
{
    if let Cmd::Weather(t, h) = c {
        lemma_varint_bytes_len(t as nat);
        lemma_varint_bytes_len(h as nat);
    }
}

/// Reading back the postcard bytes of a command, followed by anything,
/// gives the command.
pub proof fn lemma_cmd_postcard_roundtrip(c: Cmd, rest: Seq<u8>)
    ensures
        cmd_parse(cmd_postcard(c) + rest) == Ok::<Cmd, PostcardError>(c),
{
    let s = cmd_postcard(c) + rest;
    let tag_byte = cmd_postcard(c)[0];
    lemma_varint_roundtrip(tag_byte as nat, s.drop_first(), 0);
    assert(s =~= varint_bytes(tag_byte as nat) + s.drop_first());
    assert(s.skip(1) =~= s.drop_first());
    match c {
        Cmd::Hue(h) => {
            assert(s.skip(1)[0] == h);
        },
        Cmd::Led(b) => {
            assert(s.skip(1)[0] == bool_byte(b));
        },
        Cmd::Relay(b) => {
            assert(s.skip(1)[0] == bool_byte(b));
        },
        Cmd::Weather(t, h) => {
            let vt = varint_bytes(t as nat);
            let vh = varint_bytes(h as nat);
            let after = s.skip(1);
            assert(after =~= vt + (vh + rest));
            lemma_varint_roundtrip(t as nat, vh + rest, 0);
            assert(after.skip(vt.len() as int) =~= vh + rest);
            lemma_varint_roundtrip(h as nat, rest, 0);
        },
        _ => {},
    }
}

/// Postcard's layout of each command: first the index of its variant in the
/// order the variants are declared (`Hello` 0, `Ping` 1, `Pong` 2, `Button`
/// 3, `Hue` 4, `Led` 5, `Relay` 6, `Weather` 7), as a one-byte varint, then
/// its fields: a hue as its raw byte, a boolean as 1 for true and 0 for
/// false, the two readings as varints, temperature first.
pub proof fn lemma_cmd_postcard_layout()
    ensures
        cmd_postcard(Cmd::Hello) == seq![0u8],
        cmd_postcard(Cmd::Ping) == seq![1u8],
        cmd_postcard(Cmd::Pong) == seq![2u8],
        cmd_postcard(Cmd::Button) == seq![3u8],
        forall|h: u8| #[trigger] cmd_postcard(Cmd::Hue(h)) == seq![4u8, h],
        cmd_postcard(Cmd::Led(false)) == seq![5u8, 0u8],
        cmd_postcard(Cmd::Led(true)) == seq![5u8, 1u8],
        cmd_postcard(Cmd::Relay(false)) == seq![6u8, 0u8],
        cmd_postcard(Cmd::Relay(true)) == seq![6u8, 1u8],
        forall|t: u32, h: u32| #[trigger]
            cmd_postcard(Cmd::Weather(t, h)) == seq![7u8] + varint_bytes(t as nat)
                + varint_bytes(h as nat),
{
}

/// The postcard bytes determine the command: two commands with the same
/// bytes are the same command.
pub proof fn lemma_cmd_postcard_injective(a: Cmd, b: Cmd)
    requires
        cmd_postcard(a) == cmd_postcard(b),
    ensures
        a == b,
{
    lemma_cmd_postcard_roundtrip(a, Seq::empty());
    lemma_cmd_postcard_roundtrip(b, Seq::empty());
}

/// What reading a COBS-framed command from `buf` gives: the frame is
/// decoded, then a command is read from the decoded bytes.
pub open spec fn cmd_from_frame(buf: Seq<u8>) -> Result<Cmd, Error> {
    match cobs_decode(buf) {
        None => Err(Error::Postcard(PostcardError::DeserializeBadEncoding)),
        Some(body) => match cmd_parse(body) {
            Ok(c) => Ok(c),
            Err(e) => Err(Error::Postcard(e)),
        },
    }
}

/// The framed bytes of a command: its postcard bytes, COBS-encoded and
/// ended by a zero.
pub open spec fn cmd_frame(c: Cmd) -> Seq<u8> {
    cobs_frame(cmd_postcard(c))
}

/// A framed command is at most `CMD_MAX_SIZE` bytes long.
pub proof fn lemma_cmd_frame_len(c: Cmd)
    ensures
        cmd_frame(c).len() == cmd_postcard(c).len() + 2,
        3 <= cmd_frame(c).len() <= CMD_MAX_SIZE,
{
    lemma_cmd_postcard_len(c);
    lemma_cobs_encode_len(cmd_postcard(c));
}

/// The frame of a command holds one zero, its last byte; decoding the frame,
/// whatever follows it, gives the command back.
pub proof fn lemma_cmd_frame_roundtrip(c: Cmd, rest: Seq<u8>)
    ensures
        zero_free_len(cmd_frame(c) + rest) == cmd_frame(c).len() - 1,
        cmd_from_frame(cmd_frame(c) + rest) == Ok::<Cmd, Error>(c),
{
    lemma_cobs_frame_roundtrip(cmd_postcard(c), rest);
    lemma_cmd_postcard_roundtrip(c, Seq::empty());
    assert(cmd_postcard(c) + Seq::<u8>::empty() =~= cmd_postcard(c));
}

/// Reading a command back from its own frame gives the command: what
/// `Cmd::from_vec` returns on the bytes that `Cmd::to_vec` wrote.
pub proof fn lemma_to_vec_from_vec(c: Cmd)
    ensures
        cmd_from_frame(cmd_frame(c)) == Ok::<Cmd, Error>(c),
{
    lemma_cmd_frame_roundtrip(c, Seq::empty());
    assert(cmd_frame(c) + Seq::<u8>::empty() =~= cmd_frame(c));
}

impl Cmd {
    /// Serializes the command to its COBS-framed postcard bytes.
    pub fn to_vec(&self) -> (res: Result<CmdVec, Error>)
        ensures
            res matches Ok(v) && cmd_vec_bytes(v) == cmd_frame(*self),
    {
        let body = self.to_postcard();
        proof {
            lemma_cmd_frame_len(*self);
        }
        match postcard_cobs_frame(body.as_slice()) {
            Some(v) => Ok(v),
            None => Err(Error::Postcard(PostcardError::SerializeBufferFull)),
        }
    }

    /// Reads a command from COBS-framed postcard bytes. The frame is decoded
    /// in place, so `value` holds the decoded bytes at its start afterwards;
    /// the bytes from the frame's terminating zero on are left as they were.
    pub fn from_vec(value: &mut [u8]) -> (res: Result<Cmd, Error>)
        ensures
            res == cmd_from_frame(old(value)@),
            final(value)@.len() == old(value)@.len(),
            final(value)@.skip(zero_free_len(old(value)@) as int) == old(value)@.skip(
                zero_free_len(old(value)@) as int,
            ),
            cobs_decode(old(value)@) matches Some(body) ==> final(value)@.take(body.len() as int)
                == body,
    {
        match cobs_decode_in_place(value) {
            None => Err(Error::Postcard(PostcardError::DeserializeBadEncoding)),
            Some(n) => {
                let body = &value[0..n];
                assert(body@ =~= value@.take(n as int));
                match Cmd::from_postcard(body) {
                    Ok(c) => Ok(c),
                    Err(e) => Err(Error::Postcard(e)),
                }
            },
        }
    }

    /// The postcard bytes of this command.
    pub fn to_postcard(&self) -> (res: Vec<u8>)
        ensures
            res@ == cmd_postcard(*self),
    {
        let mut out: Vec<u8> = Vec::new();
        match *self {
            Cmd::Hello => out.push(0),
            Cmd::Ping => out.push(1),
            Cmd::Pong => out.push(2),
            Cmd::Button => out.push(3),
            Cmd::Hue(h) => {
                out.push(4);
                out.push(h);
            },
            Cmd::Led(b) => {
                out.push(5);
                out.push(if b { 1 } else { 0 });
            },
            Cmd::Relay(b) => {
                out.push(6);
                out.push(if b { 1 } else { 0 });
            },
            Cmd::Weather(t, h) => {
                out.push(7);
                push_varint_u32(&mut out, t);
                push_varint_u32(&mut out, h);
            },
        }
        assert(out@ =~= cmd_postcard(*self));
        out
    }

    /// Reads a command from the postcard bytes at the start of `s`.
    pub fn from_postcard(s: &[u8]) -> (res: Result<Cmd, PostcardError>)
        ensures
            res == cmd_parse(s@),
    {
        assert(s@.skip(0) =~= s@);
        let first = read_varint_u32(s, 0);
        let (tag, n) = match first {
            Ok(r) => r,
            Err(e) => return Err(e),
        };
        assert(n <= s@.len());
        let ghost rest = s@.skip(n as int);
        assert(varint_parse(s@) == Ok::<(u32, nat), PostcardError>((tag, n as nat)));
        assert(cmd_parse(s@) == cmd_fields_parse(tag, rest));
        if tag == 0 {
            Ok(Cmd::Hello)
        } else if tag == 1 {
            Ok(Cmd::Ping)
        } else if tag == 2 {
            Ok(Cmd::Pong)
        } else if tag == 3 {
            Ok(Cmd::Button)
        } else if tag == 4 {
            if n >= s.len() {
                Err(PostcardError::DeserializeUnexpectedEnd)
            } else {
                assert(rest[0] == s@[n as int]);
                Ok(Cmd::Hue(s[n]))
            }
        } else if tag == 5 {
            match read_bool(s, n) {
                Ok(b) => Ok(Cmd::Led(b)),
                Err(e) => Err(e),
            }
        } else if tag == 6 {
            match read_bool(s, n) {
                Ok(b) => Ok(Cmd::Relay(b)),
                Err(e) => Err(e),
            }
        } else if tag == 7 {
            let second = read_varint_u32(s, n);
            match second {
                Ok((t, m)) => {
                    let total = s.len();
                    assert(n + m <= total);
                    assert(rest.skip(m as int) =~= s@.skip((n + m) as int));
                    match read_varint_u32(s, n + m) {
                        Ok((h, _)) => Ok(Cmd::Weather(t, h)),
                        Err(e) => Err(e),
                    }
                },
                Err(e) => Err(e),
            }
        } else {
            Err(PostcardError::SerdeDeCustom)
        }
    }
}

} // verus!
