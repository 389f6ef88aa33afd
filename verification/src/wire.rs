//! The postcard encoding of the primitive values that a command is made of:
//! single bytes, booleans and `u32` varints (LEB128, at most five bytes).
use vstd::prelude::*;
use crate::error::PostcardError;

verus! {

/// The varint bytes of `v`: seven bits per byte, least significant first,
/// the high bit set on every byte but the last.
pub open spec fn varint_bytes(v: nat) -> Seq<u8>
    decreases v,
{
    if v < 128 {
        seq![v as u8]
    } else {
        seq![((v % 128) + 128) as u8] + varint_bytes(v / 128)
    }
}

/// The byte that encodes a boolean.
pub open spec fn bool_byte(b: bool) -> u8 {
    if b { 1 } else { 0 }
}

/// Reading a `u32` varint from `s`, whose first byte is byte number `depth`
/// of the varint: the value read and the number of bytes used, or the error.
/// A fifth byte must end the varint and carry at most four bits.
pub open spec fn varint_read(s: Seq<u8>, depth: nat) -> Result<(nat, nat), PostcardError>
    decreases 5 - depth, s.len(),
{
    if depth >= 5 {
        Err(PostcardError::DeserializeBadVarint)
    } else if s.len() == 0 {
        Err(PostcardError::DeserializeUnexpectedEnd)
    } else if s[0] < 128 {
        if depth == 4 && s[0] > 15 {
            Err(PostcardError::DeserializeBadVarint)
        } else {
            Ok((s[0] as nat, 1))
        }
    } else {
        match varint_read(s.drop_first(), depth + 1) {
            Ok((v, n)) => Ok((((s[0] - 128) + 128 * v) as nat, n + 1)),
            Err(e) => Err(e),
        }
    }
}

/// Reading a `u32` varint from the start of `s`.
pub open spec fn varint_parse(s: Seq<u8>) -> Result<(u32, nat), PostcardError> {
    match varint_read(s, 0) {
        Ok((v, n)) => Ok((v as u32, n)),
        Err(e) => Err(e),
    }
}

/// Reading a boolean byte from the start of `s`.
pub open spec fn bool_parse(s: Seq<u8>) -> Result<bool, PostcardError> {
    if s.len() == 0 {
        Err(PostcardError::DeserializeUnexpectedEnd)
    } else if s[0] == 0 {
        Ok(false)
    } else if s[0] == 1 {
        Ok(true)
    } else {
        Err(PostcardError::DeserializeBadBool)
    }
}

/// The bound on what a varint holds from byte number `depth` on.
pub open spec fn varint_bound(depth: nat) -> nat {
    if depth == 0 {
        0x1_0000_0000
    } else if depth == 1 {
        0x200_0000
    } else if depth == 2 {
        0x4_0000
    } else if depth == 3 {
        0x800
    } else {
        0x10
    }
}

/// What a varint read yields fits below the bound of its depth.
pub proof fn lemma_varint_read_bound(s: Seq<u8>, depth: nat)
    requires
        depth < 5,
    ensures
        varint_read(s, depth) matches Ok((v, n)) ==> v < varint_bound(depth) && 1 <= n
            <= s.len() && n <= 5 - depth,
    decreases 5 - depth, s.len(),
{
    if s.len() > 0 && s[0] >= 128 && depth + 1 < 5 {
        lemma_varint_read_bound(s.drop_first(), depth + 1);
        if let Ok((v, n)) = varint_read(s.drop_first(), depth + 1) {
            let b = varint_bound(depth + 1);
            assert(varint_bound(depth) == 128 * b);
            let lo = s[0] - 128;
            assert(0 <= lo < 128);
            assert(lo + 128 * v < 128 * b) by (nonlinear_arith)
                requires
                    0 <= lo < 128,
                    v < b,
            ;
        }
    }
}

/// The varint of a value below the bound of `depth` has at most `5 - depth` bytes.
proof fn lemma_varint_bytes_len_bound(v: nat, depth: nat)
    requires
        depth < 5,
        v < varint_bound(depth),
    ensures
        1 <= varint_bytes(v).len() <= 5 - depth,
    decreases v,
{
    if v >= 128 {
        assert(depth < 4);
        lemma_varint_bytes_len_bound(v / 128, depth + 1);
    }
}

/// The varint of a value is between one and five bytes long.
pub proof fn lemma_varint_bytes_len(v: nat)
    ensures
        1 <= varint_bytes(v).len(),
        v < 0x1_0000_0000 ==> varint_bytes(v).len() <= 5,
        v < 128 ==> varint_bytes(v).len() == 1,
    decreases v,
{
    if v >= 128 {
        lemma_varint_bytes_len(v / 128);
    }
    if v < 0x1_0000_0000 {
        lemma_varint_bytes_len_bound(v, 0);
    }
}

/// Postcard's varint layout: a value below 128 is one byte holding it; a
/// larger value starts with its low seven bits plus 128 and goes on with the
/// varint of the rest. So every byte but the last has its high bit set, the
/// last has it clear, and the low seven bits of the bytes, least significant
/// first, spell the value in base 128.
pub proof fn lemma_varint_layout(v: nat)
    ensures
        v < 128 ==> varint_bytes(v) == seq![v as u8],
        v >= 128 ==> varint_bytes(v)[0] == (v % 128) + 128 && varint_bytes(v).drop_first()
            == varint_bytes(v / 128),
        varint_bytes(v).last() < 128,
        forall|i: int| 0 <= i < varint_bytes(v).len() - 1 ==> #[trigger] varint_bytes(v)[i] >= 128,
        varint_value(varint_bytes(v)) == v,
    decreases v,
{
    let s = varint_bytes(v);
    if v >= 128 {
        lemma_varint_layout(v / 128);
        let r = varint_bytes(v / 128);
        assert(s.drop_first() =~= r);
        assert(s.last() == r.last());
        assert forall|i: int| 0 <= i < s.len() - 1 implies #[trigger] s[i] >= 128 by {
            if i > 0 {
                assert(s[i] == r[i - 1]);
            }
        }
        assert(s[0] == ((v % 128) + 128) as u8);
        assert(s[0] % 128 == v % 128);
        assert(v == v % 128 + 128 * (v / 128));
        assert(varint_value(s) == (s[0] % 128) + 128 * varint_value(s.drop_first()));
        assert(varint_value(s.drop_first()) == v / 128);
    } else {
        assert(s.drop_first() =~= Seq::<u8>::empty());
        assert(s[0] == v);
        assert(varint_value(Seq::<u8>::empty()) == 0);
        assert(s[0] % 128 == v);
        assert(varint_value(s) == (s[0] % 128) + 128 * varint_value(s.drop_first()));
    }
}

/// The number that base-128 digits spell, least significant first, each
/// digit being the low seven bits of its byte.
pub open spec fn varint_value(s: Seq<u8>) -> nat
    decreases s.len(),
{
    if s.len() == 0 {
        0
    } else {
        (s[0] % 128) as nat + 128 * varint_value(s.drop_first())
    }
}

/// Reading back the varint of `v`, followed by anything, gives `v` and the
/// length of its varint.
pub proof fn lemma_varint_roundtrip(v: nat, rest: Seq<u8>, depth: nat)
    requires
        depth < 5,
        v < varint_bound(depth),
    ensures
        varint_read(varint_bytes(v) + rest, depth) == Ok::<(nat, nat), PostcardError>(
            (v, varint_bytes(v).len()),
        ),
    decreases v,
{
    let s = varint_bytes(v) + rest;
    if v < 128 {
        assert(s[0] == v as u8);
    } else {
        let hi = v / 128;
        assert(hi < varint_bound(depth + 1));
        lemma_varint_roundtrip(hi, rest, depth + 1);
        assert(s.drop_first() =~= varint_bytes(hi) + rest);
        assert(s[0] == ((v % 128) + 128) as u8);
    }
}

/// Appends the varint of `v` to `out`.
pub fn push_varint_u32(out: &mut Vec<u8>, v: u32)
    ensures
        final(out)@ == old(out)@ + varint_bytes(v as nat),
    decreases v,
{
    if v < 128 {
        out.push(v as u8);
        assert(varint_bytes(v as nat) =~= seq![v as u8]);
    } else {
        out.push(((v % 128) + 128) as u8);
        let ghost mid = out@;
        push_varint_u32(out, v / 128);
        assert(varint_bytes(v as nat) =~= seq![((v % 128) + 128) as u8] + varint_bytes(
            (v / 128) as nat,
        ));
    }
}

/// Reads a varint from `s` starting at index `i`, byte number `depth` of it.
fn read_varint_at(s: &[u8], i: usize, depth: u8) -> (res: Result<(u32, usize), PostcardError>)
    requires
        i <= s@.len(),
        depth < 5,
    ensures
        match varint_read(s@.skip(i as int), depth as nat) {
            Ok((v, n)) => res matches Ok((w, k)) && w == v && k == n,
            Err(e) => res == Err::<(u32, usize), PostcardError>(e),
        },
    decreases 5 - depth,
{
    let ghost rest = s@.skip(i as int);
    proof {
        lemma_varint_read_bound(rest, depth as nat);
    }
    if i >= s.len() {
        return Err(PostcardError::DeserializeUnexpectedEnd);
    }
    let b = s[i];
    assert(rest[0] == b);
    if b < 128 {
        if depth == 4 && b > 15 {
            Err(PostcardError::DeserializeBadVarint)
        } else {
            Ok((b as u32, 1))
        }
    } else if depth == 4 {
        proof {
            assert(varint_read(rest.drop_first(), 5) is Err);
        }
        Err(PostcardError::DeserializeBadVarint)
    } else {
        assert(rest.drop_first() =~= s@.skip(i + 1));
        proof {
            lemma_varint_read_bound(rest.drop_first(), (depth + 1) as nat);
        }
        match read_varint_at(s, i + 1, depth + 1) {
            Ok((v, n)) => {
                assert(v < varint_bound((depth + 1) as nat));
                Ok(((b - 128) as u32 + 128 * v, n + 1))
            },
            Err(e) => Err(e),
        }
    }
}

/// Reads a `u32` varint from `s` starting at index `i`: the value and the
/// number of bytes it took.
pub fn read_varint_u32(s: &[u8], i: usize) -> (res: Result<(u32, usize), PostcardError>)
    requires
        i <= s@.len(),
    ensures
        match varint_parse(s@.skip(i as int)) {
            Ok((v, n)) => res matches Ok((w, k)) && w == v && k == n,
            Err(e) => res == Err::<(u32, usize), PostcardError>(e),
        },
        res matches Ok((_, n)) ==> 1 <= n && i + n <= s@.len(),
{
    proof {
        lemma_varint_read_bound(s@.skip(i as int), 0);
    }
    read_varint_at(s, i, 0)
}

/// Reads a boolean byte from `s` at index `i`.
pub fn read_bool(s: &[u8], i: usize) -> (res: Result<bool, PostcardError>)
    requires
        i <= s@.len(),
    ensures
        res == bool_parse(s@.skip(i as int)),
{
    if i >= s.len() {
        Err(PostcardError::DeserializeUnexpectedEnd)
    } else if s[i] == 0 {
        Ok(false)
    } else if s[i] == 1 {
        Ok(true)
    } else {
        Err(PostcardError::DeserializeBadBool)
    }
}

} // verus!
