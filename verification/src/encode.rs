//! The little-endian integer and variable-length integer encodings that
//! the bitcoin consensus format builds everything on, together with the
//! length-prefixed byte-string (script) encoding.
//!
//! Each encoding has a spec-level description (`..._bytes` for the
//! serializer, `spec_decode_...` for the parser) and an executable codec
//! proved against it, plus round-trip lemmas used by the callers.

use vstd::prelude::*;

verus! {

use crate::error::{ConsensusError, Error};

/// Outcome of a spec-level partial parse: a value together with how many
/// bytes it consumed, or the reason the front of the input was rejected.
pub enum SpecPartial<T> {
    /// The front of the input decodes to this value, consuming this many bytes.
    Value(T, int),
    /// The input ended before the encoding was complete.
    Short,
    /// A variable-length integer used more bytes than its value needs.
    NonMinimal,
}

// --- little-endian fixed-width integers ---

/// The two bytes of `n` in little-endian order.
pub open spec fn u16_le_bytes(n: u16) -> Seq<u8> {
    seq![(n & 0xff) as u8, ((n >> 8) & 0xff) as u8]
}

/// The 16-bit value read little-endian from two bytes.
pub open spec fn u16_from_le(b0: u8, b1: u8) -> u16 {
    (b0 as u16) | ((b1 as u16) << 8)
}

/// The four bytes of `n` in little-endian order.
pub open spec fn u32_le_bytes(n: u32) -> Seq<u8> {
    seq![
        (n & 0xff) as u8,
        ((n >> 8) & 0xff) as u8,
        ((n >> 16) & 0xff) as u8,
        ((n >> 24) & 0xff) as u8,
    ]
}

/// The 32-bit value read little-endian from four bytes.
pub open spec fn u32_from_le(b0: u8, b1: u8, b2: u8, b3: u8) -> u32 {
    (b0 as u32) | ((b1 as u32) << 8) | ((b2 as u32) << 16) | ((b3 as u32) << 24)
}

/// The eight bytes of `n` in little-endian order.
pub open spec fn u64_le_bytes(n: u64) -> Seq<u8> {
    seq![
        (n & 0xff) as u8,
        ((n >> 8) & 0xff) as u8,
        ((n >> 16) & 0xff) as u8,
        ((n >> 24) & 0xff) as u8,
        ((n >> 32) & 0xff) as u8,
        ((n >> 40) & 0xff) as u8,
        ((n >> 48) & 0xff) as u8,
        ((n >> 56) & 0xff) as u8,
    ]
}

/// The 64-bit value read little-endian from eight bytes.
pub open spec fn u64_from_le(b: Seq<u8>) -> u64
    recommends b.len() == 8,
{
    (b[0] as u64) | ((b[1] as u64) << 8) | ((b[2] as u64) << 16) | ((b[3] as u64) << 24)
    | ((b[4] as u64) << 32) | ((b[5] as u64) << 40) | ((b[6] as u64) << 48)
    | ((b[7] as u64) << 56)
}

/// Reading back the little-endian bytes of a 16-bit value gives the value.
pub proof fn lemma_u16_le_roundtrip(n: u16)
    ensures
        u16_from_le(u16_le_bytes(n)[0], u16_le_bytes(n)[1]) == n,
{
    assert(((n & 0xff) as u8 as u16) | ((((n >> 8) & 0xff) as u8 as u16) << 8) == n)
        by (bit_vector);
}

/// Reading back the little-endian bytes of a 32-bit value gives the value.
pub proof fn lemma_u32_le_roundtrip(n: u32)
    ensures
        u32_from_le(
            u32_le_bytes(n)[0],
            u32_le_bytes(n)[1],
            u32_le_bytes(n)[2],
            u32_le_bytes(n)[3],
        ) == n,
{
    assert(((n & 0xff) as u8 as u32) | ((((n >> 8) & 0xff) as u8 as u32) << 8)
        | ((((n >> 16) & 0xff) as u8 as u32) << 16) | ((((n >> 24) & 0xff) as u8 as u32) << 24)
        == n) by (bit_vector);
}

/// Reading back the little-endian bytes of a 64-bit value gives the value.
pub proof fn lemma_u64_le_roundtrip(n: u64)
    ensures
        u64_from_le(u64_le_bytes(n)) == n,
{
    assert(((n & 0xff) as u8 as u64) | ((((n >> 8) & 0xff) as u8 as u64) << 8)
        | ((((n >> 16) & 0xff) as u8 as u64) << 16) | ((((n >> 24) & 0xff) as u8 as u64) << 24)
        | ((((n >> 32) & 0xff) as u8 as u64) << 32) | ((((n >> 40) & 0xff) as u8 as u64) << 40)
        | ((((n >> 48) & 0xff) as u8 as u64) << 48) | ((((n >> 56) & 0xff) as u8 as u64) << 56)
        == n) by (bit_vector);
}

/// Appends the four little-endian bytes of `n` to `out`.
pub fn put_u32_le(out: &mut Vec<u8>, n: u32)
    ensures
        final(out)@ == old(out)@ + u32_le_bytes(n),
{
    out.push((n & 0xff) as u8);
    out.push(((n >> 8) & 0xff) as u8);
    out.push(((n >> 16) & 0xff) as u8);
    out.push(((n >> 24) & 0xff) as u8);
    assert(out@ =~= old(out)@ + u32_le_bytes(n));
}

/// Reads a 32-bit little-endian value at `pos`.
pub fn get_u32_le(bytes: &[u8], pos: usize) -> (r: u32)
    requires
        pos + 4 <= bytes@.len(),
    ensures
        r == u32_from_le(
            bytes@[pos as int],
            bytes@[pos as int + 1],
            bytes@[pos as int + 2],
            bytes@[pos as int + 3],
        ),
{
    let b0: u8 = bytes[pos];
    let b1: u8 = bytes[pos + 1];
    let b2: u8 = bytes[pos + 2];
    let b3: u8 = bytes[pos + 3];
    (b0 as u32) | ((b1 as u32) << 8) | ((b2 as u32) << 16) | ((b3 as u32) << 24)
}

// --- variable-length integers ---

/// The minimal bitcoin variable-length integer encoding of `n`.
pub open spec fn varint_bytes(n: u64) -> Seq<u8> {
    if n < 0xfd {
        seq![n as u8]
    } else if n <= 0xffff {
        seq![0xfdu8] + u16_le_bytes(n as u16)
    } else if n <= 0xffff_ffff {
        seq![0xfeu8] + u32_le_bytes(n as u32)
    } else {
        seq![0xffu8] + u64_le_bytes(n)
    }
}

/// Spec-level parse of a variable-length integer at the front of `b`,
/// rejecting non-minimal encodings as the consensus rules do.
pub open spec fn spec_decode_varint(b: Seq<u8>) -> SpecPartial<u64> {
    if b.len() == 0 {
        SpecPartial::Short
    } else if b[0] < 0xfd {
        SpecPartial::Value(b[0] as u64, 1)
    } else if b[0] == 0xfd {
        if b.len() < 3 {
            SpecPartial::Short
        } else if u16_from_le(b[1], b[2]) < 0xfd {
            SpecPartial::NonMinimal
        } else {
            SpecPartial::Value(u16_from_le(b[1], b[2]) as u64, 3)
        }
    } else if b[0] == 0xfe {
        if b.len() < 5 {
            SpecPartial::Short
        } else if u32_from_le(b[1], b[2], b[3], b[4]) < 0x10000 {
            SpecPartial::NonMinimal
        } else {
            SpecPartial::Value(u32_from_le(b[1], b[2], b[3], b[4]) as u64, 5)
        }
    } else {
        if b.len() < 9 {
            SpecPartial::Short
        } else if u64_from_le(b.subrange(1, 9)) < 0x1_0000_0000 {
            SpecPartial::NonMinimal
        } else {
            SpecPartial::Value(u64_from_le(b.subrange(1, 9)), 9)
        }
    }
}

/// Parsing an encoded variable-length integer, with anything after it,
/// yields the value back and consumes exactly the encoding.
pub proof fn lemma_varint_roundtrip(n: u64, rest: Seq<u8>)
    ensures
        spec_decode_varint(varint_bytes(n) + rest)
            == SpecPartial::<u64>::Value(n, varint_bytes(n).len() as int),
{
    let b = varint_bytes(n) + rest;
    if n < 0xfd {
        assert(b[0] == n as u8);
        assert(n as u8 as u64 == n) by (bit_vector)
            requires n < 0xfd;
    } else if n <= 0xffff {
        lemma_u16_le_roundtrip(n as u16);
        assert(n as u16 as u64 == n && n as u16 >= 0xfd) by (bit_vector)
            requires 0xfd <= n <= 0xffff;
        assert(b[1] == u16_le_bytes(n as u16)[0]);
        assert(b[2] == u16_le_bytes(n as u16)[1]);
    } else if n <= 0xffff_ffff {
        lemma_u32_le_roundtrip(n as u32);
        assert(n as u32 as u64 == n && n as u32 >= 0x10000) by (bit_vector)
            requires 0xffff < n <= 0xffff_ffff;
        assert(b[1] == u32_le_bytes(n as u32)[0]);
        assert(b[2] == u32_le_bytes(n as u32)[1]);
        assert(b[3] == u32_le_bytes(n as u32)[2]);
        assert(b[4] == u32_le_bytes(n as u32)[3]);
    } else {
        lemma_u64_le_roundtrip(n);
        assert(b.subrange(1, 9) =~= u64_le_bytes(n));
    }
}

/// Appends the minimal variable-length integer encoding of `n` to `out`.
pub fn put_varint(out: &mut Vec<u8>, n: u64)
    ensures
        final(out)@ == old(out)@ + varint_bytes(n),
{
    if n < 0xfd {
        out.push(n as u8);
        assert(out@ =~= old(out)@ + varint_bytes(n));
    } else if n <= 0xffff {
        out.push(0xfd);
        out.push((n & 0xff) as u8);
        out.push(((n >> 8) & 0xff) as u8);
        assert((n as u16 & 0xff) as u8 == (n & 0xff) as u8
            && ((n as u16 >> 8) & 0xff) as u8 == ((n >> 8) & 0xff) as u8) by (bit_vector)
            requires n <= 0xffff;
        assert(out@ =~= old(out)@ + varint_bytes(n));
    } else if n <= 0xffff_ffff {
        out.push(0xfe);
        out.push((n & 0xff) as u8);
        out.push(((n >> 8) & 0xff) as u8);
        out.push(((n >> 16) & 0xff) as u8);
        out.push(((n >> 24) & 0xff) as u8);
        assert((n as u32 & 0xff) as u8 == (n & 0xff) as u8
            && ((n as u32 >> 8) & 0xff) as u8 == ((n >> 8) & 0xff) as u8
            && ((n as u32 >> 16) & 0xff) as u8 == ((n >> 16) & 0xff) as u8
            && ((n as u32 >> 24) & 0xff) as u8 == ((n >> 24) & 0xff) as u8) by (bit_vector)
            requires n <= 0xffff_ffff;
        assert(out@ =~= old(out)@ + varint_bytes(n));
    } else {
        out.push(0xff);
        out.push((n & 0xff) as u8);
        out.push(((n >> 8) & 0xff) as u8);
        out.push(((n >> 16) & 0xff) as u8);
        out.push(((n >> 24) & 0xff) as u8);
        out.push(((n >> 32) & 0xff) as u8);
        out.push(((n >> 40) & 0xff) as u8);
        out.push(((n >> 48) & 0xff) as u8);
        out.push(((n >> 56) & 0xff) as u8);
        assert(out@ =~= old(out)@ + varint_bytes(n));
    }
}

/// Reads a variable-length integer at `pos`, returning the value and the
/// position just past it.
pub fn get_varint(bytes: &[u8], pos: usize) -> (r: Result<(u64, usize), ConsensusError>)
    requires
        pos <= bytes@.len(),
    ensures
        ({
            let tail = bytes@.subrange(pos as int, bytes@.len() as int);
            match spec_decode_varint(tail) {
                SpecPartial::Value(v, c) => r matches Ok(p)
                    && p.0 == v && p.1 == pos + c && p.1 <= bytes@.len(),
                SpecPartial::Short => r == Err::<(u64, usize), _>(ConsensusError::UnexpectedEnd),
                SpecPartial::NonMinimal => r == Err::<(u64, usize), _>(
                    ConsensusError::NonMinimalVarInt,
                ),
            }
        }),
{
    let ghost tail = bytes@.subrange(pos as int, bytes@.len() as int);
    if pos >= bytes.len() {
        return Err(ConsensusError::UnexpectedEnd);
    }
    let tag: u8 = bytes[pos];
    if tag < 0xfd {
        Ok((tag as u64, pos + 1))
    } else if tag == 0xfd {
        if bytes.len() - pos < 3 {
            return Err(ConsensusError::UnexpectedEnd);
        }
        let b0: u8 = bytes[pos + 1];
        let b1: u8 = bytes[pos + 2];
        let v: u16 = (b0 as u16) | ((b1 as u16) << 8);
        if v < 0xfd {
            Err(ConsensusError::NonMinimalVarInt)
        } else {
            Ok((v as u64, pos + 3))
        }
    } else if tag == 0xfe {
        if bytes.len() - pos < 5 {
            return Err(ConsensusError::UnexpectedEnd);
        }
        let v: u32 = get_u32_le(bytes, pos + 1);
        if v < 0x10000 {
            Err(ConsensusError::NonMinimalVarInt)
        } else {
            Ok((v as u64, pos + 5))
        }
    } else {
        if bytes.len() - pos < 9 {
            return Err(ConsensusError::UnexpectedEnd);
        }
        let lo: u32 = get_u32_le(bytes, pos + 1);
        let hi: u32 = get_u32_le(bytes, pos + 5);
        let v: u64 = (lo as u64) | ((hi as u64) << 32);
        proof {
            let t8 = tail.subrange(1, 9);
            let c0: u8 = t8[0];
            let c1: u8 = t8[1];
            let c2: u8 = t8[2];
            let c3: u8 = t8[3];
            let c4: u8 = t8[4];
            let c5: u8 = t8[5];
            let c6: u8 = t8[6];
            let c7: u8 = t8[7];
            assert((((c0 as u32) | ((c1 as u32) << 8) | ((c2 as u32) << 16)
                | ((c3 as u32) << 24)) as u64)
                | ((((c4 as u32) | ((c5 as u32) << 8) | ((c6 as u32) << 16)
                    | ((c7 as u32) << 24)) as u64) << 32)
                == (c0 as u64) | ((c1 as u64) << 8) | ((c2 as u64) << 16) | ((c3 as u64) << 24)
                    | ((c4 as u64) << 32) | ((c5 as u64) << 40) | ((c6 as u64) << 48)
                    | ((c7 as u64) << 56)) by (bit_vector);
            assert(v == u64_from_le(t8));
        }
        if v < 0x1_0000_0000 {
            Err(ConsensusError::NonMinimalVarInt)
        } else {
            Ok((v, pos + 9))
        }
    }
}

// --- byte-moving helpers ---

/// Copies `bytes[from..to]` into a fresh vector.
pub fn copy_range(bytes: &[u8], from: usize, to: usize) -> (r: Vec<u8>)
    requires
        from <= to <= bytes@.len(),
    ensures
        r@ == bytes@.subrange(from as int, to as int),
{
    let mut out: Vec<u8> = Vec::new();
    let mut i: usize = from;
    while i < to
        invariant
            from <= i <= to <= bytes@.len(),
            out@ == bytes@.subrange(from as int, i as int),
        decreases to - i,
    {
        out.push(bytes[i]);
        i = i + 1;
        assert(out@ =~= bytes@.subrange(from as int, i as int));
    }
    out
}

/// Appends all of `b` to `out`.
pub fn put_bytes(out: &mut Vec<u8>, b: &[u8])
    ensures
        final(out)@ == old(out)@ + b@,
{
    let mut i: usize = 0;
    while i < b.len()
        invariant
            i <= b@.len(),
            out@ == old(out)@ + b@.subrange(0, i as int),
        decreases b@.len() - i,
    {
        out.push(b[i]);
        i = i + 1;
        assert(out@ =~= old(out)@ + b@.subrange(0, i as int));
    }
    assert(out@ =~= old(out)@ + b@);
}

// --- the 32-bit integer codec used directly as a PSBT value ---

/// Serializes a 32-bit integer to its four-byte little-endian encoding.
pub fn serialize_u32(n: u32) -> (r: Vec<u8>)
    ensures
        r@ == u32_le_bytes(n),
{
    let mut out: Vec<u8> = Vec::new();
    put_u32_le(&mut out, n);
    out
}

/// Deserializes a 32-bit integer from a slice that must hold exactly its
/// four-byte little-endian encoding.
pub fn deserialize_u32(bytes: &[u8]) -> (r: Result<u32, Error>)
    ensures
        match r {
            Ok(v) => bytes@.len() == 4
                && v == u32_from_le(bytes@[0], bytes@[1], bytes@[2], bytes@[3]),
            Err(e) => (e matches Error::NotEnoughData && bytes@.len() < 4)
                || (e matches Error::ConsensusEncoding(c)
                    && c == ConsensusError::ExtraData && bytes@.len() > 4),
        },
{
    if bytes.len() < 4 {
        Err(Error::NotEnoughData)
    } else if bytes.len() > 4 {
        Err(Error::ConsensusEncoding(ConsensusError::ExtraData))
    } else {
        Ok(get_u32_le(bytes, 0))
    }
}

// --- the identity codec for raw byte values ---

/// Serializes a raw byte value: the bytes themselves.
pub fn serialize_bytes(value: &Vec<u8>) -> (r: Vec<u8>)
    ensures
        r@ == value@,
{
    copy_range(value.as_slice(), 0, value.len())
}

/// Deserializes a raw byte value: always succeeds with the input bytes.
pub fn deserialize_bytes(bytes: &[u8]) -> (r: Result<Vec<u8>, Error>)
    ensures
        r matches Ok(v) && v@ == bytes@,
{
    Ok(copy_range(bytes, 0, bytes.len()))
}

} // verus!
