//! Key sources: a four-byte master-key fingerprint followed by a
//! derivation path of 32-bit child indices, each little-endian.

use vstd::prelude::*;

verus! {

use crate::encode::{copy_range, put_bytes, put_u32_le, get_u32_le, u32_le_bytes, u32_from_le};
use crate::error::{ConsensusError, Error};

/// A four-byte master-key fingerprint.
#[derive(Debug, Clone, PartialEq, Eq)]
pub struct Fingerprint {
    /// The four fingerprint bytes.
    pub bytes: Vec<u8>,
}

impl View for Fingerprint {
    type V = Seq<u8>;

    open spec fn view(&self) -> Seq<u8> {
        self.bytes@
    }
}

impl Fingerprint {
    /// A fingerprint is exactly four bytes.
    pub open spec fn wf(self) -> bool {
        self@.len() == 4
    }
}

/// A key source: the fingerprint of the master key and the derivation
/// path that leads from it to the signing key.
#[derive(Debug, Clone, PartialEq, Eq)]
pub struct KeySource {
    /// The master-key fingerprint.
    pub fingerprint: Fingerprint,
    /// The derivation path, one raw 32-bit child index per step.
    pub path: Vec<u32>,
}

/// The wire form of a derivation path: each child index in order, four
/// bytes little-endian.
pub open spec fn path_bytes(p: Seq<u32>) -> Seq<u8>
    decreases p.len(),
{
    if p.len() == 0 {
        Seq::empty()
    } else {
        u32_le_bytes(p[0]) + path_bytes(p.skip(1))
    }
}

/// Spec-level decoding of a derivation path: the input must split into
/// whole four-byte indices.
pub open spec fn spec_decode_path(b: Seq<u8>) -> Option<Seq<u32>>
    decreases b.len(),
{
    if b.len() == 0 {
        Some(Seq::empty())
    } else if b.len() < 4 {
        None
    } else {
        match spec_decode_path(b.skip(4)) {
            Some(p) => Some(seq![u32_from_le(b[0], b[1], b[2], b[3])] + p),
            None => None,
        }
    }
}

/// Spec-level decoding of a key source: four fingerprint bytes, then a
/// derivation path filling the rest of the input.
pub open spec fn spec_decode_key_source(b: Seq<u8>) -> Option<(Seq<u8>, Seq<u32>)> {
    if b.len() < 4 {
        None
    } else {
        match spec_decode_path(b.skip(4)) {
            Some(p) => Some((b.subrange(0, 4), p)),
            None => None,
        }
    }
}

/// An encoded path decodes back to itself: the path round-trip law.
pub proof fn lemma_path_roundtrip(p: Seq<u32>)
    ensures
        spec_decode_path(path_bytes(p)) == Some(p),
    decreases p.len(),
{
    if p.len() == 0 {
        assert(path_bytes(p).len() == 0);
    } else {
        lemma_path_roundtrip(p.skip(1));
        crate::encode::lemma_u32_le_roundtrip(p[0]);
        let b = path_bytes(p);
        let head = u32_le_bytes(p[0]);
        assert(b == head + path_bytes(p.skip(1)));
        assert(b.len() >= 4);
        assert(b[0] == head[0] && b[1] == head[1] && b[2] == head[2] && b[3] == head[3]);
        assert(b.skip(4) =~= path_bytes(p.skip(1)));
        assert(seq![p[0]] + p.skip(1) =~= p);
    }
}

impl KeySource {
    /// A key source is well formed when its fingerprint has its exact
    /// width.
    pub open spec fn wf(self) -> bool {
        self.fingerprint.wf()
    }

    /// The wire form: fingerprint bytes, then the encoded path.
    pub open spec fn spec_serialize(self) -> Seq<u8> {
        self.fingerprint@ + path_bytes(self.path@)
    }

    /// Serializes the key source: fingerprint, then each child index
    /// little-endian.
    pub fn serialize(&self) -> (r: Vec<u8>)
        ensures
            r@ == self.spec_serialize(),
    {
        let mut out: Vec<u8> = Vec::new();
        put_bytes(&mut out, self.fingerprint.bytes.as_slice());
        assert(self.path@.skip(0) =~= self.path@);
        let mut i: usize = 0;
        while i < self.path.len()
            invariant
                i <= self.path@.len(),
                self.fingerprint@ + path_bytes(self.path@)
                    == out@ + path_bytes(self.path@.skip(i as int)),
            decreases self.path@.len() - i,
        {
            proof {
                let rest = self.path@.skip(i as int);
                assert(rest[0] == self.path@[i as int]);
                assert(rest.skip(1) =~= self.path@.skip(i as int + 1));
            }
            put_u32_le(&mut out, self.path[i]);
            i = i + 1;
        }
        assert(self.path@.skip(self.path@.len() as int).len() == 0);
        assert(out@ =~= self.spec_serialize());
        out
    }

    /// Deserializes a key source.  Fewer than four bytes is a length
    /// failure; after the fingerprint, the rest must split into whole
    /// four-byte child indices.
    pub fn deserialize(bytes: &[u8]) -> (r: Result<KeySource, Error>)
        ensures
            match r {
                Ok(ks) => spec_decode_key_source(bytes@) == Some((ks.fingerprint@, ks.path@))
                    && ks.wf(),
                Err(e) => spec_decode_key_source(bytes@) is None && match e {
                    Error::NotEnoughData => bytes@.len() < 4,
                    Error::ConsensusEncoding(c) => bytes@.len() >= 4
                        && c == ConsensusError::UnexpectedEnd,
                    _ => false,
                },
            },
{
        if bytes.len() < 4 {
            return Err(Error::NotEnoughData);
        }
        let fp: Vec<u8> = copy_range(bytes, 0, 4);
        let mut path: Vec<u32> = Vec::new();
        let mut pos: usize = 4;
        while pos < bytes.len()
            invariant
                4 <= pos <= bytes@.len(),
                bytes@.len() >= 4,
                ({
                    let whole = spec_decode_path(bytes@.skip(4));
                    let rest = spec_decode_path(bytes@.skip(pos as int));
                    match rest {
                        Some(p) => whole == Some(path@ + p),
                        None => whole is None,
                    }
                }),
            decreases bytes@.len() - pos,
        {
            if bytes.len() - pos < 4 {
                proof {
                    assert(bytes@.skip(pos as int).len() < 4);
                    assert(bytes@.skip(pos as int).len() > 0);
                }
                return Err(Error::ConsensusEncoding(ConsensusError::UnexpectedEnd));
            }
            let ghost rest = bytes@.skip(pos as int);
            let v: u32 = get_u32_le(bytes, pos);
            proof {
                assert(rest[0] == bytes@[pos as int]);
                assert(rest[1] == bytes@[pos as int + 1]);
                assert(rest[2] == bytes@[pos as int + 2]);
                assert(rest[3] == bytes@[pos as int + 3]);
                assert(rest.skip(4) =~= bytes@.skip(pos as int + 4));
            }
            path.push(v);
            pos = pos + 4;
            proof {
                match spec_decode_path(bytes@.skip(pos as int)) {
                    Some(p) => {
                        assert(spec_decode_path(rest) == Some(seq![v] + p));
                        assert(path@ + p =~= path@.drop_last() + (seq![v] + p));
                    },
                    None => {},
                }
            }
        }
        proof {
            assert(bytes@.skip(pos as int).len() == 0);
            assert(path@ + Seq::<u32>::empty() =~= path@);
            assert(fp@ =~= bytes@.subrange(0, 4));
        }
        Ok(KeySource { fingerprint: Fingerprint { bytes: fp }, path })
    }
}

/// A serialized key source decodes back to the same fingerprint and
/// path: the round-trip law.
pub proof fn lemma_key_source_roundtrip(ks: KeySource)
    requires
        ks.wf(),
    ensures
        spec_decode_key_source(ks.spec_serialize()) == Some((ks.fingerprint@, ks.path@)),
{
    lemma_path_roundtrip(ks.path@);
    let b = ks.spec_serialize();
    assert(b.skip(4) =~= path_bytes(ks.path@));
    assert(b.subrange(0, 4) =~= ks.fingerprint@);
}

} // verus!
