//! Fixed-width hash values.  The codec never computes a digest: a hash
//! is an opaque byte array of a known width, and the only validation is
//! that the width is exact.

use vstd::prelude::*;

verus! {

use crate::encode::copy_range;
use crate::error::{Error, HashLengthError};

/// Spec-level decoding shared by every fixed-width hash: exactly `n`
/// bytes come back unchanged.
pub open spec fn spec_deserialize_fixed(b: Seq<u8>, n: int) -> Option<Seq<u8>> {
    if b.len() == n {
        Some(b)
    } else {
        None
    }
}

/// An exact-width run always decodes back to itself: the round-trip law
/// for fixed-width hashes.
pub proof fn lemma_fixed_roundtrip(b: Seq<u8>, n: int)
    ensures
        b.len() == n ==> spec_deserialize_fixed(b, n) == Some(b),
{
}

/// Any input of the wrong width is rejected; the executable decoders
/// refine this into the length kind for short inputs and the
/// hash-specific kind for long ones.
pub proof fn lemma_fixed_length_sensitivity(b: Seq<u8>, n: int)
    ensures
        b.len() != n ==> spec_deserialize_fixed(b, n) is None,
{
}

/// Checks that `bytes` is exactly `n` long and copies it.  A short input
/// is a length failure; a long input is the hash-specific failure.
fn deserialize_fixed(bytes: &[u8], n: usize) -> (r: Result<Vec<u8>, Error>)
    ensures
        match r {
            Ok(v) => v@ == bytes@ && bytes@.len() == n,
            Err(e) => match e {
                Error::NotEnoughData => bytes@.len() < n,
                Error::InvalidHash(le) => bytes@.len() > n
                    && le == (HashLengthError { expected: n, got: bytes@.len() as usize }),
                _ => false,
            },
        },
{
    if bytes.len() < n {
        Err(Error::NotEnoughData)
    } else if bytes.len() > n {
        Err(Error::InvalidHash(HashLengthError { expected: n, got: bytes.len() }))
    } else {
        let v: Vec<u8> = copy_range(bytes, 0, bytes.len());
        assert(v@ =~= bytes@);
        Ok(v)
    }
}

/// A 32-byte hash committing to a taproot leaf script.
#[derive(Debug, Clone, PartialEq, Eq)]
pub struct TapLeafHash {
    /// The 32 digest bytes.
    pub bytes: Vec<u8>,
}

impl View for TapLeafHash {
    type V = Seq<u8>;

    open spec fn view(&self) -> Seq<u8> {
        self.bytes@
    }
}

impl TapLeafHash {
    /// Width and nothing else: the well-formedness of a held hash.
    pub open spec fn wf(self) -> bool {
        self@.len() == 32
    }

    /// Serializes the hash: its 32 bytes, unchanged.
    pub fn serialize(&self) -> (r: Vec<u8>)
        ensures
            r@ == self@,
    {
        copy_range(self.bytes.as_slice(), 0, self.bytes.len())
    }

    /// Deserializes a hash from exactly 32 bytes.
    pub fn deserialize(bytes: &[u8]) -> (r: Result<TapLeafHash, Error>)
        ensures
            match r {
                Ok(h) => spec_deserialize_fixed(bytes@, 32) == Some(h@) && h.wf(),
                Err(e) => spec_deserialize_fixed(bytes@, 32) is None && match e {
                    Error::NotEnoughData => bytes@.len() < 32,
                    Error::InvalidHash(_) => bytes@.len() > 32,
                    _ => false,
                },
            },
    {
        match deserialize_fixed(bytes, 32) {
            Ok(v) => Ok(TapLeafHash { bytes: v }),
            Err(e) => Err(e),
        }
    }
}

/// A 32-byte hash of an internal taproot tree node.
#[derive(Debug, Clone, PartialEq, Eq)]
pub struct TapNodeHash {
    /// The 32 digest bytes.
    pub bytes: Vec<u8>,
}

impl View for TapNodeHash {
    type V = Seq<u8>;

    open spec fn view(&self) -> Seq<u8> {
        self.bytes@
    }
}

impl TapNodeHash {
    /// Width and nothing else: the well-formedness of a held hash.
    pub open spec fn wf(self) -> bool {
        self@.len() == 32
    }

    /// The all-zero hash, used where a placeholder commitment is needed.
    pub fn all_zeros() -> (r: TapNodeHash)
        ensures
            r.wf(),
            r@ == Seq::new(32, |i: int| 0u8),
    {
        let mut bytes: Vec<u8> = Vec::new();
        let mut i: usize = 0;
        while i < 32
            invariant
                i <= 32,
                bytes@ == Seq::new(i as nat, |j: int| 0u8),
            decreases 32 - i,
        {
            bytes.push(0u8);
            i = i + 1;
            assert(bytes@ =~= Seq::new(i as nat, |j: int| 0u8));
        }
        TapNodeHash { bytes }
    }

    /// Serializes the hash: its 32 bytes, unchanged.
    pub fn serialize(&self) -> (r: Vec<u8>)
        ensures
            r@ == self@,
    {
        copy_range(self.bytes.as_slice(), 0, self.bytes.len())
    }

    /// Deserializes a hash from exactly 32 bytes.
    pub fn deserialize(bytes: &[u8]) -> (r: Result<TapNodeHash, Error>)
        ensures
            match r {
                Ok(h) => spec_deserialize_fixed(bytes@, 32) == Some(h@) && h.wf(),
                Err(e) => spec_deserialize_fixed(bytes@, 32) is None && match e {
                    Error::NotEnoughData => bytes@.len() < 32,
                    Error::InvalidHash(_) => bytes@.len() > 32,
                    _ => false,
                },
            },
    {
        match deserialize_fixed(bytes, 32) {
            Ok(v) => Ok(TapNodeHash { bytes: v }),
            Err(e) => Err(e),
        }
    }
}

/// A 32-byte single-SHA256 hash.
#[derive(Debug, Clone, PartialEq, Eq)]
pub struct Sha256Hash {
    /// The 32 digest bytes.
    pub bytes: Vec<u8>,
}

impl Sha256Hash {
    /// Serializes the hash: its 32 bytes, unchanged.
    pub fn serialize(&self) -> (r: Vec<u8>)
        ensures
            r@ == self.bytes@,
    {
        copy_range(self.bytes.as_slice(), 0, self.bytes.len())
    }

    /// Deserializes a hash from exactly 32 bytes.
    pub fn deserialize(bytes: &[u8]) -> (r: Result<Sha256Hash, Error>)
        ensures
            match r {
                Ok(h) => spec_deserialize_fixed(bytes@, 32) == Some(h.bytes@),
                Err(e) => spec_deserialize_fixed(bytes@, 32) is None && match e {
                    Error::NotEnoughData => bytes@.len() < 32,
                    Error::InvalidHash(_) => bytes@.len() > 32,
                    _ => false,
                },
            },
    {
        match deserialize_fixed(bytes, 32) {
            Ok(v) => Ok(Sha256Hash { bytes: v }),
            Err(e) => Err(e),
        }
    }
}

/// A 32-byte double-SHA256 hash.
#[derive(Debug, Clone, PartialEq, Eq)]
pub struct Sha256dHash {
    /// The 32 digest bytes.
    pub bytes: Vec<u8>,
}

impl Sha256dHash {
    /// Serializes the hash: its 32 bytes, unchanged.
    pub fn serialize(&self) -> (r: Vec<u8>)
        ensures
            r@ == self.bytes@,
    {
        copy_range(self.bytes.as_slice(), 0, self.bytes.len())
    }

    /// Deserializes a hash from exactly 32 bytes.
    pub fn deserialize(bytes: &[u8]) -> (r: Result<Sha256dHash, Error>)
        ensures
            match r {
                Ok(h) => spec_deserialize_fixed(bytes@, 32) == Some(h.bytes@),
                Err(e) => spec_deserialize_fixed(bytes@, 32) is None && match e {
                    Error::NotEnoughData => bytes@.len() < 32,
                    Error::InvalidHash(_) => bytes@.len() > 32,
                    _ => false,
                },
            },
    {
        match deserialize_fixed(bytes, 32) {
            Ok(v) => Ok(Sha256dHash { bytes: v }),
            Err(e) => Err(e),
        }
    }
}

/// A 32-byte transaction id.
#[derive(Debug, Clone, PartialEq, Eq)]
pub struct Txid {
    /// The 32 digest bytes.
    pub bytes: Vec<u8>,
}

impl Txid {
    /// Serializes the id: its 32 bytes, unchanged.
    pub fn serialize(&self) -> (r: Vec<u8>)
        ensures
            r@ == self.bytes@,
    {
        copy_range(self.bytes.as_slice(), 0, self.bytes.len())
    }

    /// Deserializes an id from exactly 32 bytes.
    pub fn deserialize(bytes: &[u8]) -> (r: Result<Txid, Error>)
        ensures
            match r {
                Ok(h) => spec_deserialize_fixed(bytes@, 32) == Some(h.bytes@),
                Err(e) => spec_deserialize_fixed(bytes@, 32) is None && match e {
                    Error::NotEnoughData => bytes@.len() < 32,
                    Error::InvalidHash(_) => bytes@.len() > 32,
                    _ => false,
                },
            },
    {
        match deserialize_fixed(bytes, 32) {
            Ok(v) => Ok(Txid { bytes: v }),
            Err(e) => Err(e),
        }
    }
}

/// A 20-byte RIPEMD160 hash.
#[derive(Debug, Clone, PartialEq, Eq)]
pub struct Ripemd160Hash {
    /// The 20 digest bytes.
    pub bytes: Vec<u8>,
}

impl Ripemd160Hash {
    /// Serializes the hash: its 20 bytes, unchanged.
    pub fn serialize(&self) -> (r: Vec<u8>)
        ensures
            r@ == self.bytes@,
    {
        copy_range(self.bytes.as_slice(), 0, self.bytes.len())
    }

    /// Deserializes a hash from exactly 20 bytes.
    pub fn deserialize(bytes: &[u8]) -> (r: Result<Ripemd160Hash, Error>)
        ensures
            match r {
                Ok(h) => spec_deserialize_fixed(bytes@, 20) == Some(h.bytes@),
                Err(e) => spec_deserialize_fixed(bytes@, 20) is None && match e {
                    Error::NotEnoughData => bytes@.len() < 20,
                    Error::InvalidHash(_) => bytes@.len() > 20,
                    _ => false,
                },
            },
    {
        match deserialize_fixed(bytes, 20) {
            Ok(v) => Ok(Ripemd160Hash { bytes: v }),
            Err(e) => Err(e),
        }
    }
}

/// A 20-byte SHA256-then-RIPEMD160 hash.
#[derive(Debug, Clone, PartialEq, Eq)]
pub struct Hash160 {
    /// The 20 digest bytes.
    pub bytes: Vec<u8>,
}

impl Hash160 {
    /// Serializes the hash: its 20 bytes, unchanged.
    pub fn serialize(&self) -> (r: Vec<u8>)
        ensures
            r@ == self.bytes@,
    {
        copy_range(self.bytes.as_slice(), 0, self.bytes.len())
    }

    /// Deserializes a hash from exactly 20 bytes.
    pub fn deserialize(bytes: &[u8]) -> (r: Result<Hash160, Error>)
        ensures
            match r {
                Ok(h) => spec_deserialize_fixed(bytes@, 20) == Some(h.bytes@),
                Err(e) => spec_deserialize_fixed(bytes@, 20) is None && match e {
                    Error::NotEnoughData => bytes@.len() < 20,
                    Error::InvalidHash(_) => bytes@.len() > 20,
                    _ => false,
                },
            },
    {
        match deserialize_fixed(bytes, 20) {
            Ok(v) => Ok(Hash160 { bytes: v }),
            Err(e) => Err(e),
        }
    }
}

} // verus!
