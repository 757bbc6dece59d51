//! The 32-bit PSBT values: sequence numbers, absolute lock-time heights
//! and times, and the sighash-type flag word.  All share the four-byte
//! little-endian encoding; heights and times add a range validation
//! split at the consensus lock-time threshold.

use vstd::prelude::*;

verus! {

use crate::encode::{serialize_u32, deserialize_u32, u32_le_bytes, u32_from_le};
use crate::error::{Error, LockTimeError};

/// Lock-time values below this threshold are block heights; values at or
/// above it are UNIX timestamps.
pub const LOCK_TIME_THRESHOLD: u32 = 500_000_000;

/// A transaction input sequence number: any 32-bit value.
#[derive(Debug, Clone, Copy, PartialEq, Eq)]
pub struct Sequence {
    /// The raw sequence number.
    pub value: u32,
}

impl Sequence {
    /// Serializes the sequence number little-endian.
    pub fn serialize(&self) -> (r: Vec<u8>)
        ensures
            r@ == u32_le_bytes(self.value),
    {
        serialize_u32(self.value)
    }

    /// Deserializes a sequence number from exactly four bytes.
    pub fn deserialize(bytes: &[u8]) -> (r: Result<Sequence, Error>)
        ensures
            match r {
                Ok(s) => bytes@.len() == 4
                    && s.value == u32_from_le(bytes@[0], bytes@[1], bytes@[2], bytes@[3]),
                Err(e) => bytes@.len() != 4 && (e matches Error::NotEnoughData
                    || e matches Error::ConsensusEncoding(_)),
            },
    {
        match deserialize_u32(bytes) {
            Ok(v) => Ok(Sequence { value: v }),
            Err(e) => Err(e),
        }
    }
}

/// An absolute lock time as stored in a transaction: any 32-bit value.
/// Values below the threshold mean heights, the rest timestamps; the
/// split is validated only by the [`Height`] and [`Time`] codecs.
#[derive(Debug, Clone, Copy, PartialEq, Eq)]
pub struct AbsoluteLockTime {
    /// The raw consensus value.
    pub value: u32,
}

impl AbsoluteLockTime {
    /// Serializes the lock time little-endian.
    pub fn serialize(&self) -> (r: Vec<u8>)
        ensures
            r@ == u32_le_bytes(self.value),
    {
        serialize_u32(self.value)
    }

    /// Deserializes a lock time from exactly four bytes; every value is
    /// accepted.
    pub fn deserialize(bytes: &[u8]) -> (r: Result<AbsoluteLockTime, Error>)
        ensures
            match r {
                Ok(t) => bytes@.len() == 4
                    && t.value == u32_from_le(bytes@[0], bytes@[1], bytes@[2], bytes@[3]),
                Err(e) => bytes@.len() != 4 && (e matches Error::NotEnoughData
                    || e matches Error::ConsensusEncoding(_)),
            },
    {
        match deserialize_u32(bytes) {
            Ok(v) => Ok(AbsoluteLockTime { value: v }),
            Err(e) => Err(e),
        }
    }
}

/// An absolute lock time expressed as a block height: a 32-bit value
/// strictly below the lock-time threshold.
#[derive(Debug, Clone, Copy, PartialEq, Eq)]
pub struct Height {
    /// The block height.
    pub value: u32,
}

impl Height {
    /// Height values are exactly those below the threshold.
    pub open spec fn wf(self) -> bool {
        self.value < LOCK_TIME_THRESHOLD
    }

    /// Builds a height from its consensus value, rejecting values in the
    /// timestamp range.
    pub fn from_consensus(n: u32) -> (r: Result<Height, Error>)
        ensures
            match r {
                Ok(h) => n < LOCK_TIME_THRESHOLD && h.value == n && h.wf(),
                Err(e) => n >= LOCK_TIME_THRESHOLD
                    && e == Error::LockTime(LockTimeError::InvalidHeight(n)),
            },
    {
        if n < LOCK_TIME_THRESHOLD {
            Ok(Height { value: n })
        } else {
            Err(Error::LockTime(LockTimeError::InvalidHeight(n)))
        }
    }

    /// Serializes the height little-endian.
    pub fn serialize(&self) -> (r: Vec<u8>)
        ensures
            r@ == u32_le_bytes(self.value),
    {
        serialize_u32(self.value)
    }

    /// Deserializes a height: four little-endian bytes whose value must
    /// be in the height range.  A wrong length is a consensus-level
    /// failure; a value in the timestamp range is a lock-time failure.
    pub fn deserialize(bytes: &[u8]) -> (r: Result<Height, Error>)
        ensures
            match r {
                Ok(h) => bytes@.len() == 4
                    && h.value == u32_from_le(bytes@[0], bytes@[1], bytes@[2], bytes@[3])
                    && h.wf(),
                Err(e) => match e {
                    Error::NotEnoughData => bytes@.len() < 4,
                    Error::ConsensusEncoding(_) => bytes@.len() > 4,
                    Error::LockTime(le) => bytes@.len() == 4
                        && le == LockTimeError::InvalidHeight(
                            u32_from_le(bytes@[0], bytes@[1], bytes@[2], bytes@[3]),
                        )
                        && u32_from_le(bytes@[0], bytes@[1], bytes@[2], bytes@[3])
                            >= LOCK_TIME_THRESHOLD,
                    _ => false,
                },
            },
    {
        match deserialize_u32(bytes) {
            Ok(v) => Height::from_consensus(v),
            Err(e) => Err(e),
        }
    }
}

/// An absolute lock time expressed as a UNIX timestamp: a 32-bit value
/// at or above the lock-time threshold.
#[derive(Debug, Clone, Copy, PartialEq, Eq)]
pub struct Time {
    /// The timestamp.
    pub value: u32,
}

impl Time {
    /// Time values are exactly those at or above the threshold.
    pub open spec fn wf(self) -> bool {
        self.value >= LOCK_TIME_THRESHOLD
    }

    /// Builds a time from its consensus value, rejecting values in the
    /// height range.
    pub fn from_consensus(n: u32) -> (r: Result<Time, Error>)
        ensures
            match r {
                Ok(t) => n >= LOCK_TIME_THRESHOLD && t.value == n && t.wf(),
                Err(e) => n < LOCK_TIME_THRESHOLD
                    && e == Error::LockTime(LockTimeError::InvalidTime(n)),
            },
    {
        if n >= LOCK_TIME_THRESHOLD {
            Ok(Time { value: n })
        } else {
            Err(Error::LockTime(LockTimeError::InvalidTime(n)))
        }
    }

    /// Serializes the time little-endian.
    pub fn serialize(&self) -> (r: Vec<u8>)
        ensures
            r@ == u32_le_bytes(self.value),
    {
        serialize_u32(self.value)
    }

    /// Deserializes a time: four little-endian bytes whose value must be
    /// in the timestamp range.
    pub fn deserialize(bytes: &[u8]) -> (r: Result<Time, Error>)
        ensures
            match r {
                Ok(t) => bytes@.len() == 4
                    && t.value == u32_from_le(bytes@[0], bytes@[1], bytes@[2], bytes@[3])
                    && t.wf(),
                Err(e) => match e {
                    Error::NotEnoughData => bytes@.len() < 4,
                    Error::ConsensusEncoding(_) => bytes@.len() > 4,
                    Error::LockTime(le) => bytes@.len() == 4
                        && le == LockTimeError::InvalidTime(
                            u32_from_le(bytes@[0], bytes@[1], bytes@[2], bytes@[3]),
                        )
                        && u32_from_le(bytes@[0], bytes@[1], bytes@[2], bytes@[3])
                            < LOCK_TIME_THRESHOLD,
                    _ => false,
                },
            },
    {
        match deserialize_u32(bytes) {
            Ok(v) => Time::from_consensus(v),
            Err(e) => Err(e),
        }
    }
}

/// The sighash-type flag word attached to a PSBT input.  Any 32-bit
/// value decodes: non-standard values are deliberately preserved rather
/// than rejected, so that downstream signing logic sees them.
#[derive(Debug, Clone, Copy, PartialEq, Eq)]
pub struct PsbtSighashType {
    /// The raw flag word.
    pub inner: u32,
}

impl PsbtSighashType {
    /// The raw 32-bit flag word.
    pub fn to_u32(&self) -> (r: u32)
        ensures
            r == self.inner,
    {
        self.inner
    }

    /// Builds a sighash type from any raw flag word.
    pub fn from_u32(n: u32) -> (r: PsbtSighashType)
        ensures
            r.inner == n,
    {
        PsbtSighashType { inner: n }
    }

    /// Serializes the flag word little-endian.
    pub fn serialize(&self) -> (r: Vec<u8>)
        ensures
            r@ == u32_le_bytes(self.inner),
    {
        serialize_u32(self.inner)
    }

    /// Deserializes a flag word from exactly four bytes; every value is
    /// accepted.
    pub fn deserialize(bytes: &[u8]) -> (r: Result<PsbtSighashType, Error>)
        ensures
            match r {
                Ok(s) => bytes@.len() == 4
                    && s.inner == u32_from_le(bytes@[0], bytes@[1], bytes@[2], bytes@[3]),
                Err(e) => bytes@.len() != 4 && (e matches Error::NotEnoughData
                    || e matches Error::ConsensusEncoding(_)),
            },
    {
        match deserialize_u32(bytes) {
            Ok(v) => Ok(PsbtSighashType { inner: v }),
            Err(e) => Err(e),
        }
    }
}

/// Serializing any of the 32-bit values and reading the four bytes back
/// little-endian yields the value again: the round-trip law shared by
/// `Sequence`, `Height`, `Time` and `PsbtSighashType`.
pub proof fn lemma_u32_value_roundtrip(n: u32)
    ensures
        u32_le_bytes(n).len() == 4,
        u32_from_le(
            u32_le_bytes(n)[0],
            u32_le_bytes(n)[1],
            u32_le_bytes(n)[2],
            u32_le_bytes(n)[3],
        ) == n,
{
    crate::encode::lemma_u32_le_roundtrip(n);
}

} // verus!
