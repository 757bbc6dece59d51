//! The closed set of ways a PSBT value can fail to decode.
//!
//! Every variant is constructed at the exact point of detection; no
//! variant is inferred after the fact.

use vstd::prelude::*;

verus! {

/// Reason a byte string failed bitcoin consensus-style decoding.
#[derive(Debug, Clone, Copy, PartialEq, Eq)]
pub enum ConsensusError {
    /// The input ended before the encoding was complete.
    UnexpectedEnd,
    /// A variable-length integer used more bytes than its value needs.
    NonMinimalVarInt,
    /// The encoding ended but bytes of the input were left over.
    ExtraData,
}

/// Reason an ECDSA signature byte string was rejected outright.
#[derive(Debug, Clone, Copy, PartialEq, Eq)]
pub enum EcdsaSignatureError {
    /// The input was empty: not even a sighash flag byte was present.
    EmptySignature,
    /// The DER-encoded signature body was rejected by the curve library.
    Secp256k1,
}

/// A fixed-width hash was given a slice of the wrong length.
#[derive(Debug, Clone, Copy, PartialEq, Eq)]
pub struct HashLengthError {
    /// The width the hash type requires.
    pub expected: usize,
    /// The width that was supplied.
    pub got: usize,
}

/// A 32-bit value was outside the range of the lock time flavour asked for.
#[derive(Debug, Clone, Copy, PartialEq, Eq)]
pub enum LockTimeError {
    /// The value is too large to be a block height.
    InvalidHeight(u32),
    /// The value is too small to be a UNIX timestamp lock.
    InvalidTime(u32),
}

/// Error from inserting a node into a [`crate::taptree::TaprootBuilder`].
#[derive(Debug, Clone, Copy, PartialEq, Eq)]
pub enum TaprootBuilderError {
    /// The node's depth exceeds the maximum supported tree depth.
    InvalidMerkleTreeDepth(usize),
    /// The node does not continue a depth-first walk of a binary tree.
    NodeNotInDfsOrder,
    /// Two nodes at root level cannot be combined any further.
    OverCompleteTree,
}

/// Error from finalizing a [`crate::taptree::TaprootBuilder`] into a tree.
#[derive(Debug, Clone, Copy, PartialEq, Eq)]
pub enum IncompleteBuilderError {
    /// The accumulated leaves do not yet form a complete binary tree.
    NotFinalized,
    /// The tree is complete but contains hidden (pruned) nodes.
    HiddenParts,
}

/// Ways that deserializing a PSBT value might fail.
#[derive(Debug)]
pub enum Error {
    /// Not enough data to deserialize object.
    NotEnoughData,
    /// Non-proprietary key type found when proprietary key was expected.
    InvalidProprietaryKey,
    /// Signals that there are no more key-value pairs in a key-value map.
    NoMorePairs,
    /// Unable to parse as a standard sighash type.
    NonStandardSighashType(u32),
    /// Invalid hash when parsing slice.
    InvalidHash(HashLengthError),
    /// Serialization error in bitcoin consensus-encoded structures.
    ConsensusEncoding(ConsensusError),
    /// Parsing error indicating invalid public keys.
    InvalidPublicKey(bitcoin::key::FromSliceError),
    /// Parsing error indicating invalid secp256k1 public keys.
    InvalidSecp256k1PublicKey,
    /// Parsing error indicating invalid xonly public keys.
    InvalidXOnlyPublicKey,
    /// Parsing error indicating invalid ECDSA signatures.
    InvalidEcdsaSignature(EcdsaSignatureError),
    /// Parsing error indicating invalid taproot signatures; carries the
    /// offending length.
    InvalidTaprootSignature(usize),
    /// Parsing error indicating invalid control block.
    InvalidControlBlock,
    /// Parsing error indicating invalid leaf version.
    InvalidLeafVersion,
    /// Parsing error indicating a taproot error.
    Taproot(&'static str),
    /// Taproot tree deserialization error.
    TapTree(IncompleteBuilderError),
    /// PSBT data is not consumed entirely.
    PartialDataConsumption,
    /// Couldn't convert a parsed u32 to a lock time.
    LockTime(LockTimeError),
    /// Unsupported PSBT version; carries the version number seen.
    UnsupportedVersion(u32),
}

} // verus!
