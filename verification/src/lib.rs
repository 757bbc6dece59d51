//! Byte-level codecs for the values stored inside PSBT key-value maps
//! (BIP-174, with the Taproot extensions of BIP-371).
//!
//! Every domain type carries a pair of operations: `serialize`, which is
//! total and deterministic, and `deserialize`, which accepts exactly the
//! valid encodings of the type and reports a precise [`error::Error`]
//! otherwise.  The one genuinely algorithmic piece is the Taproot tree
//! codec in [`taptree`], which flattens a script tree to a
//! depth/leaf-version/script run and rebuilds it through a builder that
//! enforces depth-first order and structural completeness.

pub mod encode;
pub mod outside;
pub mod error;
pub mod hashes;
pub mod crypto;
pub mod script;
pub mod locktime;
pub mod key_source;
pub mod taproot;
pub mod taptree;
