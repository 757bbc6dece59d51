//! Public keys and signatures, stored as their validated wire bytes.
//!
//! Whether a byte string is a valid curve point or a valid DER signature
//! is decided by the secp256k1-backed parsers of the `bitcoin` crate;
//! each such check sits behind one trusted wrapper whose contract names
//! the set of accepted byte strings.  Everything around the checks — the
//! splitting of signatures into body and sighash flag, and the error
//! classification — is verified.

use vstd::prelude::*;

verus! {

use crate::error::{EcdsaSignatureError, Error};
use crate::encode::copy_range;

// --- the sets of byte strings the curve library accepts ---

/// Whether `bitcoin::key::PublicKey::from_slice` accepts these bytes as a
/// (compressed or uncompressed) public key.
pub uninterp spec fn pubkey_bytes_ok(b: Seq<u8>) -> bool;

/// Whether `bitcoin::secp256k1::PublicKey::from_slice` accepts these bytes.
pub uninterp spec fn secp_pubkey_bytes_ok(b: Seq<u8>) -> bool;

/// Whether `bitcoin::secp256k1::XOnlyPublicKey::from_slice` accepts these
/// bytes as the x coordinate of a curve point.
pub uninterp spec fn xonly_bytes_ok(b: Seq<u8>) -> bool;

/// Whether `bitcoin::secp256k1::ecdsa::Signature::from_der` accepts these
/// bytes as a DER-encoded ECDSA signature.
pub uninterp spec fn ecdsa_der_ok(b: Seq<u8>) -> bool;

// --- trusted wrappers over the curve library's parsers ---

/// Relies on `bitcoin::key::PublicKey::from_slice`: accepting a slice is a
/// deterministic function of its bytes.
#[verifier::external_body]
fn check_public_key(bytes: &[u8]) -> (r: Result<(), bitcoin::key::FromSliceError>)
    ensures
        r.is_ok() == pubkey_bytes_ok(bytes@),
{
    bitcoin::key::PublicKey::from_slice(bytes).map(|_| ())
}

/// Relies on `bitcoin::secp256k1::PublicKey::from_slice`: accepting a
/// slice is a deterministic function of its bytes.
#[verifier::external_body]
fn check_secp_public_key(bytes: &[u8]) -> (r: bool)
    ensures
        r == secp_pubkey_bytes_ok(bytes@),
{
    bitcoin::secp256k1::PublicKey::from_slice(bytes).is_ok()
}

/// Relies on `bitcoin::secp256k1::XOnlyPublicKey::from_slice`: accepting a
/// slice is a deterministic function of its bytes, and only 32-byte
/// slices are ever accepted.
#[verifier::external_body]
fn check_xonly_key(bytes: &[u8]) -> (r: bool)
    ensures
        r == xonly_bytes_ok(bytes@),
        r ==> bytes@.len() == 32,
{
    bitcoin::secp256k1::XOnlyPublicKey::from_slice(bytes).is_ok()
}

/// Relies on `bitcoin::secp256k1::ecdsa::Signature::from_der`: accepting a
/// slice is a deterministic function of its bytes.
#[verifier::external_body]
fn check_ecdsa_der(bytes: &[u8]) -> (r: bool)
    ensures
        r == ecdsa_der_ok(bytes@),
{
    bitcoin::secp256k1::ecdsa::Signature::from_der(bytes).is_ok()
}

// --- public keys ---

/// A compressed (33-byte) or uncompressed (65-byte) bitcoin public key,
/// held as the exact bytes the curve library validated.
#[derive(Debug, PartialEq, Eq)]
pub struct PublicKey {
    bytes: Vec<u8>,
}

impl View for PublicKey {
    type V = Seq<u8>;

    closed spec fn view(&self) -> Seq<u8> {
        self.bytes@
    }
}

/// Spec-level decoding of a public key: exactly the accepted byte
/// strings come back, unchanged.
pub open spec fn spec_deserialize_public_key(b: Seq<u8>) -> Option<Seq<u8>> {
    if pubkey_bytes_ok(b) {
        Some(b)
    } else {
        None
    }
}

/// Accepted public key bytes deserialize to themselves: the round-trip
/// law, given that `serialize` returns the held bytes unchanged.
pub proof fn lemma_public_key_roundtrip(b: Seq<u8>)
    ensures
        pubkey_bytes_ok(b) ==> spec_deserialize_public_key(b) == Some(b),
{
}

impl PublicKey {
    #[verifier::type_invariant]
    spec fn type_inv(self) -> bool {
        pubkey_bytes_ok(self.bytes@)
    }

    /// Serializes the key: its validated bytes, unchanged.  The output is
    /// always a byte string that `deserialize` accepts.
    pub fn serialize(&self) -> (r: Vec<u8>)
        ensures
            r@ == self@,
            spec_deserialize_public_key(r@) == Some(self@),
    {
        proof {
            use_type_invariant(&*self);
            lemma_public_key_roundtrip(self@);
        }
        copy_range(self.bytes.as_slice(), 0, self.bytes.len())
    }

    /// Deserializes a public key, accepting exactly the byte strings the
    /// curve library accepts.
    pub fn deserialize(bytes: &[u8]) -> (r: Result<PublicKey, Error>)
        ensures
            match r {
                Ok(k) => spec_deserialize_public_key(bytes@) == Some(k@) && k@ == bytes@,
                Err(e) => spec_deserialize_public_key(bytes@) is None
                    && e matches Error::InvalidPublicKey(_),
            },
    {
        match check_public_key(bytes) {
            Ok(()) => {
                let held: Vec<u8> = copy_range(bytes, 0, bytes.len());
                assert(held@ =~= bytes@);
                Ok(PublicKey { bytes: held })
            },
            Err(e) => Err(Error::InvalidPublicKey(e)),
        }
    }

}

/// A secp256k1 public key, held as the exact bytes the curve library
/// validated.
#[derive(Debug, PartialEq, Eq)]
pub struct Secp256k1PublicKey {
    bytes: Vec<u8>,
}

impl View for Secp256k1PublicKey {
    type V = Seq<u8>;

    closed spec fn view(&self) -> Seq<u8> {
        self.bytes@
    }
}

/// Spec-level decoding of a secp256k1 public key.
pub open spec fn spec_deserialize_secp_key(b: Seq<u8>) -> Option<Seq<u8>> {
    if secp_pubkey_bytes_ok(b) {
        Some(b)
    } else {
        None
    }
}

/// Accepted secp256k1 key bytes deserialize to themselves: the
/// round-trip law.
pub proof fn lemma_secp_key_roundtrip(b: Seq<u8>)
    ensures
        secp_pubkey_bytes_ok(b) ==> spec_deserialize_secp_key(b) == Some(b),
{
}

impl Secp256k1PublicKey {
    #[verifier::type_invariant]
    spec fn type_inv(self) -> bool {
        secp_pubkey_bytes_ok(self.bytes@)
    }

    /// Serializes the key: its validated bytes, unchanged.  The output is
    /// always a byte string that `deserialize` accepts.
    pub fn serialize(&self) -> (r: Vec<u8>)
        ensures
            r@ == self@,
            spec_deserialize_secp_key(r@) == Some(self@),
    {
        proof {
            use_type_invariant(&*self);
            lemma_secp_key_roundtrip(self@);
        }
        copy_range(self.bytes.as_slice(), 0, self.bytes.len())
    }

    /// Deserializes a secp256k1 public key, accepting exactly the byte
    /// strings the curve library accepts.
    pub fn deserialize(bytes: &[u8]) -> (r: Result<Secp256k1PublicKey, Error>)
        ensures
            match r {
                Ok(k) => spec_deserialize_secp_key(bytes@) == Some(k@) && k@ == bytes@,
                Err(e) => spec_deserialize_secp_key(bytes@) is None
                    && e == Error::InvalidSecp256k1PublicKey,
            },
    {
        if check_secp_public_key(bytes) {
            let held: Vec<u8> = copy_range(bytes, 0, bytes.len());
            assert(held@ =~= bytes@);
            Ok(Secp256k1PublicKey { bytes: held })
        } else {
            Err(Error::InvalidSecp256k1PublicKey)
        }
    }

}

/// An x-only (32-byte) public key, held as the exact bytes the curve
/// library validated.
#[derive(Debug, PartialEq, Eq)]
pub struct XOnlyPublicKey {
    bytes: Vec<u8>,
}

impl View for XOnlyPublicKey {
    type V = Seq<u8>;

    closed spec fn view(&self) -> Seq<u8> {
        self.bytes@
    }
}

/// Spec-level decoding of an x-only public key.
pub open spec fn spec_deserialize_xonly_key(b: Seq<u8>) -> Option<Seq<u8>> {
    if xonly_bytes_ok(b) {
        Some(b)
    } else {
        None
    }
}

/// Accepted x-only key bytes deserialize to themselves: the round-trip
/// law.
pub proof fn lemma_xonly_key_roundtrip(b: Seq<u8>)
    ensures
        xonly_bytes_ok(b) ==> spec_deserialize_xonly_key(b) == Some(b),
{
}

impl XOnlyPublicKey {
    #[verifier::type_invariant]
    spec fn type_inv(self) -> bool {
        xonly_bytes_ok(self.bytes@) && self.bytes@.len() == 32
    }

    /// Serializes the key: its validated bytes, unchanged.  The output is
    /// always a 32-byte string that `deserialize` accepts.
    pub fn serialize(&self) -> (r: Vec<u8>)
        ensures
            r@ == self@,
            r@.len() == 32,
            spec_deserialize_xonly_key(r@) == Some(self@),
    {
        proof {
            use_type_invariant(&*self);
            lemma_xonly_key_roundtrip(self@);
        }
        copy_range(self.bytes.as_slice(), 0, self.bytes.len())
    }

    /// Deserializes an x-only public key, accepting exactly the byte
    /// strings the curve library accepts.  A failure is always the
    /// key-specific kind, never the length kind.
    pub fn deserialize(bytes: &[u8]) -> (r: Result<XOnlyPublicKey, Error>)
        ensures
            match r {
                Ok(k) => spec_deserialize_xonly_key(bytes@) == Some(k@) && k@ == bytes@,
                Err(e) => spec_deserialize_xonly_key(bytes@) is None
                    && e == Error::InvalidXOnlyPublicKey,
            },
    {
        if check_xonly_key(bytes) {
            let held: Vec<u8> = copy_range(bytes, 0, bytes.len());
            assert(held@ =~= bytes@);
            Ok(XOnlyPublicKey { bytes: held })
        } else {
            Err(Error::InvalidXOnlyPublicKey)
        }
    }

}

// --- ECDSA signatures with a trailing sighash flag ---

/// The six sighash flag values BIP-174 calls standard for ECDSA
/// signatures.
pub open spec fn is_standard_sighash(flag: u8) -> bool {
    flag == 0x01 || flag == 0x02 || flag == 0x03 || flag == 0x81 || flag == 0x82 || flag == 0x83
}

/// Spec-level outcome of decoding an ECDSA signature byte string.
pub enum SpecSigDecode {
    /// DER body and standard sighash flag.
    Sig(Seq<u8>, u8),
    /// The trailing byte is not a standard sighash flag; the value is the
    /// flag widened to 32 bits.  This classification is recoverable.
    NonStandard(u32),
    /// The input was empty.
    Empty,
    /// The flag is standard but the DER body is invalid.
    BadDer,
}

/// Spec-level decoding of an ECDSA signature byte string: the trailing
/// byte is classified before the DER body is parsed.
pub open spec fn spec_decode_ecdsa_sig(b: Seq<u8>) -> SpecSigDecode {
    if b.len() == 0 {
        SpecSigDecode::Empty
    } else if !is_standard_sighash(b.last()) {
        SpecSigDecode::NonStandard(b.last() as u32)
    } else if !ecdsa_der_ok(b.drop_last()) {
        SpecSigDecode::BadDer
    } else {
        SpecSigDecode::Sig(b.drop_last(), b.last())
    }
}

/// A DER-encoded ECDSA signature with its standard sighash flag, held as
/// the exact bytes that were validated.
#[derive(Debug, PartialEq, Eq)]
pub struct EcdsaSignature {
    der: Vec<u8>,
    sighash: u8,
}

impl EcdsaSignature {
    #[verifier::type_invariant]
    spec fn type_inv(self) -> bool {
        ecdsa_der_ok(self.der@) && is_standard_sighash(self.sighash)
    }

    /// The DER-encoded signature body.
    pub closed spec fn der_view(self) -> Seq<u8> {
        self.der@
    }

    /// The sighash flag byte.
    pub closed spec fn sighash_flag(self) -> u8 {
        self.sighash
    }

    /// The wire form: DER body followed by the one-byte sighash flag.
    pub open spec fn spec_serialize(self) -> Seq<u8> {
        self.der_view() + seq![self.sighash_flag()]
    }

    /// Serializes the signature: DER body then sighash flag.
    pub fn serialize(&self) -> (r: Vec<u8>)
        ensures
            r@ == self.spec_serialize(),
            spec_decode_ecdsa_sig(r@) == SpecSigDecode::Sig(self.der_view(), self.sighash_flag()),
    {
        proof {
            use_type_invariant(&*self);
            lemma_ecdsa_sig_roundtrip(self.der_view(), self.sighash_flag());
        }
        let mut out: Vec<u8> = copy_range(self.der.as_slice(), 0, self.der.len());
        out.push(self.sighash);
        assert(out@ =~= self.spec_serialize());
        out
    }

    /// Deserializes an ECDSA signature.  A non-standard trailing sighash
    /// flag is reported as its own recoverable classification, never as a
    /// generic parse failure; the flag is inspected before the DER body.
    pub fn deserialize(bytes: &[u8]) -> (r: Result<EcdsaSignature, Error>)
        ensures
            match r {
                Ok(s) => spec_decode_ecdsa_sig(bytes@)
                    == SpecSigDecode::Sig(s.der_view(), s.sighash_flag()),
                Err(e) => match spec_decode_ecdsa_sig(bytes@) {
                    SpecSigDecode::Sig(d, f) => false,
                    SpecSigDecode::NonStandard(f) => e == Error::NonStandardSighashType(f),
                    SpecSigDecode::Empty => e matches Error::InvalidEcdsaSignature(c)
                        && c is EmptySignature,
                    SpecSigDecode::BadDer => e matches Error::InvalidEcdsaSignature(c)
                        && c is Secp256k1,
                },
            },
    {
        if bytes.len() == 0 {
            return Err(Error::InvalidEcdsaSignature(EcdsaSignatureError::EmptySignature));
        }
        let flag: u8 = bytes[bytes.len() - 1];
        proof {
            assert(bytes@.last() == flag);
        }
        if !(flag == 0x01 || flag == 0x02 || flag == 0x03 || flag == 0x81 || flag == 0x82
            || flag == 0x83) {
            return Err(Error::NonStandardSighashType(flag as u32));
        }
        let der: Vec<u8> = copy_range(bytes, 0, bytes.len() - 1);
        proof {
            assert(der@ =~= bytes@.drop_last());
        }
        if check_ecdsa_der(der.as_slice()) {
            Ok(EcdsaSignature { der, sighash: flag })
        } else {
            Err(Error::InvalidEcdsaSignature(EcdsaSignatureError::Secp256k1))
        }
    }

}

/// A DER body with a standard flag appended decodes back to exactly that
/// body and flag: the round-trip law for ECDSA signatures.
pub proof fn lemma_ecdsa_sig_roundtrip(der: Seq<u8>, flag: u8)
    requires
        is_standard_sighash(flag),
    ensures
        ecdsa_der_ok(der) ==> spec_decode_ecdsa_sig(der + seq![flag])
            == SpecSigDecode::Sig(der, flag),
{
    let b = der + seq![flag];
    assert(b.last() == flag);
    assert(b.drop_last() =~= der);
}

/// A byte string whose trailing flag is non-standard is classified as
/// such — not as a generic parse failure — and, provided the DER body in
/// front of the flag is valid (the flag is classified before the body is
/// parsed, so the classification alone does not say), substituting the
/// standard flag `0x01` makes the same signature body decode to exactly
/// that body.
pub proof fn lemma_sighash_classification(b: Seq<u8>)
    requires
        b.len() >= 1,
        !is_standard_sighash(b.last()),
        ecdsa_der_ok(b.drop_last()),
    ensures
        spec_decode_ecdsa_sig(b) == SpecSigDecode::NonStandard(b.last() as u32),
        spec_decode_ecdsa_sig(b.drop_last() + seq![0x01u8])
            == SpecSigDecode::Sig(b.drop_last(), 0x01u8),
{
    let b2 = b.drop_last() + seq![0x01u8];
    assert(b2.last() == 0x01u8);
    assert(b2.drop_last() =~= b.drop_last());
}

// --- Schnorr (taproot) signatures ---

/// The sighash flag values accepted for taproot signatures: the default
/// flag `0x00` and the six standard ECDSA flags.
pub open spec fn is_taproot_sighash(flag: u8) -> bool {
    flag == 0x00 || is_standard_sighash(flag)
}

/// Spec-level decoding of a taproot signature byte string: 64 bytes mean
/// the default flag, 65 bytes carry an explicit recognized flag.
pub open spec fn spec_decode_taproot_sig(b: Seq<u8>) -> Option<(Seq<u8>, u8)> {
    if b.len() == 64 {
        Some((b, 0x00u8))
    } else if b.len() == 65 && is_taproot_sighash(b.last()) {
        Some((b.drop_last(), b.last()))
    } else {
        None
    }
}

/// A 64-byte Schnorr signature with its taproot sighash flag.  The
/// default flag is not written on the wire; any other flag is a trailing
/// 65th byte.
#[derive(Debug, PartialEq, Eq)]
pub struct TaprootSignature {
    signature: Vec<u8>,
    sighash: u8,
}

impl TaprootSignature {
    #[verifier::type_invariant]
    spec fn type_inv(self) -> bool {
        self.signature@.len() == 64 && is_taproot_sighash(self.sighash)
    }

    /// The 64 bytes of the Schnorr signature itself.
    pub closed spec fn sig_view(self) -> Seq<u8> {
        self.signature@
    }

    /// The sighash flag (0x00 for the default).
    pub closed spec fn sighash_flag(self) -> u8 {
        self.sighash
    }

    /// The wire form: 64 bytes, plus the flag byte unless it is the
    /// default.
    pub open spec fn spec_serialize(self) -> Seq<u8> {
        if self.sighash_flag() == 0x00 {
            self.sig_view()
        } else {
            self.sig_view() + seq![self.sighash_flag()]
        }
    }

    /// Serializes the signature, omitting the default sighash flag.
    pub fn serialize(&self) -> (r: Vec<u8>)
        ensures
            r@ == self.spec_serialize(),
    {
        let mut out: Vec<u8> = copy_range(self.signature.as_slice(), 0, self.signature.len());
        if self.sighash != 0x00 {
            out.push(self.sighash);
            assert(out@ =~= self.spec_serialize());
        } else {
            assert(out@ =~= self.spec_serialize());
        }
        out
    }

    /// Deserializes a taproot signature: 64 bytes mean the default flag,
    /// 65 bytes carry an explicit flag that must be a recognized value,
    /// and any other length is invalid.
    pub fn deserialize(bytes: &[u8]) -> (r: Result<TaprootSignature, Error>)
        ensures
            match r {
                Ok(s) => spec_decode_taproot_sig(bytes@)
                    == Some((s.sig_view(), s.sighash_flag())),
                Err(e) => match e {
                    Error::NonStandardSighashType(f) => bytes@.len() == 65
                        && !is_taproot_sighash(bytes@.last()) && f == bytes@.last() as u32,
                    Error::InvalidTaprootSignature(len) => bytes@.len() != 64
                        && bytes@.len() != 65 && len == bytes@.len(),
                    _ => false,
                },
            },
    {
        if bytes.len() == 64 {
            Ok(TaprootSignature { signature: copy_range(bytes, 0, 64), sighash: 0x00 })
        } else if bytes.len() == 65 {
            let flag: u8 = bytes[64];
            proof {
                assert(bytes@.last() == flag);
            }
            if flag == 0x00 || flag == 0x01 || flag == 0x02 || flag == 0x03 || flag == 0x81
                || flag == 0x82 || flag == 0x83 {
                let sig: Vec<u8> = copy_range(bytes, 0, 64);
                proof {
                    assert(sig@ =~= bytes@.drop_last());
                }
                Ok(TaprootSignature { signature: sig, sighash: flag })
            } else {
                Err(Error::NonStandardSighashType(flag as u32))
            }
        } else {
            Err(Error::InvalidTaprootSignature(bytes.len()))
        }
    }

}

/// A serialized taproot signature decodes back to the same 64-byte body
/// and flag: the round-trip law.
pub proof fn lemma_taproot_sig_roundtrip(sig: Seq<u8>, flag: u8)
    requires
        sig.len() == 64,
        is_taproot_sighash(flag),
    ensures
        spec_decode_taproot_sig(
            if flag == 0x00 {
                sig
            } else {
                sig + seq![flag]
            },
        ) == Some((sig, flag)),
{
    if flag != 0x00 {
        let b = sig + seq![flag];
        assert(b.last() == flag);
        assert(b.drop_last() =~= sig);
    }
}

} // verus!
