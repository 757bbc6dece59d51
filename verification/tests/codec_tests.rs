//! Tests for the primitive and composite value codecs.

use psbt_codec::crypto::{EcdsaSignature, PublicKey, Secp256k1PublicKey, TaprootSignature, XOnlyPublicKey};
use psbt_codec::encode::{deserialize_bytes, deserialize_u32, serialize_bytes, serialize_u32, put_varint, get_varint};
use psbt_codec::error::{ConsensusError, EcdsaSignatureError, Error, LockTimeError};
use psbt_codec::hashes::{Ripemd160Hash, Sha256Hash, TapLeafHash};
use psbt_codec::key_source::{Fingerprint, KeySource};
use psbt_codec::locktime::{AbsoluteLockTime, Height, PsbtSighashType, Sequence, Time};
use psbt_codec::script::ScriptBuf;
use psbt_codec::taproot::{
    deserialize_leaf_hashes, serialize_leaf_hashes, ControlBlock, LeafVersion, TapKeyHashPair,
    TapOriginPair, TapScriptPair,
};

/// The x coordinate 1 is on the secp256k1 curve, so these 32 bytes are a
/// valid x-only key.
fn valid_xonly_bytes() -> Vec<u8> {
    let mut b = vec![0u8; 31];
    b.push(0x01);
    b
}

/// The compressed encoding of the secp256k1 generator point.
fn valid_pubkey_bytes() -> Vec<u8> {
    let mut b = vec![0x02];
    b.extend_from_slice(&[
        0x79, 0xbe, 0x66, 0x7e, 0xf9, 0xdc, 0xbb, 0xac, 0x55, 0xa0, 0x62, 0x95, 0xce, 0x87,
        0x0b, 0x07, 0x02, 0x9b, 0xfc, 0xdb, 0x2d, 0xce, 0x28, 0xd9, 0x59, 0xf2, 0x81, 0x5b,
        0x16, 0xf8, 0x17, 0x98,
    ]);
    b
}

/// A minimal valid DER signature: SEQUENCE of the two integers r = 1, s = 1.
fn valid_der_sig() -> Vec<u8> {
    vec![0x30, 0x06, 0x02, 0x01, 0x01, 0x02, 0x01, 0x01]
}

#[test]
fn can_deserialize_non_standard_psbt_sighash_type() {
    let non_standard_sighash = [222u8, 0u8, 0u8, 0u8]; // 32 byte value.
    let sighash = PsbtSighashType::deserialize(&non_standard_sighash);
    assert!(sighash.is_ok())
}

#[test]
fn u32_roundtrip_exact_bytes() {
    let bytes = serialize_u32(0xdead_beef);
    assert_eq!(bytes, vec![0xef, 0xbe, 0xad, 0xde]);
    assert_eq!(deserialize_u32(&bytes).unwrap(), 0xdead_beef);
}

#[test]
fn u32_length_sensitivity() {
    assert!(matches!(deserialize_u32(&[1, 2, 3]), Err(Error::NotEnoughData)));
    assert!(matches!(
        deserialize_u32(&[1, 2, 3, 4, 5]),
        Err(Error::ConsensusEncoding(ConsensusError::ExtraData))
    ));
}

#[test]
fn raw_bytes_identity_codec() {
    let v = vec![9u8, 8, 7];
    assert_eq!(serialize_bytes(&v), v);
    assert_eq!(deserialize_bytes(&v).unwrap(), v);
}

#[test]
fn sequence_roundtrip() {
    let s = Sequence { value: 0xffff_fffe };
    let got = Sequence::deserialize(&s.serialize()).unwrap();
    assert_eq!(got, s);
}

#[test]
fn height_accepts_below_threshold() {
    let h = Height::deserialize(&serialize_u32(499_999_999)).unwrap();
    assert_eq!(h.value, 499_999_999);
}

#[test]
fn height_rejects_time_range() {
    assert!(matches!(
        Height::deserialize(&serialize_u32(500_000_000)),
        Err(Error::LockTime(LockTimeError::InvalidHeight(500_000_000)))
    ));
}

#[test]
fn time_accepts_threshold_and_rejects_heights() {
    let t = Time::deserialize(&serialize_u32(500_000_000)).unwrap();
    assert_eq!(t.value, 500_000_000);
    assert!(matches!(
        Time::deserialize(&serialize_u32(7)),
        Err(Error::LockTime(LockTimeError::InvalidTime(7)))
    ));
}

#[test]
fn psbt_sighash_type_roundtrip() {
    let t = PsbtSighashType::from_u32(0xdead_beef);
    let got = PsbtSighashType::deserialize(&t.serialize()).unwrap();
    assert_eq!(got.to_u32(), 0xdead_beef);
}

#[test]
fn hash_length_sensitivity() {
    // Shorter than the width: the length kind.
    assert!(matches!(
        Sha256Hash::deserialize(&[0u8; 31]),
        Err(Error::NotEnoughData)
    ));
    // Longer than the width: the hash-specific kind.
    assert!(matches!(
        Sha256Hash::deserialize(&[0u8; 33]),
        Err(Error::InvalidHash(_))
    ));
    // Exactly the width: accepted.
    assert!(Sha256Hash::deserialize(&[0u8; 32]).is_ok());
    assert!(matches!(
        Ripemd160Hash::deserialize(&[0u8; 19]),
        Err(Error::NotEnoughData)
    ));
    assert!(Ripemd160Hash::deserialize(&[0u8; 20]).is_ok());
}

#[test]
fn hash_roundtrip() {
    let h = TapLeafHash::deserialize(&[7u8; 32]).unwrap();
    assert_eq!(h.serialize(), vec![7u8; 32]);
}

#[test]
fn script_identity_codec() {
    let s = ScriptBuf::deserialize(&[0x51, 0x52]).unwrap();
    assert_eq!(s.serialize(), vec![0x51, 0x52]);
}

#[test]
fn key_source_too_short() {
    assert!(matches!(
        KeySource::deserialize(&[1, 2, 3]),
        Err(Error::NotEnoughData)
    ));
}

#[test]
fn key_source_one_index() {
    // 4-byte fingerprint plus one 32-bit index.
    let bytes = [0xaa, 0xbb, 0xcc, 0xdd, 0x2a, 0x00, 0x00, 0x80];
    let ks = KeySource::deserialize(&bytes).unwrap();
    assert_eq!(ks.fingerprint.bytes, vec![0xaa, 0xbb, 0xcc, 0xdd]);
    assert_eq!(ks.path, vec![0x8000_002a]);
    assert_eq!(ks.serialize(), bytes.to_vec());
}

#[test]
fn key_source_ragged_tail_rejected() {
    let bytes = [0xaa, 0xbb, 0xcc, 0xdd, 0x2a, 0x00];
    assert!(matches!(
        KeySource::deserialize(&bytes),
        Err(Error::ConsensusEncoding(ConsensusError::UnexpectedEnd))
    ));
}

#[test]
fn leaf_version_validation() {
    assert_eq!(LeafVersion::from_consensus(0xc0).unwrap().to_consensus(), 0xc0);
    assert!(matches!(
        LeafVersion::from_consensus(0xc1),
        Err(Error::InvalidLeafVersion)
    ));
    assert!(matches!(
        LeafVersion::from_consensus(0x50),
        Err(Error::InvalidLeafVersion)
    ));
}

#[test]
fn script_pair_roundtrip() {
    // A single push-op script with the tapscript leaf version.
    let pair = TapScriptPair {
        script: ScriptBuf { bytes: vec![0x51] },
        version: LeafVersion::from_consensus(0xc0).unwrap(),
    };
    let bytes = pair.serialize();
    assert_eq!(bytes, vec![0x51, 0xc0]);
    assert_eq!(*bytes.last().unwrap(), 0xc0);
    let got = TapScriptPair::deserialize(&bytes).unwrap();
    assert_eq!(got, pair);
}

#[test]
fn script_pair_errors() {
    assert!(matches!(
        TapScriptPair::deserialize(&[]),
        Err(Error::NotEnoughData)
    ));
    assert!(matches!(
        TapScriptPair::deserialize(&[0x51, 0xc1]),
        Err(Error::InvalidLeafVersion)
    ));
}

#[test]
fn xonly_key_roundtrip_and_rejection() {
    let good = valid_xonly_bytes();
    let key = XOnlyPublicKey::deserialize(&good).unwrap();
    assert_eq!(key.serialize(), good);
    // All-0xff is not a valid x coordinate (it exceeds the field prime).
    assert!(matches!(
        XOnlyPublicKey::deserialize(&[0xff; 32]),
        Err(Error::InvalidXOnlyPublicKey)
    ));
    // A wrong length is also the key-specific kind, never the length kind.
    assert!(matches!(
        XOnlyPublicKey::deserialize(&[0x01; 31]),
        Err(Error::InvalidXOnlyPublicKey)
    ));
}

#[test]
fn public_key_roundtrip_and_rejection() {
    let good = valid_pubkey_bytes();
    let key = PublicKey::deserialize(&good).unwrap();
    assert_eq!(key.serialize(), good);
    let mut bad = valid_pubkey_bytes();
    bad[0] = 0x05;
    assert!(matches!(
        PublicKey::deserialize(&bad),
        Err(Error::InvalidPublicKey(_))
    ));
}

#[test]
fn secp_public_key_roundtrip_and_rejection() {
    let good = valid_pubkey_bytes();
    let key = Secp256k1PublicKey::deserialize(&good).unwrap();
    assert_eq!(key.serialize(), good);
    assert!(matches!(
        Secp256k1PublicKey::deserialize(&[0u8; 33]),
        Err(Error::InvalidSecp256k1PublicKey)
    ));
}

#[test]
fn ecdsa_signature_roundtrip() {
    let mut bytes = valid_der_sig();
    bytes.push(0x01);
    let sig = EcdsaSignature::deserialize(&bytes).unwrap();
    assert_eq!(sig.serialize(), bytes);
}

#[test]
fn ecdsa_signature_non_standard_sighash_is_distinct() {
    let mut bytes = valid_der_sig();
    bytes.push(0x05);
    assert!(matches!(
        EcdsaSignature::deserialize(&bytes),
        Err(Error::NonStandardSighashType(0x05))
    ));
    // Substituting the standard flag decodes the same signature body.
    let mut fixed = valid_der_sig();
    fixed.push(0x01);
    let sig = EcdsaSignature::deserialize(&fixed).unwrap();
    let mut expected = valid_der_sig();
    expected.push(0x01);
    assert_eq!(sig.serialize(), expected);
}

#[test]
fn ecdsa_signature_empty_and_bad_der() {
    assert!(matches!(
        EcdsaSignature::deserialize(&[]),
        Err(Error::InvalidEcdsaSignature(EcdsaSignatureError::EmptySignature))
    ));
    // A standard flag but garbage in front of it.
    assert!(matches!(
        EcdsaSignature::deserialize(&[0x99, 0x01]),
        Err(Error::InvalidEcdsaSignature(EcdsaSignatureError::Secp256k1))
    ));
}

#[test]
fn taproot_signature_lengths() {
    let sig64 = TaprootSignature::deserialize(&[0x11; 64]).unwrap();
    assert_eq!(sig64.serialize(), vec![0x11; 64]);
    let mut with_flag = vec![0x11; 64];
    with_flag.push(0x83);
    let sig65 = TaprootSignature::deserialize(&with_flag).unwrap();
    assert_eq!(sig65.serialize(), with_flag);
    let mut bad_flag = vec![0x11; 64];
    bad_flag.push(0x05);
    assert!(matches!(
        TaprootSignature::deserialize(&bad_flag),
        Err(Error::NonStandardSighashType(0x05))
    ));
    assert!(matches!(
        TaprootSignature::deserialize(&[0x11; 63]),
        Err(Error::InvalidTaprootSignature(63))
    ));
}

#[test]
fn key_hash_pair_roundtrip() {
    let pair_bytes: Vec<u8> = {
        let mut b = valid_xonly_bytes();
        b.extend_from_slice(&[5u8; 32]);
        b
    };
    let pair = TapKeyHashPair::deserialize(&pair_bytes).unwrap();
    assert_eq!(pair.serialize(), pair_bytes);
}

#[test]
fn key_hash_pair_errors() {
    assert!(matches!(
        TapKeyHashPair::deserialize(&[0u8; 16]),
        Err(Error::NotEnoughData)
    ));
    let mut bad_key = vec![0xffu8; 32];
    bad_key.extend_from_slice(&[5u8; 32]);
    assert!(matches!(
        TapKeyHashPair::deserialize(&bad_key),
        Err(Error::InvalidXOnlyPublicKey)
    ));
}

#[test]
fn origin_pair_roundtrip() {
    // Two leaf hashes, then fingerprint and one child index.
    let mut bytes: Vec<u8> = vec![0x02];
    bytes.extend_from_slice(&[3u8; 32]);
    bytes.extend_from_slice(&[4u8; 32]);
    bytes.extend_from_slice(&[0xaa, 0xbb, 0xcc, 0xdd, 0x01, 0x00, 0x00, 0x00]);
    let pair = TapOriginPair::deserialize(&bytes).unwrap();
    assert_eq!(pair.leaf_hashes.len(), 2);
    assert_eq!(pair.source.path, vec![1]);
    assert_eq!(pair.serialize(), bytes);
}

#[test]
fn origin_pair_truncated_hash_list() {
    let mut bytes: Vec<u8> = vec![0x02];
    bytes.extend_from_slice(&[3u8; 32]);
    assert!(matches!(
        TapOriginPair::deserialize(&bytes),
        Err(Error::ConsensusEncoding(ConsensusError::UnexpectedEnd))
    ));
}

#[test]
fn control_block_roundtrip_and_rejection() {
    // Version/parity byte 0xc0, then a valid 32-byte internal key and no
    // merkle branch: the minimal valid control block.
    let mut good = vec![0xc0];
    good.extend_from_slice(&valid_xonly_bytes());
    let cb = ControlBlock::deserialize(&good).unwrap();
    assert_eq!(cb.serialize(), good);
    assert!(matches!(
        ControlBlock::deserialize(&[0u8; 32]),
        Err(Error::InvalidControlBlock)
    ));
}

#[test]
fn fingerprint_width() {
    let ks = KeySource {
        fingerprint: Fingerprint { bytes: vec![1, 2, 3, 4] },
        path: vec![7, 8],
    };
    let bytes = ks.serialize();
    assert_eq!(bytes.len(), 12);
    let got = KeySource::deserialize(&bytes).unwrap();
    assert_eq!(got, ks);
}

#[test]
fn varint_boundaries_in_script_prefix() {
    let mut out: Vec<u8> = Vec::new();
    put_varint(&mut out, 0xfc);
    assert_eq!(out, vec![0xfc]);
    out.clear();
    put_varint(&mut out, 0xfd);
    assert_eq!(out, vec![0xfd, 0xfd, 0x00]);
    out.clear();
    put_varint(&mut out, 0x1_0000);
    assert_eq!(out, vec![0xfe, 0x00, 0x00, 0x01, 0x00]);
    let (v, consumed) = get_varint(&out, 0).unwrap();
    assert_eq!((v, consumed), (0x1_0000, 5));
    // A non-minimal encoding is rejected.
    let non_minimal = vec![0xfd, 0x01, 0x00];
    assert!(matches!(
        get_varint(&non_minimal, 0),
        Err(ConsensusError::NonMinimalVarInt)
    ));
}

#[test]
fn absolute_lock_time_accepts_any_value() {
    let t = AbsoluteLockTime::deserialize(&serialize_u32(123)).unwrap();
    assert_eq!(t.value, 123);
    assert_eq!(t.serialize(), serialize_u32(123));
}

#[test]
fn leaf_hash_list_roundtrip() {
    let mut bytes: Vec<u8> = vec![0x02];
    bytes.extend_from_slice(&[3u8; 32]);
    bytes.extend_from_slice(&[4u8; 32]);
    let hashes = deserialize_leaf_hashes(&bytes).unwrap();
    assert_eq!(hashes.len(), 2);
    assert_eq!(serialize_leaf_hashes(&hashes), bytes);
}

#[test]
fn leaf_hash_list_rejects_trailing_data() {
    let mut bytes: Vec<u8> = vec![0x01];
    bytes.extend_from_slice(&[3u8; 32]);
    bytes.push(0x00);
    assert!(matches!(
        deserialize_leaf_hashes(&bytes),
        Err(Error::ConsensusEncoding(ConsensusError::ExtraData))
    ));
}

#[test]
fn origin_pair_propagates_key_source_error() {
    // An empty hash list followed by a 3-byte tail: the key-source stage
    // fails with its own length kind, passed through unchanged.
    let bytes: Vec<u8> = vec![0x00, 0xaa, 0xbb, 0xcc];
    assert!(matches!(
        TapOriginPair::deserialize(&bytes),
        Err(Error::NotEnoughData)
    ));
}

#[test]
fn leaf_hash_list_truncated_hash() {
    let mut bytes: Vec<u8> = vec![0x01];
    bytes.extend_from_slice(&[3u8; 16]);
    assert!(matches!(
        deserialize_leaf_hashes(&bytes),
        Err(Error::ConsensusEncoding(ConsensusError::UnexpectedEnd))
    ));
}
