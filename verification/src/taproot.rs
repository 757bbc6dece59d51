//! Taproot-specific values: leaf versions, the fixed-layout pair codecs
//! of BIP-371, and control blocks.

use vstd::prelude::*;

verus! {

use crate::crypto::{XOnlyPublicKey, spec_deserialize_xonly_key};
use crate::encode::{copy_range, put_bytes, put_varint, get_varint, varint_bytes, spec_decode_varint, SpecPartial};
use crate::script::ScriptBuf;
use crate::error::{ConsensusError, Error};
use crate::hashes::TapLeafHash;
use crate::key_source::{KeySource, spec_decode_key_source};

/// The consensus leaf version of BIP-342 tapscript leaves.
pub const TAPROOT_LEAF_TAPSCRIPT: u8 = 0xc0;

/// The recognized consensus leaf versions: even bytes other than the
/// annex prefix `0x50`.
pub open spec fn leaf_version_ok(v: u8) -> bool {
    v % 2 == 0 && v != 0x50
}

/// A taproot leaf version byte, restricted to the recognized values.
#[derive(Debug, Clone, Copy, PartialEq, Eq)]
pub struct LeafVersion {
    /// The consensus byte.
    pub value: u8,
}

impl LeafVersion {
    /// Only recognized consensus values are held.
    pub open spec fn wf(self) -> bool {
        leaf_version_ok(self.value)
    }

    /// Builds a leaf version from its consensus byte, rejecting odd
    /// values and the annex prefix.
    pub fn from_consensus(v: u8) -> (r: Result<LeafVersion, Error>)
        ensures
            match r {
                Ok(lv) => leaf_version_ok(v) && lv.value == v && lv.wf(),
                Err(e) => !leaf_version_ok(v) && e == Error::InvalidLeafVersion,
            },
    {
        if v % 2 == 0 && v != 0x50 {
            Ok(LeafVersion { value: v })
        } else {
            Err(Error::InvalidLeafVersion)
        }
    }

    /// The consensus byte of this version.
    pub fn to_consensus(&self) -> (r: u8)
        ensures
            r == self.value,
    {
        self.value
    }
}

// --- script plus leaf version ---

/// A script together with the leaf version it runs under; on the wire
/// the version is a single trailing byte after the script bytes.
#[derive(Debug, Clone, PartialEq, Eq)]
pub struct TapScriptPair {
    /// The script.
    pub script: ScriptBuf,
    /// The leaf version.
    pub version: LeafVersion,
}

/// Spec-level decoding of a script/leaf-version pair: the last byte is
/// the version and everything before it the script.
pub open spec fn spec_decode_script_pair(b: Seq<u8>) -> Option<(Seq<u8>, u8)> {
    if b.len() == 0 {
        None
    } else if leaf_version_ok(b.last()) {
        Some((b.drop_last(), b.last()))
    } else {
        None
    }
}

impl TapScriptPair {
    /// Only recognized leaf versions are held.
    pub open spec fn wf(self) -> bool {
        self.version.wf()
    }

    /// The wire form: script bytes, then the version byte.
    pub open spec fn spec_serialize(self) -> Seq<u8> {
        self.script@ + seq![self.version.value]
    }

    /// Serializes the pair: script bytes followed by the leaf-version
    /// byte, which is always the final byte of the slice.
    pub fn serialize(&self) -> (r: Vec<u8>)
        ensures
            r@ == self.spec_serialize(),
            r@.len() == self.script@.len() + 1,
            r@.last() == self.version.value,
    {
        let mut out: Vec<u8> = copy_range(self.script.bytes.as_slice(), 0, self.script.bytes.len());
        out.push(self.version.value);
        assert(out@ =~= self.spec_serialize());
        out
    }

    /// Deserializes a pair: empty input is a length failure, an
    /// unrecognized trailing byte an invalid-leaf-version failure.
    pub fn deserialize(bytes: &[u8]) -> (r: Result<TapScriptPair, Error>)
        ensures
            match r {
                Ok(p) => spec_decode_script_pair(bytes@) == Some((p.script@, p.version.value))
                    && p.wf(),
                Err(e) => spec_decode_script_pair(bytes@) is None && match e {
                    Error::NotEnoughData => bytes@.len() == 0,
                    Error::InvalidLeafVersion => bytes@.len() > 0
                        && !leaf_version_ok(bytes@.last()),
                    _ => false,
                },
            },
    {
        if bytes.len() == 0 {
            return Err(Error::NotEnoughData);
        }
        let script: Vec<u8> = copy_range(bytes, 0, bytes.len() - 1);
        let vbyte: u8 = bytes[bytes.len() - 1];
        proof {
            assert(bytes@.last() == vbyte);
            assert(script@ =~= bytes@.drop_last());
        }
        match LeafVersion::from_consensus(vbyte) {
            Ok(version) => Ok(TapScriptPair { script: ScriptBuf { bytes: script }, version }),
            Err(e) => Err(e),
        }
    }
}

/// A serialized script/leaf-version pair decodes back to the same script
/// and version, recovering the version from the slice's final byte: the
/// round-trip law.
pub proof fn lemma_script_pair_roundtrip(p: TapScriptPair)
    requires
        p.wf(),
    ensures
        spec_decode_script_pair(p.spec_serialize()) == Some((p.script@, p.version.value)),
{
    let b = p.spec_serialize();
    assert(b.last() == p.version.value);
    assert(b.drop_last() =~= p.script@);
}

// --- x-only key plus leaf hash ---

/// An x-only public key together with a taproot leaf hash; on the wire
/// the key occupies the first 32 bytes and the hash the rest.
#[derive(Debug, PartialEq, Eq)]
pub struct TapKeyHashPair {
    /// The x-only public key.
    pub key: XOnlyPublicKey,
    /// The leaf hash.
    pub hash: TapLeafHash,
}

/// Spec-level decoding of a key/leaf-hash pair: 32 key bytes that the
/// curve library accepts, then exactly 32 hash bytes.
pub open spec fn spec_decode_key_hash_pair(b: Seq<u8>) -> Option<(Seq<u8>, Seq<u8>)> {
    if b.len() < 32 {
        None
    } else if spec_deserialize_xonly_key(b.subrange(0, 32)) is Some
        && b.len() == 64 {
        Some((b.subrange(0, 32), b.subrange(32, b.len() as int)))
    } else {
        None
    }
}

impl TapKeyHashPair {
    /// Held hashes have their exact width.
    pub open spec fn wf(self) -> bool {
        self.hash.wf()
    }

    /// The wire form: the 32 key bytes, then the 32 hash bytes.
    pub open spec fn spec_serialize(self) -> Seq<u8> {
        self.key@ + self.hash@
    }

    /// Serializes the pair: key bytes, then hash bytes.
    pub fn serialize(&self) -> (r: Vec<u8>)
        ensures
            r@ == self.spec_serialize(),
            r@.subrange(0, 32) == self.key@,
    {
        let mut out: Vec<u8> = self.key.serialize();
        put_bytes(&mut out, self.hash.bytes.as_slice());
        assert(out@.subrange(0, 32) =~= self.key@);
        out
    }

    /// Deserializes a pair: fewer than 32 bytes is a length failure; the
    /// first 32 bytes must be an accepted x-only key and the remainder
    /// an exact-width leaf hash.
    pub fn deserialize(bytes: &[u8]) -> (r: Result<TapKeyHashPair, Error>)
        ensures
            match r {
                Ok(p) => spec_decode_key_hash_pair(bytes@) == Some((p.key@, p.hash@)) && p.wf(),
                Err(e) => spec_decode_key_hash_pair(bytes@) is None && match e {
                    Error::NotEnoughData => bytes@.len() < 32
                        || (bytes@.len() >= 32 && bytes@.len() < 64
                            && spec_deserialize_xonly_key(bytes@.subrange(0, 32)) is Some),
                    Error::InvalidXOnlyPublicKey => bytes@.len() >= 32
                        && spec_deserialize_xonly_key(bytes@.subrange(0, 32)) is None,
                    Error::InvalidHash(_) => bytes@.len() > 64
                        && key_part_accepted(bytes@),
                    _ => false,
                },
            },
    {
        if bytes.len() < 32 {
            return Err(Error::NotEnoughData);
        }
        let head: Vec<u8> = copy_range(bytes, 0, 32);
        let key: XOnlyPublicKey = match XOnlyPublicKey::deserialize(head.as_slice()) {
            Ok(k) => k,
            Err(e) => {
                return Err(e);
            },
        };
        let rest: Vec<u8> = copy_range(bytes, 32, bytes.len());
        match TapLeafHash::deserialize(rest.as_slice()) {
            Ok(hash) => {
                proof {
                    assert(bytes@.subrange(32, bytes@.len() as int) == rest@);
                }
                Ok(TapKeyHashPair { key, hash })
            },
            Err(e) => Err(e),
        }
    }
}

/// Helper naming the condition that the first 32 bytes parse as a key.
pub open spec fn key_part_accepted(b: Seq<u8>) -> bool {
    b.len() >= 32 && spec_deserialize_xonly_key(b.subrange(0, 32)) is Some
}

/// A serialized key/leaf-hash pair decodes back to the same key and
/// hash, split at byte 32: the round-trip law.
pub proof fn lemma_key_hash_pair_roundtrip(key_bytes: Seq<u8>, hash_bytes: Seq<u8>)
    requires
        key_bytes.len() == 32,
        hash_bytes.len() == 32,
    ensures
        spec_deserialize_xonly_key(key_bytes) is Some
            ==> spec_decode_key_hash_pair(key_bytes + hash_bytes)
                == Some((key_bytes, hash_bytes)),
{
    let b = key_bytes + hash_bytes;
    assert(b.subrange(0, 32) =~= key_bytes);
    assert(b.subrange(32, b.len() as int) =~= hash_bytes);
}

// --- leaf-hash list plus key source ---

/// The concatenation of the 32-byte bodies of a hash list.
pub open spec fn concat_hashes(hs: Seq<Seq<u8>>) -> Seq<u8>
    decreases hs.len(),
{
    if hs.len() == 0 {
        Seq::empty()
    } else {
        hs[0] + concat_hashes(hs.skip(1))
    }
}

/// Spec-level read of `n` consecutive 32-byte hashes.
pub open spec fn spec_read_hashes(b: Seq<u8>, n: nat) -> Option<Seq<Seq<u8>>>
    decreases n,
{
    if n == 0 {
        Some(Seq::empty())
    } else if b.len() < 32 {
        None
    } else {
        match spec_read_hashes(b.skip(32), (n - 1) as nat) {
            Some(hs) => Some(seq![b.subrange(0, 32)] + hs),
            None => None,
        }
    }
}

/// A leaf-hash list together with a key source; on the wire the list is
/// self-delimiting (count-prefixed) and the key source takes all bytes
/// after it.
#[derive(Debug, Clone, PartialEq, Eq)]
pub struct TapOriginPair {
    /// The leaf hashes this derivation applies to.
    pub leaf_hashes: Vec<TapLeafHash>,
    /// The fingerprint and derivation path of the signing key.
    pub source: KeySource,
}

/// Spec-level decoding of a hash-list/key-source pair.
pub open spec fn spec_decode_origin_pair(b: Seq<u8>) -> SpecPartial<(Seq<Seq<u8>>, (Seq<u8>, Seq<u32>))> {
    match spec_decode_varint(b) {
        SpecPartial::Value(n, c) => match spec_read_hashes(b.skip(c), n as nat) {
            Some(hs) => match spec_decode_key_source(b.skip(c + 32 * n)) {
                Some(ks) => SpecPartial::Value((hs, ks), b.len() as int),
                None => SpecPartial::Short,
            },
            None => SpecPartial::Short,
        },
        SpecPartial::Short => SpecPartial::Short,
        SpecPartial::NonMinimal => SpecPartial::NonMinimal,
    }
}

/// The views of a vector of leaf hashes.
pub open spec fn hash_views(hs: Seq<TapLeafHash>) -> Seq<Seq<u8>> {
    hs.map_values(|h: TapLeafHash| h@)
}

impl TapOriginPair {
    /// Held hashes have their exact width and the fingerprint its own.
    pub open spec fn wf(self) -> bool {
        &&& forall|i: int| 0 <= i < self.leaf_hashes@.len() ==> (#[trigger] self.leaf_hashes@[i]).wf()
        &&& self.source.wf()
    }

    /// The wire form: the hash count, each hash's 32 bytes, then the key
    /// source.
    pub open spec fn spec_serialize(self) -> Seq<u8> {
        varint_bytes(self.leaf_hashes@.len() as u64)
            + concat_hashes(hash_views(self.leaf_hashes@)) + self.source.spec_serialize()
    }

    /// Serializes the pair: count-prefixed hash list, then key source.
    pub fn serialize(&self) -> (r: Vec<u8>)
        ensures
            r@ == self.spec_serialize(),
    {
        let mut out: Vec<u8> = Vec::new();
        put_varint(&mut out, self.leaf_hashes.len() as u64);
        let ghost views = hash_views(self.leaf_hashes@);
        let mut i: usize = 0;
        assert(views.skip(0) =~= views);
        while i < self.leaf_hashes.len()
            invariant
                i <= self.leaf_hashes@.len(),
                views == hash_views(self.leaf_hashes@),
                out@ + concat_hashes(views.skip(i as int))
                    == varint_bytes(self.leaf_hashes@.len() as u64) + concat_hashes(views),
            decreases self.leaf_hashes@.len() - i,
        {
            proof {
                let rest = views.skip(i as int);
                assert(rest[0] == views[i as int]);
                assert(rest.skip(1) =~= views.skip(i as int + 1));
            }
            put_bytes(&mut out, self.leaf_hashes[i].bytes.as_slice());
            i = i + 1;
        }
        proof {
            assert(views.skip(views.len() as int).len() == 0);
        }
        let sk: Vec<u8> = self.source.serialize();
        put_bytes(&mut out, sk.as_slice());
        assert(out@ =~= self.spec_serialize());
        out
    }

    /// Deserializes the pair: the count-prefixed hash list reports how
    /// many bytes it consumed, and the key source decodes the remainder.
    pub fn deserialize(bytes: &[u8]) -> (r: Result<TapOriginPair, Error>)
        ensures
            match r {
                Ok(p) => spec_decode_origin_pair(bytes@) matches SpecPartial::Value(v, _)
                    && v.0 == hash_views(p.leaf_hashes@)
                    && v.1 == (p.source.fingerprint@, p.source.path@)
                    && p.wf(),
                Err(e) => match spec_decode_varint(bytes@) {
                    SpecPartial::Value(n, c) => match spec_read_hashes(
                        bytes@.skip(c),
                        n as nat,
                    ) {
                        Some(_) => ({
                            let tail = bytes@.skip(c + 32 * n);
                            spec_decode_key_source(tail) is None
                                && ((e == Error::NotEnoughData && tail.len() < 4)
                                || (e == Error::ConsensusEncoding(ConsensusError::UnexpectedEnd)
                                    && tail.len() >= 4))
                        }),
                        None => e == Error::ConsensusEncoding(ConsensusError::UnexpectedEnd),
                    },
                    SpecPartial::Short => e == Error::ConsensusEncoding(
                        ConsensusError::UnexpectedEnd,
                    ),
                    SpecPartial::NonMinimal => e == Error::ConsensusEncoding(
                        ConsensusError::NonMinimalVarInt,
                    ),
                },
            },
    {
        proof {
            assert(bytes@.subrange(0, bytes@.len() as int) =~= bytes@);
        }
        let (count, start): (u64, usize) = match get_varint(bytes, 0) {
            Ok(p) => p,
            Err(c) => {
                return Err(Error::ConsensusEncoding(c));
            },
        };
        let ghost c0 = start as int;
        let mut pos: usize = start;
        let mut hashes: Vec<TapLeafHash> = Vec::new();
        let mut k: u64 = 0;
        while k < count
            invariant
                spec_decode_varint(bytes@) == SpecPartial::Value(count as u64, c0),
                k <= count,
                c0 <= pos <= bytes@.len(),
                pos == c0 + 32 * k,
                hashes@.len() == k,
                forall|i: int| 0 <= i < hashes@.len() ==> (#[trigger] hashes@[i]).wf(),
                ({
                    let whole = spec_read_hashes(bytes@.skip(c0), count as nat);
                    match spec_read_hashes(bytes@.skip(pos as int), (count - k) as nat) {
                        Some(tailhs) => whole == Some(hash_views(hashes@) + tailhs),
                        None => whole is None,
                    }
                }),
            decreases count - k,
        {
            if bytes.len() - pos < 32 {
                proof {
                    assert(bytes@.skip(pos as int).len() < 32);
                    assert(count - k > 0);
                    assert(spec_read_hashes(bytes@.skip(pos as int), (count - k) as nat)
                        is None);
                    assert(spec_read_hashes(bytes@.skip(c0), count as nat) is None);
                    assert(!(spec_decode_origin_pair(bytes@) is Value));
                }
                return Err(Error::ConsensusEncoding(ConsensusError::UnexpectedEnd));
            }
            let ghost prev = hashes@;
            let ghost rest = bytes@.skip(pos as int);
            let h: Vec<u8> = copy_range(bytes, pos, pos + 32);
            proof {
                assert(rest.subrange(0, 32) =~= bytes@.subrange(pos as int, pos as int + 32));
                assert(rest.skip(32) =~= bytes@.skip(pos as int + 32));
            }
            hashes.push(TapLeafHash { bytes: h });
            pos = pos + 32;
            k = k + 1;
            proof {
                match spec_read_hashes(bytes@.skip(pos as int), (count - k) as nat) {
                    Some(tailhs) => {
                        assert(spec_read_hashes(rest, (count - k + 1) as nat)
                            == Some(seq![rest.subrange(0, 32)] + tailhs));
                        assert(hash_views(hashes@)
                            =~= hash_views(prev) + seq![rest.subrange(0, 32)]);
                        assert(hash_views(prev) + (seq![rest.subrange(0, 32)] + tailhs)
                            =~= hash_views(hashes@) + tailhs);
                    },
                    None => {},
                }
            }
        }
        proof {
            assert(spec_read_hashes(bytes@.skip(pos as int), 0) == Some(Seq::<Seq<u8>>::empty()));
            assert(hash_views(hashes@) + Seq::<Seq<u8>>::empty() =~= hash_views(hashes@));
        }
        let tail: Vec<u8> = copy_range(bytes, pos, bytes.len());
        proof {
            assert(tail@ =~= bytes@.skip(c0 + 32 * count));
        }
        match KeySource::deserialize(tail.as_slice()) {
            Ok(source) => Ok(TapOriginPair { leaf_hashes: hashes, source }),
            Err(e) => Err(e),
        }
    }
}

/// Serializes a bare leaf-hash list: the count, then each hash's 32
/// bytes.
pub fn serialize_leaf_hashes(hashes: &Vec<TapLeafHash>) -> (r: Vec<u8>)
    ensures
        r@ == varint_bytes(hashes@.len() as u64) + concat_hashes(hash_views(hashes@)),
{
    let ghost views = hash_views(hashes@);
    let mut out: Vec<u8> = Vec::new();
    put_varint(&mut out, hashes.len() as u64);
    let mut i: usize = 0;
    assert(views.skip(0) =~= views);
    while i < hashes.len()
        invariant
            i <= hashes@.len(),
            views == hash_views(hashes@),
            out@ + concat_hashes(views.skip(i as int))
                == varint_bytes(hashes@.len() as u64) + concat_hashes(views),
        decreases hashes@.len() - i,
    {
        proof {
            let rest = views.skip(i as int);
            assert(rest[0] == views[i as int]);
            assert(rest.skip(1) =~= views.skip(i as int + 1));
        }
        put_bytes(&mut out, hashes[i].bytes.as_slice());
        i = i + 1;
    }
    proof {
        assert(views.skip(views.len() as int).len() == 0);
        assert(out@ + Seq::<u8>::empty() =~= out@);
    }
    out
}

/// Deserializes a bare leaf-hash list, requiring the input to be
/// consumed entirely: a count, then exactly that many 32-byte hashes.
pub fn deserialize_leaf_hashes(bytes: &[u8]) -> (r: Result<Vec<TapLeafHash>, Error>)
    ensures
        match r {
            Ok(hs) => spec_decode_varint(bytes@) matches SpecPartial::Value(n, c)
                && spec_read_hashes(bytes@.skip(c), n as nat) == Some(hash_views(hs@))
                && bytes@.len() == c + 32 * n,
            Err(e) => match spec_decode_varint(bytes@) {
                SpecPartial::Value(n, c) => match spec_read_hashes(bytes@.skip(c), n as nat) {
                    Some(_) => bytes@.len() != c + 32 * n
                        && e == Error::ConsensusEncoding(ConsensusError::ExtraData),
                    None => e == Error::ConsensusEncoding(ConsensusError::UnexpectedEnd),
                },
                SpecPartial::Short => e == Error::ConsensusEncoding(
                    ConsensusError::UnexpectedEnd,
                ),
                SpecPartial::NonMinimal => e == Error::ConsensusEncoding(
                    ConsensusError::NonMinimalVarInt,
                ),
            },
        },
{
    proof {
        assert(bytes@.subrange(0, bytes@.len() as int) =~= bytes@);
    }
    let (count, start): (u64, usize) = match get_varint(bytes, 0) {
        Ok(p) => p,
        Err(c) => {
            return Err(Error::ConsensusEncoding(c));
        },
    };
    let ghost c0 = start as int;
    let mut pos: usize = start;
    let mut hashes: Vec<TapLeafHash> = Vec::new();
    let mut k: u64 = 0;
    while k < count
        invariant
            spec_decode_varint(bytes@) == SpecPartial::Value(count as u64, c0),
            k <= count,
            c0 <= pos <= bytes@.len(),
            pos == c0 + 32 * k,
            hashes@.len() == k,
            ({
                let whole = spec_read_hashes(bytes@.skip(c0), count as nat);
                match spec_read_hashes(bytes@.skip(pos as int), (count - k) as nat) {
                    Some(tailhs) => whole == Some(hash_views(hashes@) + tailhs),
                    None => whole is None,
                }
            }),
        decreases count - k,
    {
        if bytes.len() - pos < 32 {
            proof {
                assert(bytes@.skip(pos as int).len() < 32);
                assert(count - k > 0);
                assert(spec_read_hashes(bytes@.skip(pos as int), (count - k) as nat) is None);
                assert(spec_read_hashes(bytes@.skip(c0), count as nat) is None);
            }
            return Err(Error::ConsensusEncoding(ConsensusError::UnexpectedEnd));
        }
        let ghost prev = hashes@;
        let ghost rest = bytes@.skip(pos as int);
        let h: Vec<u8> = copy_range(bytes, pos, pos + 32);
        proof {
            assert(rest.subrange(0, 32) =~= bytes@.subrange(pos as int, pos as int + 32));
            assert(rest.skip(32) =~= bytes@.skip(pos as int + 32));
        }
        hashes.push(TapLeafHash { bytes: h });
        pos = pos + 32;
        k = k + 1;
        proof {
            match spec_read_hashes(bytes@.skip(pos as int), (count - k) as nat) {
                Some(tailhs) => {
                    assert(spec_read_hashes(rest, (count - k + 1) as nat)
                        == Some(seq![rest.subrange(0, 32)] + tailhs));
                    assert(hash_views(hashes@)
                        =~= hash_views(prev) + seq![rest.subrange(0, 32)]);
                    assert(hash_views(prev) + (seq![rest.subrange(0, 32)] + tailhs)
                        =~= hash_views(hashes@) + tailhs);
                },
                None => {},
            }
        }
    }
    proof {
        assert(spec_read_hashes(bytes@.skip(pos as int), 0) == Some(Seq::<Seq<u8>>::empty()));
        assert(hash_views(hashes@) + Seq::<Seq<u8>>::empty() =~= hash_views(hashes@));
    }
    if pos != bytes.len() {
        return Err(Error::ConsensusEncoding(ConsensusError::ExtraData));
    }
    Ok(hashes)
}

// --- control blocks ---

/// Whether `bitcoin::taproot::ControlBlock::decode` accepts these bytes:
/// a leaf-version/parity byte, a 32-byte internal key that is a valid x
/// coordinate, and a whole number of 32-byte merkle branch steps, at
/// most 128 of them.
pub uninterp spec fn control_block_ok(b: Seq<u8>) -> bool;

/// Relies on `bitcoin::taproot::ControlBlock::decode`: accepting a slice
/// is a deterministic function of its bytes.
#[verifier::external_body]
fn check_control_block(bytes: &[u8]) -> (r: bool)
    ensures
        r == control_block_ok(bytes@),
{
    bitcoin::taproot::ControlBlock::decode(bytes).is_ok()
}

/// Spec-level decoding of a control block: exactly the accepted byte
/// strings come back, unchanged.
pub open spec fn spec_deserialize_control_block(b: Seq<u8>) -> Option<Seq<u8>> {
    if control_block_ok(b) {
        Some(b)
    } else {
        None
    }
}

/// Accepted control-block bytes deserialize to themselves: the
/// round-trip law.
pub proof fn lemma_control_block_roundtrip(b: Seq<u8>)
    ensures
        control_block_ok(b) ==> spec_deserialize_control_block(b) == Some(b),
{
}

/// A taproot control block, held as the exact bytes the underlying
/// decoder validated.  Beyond delegating that validation, this layer
/// treats the contents as opaque.
#[derive(Debug, PartialEq, Eq)]
pub struct ControlBlock {
    bytes: Vec<u8>,
}

impl View for ControlBlock {
    type V = Seq<u8>;

    closed spec fn view(&self) -> Seq<u8> {
        self.bytes@
    }
}

impl ControlBlock {
    #[verifier::type_invariant]
    spec fn type_inv(self) -> bool {
        control_block_ok(self.bytes@)
    }

    /// Serializes the control block: its validated bytes, unchanged.
    /// The output is always a byte string that `deserialize` accepts.
    pub fn serialize(&self) -> (r: Vec<u8>)
        ensures
            r@ == self@,
            spec_deserialize_control_block(r@) == Some(self@),
    {
        proof {
            use_type_invariant(&*self);
            lemma_control_block_roundtrip(self@);
        }
        copy_range(self.bytes.as_slice(), 0, self.bytes.len())
    }

    /// Deserializes a control block, accepting exactly the byte strings
    /// the underlying decoder accepts.
    pub fn deserialize(bytes: &[u8]) -> (r: Result<ControlBlock, Error>)
        ensures
            match r {
                Ok(cb) => spec_deserialize_control_block(bytes@) == Some(cb@) && cb@ == bytes@,
                Err(e) => spec_deserialize_control_block(bytes@) is None
                    && e == Error::InvalidControlBlock,
            },
    {
        if check_control_block(bytes) {
            let held: Vec<u8> = copy_range(bytes, 0, bytes.len());
            assert(held@ =~= bytes@);
            Ok(ControlBlock { bytes: held })
        } else {
            Err(Error::InvalidControlBlock)
        }
    }
}

} // verus!
