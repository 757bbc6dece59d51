//! Script byte strings and their self-delimiting consensus encoding
//! (a length prefix followed by the script bytes), used wherever a
//! script is embedded inside a larger value.

use vstd::prelude::*;

verus! {

use crate::encode::{
    copy_range, put_bytes, put_varint, get_varint, varint_bytes, spec_decode_varint, SpecPartial,
};
use crate::error::{ConsensusError, Error};

/// A script, held as its raw bytes.  As a PSBT map value a script is
/// stored bare; the length-prefixed form below is used only where a
/// script is embedded in a larger value.
#[derive(Debug, Clone, PartialEq, Eq)]
pub struct ScriptBuf {
    /// The raw script bytes.
    pub bytes: Vec<u8>,
}

impl View for ScriptBuf {
    type V = Seq<u8>;

    open spec fn view(&self) -> Seq<u8> {
        self.bytes@
    }
}

impl ScriptBuf {
    /// Serializes the script: its bytes, unchanged.
    pub fn serialize(&self) -> (r: Vec<u8>)
        ensures
            r@ == self@,
    {
        copy_range(self.bytes.as_slice(), 0, self.bytes.len())
    }

    /// Deserializes a script: any byte string is a script.
    pub fn deserialize(bytes: &[u8]) -> (r: Result<ScriptBuf, Error>)
        ensures
            r matches Ok(s) && s@ == bytes@,
    {
        Ok(ScriptBuf { bytes: copy_range(bytes, 0, bytes.len()) })
    }
}

// --- the self-delimiting (length-prefixed) script encoding ---

/// The consensus encoding of a script embedded in a larger value: its
/// length as a variable-length integer, then its bytes.
pub open spec fn script_encoding(s: Seq<u8>) -> Seq<u8> {
    varint_bytes(s.len() as u64) + s
}

/// Spec-level partial parse of a length-prefixed script at the front of
/// `b`.
pub open spec fn spec_decode_script(b: Seq<u8>) -> SpecPartial<Seq<u8>> {
    match spec_decode_varint(b) {
        SpecPartial::Value(n, c) => if b.len() < c + n {
            SpecPartial::Short
        } else {
            SpecPartial::Value(b.subrange(c, c + n), c + n)
        },
        SpecPartial::Short => SpecPartial::Short,
        SpecPartial::NonMinimal => SpecPartial::NonMinimal,
    }
}

/// Parsing an encoded script, with anything after it, yields the script
/// back and consumes exactly the encoding: the partial-decode round-trip
/// law.
pub proof fn lemma_script_encoding_roundtrip(s: Seq<u8>, rest: Seq<u8>)
    requires
        s.len() <= u64::MAX,
    ensures
        spec_decode_script(script_encoding(s) + rest)
            == SpecPartial::Value(s, script_encoding(s).len() as int),
{
    let n = s.len() as u64;
    crate::encode::lemma_varint_roundtrip(n, s + rest);
    assert(varint_bytes(n) + (s + rest) =~= script_encoding(s) + rest);
    let b = script_encoding(s) + rest;
    let c = varint_bytes(n).len() as int;
    assert(b.subrange(c, c + n as int) =~= s);
}

/// Appends the length-prefixed encoding of `script` to `out`.
pub fn put_script(out: &mut Vec<u8>, script: &[u8])
    ensures
        final(out)@ == old(out)@ + script_encoding(script@),
{
    put_varint(out, script.len() as u64);
    put_bytes(out, script);
    assert(out@ =~= old(out)@ + script_encoding(script@));
}

/// Reads a length-prefixed script at `pos`, returning the script bytes
/// and the position just past them.
pub fn get_script(bytes: &[u8], pos: usize) -> (r: Result<(Vec<u8>, usize), ConsensusError>)
    requires
        pos <= bytes@.len(),
    ensures
        ({
            let tail = bytes@.subrange(pos as int, bytes@.len() as int);
            match spec_decode_script(tail) {
                SpecPartial::Value(s, c) => r matches Ok(p)
                    && p.0@ == s && p.1 == pos + c && pos < p.1 <= bytes@.len(),
                SpecPartial::Short => r == Err::<(Vec<u8>, usize), _>(
                    ConsensusError::UnexpectedEnd,
                ),
                SpecPartial::NonMinimal => r == Err::<(Vec<u8>, usize), _>(
                    ConsensusError::NonMinimalVarInt,
                ),
            }
        }),
{
    let ghost tail = bytes@.subrange(pos as int, bytes@.len() as int);
    let (n, body): (u64, usize) = match get_varint(bytes, pos) {
        Ok(p) => p,
        Err(e) => {
            return Err(e);
        },
    };
    if n > (bytes.len() - body) as u64 {
        return Err(ConsensusError::UnexpectedEnd);
    }
    let len: usize = n as usize;
    let script: Vec<u8> = copy_range(bytes, body, body + len);
    proof {
        let c = (body - pos) as int;
        assert(tail.subrange(c, c + n as int)
            =~= bytes@.subrange(body as int, body as int + n as int));
    }
    Ok((script, body + len))
}

} // verus!
