//! Replication codec: the fixed-layout wire representation of a transform.
//!
//! A transform is reduced to position, rotation and scale. Each numeric field
//! is the bit pattern of a 32-bit IEEE float, carried here as a `u32` so that
//! serialization is exact: a round trip preserves every field bit for bit.
//! The wire layout is fixed and documented: position x, y, z; rotation
//! x, y, z, w; scale x, y, z — ten 32-bit words, each little-endian,
//! 40 bytes in all.

use vstd::prelude::*;
use vstd::bytes::{
    lemma_auto_spec_u32_to_from_le_bytes, spec_u32_from_le_bytes, spec_u32_to_le_bytes,
    u32_from_le_bytes, u32_to_le_bytes,
};

use crate::errors::DecodeError;

verus! {

/// Number of bytes of one encoded transform record.
pub const TRANSFORM_WIRE_BYTES: usize = 40;

/// A three-component vector of 32-bit float bit patterns.
#[derive(Clone, Copy, Debug, PartialEq, Eq, Structural)]
pub struct Vec3Bits {
    pub x: u32,
    pub y: u32,
    pub z: u32,
}

/// A quaternion of 32-bit float bit patterns (x, y, z, w).
#[derive(Clone, Copy, Debug, PartialEq, Eq, Structural)]
pub struct QuatBits {
    pub x: u32,
    pub y: u32,
    pub z: u32,
    pub w: u32,
}

/// The reduced transform record that moves over the wire, and that is held
/// as the staging value for a remote entity until smoothing consumes it.
#[derive(Clone, Copy, Debug, PartialEq, Eq, Structural)]
pub struct SyncedTransform {
    pub translation: Vec3Bits,
    pub rotation: QuatBits,
    pub scale: Vec3Bits,
}

/// The ten 32-bit words of a record in wire order.
pub open spec fn spec_transform_words(t: SyncedTransform) -> Seq<u32> {
    seq![
        t.translation.x,
        t.translation.y,
        t.translation.z,
        t.rotation.x,
        t.rotation.y,
        t.rotation.z,
        t.rotation.w,
        t.scale.x,
        t.scale.y,
        t.scale.z,
    ]
}

/// A record built back from ten 32-bit words in wire order.
pub open spec fn spec_transform_of_words(ws: Seq<u32>) -> SyncedTransform
    recommends
        ws.len() == 10,
{
    SyncedTransform {
        translation: Vec3Bits { x: ws[0], y: ws[1], z: ws[2] },
        rotation: QuatBits { x: ws[3], y: ws[4], z: ws[5], w: ws[6] },
        scale: Vec3Bits { x: ws[7], y: ws[8], z: ws[9] },
    }
}

/// Little-endian encoding of a prefix of the words `ws`: the first `n` words,
/// four bytes each.
pub open spec fn spec_words_to_bytes(ws: Seq<u32>, n: int) -> Seq<u8>
    recommends
        0 <= n <= ws.len(),
    decreases n,
{
    if n <= 0 {
        Seq::empty()
    } else {
        spec_words_to_bytes(ws, n - 1) + spec_u32_to_le_bytes(ws[n - 1])
    }
}

/// The full wire encoding of a record: its ten words, little-endian.
pub open spec fn spec_serialize_transform(t: SyncedTransform) -> Seq<u8> {
    spec_words_to_bytes(spec_transform_words(t), 10)
}

/// The word at index `i` read back from a little-endian byte buffer.
pub open spec fn spec_word_from_bytes(bytes: Seq<u8>, i: int) -> u32
    recommends
        0 <= i,
        4 * i + 4 <= bytes.len(),
{
    spec_u32_from_le_bytes(bytes.subrange(4 * i, 4 * i + 4))
}

/// The record read back from the first forty bytes of a buffer.
pub open spec fn spec_deserialize_transform(bytes: Seq<u8>) -> SyncedTransform
    recommends
        bytes.len() >= TRANSFORM_WIRE_BYTES,
{
    spec_transform_of_words(Seq::new(10, |i: int| spec_word_from_bytes(bytes, i)))
}

proof fn lemma_words_to_bytes_len(ws: Seq<u32>, n: int)
    requires
        0 <= n <= ws.len(),
    ensures
        spec_words_to_bytes(ws, n).len() == 4 * n,
    decreases n,
{
    lemma_auto_spec_u32_to_from_le_bytes();
    if n > 0 {
        lemma_words_to_bytes_len(ws, n - 1);
    }
}

/// Each word of a prefix encoding can be read back from its four bytes.
proof fn lemma_words_to_bytes_index(ws: Seq<u32>, n: int, i: int)
    requires
        0 <= i < n <= ws.len(),
    ensures
        spec_words_to_bytes(ws, n).subrange(4 * i, 4 * i + 4) == spec_u32_to_le_bytes(ws[i]),
    decreases n,
{
    lemma_auto_spec_u32_to_from_le_bytes();
    lemma_words_to_bytes_len(ws, n);
    if i == n - 1 {
        lemma_words_to_bytes_len(ws, n - 1);
        assert(spec_words_to_bytes(ws, n).subrange(4 * i, 4 * i + 4) =~= spec_u32_to_le_bytes(
            ws[i],
        ));
    } else {
        lemma_words_to_bytes_index(ws, n - 1, i);
        lemma_words_to_bytes_len(ws, n - 1);
        assert(spec_words_to_bytes(ws, n).subrange(4 * i, 4 * i + 4) =~= spec_words_to_bytes(
            ws,
            n - 1,
        ).subrange(4 * i, 4 * i + 4));
    }
}

/// Round trip at the level of the specification: decoding an encoded record
/// gives the record back, bit for bit on every numeric field.
pub proof fn lemma_serialize_then_deserialize(t: SyncedTransform)
    ensures
        spec_serialize_transform(t).len() == TRANSFORM_WIRE_BYTES,
        spec_deserialize_transform(spec_serialize_transform(t)) == t,
{
    let ws = spec_transform_words(t);
    let bytes = spec_serialize_transform(t);
    lemma_words_to_bytes_len(ws, 10);
    lemma_auto_spec_u32_to_from_le_bytes();
    assert forall|i: int| 0 <= i < 10 implies spec_word_from_bytes(bytes, i) == ws[i] by {
        lemma_words_to_bytes_index(ws, 10, i);
        lemma_auto_spec_u32_to_from_le_bytes();
        assert(bytes.subrange(4 * i, 4 * i + 4) == spec_u32_to_le_bytes(ws[i]));
        assert(spec_u32_from_le_bytes(spec_u32_to_le_bytes(ws[i])) == ws[i]);
    }
    assert(Seq::new(10, |i: int| spec_word_from_bytes(bytes, i)) =~= ws);
}

/// Serialization is injective: records with any differing field encode to
/// different byte strings.
pub proof fn lemma_serialize_injective(t1: SyncedTransform, t2: SyncedTransform)
    requires
        spec_serialize_transform(t1) == spec_serialize_transform(t2),
    ensures
        t1 == t2,
{
    lemma_serialize_then_deserialize(t1);
    lemma_serialize_then_deserialize(t2);
}

/// Appends the little-endian bytes of `word` to `out`.
fn push_word(out: &mut Vec<u8>, word: u32)
    ensures
        final(out)@ == old(out)@ + spec_u32_to_le_bytes(word),
{
    let bytes = u32_to_le_bytes(word);
    let mut k: usize = 0;
    proof {
        lemma_auto_spec_u32_to_from_le_bytes();
    }
    while k < 4
        invariant
            bytes@ == spec_u32_to_le_bytes(word),
            bytes@.len() == 4,
            0 <= k <= 4,
            out@ == old(out)@ + bytes@.subrange(0, k as int),
        decreases 4 - k,
    {
        let b = bytes[k];
        out.push(b);
        k = k + 1;
        proof {
            assert(out@ =~= old(out)@ + bytes@.subrange(0, k as int));
        }
    }
    proof {
        assert(out@ =~= old(out)@ + spec_u32_to_le_bytes(word));
    }
}

/// Encodes a record into its fixed 40-byte wire form.
pub fn serialize_transform(t: &SyncedTransform) -> (r: Vec<u8>)
    ensures
        r@ == spec_serialize_transform(*t),
        r@.len() == TRANSFORM_WIRE_BYTES,
{
    let ghost ws = spec_transform_words(*t);
    let mut out: Vec<u8> = Vec::new();
    push_word(&mut out, t.translation.x);
    push_word(&mut out, t.translation.y);
    push_word(&mut out, t.translation.z);
    push_word(&mut out, t.rotation.x);
    push_word(&mut out, t.rotation.y);
    push_word(&mut out, t.rotation.z);
    push_word(&mut out, t.rotation.w);
    push_word(&mut out, t.scale.x);
    push_word(&mut out, t.scale.y);
    push_word(&mut out, t.scale.z);
    proof {
        reveal_with_fuel(spec_words_to_bytes, 11);
        assert(out@ =~= spec_words_to_bytes(ws, 10));
        lemma_words_to_bytes_len(ws, 10);
    }
    out
}

/// Reads the word at index `i` (in 4-byte steps) from `bytes`.
fn read_word(bytes: &[u8], i: usize) -> (r: u32)
    requires
        i < 10,
        4 * i + 4 <= bytes@.len(),
    ensures
        r == spec_word_from_bytes(bytes@, i as int),
{
    let start = 4 * i;
    let word_bytes = &bytes[start..start + 4];
    u32_from_le_bytes(word_bytes)
}

/// Decodes a record from the first forty bytes of `bytes`.
///
/// An undersized buffer is a malformed payload: the decode fails and the
/// caller drops that single message. Trailing bytes beyond the record are
/// ignored, since the transport envelope may follow it.
pub fn deserialize_transform(bytes: &[u8]) -> (r: Result<SyncedTransform, DecodeError>)
    ensures
        bytes@.len() >= TRANSFORM_WIRE_BYTES ==> r == Ok::<SyncedTransform, DecodeError>(
            spec_deserialize_transform(bytes@),
        ),
        bytes@.len() < TRANSFORM_WIRE_BYTES ==> r == Err::<SyncedTransform, DecodeError>(
            DecodeError::UnexpectedEnd,
        ),
{
    if bytes.len() < TRANSFORM_WIRE_BYTES {
        return Err(DecodeError::UnexpectedEnd);
    }
    let t = SyncedTransform {
        translation: Vec3Bits {
            x: read_word(bytes, 0),
            y: read_word(bytes, 1),
            z: read_word(bytes, 2),
        },
        rotation: QuatBits {
            x: read_word(bytes, 3),
            y: read_word(bytes, 4),
            z: read_word(bytes, 5),
            w: read_word(bytes, 6),
        },
        scale: Vec3Bits {
            x: read_word(bytes, 7),
            y: read_word(bytes, 8),
            z: read_word(bytes, 9),
        },
    };
    proof {
        assert(Seq::new(10, |i: int| spec_word_from_bytes(bytes@, i)) =~= spec_transform_words(t));
    }
    Ok(t)
}

} // verus!
