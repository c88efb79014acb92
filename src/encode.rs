//! The entry point that produces the network form, and the laws it obeys.
use vstd::prelude::*;
use crate::primitive::{be16, enc_count, enc_str, enc_bytes, lemma_count_zero};
use crate::format::{
    enc_network, enc_compound, enc_entries, enc_list, enc_payload, compound_fits, compound_within,
    payload_fits,
};
use crate::tag::{NbtCompound, NbtList, NbtTag, list_len};
use crate::check::{check_compound_depth, check_compound_lengths};
use crate::writer::write_nbt_compound;

verus! {

/// Nesting bound used by [`encode_text_component`].
pub const DEFAULT_MAX_DEPTH: usize = 512;

/// Structural faults: the tree cannot be written as it stands.
#[derive(Debug, Clone, Copy, PartialEq, Eq, Structural)]
pub enum EncodeError {
    /// Compounds and lists nest deeper than the configured bound.
    DepthExceeded,
    /// A key, string, array or list is too long for its length field.
    LengthOverflow,
}

/// Writes the network form of `compound`: the compound identifier `0x0A`, no
/// name, then the body. Fails with `DepthExceeded` when the tree nests deeper
/// than `max_depth`, otherwise with `LengthOverflow` when a length does not fit.
pub fn encode_network(compound: &NbtCompound, max_depth: usize) -> (r: Result<Vec<u8>, EncodeError>)
    ensures
        match r {
            Ok(bytes) => {
                &&& compound_within(*compound, max_depth as nat)
                &&& compound_fits(*compound)
                &&& bytes@ == enc_network(*compound)
                &&& bytes@.len() >= 2
                &&& bytes@[0] == 0x0A
                &&& bytes@.last() == 0x00
            },
            Err(EncodeError::DepthExceeded) => !compound_within(*compound, max_depth as nat),
            Err(EncodeError::LengthOverflow) => {
                &&& compound_within(*compound, max_depth as nat)
                &&& !compound_fits(*compound)
            },
        },
{
    if !check_compound_depth(compound, max_depth) {
        return Err(EncodeError::DepthExceeded);
    }
    if !check_compound_lengths(compound) {
        return Err(EncodeError::LengthOverflow);
    }
    let mut buffer: Vec<u8> = Vec::new();
    buffer.push(0x0A);
    write_nbt_compound(&mut buffer, compound);
    assert(buffer@ =~= enc_network(*compound));
    proof {
        lemma_network_framing(*compound);
    }
    Ok(buffer)
}

/// Encodes a resolved text component, given as its root compound, in the
/// network form, with nesting bounded by [`DEFAULT_MAX_DEPTH`].
pub fn encode_text_component(compound: &NbtCompound) -> (r: Result<Vec<u8>, EncodeError>)
    ensures
        match r {
            Ok(bytes) => {
                &&& compound_within(*compound, DEFAULT_MAX_DEPTH as nat)
                &&& compound_fits(*compound)
                &&& bytes@ == enc_network(*compound)
                &&& bytes@.len() >= 2
                &&& bytes@[0] == 0x0A
                &&& bytes@.last() == 0x00
            },
            Err(EncodeError::DepthExceeded) => !compound_within(*compound, DEFAULT_MAX_DEPTH as nat),
            Err(EncodeError::LengthOverflow) => {
                &&& compound_within(*compound, DEFAULT_MAX_DEPTH as nat)
                &&& !compound_fits(*compound)
            },
        },
{
    encode_network(compound, DEFAULT_MAX_DEPTH)
}

/// The network form of every compound starts with the compound identifier
/// `0x0A`, ends with a `0x00` terminator, and so is never empty.
pub proof fn lemma_network_framing(c: NbtCompound)
    ensures
        enc_network(c).len() >= 2,
        enc_network(c)[0] == 0x0A,
        enc_network(c).last() == 0x00,
{
    reveal_with_fuel(enc_compound, 1);
}

/// Every compound body, at any depth, is its entries followed by exactly one
/// `0x00` terminator.
pub proof fn lemma_compound_terminated(c: NbtCompound)
    ensures
        enc_compound(c).last() == 0x00,
        enc_compound(c).drop_last() == enc_entries(c.entries@),
{
    assert(enc_compound(c).drop_last() =~= enc_entries(c.entries@));
}

/// The encoding is a function of the tree alone: equal trees give equal bytes.
pub proof fn lemma_encoding_deterministic(a: NbtCompound, b: NbtCompound)
    requires
        a == b,
    ensures
        enc_network(a) == enc_network(b),
{
}

/// A list without elements, whatever its declared kind, has the payload
/// `00 00 00 00 00`: element kind End and count zero.
pub proof fn lemma_empty_list_payload(l: NbtList)
    requires
        list_len(l) == 0,
    ensures
        enc_list(l) == seq![0u8, 0u8, 0u8, 0u8, 0u8],
{
}

/// The empty string is the length `00 00` and nothing more.
pub proof fn lemma_empty_string()
    ensures
        enc_str(Seq::empty()) == seq![0u8, 0u8],
{
    let z: u16 = 0;
    assert((z >> 8u16) as u8 == 0u8 && z as u8 == 0u8) by (bit_vector)
        requires
            z == 0u16,
    ;
    assert(be16(0) =~= seq![0u8, 0u8]);
    assert(enc_str(Seq::empty()) =~= seq![0u8, 0u8]);
}

/// The empty byte array is the count `00 00 00 00` and nothing more.
pub proof fn lemma_empty_byte_array()
    ensures
        enc_bytes(Seq::empty()) == seq![0u8, 0u8, 0u8, 0u8],
{
    lemma_count_zero();
    assert(enc_bytes(Seq::empty()) =~= enc_count(0));
}

/// A string can be written exactly when it holds at most 65535 bytes, and is
/// then its two length bytes followed by the bytes themselves.
pub proof fn lemma_string_length_bound(v: Vec<u8>)
    ensures
        payload_fits(NbtTag::String(v)) <==> v@.len() <= 65535,
        enc_payload(NbtTag::String(v)).len() == v@.len() + 2,
        enc_payload(NbtTag::String(v)).subrange(2, v@.len() + 2int) == v@,
{
    assert(enc_payload(NbtTag::String(v)).subrange(2, v@.len() + 2int) =~= v@);
}

} // verus!
