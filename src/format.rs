//! What the writer produces, stated as functions from trees to byte sequences,
//! and which trees it can write.
use vstd::prelude::*;
use crate::primitive::{be16, be32, be64, enc_count, enc_str, enc_bytes, flat, MAX_COUNT, MAX_STR_LEN};
use crate::tag::{NbtTag, NbtList, NbtCompound, tag_id_of, list_kind_of, list_len};

verus! {

pub open spec fn i8_enc() -> spec_fn(i8) -> Seq<u8> {
    |x: i8| seq![x as u8]
}

pub open spec fn i16_enc() -> spec_fn(i16) -> Seq<u8> {
    |x: i16| be16(x as u16)
}

pub open spec fn i32_enc() -> spec_fn(i32) -> Seq<u8> {
    |x: i32| be32(x as u32)
}

pub open spec fn i64_enc() -> spec_fn(i64) -> Seq<u8> {
    |x: i64| be64(x as u64)
}

pub open spec fn u32_enc() -> spec_fn(u32) -> Seq<u8> {
    |x: u32| be32(x)
}

pub open spec fn u64_enc() -> spec_fn(u64) -> Seq<u8> {
    |x: u64| be64(x)
}

/// A byte array: `i32` count, then the bytes.
pub open spec fn byte_array_enc() -> spec_fn(Vec<u8>) -> Seq<u8> {
    |a: Vec<u8>| enc_bytes(a@)
}

/// A string: `u16` length, then the bytes.
pub open spec fn string_enc() -> spec_fn(Vec<u8>) -> Seq<u8> {
    |a: Vec<u8>| enc_str(a@)
}

/// An int array: `i32` count, then each element big-endian.
pub open spec fn int_array_enc() -> spec_fn(Vec<i32>) -> Seq<u8> {
    |a: Vec<i32>| enc_count(a@.len()) + flat(a@, i32_enc())
}

/// A long array: `i32` count, then each element big-endian.
pub open spec fn long_array_enc() -> spec_fn(Vec<i64>) -> Seq<u8> {
    |a: Vec<i64>| enc_count(a@.len()) + flat(a@, i64_enc())
}

/// The payload of a tag: no identifier byte, no key.
pub open spec fn enc_payload(t: NbtTag) -> Seq<u8>
    decreases t,
{
    match t {
        NbtTag::Byte(v) => seq![v as u8],
        NbtTag::Short(v) => be16(v as u16),
        NbtTag::Int(v) => be32(v as u32),
        NbtTag::Long(v) => be64(v as u64),
        NbtTag::Float(v) => be32(v),
        NbtTag::Double(v) => be64(v),
        NbtTag::ByteArray(v) => enc_bytes(v@),
        NbtTag::String(v) => enc_str(v@),
        NbtTag::List(l) => enc_list(l),
        NbtTag::Compound(c) => enc_compound(c),
        NbtTag::IntArray(v) => enc_count(v@.len()) + flat(v@, i32_enc()),
        NbtTag::LongArray(v) => enc_count(v@.len()) + flat(v@, i64_enc()),
    }
}

/// A compound body: its entries in order, then one `0x00` terminator.
pub open spec fn enc_compound(c: NbtCompound) -> Seq<u8>
    decreases c,
{
    enc_entries(c.entries@) + seq![0u8]
}

/// Named entries, each as identifier byte, key, payload.
pub open spec fn enc_entries(s: Seq<(Vec<u8>, NbtTag)>) -> Seq<u8>
    decreases s,
{
    if s.len() == 0 {
        Seq::empty()
    } else {
        enc_entries(s.subrange(0, s.len() - 1)) + seq![tag_id_of(s[s.len() - 1].1)] + enc_str(
            s[s.len() - 1].0@,
        ) + enc_payload(s[s.len() - 1].1)
    }
}

/// A list payload. Any list without elements takes the canonical form:
/// element kind `0x00` and count zero.
pub open spec fn enc_list(l: NbtList) -> Seq<u8>
    decreases l,
{
    if list_len(l) == 0 {
        seq![0u8, 0u8, 0u8, 0u8, 0u8]
    } else {
        seq![list_kind_of(l)] + enc_count(list_len(l)) + match l {
            NbtList::Empty => Seq::empty(),
            NbtList::Byte(v) => flat(v@, i8_enc()),
            NbtList::Short(v) => flat(v@, i16_enc()),
            NbtList::Int(v) => flat(v@, i32_enc()),
            NbtList::Long(v) => flat(v@, i64_enc()),
            NbtList::Float(v) => flat(v@, u32_enc()),
            NbtList::Double(v) => flat(v@, u64_enc()),
            NbtList::ByteArray(v) => flat(v@, byte_array_enc()),
            NbtList::String(v) => flat(v@, string_enc()),
            NbtList::List(v) => enc_lists(v@),
            NbtList::Compound(v) => enc_compounds(v@),
            NbtList::IntArray(v) => flat(v@, int_array_enc()),
            NbtList::LongArray(v) => flat(v@, long_array_enc()),
        }
    }
}

/// The payloads of nested lists, one after another.
pub open spec fn enc_lists(s: Seq<NbtList>) -> Seq<u8>
    decreases s,
{
    if s.len() == 0 {
        Seq::empty()
    } else {
        enc_lists(s.subrange(0, s.len() - 1)) + enc_list(s[s.len() - 1])
    }
}

/// The bodies of compounds, one after another.
pub open spec fn enc_compounds(s: Seq<NbtCompound>) -> Seq<u8>
    decreases s,
{
    if s.len() == 0 {
        Seq::empty()
    } else {
        enc_compounds(s.subrange(0, s.len() - 1)) + enc_compound(s[s.len() - 1])
    }
}

/// The network form: the compound identifier, then the unnamed body.
pub open spec fn enc_network(c: NbtCompound) -> Seq<u8> {
    seq![0x0Au8] + enc_compound(c)
}

/// Every length in the payload fits its length field.
pub open spec fn payload_fits(t: NbtTag) -> bool
    decreases t,
{
    match t {
        NbtTag::ByteArray(v) => v@.len() <= MAX_COUNT,
        NbtTag::String(v) => v@.len() <= MAX_STR_LEN,
        NbtTag::List(l) => list_fits(l),
        NbtTag::Compound(c) => compound_fits(c),
        NbtTag::IntArray(v) => v@.len() <= MAX_COUNT,
        NbtTag::LongArray(v) => v@.len() <= MAX_COUNT,
        _ => true,
    }
}

/// Every key and every length in the compound fits its length field.
pub open spec fn compound_fits(c: NbtCompound) -> bool
    decreases c,
{
    forall|i: int|
        0 <= i < c.entries@.len() ==> {
            &&& (#[trigger] c.entries@[i]).0@.len() <= MAX_STR_LEN
            &&& payload_fits(c.entries@[i].1)
        }
}

/// The count and every length inside the list fit their length fields.
pub open spec fn list_fits(l: NbtList) -> bool
    decreases l,
{
    &&& list_len(l) <= MAX_COUNT
    &&& match l {
        NbtList::ByteArray(v) => forall|i: int| 0 <= i < v@.len() ==> (#[trigger] v@[i])@.len() <= MAX_COUNT,
        NbtList::String(v) => forall|i: int| 0 <= i < v@.len() ==> (#[trigger] v@[i])@.len() <= MAX_STR_LEN,
        NbtList::List(v) => forall|i: int| 0 <= i < v@.len() ==> list_fits(#[trigger] v@[i]),
        NbtList::Compound(v) => forall|i: int| 0 <= i < v@.len() ==> compound_fits(#[trigger] v@[i]),
        NbtList::IntArray(v) => forall|i: int| 0 <= i < v@.len() ==> (#[trigger] v@[i])@.len() <= MAX_COUNT,
        NbtList::LongArray(v) => forall|i: int| 0 <= i < v@.len() ==> (#[trigger] v@[i])@.len() <= MAX_COUNT,
        _ => true,
    }
}

/// The payload nests at most `d` compounds and lists deep.
pub open spec fn payload_within(t: NbtTag, d: nat) -> bool
    decreases t,
{
    match t {
        NbtTag::List(l) => list_within(l, d),
        NbtTag::Compound(c) => compound_within(c, d),
        _ => true,
    }
}

/// The compound, counted as one level, nests at most `d` levels deep.
pub open spec fn compound_within(c: NbtCompound, d: nat) -> bool
    decreases c,
{
    &&& d > 0
    &&& forall|i: int|
        0 <= i < c.entries@.len() ==> payload_within((#[trigger] c.entries@[i]).1, (d - 1) as nat)
}

/// The list, counted as one level, nests at most `d` levels deep.
pub open spec fn list_within(l: NbtList, d: nat) -> bool
    decreases l,
{
    &&& d > 0
    &&& match l {
        NbtList::List(v) => forall|i: int| 0 <= i < v@.len() ==> list_within(#[trigger] v@[i], (d - 1) as nat),
        NbtList::Compound(v) => forall|i: int| 0 <= i < v@.len() ==> compound_within(#[trigger] v@[i], (d - 1) as nat),
        _ => true,
    }
}

} // verus!
