//! The tree of tags that the writer consumes, and the one-byte kind of each tag.
use vstd::prelude::*;

verus! {

/// One value of the tree. Float and double payloads are held as their IEEE-754
/// bit patterns, so that every pattern, NaNs included, is kept exactly.
pub enum NbtTag {
    Byte(i8),
    Short(i16),
    Int(i32),
    Long(i64),
    Float(u32),
    Double(u64),
    ByteArray(Vec<u8>),
    /// Modified-UTF-8 bytes, written as they are.
    String(Vec<u8>),
    List(NbtList),
    Compound(NbtCompound),
    IntArray(Vec<i32>),
    LongArray(Vec<i64>),
}

/// A homogeneous list: the variant fixes the kind of every element.
pub enum NbtList {
    Empty,
    Byte(Vec<i8>),
    Short(Vec<i16>),
    Int(Vec<i32>),
    Long(Vec<i64>),
    Float(Vec<u32>),
    Double(Vec<u64>),
    ByteArray(Vec<Vec<u8>>),
    String(Vec<Vec<u8>>),
    List(Vec<NbtList>),
    Compound(Vec<NbtCompound>),
    IntArray(Vec<Vec<i32>>),
    LongArray(Vec<Vec<i64>>),
}

/// Named entries in order; keys are modified-UTF-8 bytes.
pub struct NbtCompound {
    pub entries: Vec<(Vec<u8>, NbtTag)>,
}

/// The identifier byte of each tag kind.
pub open spec fn tag_id_of(t: NbtTag) -> u8 {
    match t {
        NbtTag::Byte(_) => 0x01,
        NbtTag::Short(_) => 0x02,
        NbtTag::Int(_) => 0x03,
        NbtTag::Long(_) => 0x04,
        NbtTag::Float(_) => 0x05,
        NbtTag::Double(_) => 0x06,
        NbtTag::ByteArray(_) => 0x07,
        NbtTag::String(_) => 0x08,
        NbtTag::List(_) => 0x09,
        NbtTag::Compound(_) => 0x0A,
        NbtTag::IntArray(_) => 0x0B,
        NbtTag::LongArray(_) => 0x0C,
    }
}

/// The identifier byte of the kind that a list declares for its elements.
pub open spec fn list_kind_of(l: NbtList) -> u8 {
    match l {
        NbtList::Empty => 0x00,
        NbtList::Byte(_) => 0x01,
        NbtList::Short(_) => 0x02,
        NbtList::Int(_) => 0x03,
        NbtList::Long(_) => 0x04,
        NbtList::Float(_) => 0x05,
        NbtList::Double(_) => 0x06,
        NbtList::ByteArray(_) => 0x07,
        NbtList::String(_) => 0x08,
        NbtList::List(_) => 0x09,
        NbtList::Compound(_) => 0x0A,
        NbtList::IntArray(_) => 0x0B,
        NbtList::LongArray(_) => 0x0C,
    }
}

/// The number of elements of a list.
pub open spec fn list_len(l: NbtList) -> nat {
    match l {
        NbtList::Empty => 0,
        NbtList::Byte(v) => v@.len(),
        NbtList::Short(v) => v@.len(),
        NbtList::Int(v) => v@.len(),
        NbtList::Long(v) => v@.len(),
        NbtList::Float(v) => v@.len(),
        NbtList::Double(v) => v@.len(),
        NbtList::ByteArray(v) => v@.len(),
        NbtList::String(v) => v@.len(),
        NbtList::List(v) => v@.len(),
        NbtList::Compound(v) => v@.len(),
        NbtList::IntArray(v) => v@.len(),
        NbtList::LongArray(v) => v@.len(),
    }
}

/// The identifier byte written before an entry's key.
pub fn get_nbt_tag_id(tag: &NbtTag) -> (r: u8)
    ensures
        r == tag_id_of(*tag),
        1 <= r <= 12,
{
    match tag {
        NbtTag::Byte(_) => 0x01,
        NbtTag::Short(_) => 0x02,
        NbtTag::Int(_) => 0x03,
        NbtTag::Long(_) => 0x04,
        NbtTag::Float(_) => 0x05,
        NbtTag::Double(_) => 0x06,
        NbtTag::ByteArray(_) => 0x07,
        NbtTag::String(_) => 0x08,
        NbtTag::List(_) => 0x09,
        NbtTag::Compound(_) => 0x0A,
        NbtTag::IntArray(_) => 0x0B,
        NbtTag::LongArray(_) => 0x0C,
    }
}

/// The number of elements of a list.
pub fn nbt_list_len(list: &NbtList) -> (r: usize)
    ensures
        r == list_len(*list),
{
    match list {
        NbtList::Empty => 0,
        NbtList::Byte(v) => v.len(),
        NbtList::Short(v) => v.len(),
        NbtList::Int(v) => v.len(),
        NbtList::Long(v) => v.len(),
        NbtList::Float(v) => v.len(),
        NbtList::Double(v) => v.len(),
        NbtList::ByteArray(v) => v.len(),
        NbtList::String(v) => v.len(),
        NbtList::List(v) => v.len(),
        NbtList::Compound(v) => v.len(),
        NbtList::IntArray(v) => v.len(),
        NbtList::LongArray(v) => v.len(),
    }
}

} // verus!
