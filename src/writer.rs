//! The recursive tree writer: compounds, payloads and homogeneous lists.
use vstd::prelude::*;
use crate::primitive::{
    enc_count, enc_str, flat, lemma_flat_step, lemma_count_zero, put_u8, put_i8, put_i16_be, put_i32_be,
    put_i64_be, put_u32_be, put_u64_be, put_count, put_u16_len_prefixed, put_i32_len_prefixed,
    MAX_COUNT, MAX_STR_LEN,
};
use crate::format::{
    i8_enc, i16_enc, i32_enc, i64_enc, u32_enc, u64_enc, byte_array_enc, string_enc, int_array_enc,
    long_array_enc, enc_payload, enc_compound, enc_entries, enc_list, enc_lists, enc_compounds,
    payload_fits, compound_fits, list_fits,
};
use crate::tag::{NbtTag, NbtList, NbtCompound, tag_id_of, get_nbt_tag_id, nbt_list_len};

verus! {

pub fn put_i8s(buf: &mut Vec<u8>, v: &Vec<i8>)
    ensures
        final(buf)@ == old(buf)@ + flat(v@, i8_enc()),
{
    let mut i: usize = 0;
    while i < v.len()
        invariant
            i <= v.len(),
            buf@ == old(buf)@ + flat(v@.take(i as int), i8_enc()),
        decreases v.len() - i,
    {
        put_i8(buf, v[i]);
        proof {
            lemma_flat_step(v@, i8_enc(), i as int);
        }
        i = i + 1;
        assert(buf@ =~= old(buf)@ + flat(v@.take(i as int), i8_enc()));
    }
    assert(v@.take(v.len() as int) =~= v@);
}

pub fn put_i16s(buf: &mut Vec<u8>, v: &Vec<i16>)
    ensures
        final(buf)@ == old(buf)@ + flat(v@, i16_enc()),
{
    let mut i: usize = 0;
    while i < v.len()
        invariant
            i <= v.len(),
            buf@ == old(buf)@ + flat(v@.take(i as int), i16_enc()),
        decreases v.len() - i,
    {
        put_i16_be(buf, v[i]);
        proof {
            lemma_flat_step(v@, i16_enc(), i as int);
        }
        i = i + 1;
        assert(buf@ =~= old(buf)@ + flat(v@.take(i as int), i16_enc()));
    }
    assert(v@.take(v.len() as int) =~= v@);
}

pub fn put_i32s(buf: &mut Vec<u8>, v: &Vec<i32>)
    ensures
        final(buf)@ == old(buf)@ + flat(v@, i32_enc()),
{
    let mut i: usize = 0;
    while i < v.len()
        invariant
            i <= v.len(),
            buf@ == old(buf)@ + flat(v@.take(i as int), i32_enc()),
        decreases v.len() - i,
    {
        put_i32_be(buf, v[i]);
        proof {
            lemma_flat_step(v@, i32_enc(), i as int);
        }
        i = i + 1;
        assert(buf@ =~= old(buf)@ + flat(v@.take(i as int), i32_enc()));
    }
    assert(v@.take(v.len() as int) =~= v@);
}

pub fn put_i64s(buf: &mut Vec<u8>, v: &Vec<i64>)
    ensures
        final(buf)@ == old(buf)@ + flat(v@, i64_enc()),
{
    let mut i: usize = 0;
    while i < v.len()
        invariant
            i <= v.len(),
            buf@ == old(buf)@ + flat(v@.take(i as int), i64_enc()),
        decreases v.len() - i,
    {
        put_i64_be(buf, v[i]);
        proof {
            lemma_flat_step(v@, i64_enc(), i as int);
        }
        i = i + 1;
        assert(buf@ =~= old(buf)@ + flat(v@.take(i as int), i64_enc()));
    }
    assert(v@.take(v.len() as int) =~= v@);
}

/// Float bit patterns, each big-endian.
pub fn put_u32s(buf: &mut Vec<u8>, v: &Vec<u32>)
    ensures
        final(buf)@ == old(buf)@ + flat(v@, u32_enc()),
{
    let mut i: usize = 0;
    while i < v.len()
        invariant
            i <= v.len(),
            buf@ == old(buf)@ + flat(v@.take(i as int), u32_enc()),
        decreases v.len() - i,
    {
        put_u32_be(buf, v[i]);
        proof {
            lemma_flat_step(v@, u32_enc(), i as int);
        }
        i = i + 1;
        assert(buf@ =~= old(buf)@ + flat(v@.take(i as int), u32_enc()));
    }
    assert(v@.take(v.len() as int) =~= v@);
}

/// Double bit patterns, each big-endian.
pub fn put_u64s(buf: &mut Vec<u8>, v: &Vec<u64>)
    ensures
        final(buf)@ == old(buf)@ + flat(v@, u64_enc()),
{
    let mut i: usize = 0;
    while i < v.len()
        invariant
            i <= v.len(),
            buf@ == old(buf)@ + flat(v@.take(i as int), u64_enc()),
        decreases v.len() - i,
    {
        put_u64_be(buf, v[i]);
        proof {
            lemma_flat_step(v@, u64_enc(), i as int);
        }
        i = i + 1;
        assert(buf@ =~= old(buf)@ + flat(v@.take(i as int), u64_enc()));
    }
    assert(v@.take(v.len() as int) =~= v@);
}

/// One more entry extends the encoding of the entries by that entry.
proof fn lemma_entries_step(s: Seq<(Vec<u8>, NbtTag)>, i: int)
    requires
        0 <= i < s.len(),
    ensures
        enc_entries(s.take(i + 1)) == enc_entries(s.take(i)) + seq![tag_id_of(s[i].1)] + enc_str(
            s[i].0@,
        ) + enc_payload(s[i].1),
{
    assert(s.take(i + 1).subrange(0, i) =~= s.take(i));
}

proof fn lemma_lists_step(s: Seq<NbtList>, i: int)
    requires
        0 <= i < s.len(),
    ensures
        enc_lists(s.take(i + 1)) == enc_lists(s.take(i)) + enc_list(s[i]),
{
    assert(s.take(i + 1).subrange(0, i) =~= s.take(i));
}

proof fn lemma_compounds_step(s: Seq<NbtCompound>, i: int)
    requires
        0 <= i < s.len(),
    ensures
        enc_compounds(s.take(i + 1)) == enc_compounds(s.take(i)) + enc_compound(s[i]),
{
    assert(s.take(i + 1).subrange(0, i) =~= s.take(i));
}

/// Writes the entries of a compound in order, then its terminator. The
/// compound's own identifier byte is left to the caller.
pub fn write_nbt_compound(writer: &mut Vec<u8>, compound: &NbtCompound)
    requires
        compound_fits(*compound),
    ensures
        final(writer)@ == old(writer)@ + enc_compound(*compound),
    decreases compound,
{
    let ghost s = compound.entries@;
    let mut i: usize = 0;
    while i < compound.entries.len()
        invariant
            s == compound.entries@,
            compound_fits(*compound),
            i <= s.len(),
            writer@ == old(writer)@ + enc_entries(s.take(i as int)),
        decreases s.len() - i,
    {
        let entry = &compound.entries[i];
        assert(s[i as int].0@.len() <= MAX_STR_LEN && payload_fits(s[i as int].1));
        put_u8(writer, get_nbt_tag_id(&entry.1));
        put_u16_len_prefixed(writer, &entry.0);
        write_nbt_tag_payload(writer, &entry.1);
        proof {
            lemma_entries_step(s, i as int);
        }
        i = i + 1;
        assert(writer@ =~= old(writer)@ + enc_entries(s.take(i as int)));
    }
    assert(s.take(s.len() as int) =~= s);
    put_u8(writer, 0x00);
    assert(writer@ =~= old(writer)@ + enc_compound(*compound));
}

/// Writes the payload of a tag: no identifier byte and no key.
pub fn write_nbt_tag_payload(writer: &mut Vec<u8>, tag: &NbtTag)
    requires
        payload_fits(*tag),
    ensures
        final(writer)@ == old(writer)@ + enc_payload(*tag),
    decreases tag,
{
    match tag {
        NbtTag::Byte(v) => put_i8(writer, *v),
        NbtTag::Short(v) => put_i16_be(writer, *v),
        NbtTag::Int(v) => put_i32_be(writer, *v),
        NbtTag::Long(v) => put_i64_be(writer, *v),
        NbtTag::Float(v) => put_u32_be(writer, *v),
        NbtTag::Double(v) => put_u64_be(writer, *v),
        NbtTag::ByteArray(v) => put_i32_len_prefixed(writer, v),
        NbtTag::String(v) => put_u16_len_prefixed(writer, v),
        NbtTag::List(list) => write_nbt_list(writer, list),
        NbtTag::Compound(compound) => write_nbt_compound(writer, compound),
        NbtTag::IntArray(v) => {
            put_count(writer, v.len());
            put_i32s(writer, v);
        },
        NbtTag::LongArray(v) => {
            put_count(writer, v.len());
            put_i64s(writer, v);
        },
    }
    assert(writer@ =~= old(writer)@ + enc_payload(*tag));
}

/// Writes a list payload. A list without elements is written as element kind
/// `0x00` and count zero, whatever its declared kind.
pub fn write_nbt_list(writer: &mut Vec<u8>, list: &NbtList)
    requires
        list_fits(*list),
    ensures
        final(writer)@ == old(writer)@ + enc_list(*list),
    decreases list,
{
    if nbt_list_len(list) == 0 {
        put_u8(writer, 0x00);
        put_count(writer, 0);
        proof {
            lemma_count_zero();
        }
        assert(writer@ =~= old(writer)@ + enc_list(*list));
        return;
    }
    match list {
        NbtList::Empty => {},
        NbtList::Byte(v) => write_nbt_list_byte(writer, v),
        NbtList::Short(v) => write_nbt_list_short(writer, v),
        NbtList::Int(v) => write_nbt_list_int(writer, v),
        NbtList::Long(v) => write_nbt_list_long(writer, v),
        NbtList::Float(v) => write_nbt_list_float(writer, v),
        NbtList::Double(v) => write_nbt_list_double(writer, v),
        NbtList::ByteArray(v) => write_nbt_list_byte_array(writer, v),
        NbtList::String(v) => write_nbt_list_string(writer, v),
        NbtList::List(v) => write_nbt_list_list(writer, v),
        NbtList::Compound(v) => write_nbt_list_compound(writer, v),
        NbtList::IntArray(v) => write_nbt_list_int_array(writer, v),
        NbtList::LongArray(v) => write_nbt_list_long_array(writer, v),
    }
    assert(writer@ =~= old(writer)@ + enc_list(*list));
}

pub fn write_nbt_list_byte(writer: &mut Vec<u8>, v: &Vec<i8>)
    requires
        v.len() <= MAX_COUNT,
    ensures
        final(writer)@ == old(writer)@ + seq![0x01u8] + enc_count(v@.len()) + flat(v@, i8_enc()),
{
    put_u8(writer, 0x01);
    put_count(writer, v.len());
    put_i8s(writer, v);
    assert(writer@ =~= old(writer)@ + seq![0x01u8] + enc_count(v@.len()) + flat(v@, i8_enc()));
}

pub fn write_nbt_list_short(writer: &mut Vec<u8>, v: &Vec<i16>)
    requires
        v.len() <= MAX_COUNT,
    ensures
        final(writer)@ == old(writer)@ + seq![0x02u8] + enc_count(v@.len()) + flat(v@, i16_enc()),
{
    put_u8(writer, 0x02);
    put_count(writer, v.len());
    put_i16s(writer, v);
    assert(writer@ =~= old(writer)@ + seq![0x02u8] + enc_count(v@.len()) + flat(v@, i16_enc()));
}

pub fn write_nbt_list_int(writer: &mut Vec<u8>, v: &Vec<i32>)
    requires
        v.len() <= MAX_COUNT,
    ensures
        final(writer)@ == old(writer)@ + seq![0x03u8] + enc_count(v@.len()) + flat(v@, i32_enc()),
{
    put_u8(writer, 0x03);
    put_count(writer, v.len());
    put_i32s(writer, v);
    assert(writer@ =~= old(writer)@ + seq![0x03u8] + enc_count(v@.len()) + flat(v@, i32_enc()));
}

pub fn write_nbt_list_long(writer: &mut Vec<u8>, v: &Vec<i64>)
    requires
        v.len() <= MAX_COUNT,
    ensures
        final(writer)@ == old(writer)@ + seq![0x04u8] + enc_count(v@.len()) + flat(v@, i64_enc()),
{
    put_u8(writer, 0x04);
    put_count(writer, v.len());
    put_i64s(writer, v);
    assert(writer@ =~= old(writer)@ + seq![0x04u8] + enc_count(v@.len()) + flat(v@, i64_enc()));
}

/// Float elements, given as their bit patterns.
pub fn write_nbt_list_float(writer: &mut Vec<u8>, v: &Vec<u32>)
    requires
        v.len() <= MAX_COUNT,
    ensures
        final(writer)@ == old(writer)@ + seq![0x05u8] + enc_count(v@.len()) + flat(v@, u32_enc()),
{
    put_u8(writer, 0x05);
    put_count(writer, v.len());
    put_u32s(writer, v);
    assert(writer@ =~= old(writer)@ + seq![0x05u8] + enc_count(v@.len()) + flat(v@, u32_enc()));
}

/// Double elements, given as their bit patterns.
pub fn write_nbt_list_double(writer: &mut Vec<u8>, v: &Vec<u64>)
    requires
        v.len() <= MAX_COUNT,
    ensures
        final(writer)@ == old(writer)@ + seq![0x06u8] + enc_count(v@.len()) + flat(v@, u64_enc()),
{
    put_u8(writer, 0x06);
    put_count(writer, v.len());
    put_u64s(writer, v);
    assert(writer@ =~= old(writer)@ + seq![0x06u8] + enc_count(v@.len()) + flat(v@, u64_enc()));
}

pub fn write_nbt_list_byte_array(writer: &mut Vec<u8>, v: &Vec<Vec<u8>>)
    requires
        v.len() <= MAX_COUNT,
        forall|i: int| 0 <= i < v@.len() ==> (#[trigger] v@[i])@.len() <= MAX_COUNT,
    ensures
        final(writer)@ == old(writer)@ + seq![0x07u8] + enc_count(v@.len()) + flat(v@, byte_array_enc()),
{
    put_u8(writer, 0x07);
    put_count(writer, v.len());
    let ghost start = writer@;
    let mut i: usize = 0;
    while i < v.len()
        invariant
            i <= v.len(),
            forall|k: int| 0 <= k < v@.len() ==> (#[trigger] v@[k])@.len() <= MAX_COUNT,
            writer@ == start + flat(v@.take(i as int), byte_array_enc()),
        decreases v.len() - i,
    {
        put_i32_len_prefixed(writer, &v[i]);
        proof {
            lemma_flat_step(v@, byte_array_enc(), i as int);
        }
        i = i + 1;
        assert(writer@ =~= start + flat(v@.take(i as int), byte_array_enc()));
    }
    assert(v@.take(v.len() as int) =~= v@);
    assert(writer@ =~= old(writer)@ + seq![0x07u8] + enc_count(v@.len()) + flat(v@, byte_array_enc()));
}

pub fn write_nbt_list_string(writer: &mut Vec<u8>, v: &Vec<Vec<u8>>)
    requires
        v.len() <= MAX_COUNT,
        forall|i: int| 0 <= i < v@.len() ==> (#[trigger] v@[i])@.len() <= MAX_STR_LEN,
    ensures
        final(writer)@ == old(writer)@ + seq![0x08u8] + enc_count(v@.len()) + flat(v@, string_enc()),
{
    put_u8(writer, 0x08);
    put_count(writer, v.len());
    let ghost start = writer@;
    let mut i: usize = 0;
    while i < v.len()
        invariant
            i <= v.len(),
            forall|k: int| 0 <= k < v@.len() ==> (#[trigger] v@[k])@.len() <= MAX_STR_LEN,
            writer@ == start + flat(v@.take(i as int), string_enc()),
        decreases v.len() - i,
    {
        put_u16_len_prefixed(writer, &v[i]);
        proof {
            lemma_flat_step(v@, string_enc(), i as int);
        }
        i = i + 1;
        assert(writer@ =~= start + flat(v@.take(i as int), string_enc()));
    }
    assert(v@.take(v.len() as int) =~= v@);
    assert(writer@ =~= old(writer)@ + seq![0x08u8] + enc_count(v@.len()) + flat(v@, string_enc()));
}

pub fn write_nbt_list_list(writer: &mut Vec<u8>, v: &Vec<NbtList>)
    requires
        v.len() <= MAX_COUNT,
        forall|i: int| 0 <= i < v@.len() ==> list_fits(#[trigger] v@[i]),
    ensures
        final(writer)@ == old(writer)@ + seq![0x09u8] + enc_count(v@.len()) + enc_lists(v@),
    decreases v,
{
    put_u8(writer, 0x09);
    put_count(writer, v.len());
    let ghost start = writer@;
    let mut i: usize = 0;
    while i < v.len()
        invariant
            i <= v.len(),
            forall|k: int| 0 <= k < v@.len() ==> list_fits(#[trigger] v@[k]),
            writer@ == start + enc_lists(v@.take(i as int)),
        decreases v.len() - i,
    {
        write_nbt_list(writer, &v[i]);
        proof {
            lemma_lists_step(v@, i as int);
        }
        i = i + 1;
        assert(writer@ =~= start + enc_lists(v@.take(i as int)));
    }
    assert(v@.take(v.len() as int) =~= v@);
    assert(writer@ =~= old(writer)@ + seq![0x09u8] + enc_count(v@.len()) + enc_lists(v@));
}

pub fn write_nbt_list_compound(writer: &mut Vec<u8>, v: &Vec<NbtCompound>)
    requires
        v.len() <= MAX_COUNT,
        forall|i: int| 0 <= i < v@.len() ==> compound_fits(#[trigger] v@[i]),
    ensures
        final(writer)@ == old(writer)@ + seq![0x0Au8] + enc_count(v@.len()) + enc_compounds(v@),
    decreases v,
{
    put_u8(writer, 0x0A);
    put_count(writer, v.len());
    let ghost start = writer@;
    let mut i: usize = 0;
    while i < v.len()
        invariant
            i <= v.len(),
            forall|k: int| 0 <= k < v@.len() ==> compound_fits(#[trigger] v@[k]),
            writer@ == start + enc_compounds(v@.take(i as int)),
        decreases v.len() - i,
    {
        write_nbt_compound(writer, &v[i]);
        proof {
            lemma_compounds_step(v@, i as int);
        }
        i = i + 1;
        assert(writer@ =~= start + enc_compounds(v@.take(i as int)));
    }
    assert(v@.take(v.len() as int) =~= v@);
    assert(writer@ =~= old(writer)@ + seq![0x0Au8] + enc_count(v@.len()) + enc_compounds(v@));
}

pub fn write_nbt_list_int_array(writer: &mut Vec<u8>, v: &Vec<Vec<i32>>)
    requires
        v.len() <= MAX_COUNT,
        forall|i: int| 0 <= i < v@.len() ==> (#[trigger] v@[i])@.len() <= MAX_COUNT,
    ensures
        final(writer)@ == old(writer)@ + seq![0x0Bu8] + enc_count(v@.len()) + flat(v@, int_array_enc()),
{
    put_u8(writer, 0x0B);
    put_count(writer, v.len());
    let ghost start = writer@;
    let mut i: usize = 0;
    while i < v.len()
        invariant
            i <= v.len(),
            forall|k: int| 0 <= k < v@.len() ==> (#[trigger] v@[k])@.len() <= MAX_COUNT,
            writer@ == start + flat(v@.take(i as int), int_array_enc()),
        decreases v.len() - i,
    {
        let arr = &v[i];
        put_count(writer, arr.len());
        put_i32s(writer, arr);
        proof {
            lemma_flat_step(v@, int_array_enc(), i as int);
        }
        i = i + 1;
        assert(writer@ =~= start + flat(v@.take(i as int), int_array_enc()));
    }
    assert(v@.take(v.len() as int) =~= v@);
    assert(writer@ =~= old(writer)@ + seq![0x0Bu8] + enc_count(v@.len()) + flat(v@, int_array_enc()));
}

pub fn write_nbt_list_long_array(writer: &mut Vec<u8>, v: &Vec<Vec<i64>>)
    requires
        v.len() <= MAX_COUNT,
        forall|i: int| 0 <= i < v@.len() ==> (#[trigger] v@[i])@.len() <= MAX_COUNT,
    ensures
        final(writer)@ == old(writer)@ + seq![0x0Cu8] + enc_count(v@.len()) + flat(v@, long_array_enc()),
{
    put_u8(writer, 0x0C);
    put_count(writer, v.len());
    let ghost start = writer@;
    let mut i: usize = 0;
    while i < v.len()
        invariant
            i <= v.len(),
            forall|k: int| 0 <= k < v@.len() ==> (#[trigger] v@[k])@.len() <= MAX_COUNT,
            writer@ == start + flat(v@.take(i as int), long_array_enc()),
        decreases v.len() - i,
    {
        let arr = &v[i];
        put_count(writer, arr.len());
        put_i64s(writer, arr);
        proof {
            lemma_flat_step(v@, long_array_enc(), i as int);
        }
        i = i + 1;
        assert(writer@ =~= start + flat(v@.take(i as int), long_array_enc()));
    }
    assert(v@.take(v.len() as int) =~= v@);
    assert(writer@ =~= old(writer)@ + seq![0x0Cu8] + enc_count(v@.len()) + flat(v@, long_array_enc()));
}

} // verus!
