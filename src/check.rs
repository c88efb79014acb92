//! Checks that decide, before anything is written, whether a tree can be
//! written: every length fits its field, and nesting stays within a bound.
use vstd::prelude::*;
use crate::primitive::{MAX_COUNT, MAX_STR_LEN};
use crate::format::{payload_fits, compound_fits, list_fits, payload_within, compound_within, list_within};
use crate::tag::{NbtTag, NbtList, NbtCompound, nbt_list_len};

verus! {

/// Whether every inner vector of `v` has at most `max` elements.
pub fn all_lens_at_most<T>(v: &Vec<Vec<T>>, max: usize) -> (r: bool)
    ensures
        r == forall|i: int| 0 <= i < v@.len() ==> (#[trigger] v@[i])@.len() <= max,
{
    let mut i: usize = 0;
    while i < v.len()
        invariant
            i <= v.len(),
            forall|k: int| 0 <= k < i ==> (#[trigger] v@[k])@.len() <= max,
        decreases v.len() - i,
    {
        if v[i].len() > max {
            return false;
        }
        i = i + 1;
    }
    true
}

/// Whether every length in the payload fits its length field.
pub fn check_payload_lengths(tag: &NbtTag) -> (r: bool)
    ensures
        r == payload_fits(*tag),
    decreases tag,
{
    match tag {
        NbtTag::ByteArray(v) => v.len() <= MAX_COUNT,
        NbtTag::String(v) => v.len() <= MAX_STR_LEN,
        NbtTag::List(list) => check_list_lengths(list),
        NbtTag::Compound(compound) => check_compound_lengths(compound),
        NbtTag::IntArray(v) => v.len() <= MAX_COUNT,
        NbtTag::LongArray(v) => v.len() <= MAX_COUNT,
        _ => true,
    }
}

/// Whether every key and every length in the compound fits its length field.
pub fn check_compound_lengths(compound: &NbtCompound) -> (r: bool)
    ensures
        r == compound_fits(*compound),
    decreases compound,
{
    let ghost s = compound.entries@;
    let mut i: usize = 0;
    while i < compound.entries.len()
        invariant
            s == compound.entries@,
            i <= s.len(),
            forall|k: int|
                0 <= k < i ==> (#[trigger] s[k]).0@.len() <= MAX_STR_LEN && payload_fits(s[k].1),
        decreases s.len() - i,
    {
        let entry = &compound.entries[i];
        if entry.0.len() > MAX_STR_LEN || !check_payload_lengths(&entry.1) {
            return false;
        }
        i = i + 1;
    }
    true
}

/// Whether the count and every length inside the list fit their fields.
pub fn check_list_lengths(list: &NbtList) -> (r: bool)
    ensures
        r == list_fits(*list),
    decreases list,
{
    if nbt_list_len(list) > MAX_COUNT {
        return false;
    }
    match list {
        NbtList::ByteArray(v) => all_lens_at_most(v, MAX_COUNT),
        NbtList::String(v) => all_lens_at_most(v, MAX_STR_LEN),
        NbtList::IntArray(v) => all_lens_at_most(v, MAX_COUNT),
        NbtList::LongArray(v) => all_lens_at_most(v, MAX_COUNT),
        NbtList::List(v) => check_lists_lengths(v),
        NbtList::Compound(v) => check_compounds_lengths(v),
        _ => true,
    }
}

/// Whether the payload nests at most `depth` compounds and lists deep.
pub fn check_payload_depth(tag: &NbtTag, depth: usize) -> (r: bool)
    ensures
        r == payload_within(*tag, depth as nat),
    decreases tag,
{
    match tag {
        NbtTag::List(list) => check_list_depth(list, depth),
        NbtTag::Compound(compound) => check_compound_depth(compound, depth),
        _ => true,
    }
}

/// Whether the compound, as one level, nests at most `depth` levels deep.
pub fn check_compound_depth(compound: &NbtCompound, depth: usize) -> (r: bool)
    ensures
        r == compound_within(*compound, depth as nat),
    decreases compound,
{
    if depth == 0 {
        return false;
    }
    let ghost s = compound.entries@;
    let mut i: usize = 0;
    while i < compound.entries.len()
        invariant
            s == compound.entries@,
            depth > 0,
            i <= s.len(),
            forall|k: int| 0 <= k < i ==> payload_within((#[trigger] s[k]).1, (depth - 1) as nat),
        decreases s.len() - i,
    {
        if !check_payload_depth(&compound.entries[i].1, depth - 1) {
            return false;
        }
        i = i + 1;
    }
    true
}

/// Whether the list, as one level, nests at most `depth` levels deep.
pub fn check_list_depth(list: &NbtList, depth: usize) -> (r: bool)
    ensures
        r == list_within(*list, depth as nat),
    decreases list,
{
    if depth == 0 {
        return false;
    }
    match list {
        NbtList::List(v) => check_lists_depth(v, depth - 1),
        NbtList::Compound(v) => check_compounds_depth(v, depth - 1),
        _ => true,
    }
}

/// Whether every nested list fits its length fields.
pub fn check_lists_lengths(v: &Vec<NbtList>) -> (r: bool)
    ensures
        r == forall|k: int| 0 <= k < v@.len() ==> list_fits(#[trigger] v@[k]),
    decreases v,
{
    let mut i: usize = 0;
    while i < v.len()
        invariant
            i <= v.len(),
            forall|k: int| 0 <= k < i ==> list_fits(#[trigger] v@[k]),
        decreases v.len() - i,
    {
        if !check_list_lengths(&v[i]) {
            return false;
        }
        i = i + 1;
    }
    true
}

/// Whether every compound of a list fits its length fields.
pub fn check_compounds_lengths(v: &Vec<NbtCompound>) -> (r: bool)
    ensures
        r == forall|k: int| 0 <= k < v@.len() ==> compound_fits(#[trigger] v@[k]),
    decreases v,
{
    let mut i: usize = 0;
    while i < v.len()
        invariant
            i <= v.len(),
            forall|k: int| 0 <= k < i ==> compound_fits(#[trigger] v@[k]),
        decreases v.len() - i,
    {
        if !check_compound_lengths(&v[i]) {
            return false;
        }
        i = i + 1;
    }
    true
}

/// Whether every nested list nests at most `depth` levels deep.
pub fn check_lists_depth(v: &Vec<NbtList>, depth: usize) -> (r: bool)
    ensures
        r == forall|k: int| 0 <= k < v@.len() ==> list_within(#[trigger] v@[k], depth as nat),
    decreases v,
{
    let mut i: usize = 0;
    while i < v.len()
        invariant
            i <= v.len(),
            forall|k: int| 0 <= k < i ==> list_within(#[trigger] v@[k], depth as nat),
        decreases v.len() - i,
    {
        if !check_list_depth(&v[i], depth) {
            return false;
        }
        i = i + 1;
    }
    true
}

/// Whether every compound of a list nests at most `depth` levels deep.
pub fn check_compounds_depth(v: &Vec<NbtCompound>, depth: usize) -> (r: bool)
    ensures
        r == forall|k: int| 0 <= k < v@.len() ==> compound_within(#[trigger] v@[k], depth as nat),
    decreases v,
{
    let mut i: usize = 0;
    while i < v.len()
        invariant
            i <= v.len(),
            forall|k: int| 0 <= k < i ==> compound_within(#[trigger] v@[k], depth as nat),
        decreases v.len() - i,
    {
        if !check_compound_depth(&v[i], depth) {
            return false;
        }
        i = i + 1;
    }
    true
}

} // verus!
