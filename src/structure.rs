//! Where the compound markers of an encoding stand: each byte is marked as the
//! opening `0x0A` of a compound at some depth, as the `0x00` terminator of a
//! compound at some depth, or as plain data. Depth `d` is marked `d + 1` for an
//! opening and `-(d + 1)` for a terminator; data is `0`.
use vstd::prelude::*;
use crate::primitive::enc_str;
use crate::format::{
    enc_payload, enc_compound, enc_entries, enc_list, enc_lists, enc_compounds, enc_network,
};
use crate::tag::{NbtTag, NbtList, NbtCompound, tag_id_of, list_kind_of, list_len};

verus! {

/// `n` data marks.
pub open spec fn data(n: nat) -> Seq<int> {
    Seq::new(n, |i: int| 0int)
}

/// How many times `v` occurs in `s`.
pub open spec fn count(s: Seq<int>, v: int) -> nat
    decreases s.len(),
{
    if s.len() == 0 {
        0
    } else {
        count(s.drop_last(), v) + if s.last() == v { 1nat } else { 0nat }
    }
}

/// Marks `m` describe bytes `e`: one mark per byte, openings on `0x0A`,
/// terminators on `0x00`.
pub open spec fn aligned(m: Seq<int>, e: Seq<u8>) -> bool {
    &&& m.len() == e.len()
    &&& forall|i: int| 0 <= i < m.len() && m[i] > 0 ==> e[i] == 0x0A
    &&& forall|i: int| 0 <= i < m.len() && m[i] < 0 ==> e[i] == 0x00
}

/// Marks of a payload whose enclosing compound is at depth `d`.
pub open spec fn marks_payload(t: NbtTag, d: nat) -> Seq<int>
    decreases t,
{
    match t {
        NbtTag::Compound(c) => marks_compound(c, d + 1),
        NbtTag::List(l) => marks_list(l, d),
        _ => data(enc_payload(t).len()),
    }
}

/// Marks of the body of a compound at depth `d`.
pub open spec fn marks_compound(c: NbtCompound, d: nat) -> Seq<int>
    decreases c,
{
    marks_entries(c.entries@, d) + seq![-(d + 1int)]
}

/// Marks of the entries of a compound at depth `d`.
pub open spec fn marks_entries(s: Seq<(Vec<u8>, NbtTag)>, d: nat) -> Seq<int>
    decreases s,
{
    if s.len() == 0 {
        Seq::empty()
    } else {
        marks_entries(s.subrange(0, s.len() - 1), d) + seq![
            if s[s.len() - 1].1 is Compound {
                d + 2int
            } else {
                0int
            },
        ] + data(enc_str(s[s.len() - 1].0@).len()) + marks_payload(s[s.len() - 1].1, d)
    }
}

/// Marks of a list payload inside a compound at depth `d`.
pub open spec fn marks_list(l: NbtList, d: nat) -> Seq<int>
    decreases l,
{
    if list_len(l) == 0 {
        data(5)
    } else {
        data(5) + match l {
            NbtList::List(v) => marks_lists(v@, d),
            NbtList::Compound(v) => marks_compounds(v@, d),
            _ => data((enc_list(l).len() - 5) as nat),
        }
    }
}

pub open spec fn marks_lists(s: Seq<NbtList>, d: nat) -> Seq<int>
    decreases s,
{
    if s.len() == 0 {
        Seq::empty()
    } else {
        marks_lists(s.subrange(0, s.len() - 1), d) + marks_list(s[s.len() - 1], d)
    }
}

pub open spec fn marks_compounds(s: Seq<NbtCompound>, d: nat) -> Seq<int>
    decreases s,
{
    if s.len() == 0 {
        Seq::empty()
    } else {
        marks_compounds(s.subrange(0, s.len() - 1), d) + marks_compound(s[s.len() - 1], d + 1)
    }
}

/// Marks of the network form: the root opening, then the root body at depth 0.
pub open spec fn marks_network(c: NbtCompound) -> Seq<int> {
    seq![1int] + marks_compound(c, 0)
}

/// No list of compounds with elements occurs in the payload: such a list
/// writes one kind byte for all of its compounds.
pub open spec fn payload_plain_lists(t: NbtTag) -> bool
    decreases t,
{
    match t {
        NbtTag::Compound(c) => compound_plain_lists(c),
        NbtTag::List(l) => list_plain(l),
        _ => true,
    }
}

pub open spec fn compound_plain_lists(c: NbtCompound) -> bool
    decreases c,
{
    forall|i: int| 0 <= i < c.entries@.len() ==> payload_plain_lists((#[trigger] c.entries@[i]).1)
}

pub open spec fn list_plain(l: NbtList) -> bool
    decreases l,
{
    match l {
        NbtList::Compound(v) => v@.len() == 0,
        NbtList::List(v) => forall|i: int| 0 <= i < v@.len() ==> list_plain(#[trigger] v@[i]),
        _ => true,
    }
}

proof fn lemma_count_add(a: Seq<int>, b: Seq<int>, v: int)
    ensures
        count(a + b, v) == count(a, v) + count(b, v),
    decreases b.len(),
{
    if b.len() > 0 {
        assert((a + b).drop_last() =~= a + b.drop_last());
        lemma_count_add(a, b.drop_last(), v);
    } else {
        assert(a + b =~= a);
    }
}

proof fn lemma_count_data(n: nat, v: int)
    requires
        v != 0,
    ensures
        count(data(n), v) == 0,
    decreases n,
{
    if n > 0 {
        assert(data(n).drop_last() =~= data((n - 1) as nat));
        lemma_count_data((n - 1) as nat, v);
    }
}

proof fn lemma_aligned_add(m1: Seq<int>, e1: Seq<u8>, m2: Seq<int>, e2: Seq<u8>)
    requires
        aligned(m1, e1),
        aligned(m2, e2),
    ensures
        aligned(m1 + m2, e1 + e2),
{
    assert forall|i: int| 0 <= i < (m1 + m2).len() && (m1 + m2)[i] > 0 implies (e1 + e2)[i]
        == 0x0A by {
        if i >= m1.len() {
            assert((m1 + m2)[i] == m2[i - m1.len()]);
        }
    }
    assert forall|i: int| 0 <= i < (m1 + m2).len() && (m1 + m2)[i] < 0 implies (e1 + e2)[i]
        == 0x00 by {
        if i >= m1.len() {
            assert((m1 + m2)[i] == m2[i - m1.len()]);
        }
    }
}

proof fn lemma_aligned_data(e: Seq<u8>)
    ensures
        aligned(data(e.len()), e),
{
}

proof fn lemma_count_single(x: int, v: int)
    ensures
        count(seq![x], v) == if x == v { 1nat } else { 0nat },
{
    assert(seq![x].drop_last() =~= Seq::<int>::empty());
    assert(count(Seq::<int>::empty(), v) == 0);
}

proof fn lemma_payload_marks(t: NbtTag, d: nat, k: int)
    requires
        k > 0,
    ensures
        aligned(marks_payload(t, d), enc_payload(t)),
        payload_plain_lists(t) ==> count(marks_payload(t, d), k) + (if t is Compound && k == d
            + 2 { 1nat } else { 0nat }) == count(marks_payload(t, d), -k),
    decreases t,
{
    match t {
        NbtTag::Compound(c) => lemma_compound_marks(c, d + 1, k),
        NbtTag::List(l) => lemma_list_marks(l, d, k),
        _ => {
            lemma_aligned_data(enc_payload(t));
            lemma_count_data(enc_payload(t).len(), k);
            lemma_count_data(enc_payload(t).len(), -k);
        },
    }
}

proof fn lemma_compound_marks(c: NbtCompound, d: nat, k: int)
    requires
        k > 0,
    ensures
        aligned(marks_compound(c, d), enc_compound(c)),
        compound_plain_lists(c) ==> count(marks_compound(c, d), k) + (if k == d + 1 { 1nat } else { 0nat }) == count(marks_compound(c, d), -k),
    decreases c,
{
    let s = c.entries@;
    lemma_entries_marks(s, d, k);
    lemma_aligned_add(marks_entries(s, d), enc_entries(s), seq![-(d + 1int)], seq![0u8]);
    lemma_count_add(marks_entries(s, d), seq![-(d + 1int)], k);
    lemma_count_add(marks_entries(s, d), seq![-(d + 1int)], -k);
    lemma_count_single(-(d + 1int), k);
    lemma_count_single(-(d + 1int), -k);
    if compound_plain_lists(c) {
        assert forall|i: int| 0 <= i < s.len() implies payload_plain_lists(#[trigger] s[i].1) by {
            assert(payload_plain_lists(c.entries@[i].1));
        }
    }
}

proof fn lemma_entries_marks(s: Seq<(Vec<u8>, NbtTag)>, d: nat, k: int)
    requires
        k > 0,
    ensures
        aligned(marks_entries(s, d), enc_entries(s)),
        (forall|i: int| 0 <= i < s.len() ==> payload_plain_lists(#[trigger] s[i].1)) ==> count(
            marks_entries(s, d),
            k,
        ) == count(marks_entries(s, d), -k),
    decreases s,
{
    if s.len() > 0 {
        let n = s.len() - 1;
        let pre = s.subrange(0, n);
        let t = s[n].1;
        let code: int = if t is Compound { d + 2int } else { 0int };
        let key = enc_str(s[n].0@);
        lemma_entries_marks(pre, d, k);
        lemma_payload_marks(t, d, k);
        lemma_aligned_data(key);
        let m1 = marks_entries(pre, d);
        let e1 = enc_entries(pre);
        lemma_aligned_add(m1, e1, seq![code], seq![tag_id_of(t)]);
        lemma_aligned_add(m1 + seq![code], e1 + seq![tag_id_of(t)], data(key.len()), key);
        lemma_aligned_add(
            m1 + seq![code] + data(key.len()),
            e1 + seq![tag_id_of(t)] + key,
            marks_payload(t, d),
            enc_payload(t),
        );
        let mp = marks_payload(t, d);
        lemma_count_add(m1 + seq![code] + data(key.len()), mp, k);
        lemma_count_add(m1 + seq![code] + data(key.len()), mp, -k);
        lemma_count_add(m1 + seq![code], data(key.len()), k);
        lemma_count_add(m1 + seq![code], data(key.len()), -k);
        lemma_count_add(m1, seq![code], k);
        lemma_count_add(m1, seq![code], -k);
        lemma_count_single(code, k);
        lemma_count_single(code, -k);
        lemma_count_data(key.len(), k);
        lemma_count_data(key.len(), -k);
        if forall|i: int| 0 <= i < s.len() ==> payload_plain_lists(#[trigger] s[i].1) {
            assert forall|i: int| 0 <= i < pre.len() implies payload_plain_lists(#[trigger] pre[i].1) by {
                assert(pre[i] == s[i]);
            }
        }
    }
}

proof fn lemma_list_marks(l: NbtList, d: nat, k: int)
    requires
        k > 0,
    ensures
        aligned(marks_list(l, d), enc_list(l)),
        list_plain(l) ==> count(marks_list(l, d), k) == count(marks_list(l, d), -k),
    decreases l,
{
    lemma_count_data(5, k);
    lemma_count_data(5, -k);
    if list_len(l) == 0 {
        lemma_aligned_data(enc_list(l));
    } else {
        let head = seq![list_kind_of(l)] + crate::primitive::enc_count(list_len(l));
        lemma_aligned_data(head);
        let rest: Seq<u8> = enc_list(l).subrange(5, enc_list(l).len() as int);
        assert(enc_list(l) =~= head + rest);
        match l {
            NbtList::List(v) => {
                lemma_lists_marks(v@, d, k);
                assert(rest =~= enc_lists(v@));
                if list_plain(l) {
                    assert forall|i: int| 0 <= i < v@.len() implies list_plain(#[trigger] v@[i]) by {}
                }
            },
            NbtList::Compound(v) => {
                lemma_compounds_marks(v@, d, k);
                assert(rest =~= enc_compounds(v@));
            },
            _ => {
                lemma_aligned_data(rest);
                lemma_count_data(rest.len(), k);
                lemma_count_data(rest.len(), -k);
            },
        }
        let mr = marks_list(l, d).subrange(5, marks_list(l, d).len() as int);
        assert(marks_list(l, d) =~= data(5) + mr);
        match l {
            NbtList::List(v) => assert(mr =~= marks_lists(v@, d)),
            NbtList::Compound(v) => assert(mr =~= marks_compounds(v@, d)),
            _ => assert(mr =~= data(rest.len())),
        }
        lemma_aligned_add(data(5), head, mr, rest);
        lemma_count_add(data(5), mr, k);
        lemma_count_add(data(5), mr, -k);
    }
}

proof fn lemma_lists_marks(s: Seq<NbtList>, d: nat, k: int)
    requires
        k > 0,
    ensures
        aligned(marks_lists(s, d), enc_lists(s)),
        (forall|i: int| 0 <= i < s.len() ==> list_plain(#[trigger] s[i])) ==> count(
            marks_lists(s, d),
            k,
        ) == count(marks_lists(s, d), -k),
    decreases s,
{
    if s.len() > 0 {
        let n = s.len() - 1;
        let pre = s.subrange(0, n);
        lemma_lists_marks(pre, d, k);
        lemma_list_marks(s[n], d, k);
        lemma_aligned_add(marks_lists(pre, d), enc_lists(pre), marks_list(s[n], d), enc_list(s[n]));
        lemma_count_add(marks_lists(pre, d), marks_list(s[n], d), k);
        lemma_count_add(marks_lists(pre, d), marks_list(s[n], d), -k);
        if forall|i: int| 0 <= i < s.len() ==> list_plain(#[trigger] s[i]) {
            assert forall|i: int| 0 <= i < pre.len() implies list_plain(#[trigger] pre[i]) by {
                assert(pre[i] == s[i]);
            }
        }
    }
}

proof fn lemma_compounds_marks(s: Seq<NbtCompound>, d: nat, k: int)
    requires
        k > 0,
    ensures
        aligned(marks_compounds(s, d), enc_compounds(s)),
    decreases s,
{
    if s.len() > 0 {
        let n = s.len() - 1;
        let pre = s.subrange(0, n);
        lemma_compounds_marks(pre, d, k);
        lemma_compound_marks(s[n], d + 1, k);
        lemma_aligned_add(
            marks_compounds(pre, d),
            enc_compounds(pre),
            marks_compound(s[n], d + 1),
            enc_compound(s[n]),
        );
    }
}

/// In the network form, every byte marked as a compound opening is `0x0A` and
/// every byte marked as a terminator is `0x00`; and, where no list of
/// compounds occurs, the terminators at each depth `d` are exactly as many as
/// the openings at depth `d`.
pub proof fn lemma_terminators_match_opens(c: NbtCompound, d: nat)
    requires
        compound_plain_lists(c),
    ensures
        aligned(marks_network(c), enc_network(c)),
        count(marks_network(c), d + 1int) == count(marks_network(c), -(d + 1int)),
{
    let k: int = d + 1int;
    lemma_compound_marks(c, 0, k);
    lemma_aligned_add(seq![1int], seq![0x0Au8], marks_compound(c, 0), enc_compound(c));
    lemma_count_add(seq![1int], marks_compound(c, 0), k);
    lemma_count_add(seq![1int], marks_compound(c, 0), -k);
    lemma_count_single(1, k);
    lemma_count_single(1, -k);
}

} // verus!
