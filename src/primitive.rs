//! Big-endian primitive encodings and the writers that append them.
use vstd::prelude::*;

verus! {

/// Largest element count that an `i32` length field can carry.
pub const MAX_COUNT: usize = 0x7fff_ffff;

/// Largest byte length that a `u16` string length field can carry.
pub const MAX_STR_LEN: usize = 0xffff;

/// Two bytes of `x`, most significant first.
pub open spec fn be16(x: u16) -> Seq<u8> {
    seq![(x >> 8u16) as u8, x as u8]
}

/// Four bytes of `x`, most significant first.
pub open spec fn be32(x: u32) -> Seq<u8> {
    seq![(x >> 24u32) as u8, (x >> 16u32) as u8, (x >> 8u32) as u8, x as u8]
}

/// Eight bytes of `x`, most significant first.
pub open spec fn be64(x: u64) -> Seq<u8> {
    seq![
        (x >> 56u64) as u8,
        (x >> 48u64) as u8,
        (x >> 40u64) as u8,
        (x >> 32u64) as u8,
        (x >> 24u64) as u8,
        (x >> 16u64) as u8,
        (x >> 8u64) as u8,
        x as u8,
    ]
}

/// An `i32` length field holding `n`.
pub open spec fn enc_count(n: nat) -> Seq<u8> {
    be32(n as u32)
}

/// A `u16` length prefix followed by the bytes themselves.
pub open spec fn enc_str(b: Seq<u8>) -> Seq<u8> {
    be16(b.len() as u16) + b
}

/// An `i32` length prefix followed by the bytes themselves.
pub open spec fn enc_bytes(b: Seq<u8>) -> Seq<u8> {
    enc_count(b.len()) + b
}

/// The concatenation of `f` applied to each element of `s`, in order.
pub open spec fn flat<A>(s: Seq<A>, f: spec_fn(A) -> Seq<u8>) -> Seq<u8>
    decreases s.len(),
{
    if s.len() == 0 {
        Seq::empty()
    } else {
        flat(s.drop_last(), f) + f(s.last())
    }
}

/// Extending the input by one element extends the output by that element's image.
pub proof fn lemma_flat_step<A>(s: Seq<A>, f: spec_fn(A) -> Seq<u8>, i: int)
    requires
        0 <= i < s.len(),
    ensures
        flat(s.take(i + 1), f) == flat(s.take(i), f) + f(s[i]),
{
    assert(s.take(i + 1).drop_last() =~= s.take(i));
}

/// A zero count is four zero bytes.
pub proof fn lemma_count_zero()
    ensures
        enc_count(0) == seq![0u8, 0u8, 0u8, 0u8],
{
    let z: u32 = 0;
    assert((z >> 24u32) as u8 == 0u8 && (z >> 16u32) as u8 == 0u8 && (z >> 8u32) as u8 == 0u8
        && z as u8 == 0u8) by (bit_vector)
        requires
            z == 0u32,
    ;
    assert(enc_count(0) =~= seq![0u8, 0u8, 0u8, 0u8]);
}

pub fn put_u8(buf: &mut Vec<u8>, b: u8)
    ensures
        final(buf)@ == old(buf)@.push(b),
{
    buf.push(b);
}

pub fn put_u16_be(buf: &mut Vec<u8>, x: u16)
    ensures
        final(buf)@ == old(buf)@ + be16(x),
{
    buf.push((x >> 8u16) as u8);
    buf.push(x as u8);
    assert(final(buf)@ =~= old(buf)@ + be16(x));
}

pub fn put_u32_be(buf: &mut Vec<u8>, x: u32)
    ensures
        final(buf)@ == old(buf)@ + be32(x),
{
    buf.push((x >> 24u32) as u8);
    buf.push((x >> 16u32) as u8);
    buf.push((x >> 8u32) as u8);
    buf.push(x as u8);
    assert(final(buf)@ =~= old(buf)@ + be32(x));
}

pub fn put_u64_be(buf: &mut Vec<u8>, x: u64)
    ensures
        final(buf)@ == old(buf)@ + be64(x),
{
    buf.push((x >> 56u64) as u8);
    buf.push((x >> 48u64) as u8);
    buf.push((x >> 40u64) as u8);
    buf.push((x >> 32u64) as u8);
    buf.push((x >> 24u64) as u8);
    buf.push((x >> 16u64) as u8);
    buf.push((x >> 8u64) as u8);
    buf.push(x as u8);
    assert(final(buf)@ =~= old(buf)@ + be64(x));
}

pub fn put_i8(buf: &mut Vec<u8>, x: i8)
    ensures
        final(buf)@ == old(buf)@.push(x as u8),
{
    buf.push(x as u8);
}

pub fn put_i16_be(buf: &mut Vec<u8>, x: i16)
    ensures
        final(buf)@ == old(buf)@ + be16(x as u16),
{
    put_u16_be(buf, x as u16);
}

pub fn put_i32_be(buf: &mut Vec<u8>, x: i32)
    ensures
        final(buf)@ == old(buf)@ + be32(x as u32),
{
    put_u32_be(buf, x as u32);
}

pub fn put_i64_be(buf: &mut Vec<u8>, x: i64)
    ensures
        final(buf)@ == old(buf)@ + be64(x as u64),
{
    put_u64_be(buf, x as u64);
}

/// Appends an `i32` length field; the count must fit in it.
pub fn put_count(buf: &mut Vec<u8>, n: usize)
    requires
        n <= MAX_COUNT,
    ensures
        final(buf)@ == old(buf)@ + enc_count(n as nat),
{
    put_u32_be(buf, n as u32);
}

/// Appends all bytes of `b` in order.
pub fn put_raw(buf: &mut Vec<u8>, b: &Vec<u8>)
    ensures
        final(buf)@ == old(buf)@ + b@,
{
    let mut i: usize = 0;
    while i < b.len()
        invariant
            i <= b.len(),
            buf@ == old(buf)@ + b@.take(i as int),
        decreases b.len() - i,
    {
        buf.push(b[i]);
        i = i + 1;
        assert(buf@ =~= old(buf)@ + b@.take(i as int));
    }
    assert(b@.take(b.len() as int) =~= b@);
}

/// Appends a `u16` length and then the bytes.
pub fn put_u16_len_prefixed(buf: &mut Vec<u8>, b: &Vec<u8>)
    requires
        b.len() <= MAX_STR_LEN,
    ensures
        final(buf)@ == old(buf)@ + enc_str(b@),
{
    put_u16_be(buf, b.len() as u16);
    put_raw(buf, b);
    assert(final(buf)@ =~= old(buf)@ + enc_str(b@));
}

/// Appends an `i32` length and then the bytes.
pub fn put_i32_len_prefixed(buf: &mut Vec<u8>, b: &Vec<u8>)
    requires
        b.len() <= MAX_COUNT,
    ensures
        final(buf)@ == old(buf)@ + enc_bytes(b@),
{
    put_count(buf, b.len());
    put_raw(buf, b);
    assert(final(buf)@ =~= old(buf)@ + enc_bytes(b@));
}

} // verus!
