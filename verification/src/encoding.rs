//! The canonical byte layout of the values that enter a block's digest.
//!
//! Every integer is written as eight bytes, least significant first. A byte
//! string is written as its length, in the same eight-byte form, followed by
//! the bytes themselves.

use vstd::prelude::*;

verus! {

/// The eight bytes of `x`, least significant first.
pub open spec fn u64_le(x: u64) -> Seq<u8> {
    seq![
        (x & 0xff) as u8,
        ((x >> 8) & 0xff) as u8,
        ((x >> 16) & 0xff) as u8,
        ((x >> 24) & 0xff) as u8,
        ((x >> 32) & 0xff) as u8,
        ((x >> 40) & 0xff) as u8,
        ((x >> 48) & 0xff) as u8,
        ((x >> 56) & 0xff) as u8,
    ]
}

/// A byte string preceded by its length.
pub open spec fn length_prefixed(bytes: Seq<u8>) -> Seq<u8> {
    u64_le(bytes.len() as u64) + bytes
}

/// Distinct integers have distinct byte forms.
pub proof fn lemma_u64_le_injective(x: u64, y: u64)
    requires
        u64_le(x) == u64_le(y),
    ensures
        x == y,
{
    let a = u64_le(x);
    let b = u64_le(y);
    assert(a[0] == b[0] && a[1] == b[1] && a[2] == b[2] && a[3] == b[3]);
    assert(a[4] == b[4] && a[5] == b[5] && a[6] == b[6] && a[7] == b[7]);
    assert(x == y) by (bit_vector)
        requires
            (x & 0xff) as u8 == (y & 0xff) as u8,
            ((x >> 8) & 0xff) as u8 == ((y >> 8) & 0xff) as u8,
            ((x >> 16) & 0xff) as u8 == ((y >> 16) & 0xff) as u8,
            ((x >> 24) & 0xff) as u8 == ((y >> 24) & 0xff) as u8,
            ((x >> 32) & 0xff) as u8 == ((y >> 32) & 0xff) as u8,
            ((x >> 40) & 0xff) as u8 == ((y >> 40) & 0xff) as u8,
            ((x >> 48) & 0xff) as u8 == ((y >> 48) & 0xff) as u8,
            ((x >> 56) & 0xff) as u8 == ((y >> 56) & 0xff) as u8,
    ;
}

/// Two concatenations that agree, and whose left parts have the same length,
/// agree part by part.
pub proof fn lemma_split_left(a1: Seq<u8>, b1: Seq<u8>, a2: Seq<u8>, b2: Seq<u8>)
    requires
        a1 + b1 == a2 + b2,
        a1.len() == a2.len(),
    ensures
        a1 == a2,
        b1 == b2,
{
    let n = a1.len() as int;
    assert(a1 =~= (a1 + b1).subrange(0, n));
    assert(a2 =~= (a2 + b2).subrange(0, n));
    assert(b1 =~= (a1 + b1).subrange(n, (a1 + b1).len() as int));
    assert(b2 =~= (a2 + b2).subrange(n, (a2 + b2).len() as int));
}

/// Two concatenations that agree, and whose right parts have the same
/// length, agree part by part.
pub proof fn lemma_split_right(a1: Seq<u8>, b1: Seq<u8>, a2: Seq<u8>, b2: Seq<u8>)
    requires
        a1 + b1 == a2 + b2,
        b1.len() == b2.len(),
    ensures
        a1 == a2,
        b1 == b2,
{
    assert((a1 + b1).len() == a1.len() + b1.len());
    assert((a2 + b2).len() == a2.len() + b2.len());
    lemma_split_left(a1, b1, a2, b2);
}

/// Byte strings short enough for their length to be written down have
/// distinct length-prefixed forms, even when more bytes follow.
pub proof fn lemma_length_prefixed_split(
    x: Seq<u8>,
    rest_x: Seq<u8>,
    y: Seq<u8>,
    rest_y: Seq<u8>,
)
    requires
        length_prefixed(x) + rest_x == length_prefixed(y) + rest_y,
        x.len() <= u64::MAX,
        y.len() <= u64::MAX,
    ensures
        x == y,
        rest_x == rest_y,
{
    let lx = u64_le(x.len() as u64);
    let ly = u64_le(y.len() as u64);
    assert(length_prefixed(x) + rest_x =~= lx + (x + rest_x));
    assert(length_prefixed(y) + rest_y =~= ly + (y + rest_y));
    lemma_split_left(lx, x + rest_x, ly, y + rest_y);
    lemma_u64_le_injective(x.len() as u64, y.len() as u64);
    lemma_split_left(x, rest_x, y, rest_y);
}

fn byte_at(x: u64, shift: u64) -> (b: u8)
    requires
        shift < 64,
    ensures
        b == ((x >> shift) & 0xff) as u8,
{
    let low: u64 = (x >> shift) & 0xff;
    assert(low < 256) by (bit_vector)
        requires
            low == (x >> shift) & 0xff,
    ;
    low as u8
}

/// Appends the eight-byte form of `x` to `buf`.
pub fn put_u64(buf: &mut Vec<u8>, x: u64)
    ensures
        final(buf)@ == old(buf)@ + u64_le(x),
{
    assert(x >> 0 == x) by (bit_vector);
    buf.push(byte_at(x, 0));
    buf.push(byte_at(x, 8));
    buf.push(byte_at(x, 16));
    buf.push(byte_at(x, 24));
    buf.push(byte_at(x, 32));
    buf.push(byte_at(x, 40));
    buf.push(byte_at(x, 48));
    buf.push(byte_at(x, 56));
    assert(buf@ =~= old(buf)@ + u64_le(x));
}

/// Appends `bytes` to `buf`, preceded by their length.
pub fn put_bytes(buf: &mut Vec<u8>, bytes: &Vec<u8>)
    ensures
        final(buf)@ == old(buf)@ + length_prefixed(bytes@),
{
    put_u64(buf, bytes.len() as u64);
    let ghost start = buf@;
    let n = bytes.len();
    let mut i: usize = 0;
    while i < n
        invariant
            n == bytes@.len(),
            i <= n,
            buf@ == start + bytes@.subrange(0, i as int),
        decreases n - i,
    {
        buf.push(bytes[i]);
        i += 1;
        assert(buf@ =~= start + bytes@.subrange(0, i as int));
    }
    assert(bytes@.subrange(0, n as int) =~= bytes@);
    assert(buf@ =~= old(buf)@ + length_prefixed(bytes@));
}

} // verus!
