//! Reading and writing the fields of a block as little-endian bytes.

use vstd::prelude::*;

verus! {

/// The two little-endian bytes of `x`.
pub open spec fn le16(x: u16) -> Seq<u8> {
    seq![(x & 0xff) as u8, (x >> 8u16) as u8]
}

/// The `u16` whose little-endian bytes are `b0, b1`.
pub open spec fn from_le16(b0: u8, b1: u8) -> u16 {
    (b0 as u16) | ((b1 as u16) << 8u16)
}

/// The little-endian bytes of each element of `s`.
pub open spec fn le16_seq(s: Seq<u16>) -> Seq<u8>
    decreases s.len(),
{
    if s.len() == 0 {
        Seq::empty()
    } else {
        le16_seq(s.drop_last()) + le16(s.last())
    }
}

/// The two's-complement byte of each element of `s`.
pub open spec fn i8_bytes(s: Seq<i8>) -> Seq<u8> {
    s.map_values(|x: i8| #[verifier::truncate] (x as u8))
}

/// The size of a block error: what the layout needs and what was given.
#[derive(Clone, Copy, Debug, PartialEq, Eq, Structural)]
pub struct BlockSizeError {
    pub expected: usize,
    pub actual: usize,
}

pub proof fn lemma_le16(x: u16, b0: u8, b1: u8)
    ensures
        from_le16((x & 0xff) as u8, (x >> 8u16) as u8) == x,
        le16(from_le16(b0, b1)) == seq![b0, b1],
{
    assert(from_le16((x & 0xff) as u8, (x >> 8u16) as u8) == x) by (bit_vector);
    let y = from_le16(b0, b1);
    assert((y & 0xff) as u8 == b0 && (y >> 8u16) as u8 == b1) by (bit_vector)
        requires
            y == (b0 as u16) | ((b1 as u16) << 8u16),
    ;
    assert(le16(y) =~= seq![b0, b1]);
}

pub fn push_le16(v: &mut Vec<u8>, x: u16)
    ensures
        final(v)@ == old(v)@ + le16(x),
{
    v.push((x & 0xff) as u8);
    v.push((x >> 8) as u8);
    assert(final(v)@ =~= old(v)@ + le16(x));
}

pub fn read_le16(b: &[u8], at: usize) -> (r: u16)
    requires
        at + 2 <= b@.len(),
    ensures
        r == from_le16(b@[at as int], b@[at + 1]),
{
    (b[at] as u16) | ((b[at + 1] as u16) << 8)
}

pub fn push_all(v: &mut Vec<u8>, s: &[u8])
    ensures
        final(v)@ == old(v)@ + s@,
{
    let mut i: usize = 0;
    while i < s.len()
        invariant
            i <= s@.len(),
            v@ == old(v)@ + s@.subrange(0, i as int),
        decreases s@.len() - i,
    {
        v.push(s[i]);
        i += 1;
        assert(v@ =~= old(v)@ + s@.subrange(0, i as int));
    }
    assert(s@.subrange(0, s@.len() as int) =~= s@);
}

pub fn push_all_i8(v: &mut Vec<u8>, s: &[i8])
    ensures
        final(v)@ == old(v)@ + i8_bytes(s@),
{
    let mut i: usize = 0;
    while i < s.len()
        invariant
            i <= s@.len(),
            v@ == old(v)@ + i8_bytes(s@.subrange(0, i as int)),
        decreases s@.len() - i,
    {
        v.push(#[verifier::truncate] (s[i] as u8));
        i += 1;
        assert(v@ =~= old(v)@ + i8_bytes(s@.subrange(0, i as int)));
    }
    assert(s@.subrange(0, s@.len() as int) =~= s@);
}

pub fn push_all_le16(v: &mut Vec<u8>, s: &[u16])
    ensures
        final(v)@ == old(v)@ + le16_seq(s@),
{
    let mut i: usize = 0;
    while i < s.len()
        invariant
            i <= s@.len(),
            v@ == old(v)@ + le16_seq(s@.subrange(0, i as int)),
        decreases s@.len() - i,
    {
        push_le16(v, s[i]);
        i += 1;
        assert(s@.subrange(0, i as int).drop_last() =~= s@.subrange(0, i - 1));
        assert(v@ =~= old(v)@ + le16_seq(s@.subrange(0, i as int)));
    }
    assert(s@.subrange(0, s@.len() as int) =~= s@);
}

/// The `N` bytes of `b` from `at`.
pub fn read_array<const N: usize>(b: &[u8], at: usize) -> (r: [u8; N])
    requires
        at + N <= b@.len(),
    ensures
        r@ == b@.subrange(at as int, at + N),
{
    let n = b.len();
    let mut r: [u8; N] = [0; N];
    let mut i: usize = 0;
    while i < N
        invariant
            i <= N,
            n == b@.len(),
            at + N <= b@.len(),
            r@.len() == N,
            forall|k: int| 0 <= k < i ==> r@[k] == b@[at + k],
        decreases N - i,
    {
        r[i] = b[at + i];
        i += 1;
    }
    assert(r@ =~= b@.subrange(at as int, at + N));
    r
}

/// The `N` bytes of `b` from `at`, as two's-complement integers.
pub fn read_array_i8<const N: usize>(b: &[u8], at: usize) -> (r: [i8; N])
    requires
        at + N <= b@.len(),
    ensures
        i8_bytes(r@) == b@.subrange(at as int, at + N),
{
    let n = b.len();
    let mut r: [i8; N] = [0; N];
    let mut i: usize = 0;
    while i < N
        invariant
            i <= N,
            n == b@.len(),
            at + N <= b@.len(),
            r@.len() == N,
            forall|k: int| 0 <= k < i ==> #[verifier::truncate] (r@[k] as u8) == b@[at + k],
        decreases N - i,
    {
        let x = b[at + i];
        r[i] = #[verifier::truncate] (x as i8);
        assert(#[verifier::truncate] ((#[verifier::truncate] (x as i8)) as u8) == x) by (bit_vector);
        i += 1;
    }
    assert(i8_bytes(r@) =~= b@.subrange(at as int, at + N));
    r
}

} // verus!
