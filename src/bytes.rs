//! Fixed-width integers as bytes, in both byte orders.
use vstd::prelude::*;

verus! {

/// The eight big-endian bytes of `x`.
pub open spec fn u64_be(x: u64) -> Seq<u8> {
    seq![
        ((x >> 56u64) & 0xff) as u8,
        ((x >> 48u64) & 0xff) as u8,
        ((x >> 40u64) & 0xff) as u8,
        ((x >> 32u64) & 0xff) as u8,
        ((x >> 24u64) & 0xff) as u8,
        ((x >> 16u64) & 0xff) as u8,
        ((x >> 8u64) & 0xff) as u8,
        (x & 0xff) as u8,
    ]
}

/// The eight little-endian bytes of `x`.
pub open spec fn u64_le(x: u64) -> Seq<u8> {
    seq![
        (x & 0xff) as u8,
        ((x >> 8u64) & 0xff) as u8,
        ((x >> 16u64) & 0xff) as u8,
        ((x >> 24u64) & 0xff) as u8,
        ((x >> 32u64) & 0xff) as u8,
        ((x >> 40u64) & 0xff) as u8,
        ((x >> 48u64) & 0xff) as u8,
        ((x >> 56u64) & 0xff) as u8,
    ]
}

/// The integer that the eight big-endian bytes `b[p..p + 8]` spell.
pub open spec fn be_at(b: Seq<u8>, p: int) -> u64 {
    ((b[p] as u64) << 56u64) | ((b[p + 1] as u64) << 48u64) | ((b[p + 2] as u64) << 40u64)
        | ((b[p + 3] as u64) << 32u64) | ((b[p + 4] as u64) << 24u64) | ((b[p + 5] as u64)
        << 16u64) | ((b[p + 6] as u64) << 8u64) | (b[p + 7] as u64)
}

/// The integer that the eight little-endian bytes `b[p..p + 8]` spell.
pub open spec fn le_at(b: Seq<u8>, p: int) -> u64 {
    ((b[p + 7] as u64) << 56u64) | ((b[p + 6] as u64) << 48u64) | ((b[p + 5] as u64) << 40u64)
        | ((b[p + 4] as u64) << 32u64) | ((b[p + 3] as u64) << 24u64) | ((b[p + 2] as u64)
        << 16u64) | ((b[p + 1] as u64) << 8u64) | (b[p] as u64)
}

/// The 32 big-endian bytes of a 256-bit integer given as four 64-bit limbs,
/// least significant limb first.
pub open spec fn u256_be(limbs: Seq<u64>) -> Seq<u8>
    recommends
        limbs.len() == 4,
{
    u64_be(limbs[3]) + u64_be(limbs[2]) + u64_be(limbs[1]) + u64_be(limbs[0])
}

proof fn lemma_bytes_spell(x: u64)
    ensures
        ((((x >> 56u64) & 0xff) as u8 as u64) << 56u64) | ((((x >> 48u64) & 0xff) as u8 as u64)
            << 48u64) | ((((x >> 40u64) & 0xff) as u8 as u64) << 40u64) | ((((x >> 32u64)
            & 0xff) as u8 as u64) << 32u64) | ((((x >> 24u64) & 0xff) as u8 as u64) << 24u64)
            | ((((x >> 16u64) & 0xff) as u8 as u64) << 16u64) | ((((x >> 8u64) & 0xff) as u8
            as u64) << 8u64) | ((x & 0xff) as u8 as u64) == x,
{
    assert(((((x >> 56u64) & 0xff) as u8 as u64) << 56u64) | ((((x >> 48u64) & 0xff) as u8
        as u64) << 48u64) | ((((x >> 40u64) & 0xff) as u8 as u64) << 40u64) | ((((x >> 32u64)
        & 0xff) as u8 as u64) << 32u64) | ((((x >> 24u64) & 0xff) as u8 as u64) << 24u64) | ((((x
        >> 16u64) & 0xff) as u8 as u64) << 16u64) | ((((x >> 8u64) & 0xff) as u8 as u64)
        << 8u64) | ((x & 0xff) as u8 as u64) == x) by (bit_vector);
}

/// Big-endian bytes of an integer, read back, give the integer.
pub proof fn lemma_be_round_trip(x: u64, b: Seq<u8>, p: int)
    requires
        0 <= p,
        p + 8 <= b.len(),
        b.subrange(p, p + 8) == u64_be(x),
    ensures
        be_at(b, p) == x,
{
    let s = b.subrange(p, p + 8);
    assert(b[p] == s[0] && b[p + 1] == s[1] && b[p + 2] == s[2] && b[p + 3] == s[3]);
    assert(b[p + 4] == s[4] && b[p + 5] == s[5] && b[p + 6] == s[6] && b[p + 7] == s[7]);
    lemma_bytes_spell(x);
}

/// Little-endian bytes of an integer, read back, give the integer.
pub proof fn lemma_le_round_trip(x: u64, b: Seq<u8>, p: int)
    requires
        0 <= p,
        p + 8 <= b.len(),
        b.subrange(p, p + 8) == u64_le(x),
    ensures
        le_at(b, p) == x,
{
    let s = b.subrange(p, p + 8);
    assert(b[p] == s[0] && b[p + 1] == s[1] && b[p + 2] == s[2] && b[p + 3] == s[3]);
    assert(b[p + 4] == s[4] && b[p + 5] == s[5] && b[p + 6] == s[6] && b[p + 7] == s[7]);
    lemma_bytes_spell(x);
}

/// Appends the eight big-endian bytes of `x` to `dst`.
pub fn push_u64_be(dst: &mut Vec<u8>, x: u64)
    ensures
        final(dst)@ == old(dst)@ + u64_be(x),
{
    dst.push(((x >> 56u64) & 0xff) as u8);
    dst.push(((x >> 48u64) & 0xff) as u8);
    dst.push(((x >> 40u64) & 0xff) as u8);
    dst.push(((x >> 32u64) & 0xff) as u8);
    dst.push(((x >> 24u64) & 0xff) as u8);
    dst.push(((x >> 16u64) & 0xff) as u8);
    dst.push(((x >> 8u64) & 0xff) as u8);
    dst.push((x & 0xff) as u8);
    assert(dst@ =~= old(dst)@ + u64_be(x));
}

/// Appends the eight little-endian bytes of `x` to `dst`.
pub fn push_u64_le(dst: &mut Vec<u8>, x: u64)
    ensures
        final(dst)@ == old(dst)@ + u64_le(x),
{
    dst.push((x & 0xff) as u8);
    dst.push(((x >> 8u64) & 0xff) as u8);
    dst.push(((x >> 16u64) & 0xff) as u8);
    dst.push(((x >> 24u64) & 0xff) as u8);
    dst.push(((x >> 32u64) & 0xff) as u8);
    dst.push(((x >> 40u64) & 0xff) as u8);
    dst.push(((x >> 48u64) & 0xff) as u8);
    dst.push(((x >> 56u64) & 0xff) as u8);
    assert(dst@ =~= old(dst)@ + u64_le(x));
}

/// The big-endian integer in `src[pos..pos + 8]`, if those bytes exist.
pub fn read_u64_be(src: &[u8], pos: usize) -> (r: Option<u64>)
    ensures
        r is Some <==> pos + 8 <= src@.len(),
        r matches Some(v) ==> v == be_at(src@, pos as int),
{
    if src.len() < 8 || pos > src.len() - 8 {
        return None;
    }
    Some(((src[pos] as u64) << 56u64) | ((src[pos + 1] as u64) << 48u64) | ((src[pos + 2] as u64)
        << 40u64) | ((src[pos + 3] as u64) << 32u64) | ((src[pos + 4] as u64) << 24u64) | ((
    src[pos + 5] as u64) << 16u64) | ((src[pos + 6] as u64) << 8u64) | (src[pos + 7] as u64))
}

/// The little-endian integer in `src[pos..pos + 8]`, if those bytes exist.
pub fn read_u64_le(src: &[u8], pos: usize) -> (r: Option<u64>)
    ensures
        r is Some <==> pos + 8 <= src@.len(),
        r matches Some(v) ==> v == le_at(src@, pos as int),
{
    if src.len() < 8 || pos > src.len() - 8 {
        return None;
    }
    Some(((src[pos + 7] as u64) << 56u64) | ((src[pos + 6] as u64) << 48u64) | ((src[pos + 5]
        as u64) << 40u64) | ((src[pos + 4] as u64) << 32u64) | ((src[pos + 3] as u64) << 24u64)
        | ((src[pos + 2] as u64) << 16u64) | ((src[pos + 1] as u64) << 8u64) | (src[pos] as u64))
}

/// The 32 big-endian bytes of a 256-bit integer given as four 64-bit limbs,
/// least significant limb first.
pub fn u256_to_be_bytes(limbs: &[u64; 4]) -> (r: Vec<u8>)
    ensures
        r@ == u256_be(limbs@),
{
    let mut r: Vec<u8> = Vec::new();
    push_u64_be(&mut r, limbs[3]);
    push_u64_be(&mut r, limbs[2]);
    push_u64_be(&mut r, limbs[1]);
    push_u64_be(&mut r, limbs[0]);
    assert(r@ =~= u256_be(limbs@));
    r
}

} // verus!
