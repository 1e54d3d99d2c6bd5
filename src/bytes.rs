use vstd::prelude::*;

verus! {

/// The eight little-endian bytes of `x`.
pub open spec fn le_bytes(x: u64) -> Seq<u8> {
    seq![
        (x & 0xff) as u8,
        ((x >> 8u64) & 0xff) as u8,
        ((x >> 16u64) & 0xff) as u8,
        ((x >> 24u64) & 0xff) as u8,
        ((x >> 32u64) & 0xff) as u8,
        ((x >> 40u64) & 0xff) as u8,
        ((x >> 48u64) & 0xff) as u8,
        ((x >> 56u64) & 0xff) as u8,
    ]
}

/// The integer whose little-endian bytes are the first eight of `s`.
pub open spec fn le_u64(s: Seq<u8>) -> u64
    recommends
        s.len() >= 8,
{
    (s[0] as u64) | ((s[1] as u64) << 8u64) | ((s[2] as u64) << 16u64) | ((s[3] as u64) << 24u64)
        | ((s[4] as u64) << 32u64) | ((s[5] as u64) << 40u64) | ((s[6] as u64) << 48u64)
        | ((s[7] as u64) << 56u64)
}

/// Decoding the eight bytes of an integer gives the integer back, and
/// encoding the integer read from eight bytes gives those bytes back.
pub proof fn lemma_le_round_trip(x: u64, s: Seq<u8>)
    ensures
        le_u64(le_bytes(x)) == x,
        s.len() == 8 ==> le_bytes(le_u64(s)) == s,
{
    assert(((x & 0xff) as u8 as u64) | ((((x >> 8u64) & 0xff) as u8 as u64) << 8u64) | ((((x
        >> 16u64) & 0xff) as u8 as u64) << 16u64) | ((((x >> 24u64) & 0xff) as u8 as u64) << 24u64)
        | ((((x >> 32u64) & 0xff) as u8 as u64) << 32u64) | ((((x >> 40u64) & 0xff) as u8 as u64)
        << 40u64) | ((((x >> 48u64) & 0xff) as u8 as u64) << 48u64) | ((((x >> 56u64) & 0xff) as u8
        as u64) << 56u64) == x) by (bit_vector);
    if s.len() == 8 {
        let (s0, s1, s2, s3, s4, s5, s6, s7) = (s[0], s[1], s[2], s[3], s[4], s[5], s[6], s[7]);
        let y = le_u64(s);
        assert(y == (s0 as u64) | ((s1 as u64) << 8u64) | ((s2 as u64) << 16u64) | ((s3 as u64)
            << 24u64) | ((s4 as u64) << 32u64) | ((s5 as u64) << 40u64) | ((s6 as u64) << 48u64)
            | ((s7 as u64) << 56u64));
        assert(
            (y & 0xff) as u8 == s0 && ((y >> 8u64) & 0xff) as u8 == s1 && ((y >> 16u64) & 0xff) as u8
                == s2 && ((y >> 24u64) & 0xff) as u8 == s3 && ((y >> 32u64) & 0xff) as u8 == s4
                && ((y >> 40u64) & 0xff) as u8 == s5 && ((y >> 48u64) & 0xff) as u8 == s6 && ((y
                >> 56u64) & 0xff) as u8 == s7
        ) by (bit_vector)
            requires
                y == (s0 as u64) | ((s1 as u64) << 8u64) | ((s2 as u64) << 16u64) | ((s3 as u64)
                    << 24u64) | ((s4 as u64) << 32u64) | ((s5 as u64) << 40u64) | ((s6 as u64)
                    << 48u64) | ((s7 as u64) << 56u64),
        ;
        assert(le_bytes(y) =~= s);
    }
}

/// The four little-endian bytes of `x`.
pub open spec fn le_bytes32(x: u32) -> Seq<u8> {
    seq![
        (x & 0xff) as u8,
        ((x >> 8u32) & 0xff) as u8,
        ((x >> 16u32) & 0xff) as u8,
        ((x >> 24u32) & 0xff) as u8,
    ]
}

/// The integer whose little-endian bytes are the first four of `s`.
pub open spec fn le_u32(s: Seq<u8>) -> u32
    recommends
        s.len() >= 4,
{
    (s[0] as u32) | ((s[1] as u32) << 8u32) | ((s[2] as u32) << 16u32) | ((s[3] as u32) << 24u32)
}

/// Decoding the four bytes of an integer gives the integer back.
pub proof fn lemma_le32_round_trip(x: u32)
    ensures
        le_u32(le_bytes32(x)) == x,
{
    assert(((x & 0xff) as u8 as u32) | ((((x >> 8u32) & 0xff) as u8 as u32) << 8u32) | ((((x
        >> 16u32) & 0xff) as u8 as u32) << 16u32) | ((((x >> 24u32) & 0xff) as u8 as u32) << 24u32)
        == x) by (bit_vector);
}

/// Writes the little-endian bytes of `x` at the end of `out`.
pub fn push_le_u32(out: &mut Vec<u8>, x: u32)
    ensures
        final(out)@ == old(out)@ + le_bytes32(x),
{
    out.push((x & 0xff) as u8);
    out.push(((x >> 8u32) & 0xff) as u8);
    out.push(((x >> 16u32) & 0xff) as u8);
    out.push(((x >> 24u32) & 0xff) as u8);
    assert(final(out)@ =~= old(out)@ + le_bytes32(x));
}

/// Reads the integer whose little-endian bytes start at `at`.
pub fn read_le_u32(s: &[u8], at: usize) -> (r: u32)
    requires
        at + 4 <= s@.len(),
    ensures
        r == le_u32(s@.subrange(at as int, at + 4)),
{
    (s[at] as u32) | ((s[at + 1] as u32) << 8u32) | ((s[at + 2] as u32) << 16u32) | ((s[at
        + 3] as u32) << 24u32)
}

/// Writes the little-endian bytes of `x` at the end of `out`.
pub fn push_le_u64(out: &mut Vec<u8>, x: u64)
    ensures
        final(out)@ == old(out)@ + le_bytes(x),
{
    out.push((x & 0xff) as u8);
    out.push(((x >> 8u64) & 0xff) as u8);
    out.push(((x >> 16u64) & 0xff) as u8);
    out.push(((x >> 24u64) & 0xff) as u8);
    out.push(((x >> 32u64) & 0xff) as u8);
    out.push(((x >> 40u64) & 0xff) as u8);
    out.push(((x >> 48u64) & 0xff) as u8);
    out.push(((x >> 56u64) & 0xff) as u8);
    assert(final(out)@ =~= old(out)@ + le_bytes(x));
}

/// Reads the integer whose little-endian bytes start at `at`.
pub fn read_le_u64(s: &[u8], at: usize) -> (r: u64)
    requires
        at + 8 <= s@.len(),
    ensures
        r == le_u64(s@.subrange(at as int, at + 8)),
{
    (s[at] as u64) | ((s[at + 1] as u64) << 8u64) | ((s[at + 2] as u64) << 16u64) | ((s[at
        + 3] as u64) << 24u64) | ((s[at + 4] as u64) << 32u64) | ((s[at + 5] as u64) << 40u64)
        | ((s[at + 6] as u64) << 48u64) | ((s[at + 7] as u64) << 56u64)
}

} // verus!
