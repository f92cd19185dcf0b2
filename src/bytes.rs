//! Little-endian fixed-width integers on byte sequences.
use vstd::prelude::*;

verus! {

/// The four little-endian bytes of `x`.
pub open spec fn u32_le(x: u32) -> Seq<u8> {
    seq![x as u8, (x >> 8) as u8, (x >> 16) as u8, (x >> 24) as u8]
}

/// The eight little-endian bytes of `x`.
pub open spec fn u64_le(x: u64) -> Seq<u8> {
    seq![
        x as u8,
        (x >> 8) as u8,
        (x >> 16) as u8,
        (x >> 24) as u8,
        (x >> 32) as u8,
        (x >> 40) as u8,
        (x >> 48) as u8,
        (x >> 56) as u8,
    ]
}

/// The eight little-endian bytes of `x` in two's complement.
pub open spec fn i64_le(x: i64) -> Seq<u8> {
    u64_le(x as u64)
}

/// The `u32` stored little-endian at offset `o` of `s`.
pub open spec fn u32_at(s: Seq<u8>, o: int) -> u32 {
    u32_of(s[o], s[o + 1], s[o + 2], s[o + 3])
}

pub open spec fn u32_of(b0: u8, b1: u8, b2: u8, b3: u8) -> u32 {
    (b0 as u32) | ((b1 as u32) << 8) | ((b2 as u32) << 16) | ((b3 as u32) << 24)
}

/// The `u64` stored little-endian at offset `o` of `s`.
pub open spec fn u64_at(s: Seq<u8>, o: int) -> u64 {
    u64_of(s[o], s[o + 1], s[o + 2], s[o + 3], s[o + 4], s[o + 5], s[o + 6], s[o + 7])
}

pub open spec fn u64_of(b0: u8, b1: u8, b2: u8, b3: u8, b4: u8, b5: u8, b6: u8, b7: u8) -> u64 {
    (b0 as u64) | ((b1 as u64) << 8) | ((b2 as u64) << 16) | ((b3 as u64) << 24) | ((b4 as u64)
        << 32) | ((b5 as u64) << 40) | ((b6 as u64) << 48) | ((b7 as u64) << 56)
}

/// The `i64` stored little-endian at offset `o` of `s`.
pub open spec fn i64_at(s: Seq<u8>, o: int) -> i64 {
    u64_at(s, o) as i64
}

/// Reading back the bytes of a `u32` gives the `u32`.
pub proof fn lemma_u32_round_trip(s: Seq<u8>, o: int, x: u32)
    requires
        0 <= o,
        o + 4 <= s.len(),
        s.subrange(o, o + 4) == u32_le(x),
    ensures
        u32_at(s, o) == x,
{
    assert(s[o] == s.subrange(o, o + 4)[0]);
    assert(s[o + 1] == s.subrange(o, o + 4)[1]);
    assert(s[o + 2] == s.subrange(o, o + 4)[2]);
    assert(s[o + 3] == s.subrange(o, o + 4)[3]);
    assert(u32_of(x as u8, (x >> 8) as u8, (x >> 16) as u8, (x >> 24) as u8) == x) by (bit_vector);
}

/// Reading back the bytes of a `u64` gives the `u64`.
pub proof fn lemma_u64_round_trip(s: Seq<u8>, o: int, x: u64)
    requires
        0 <= o,
        o + 8 <= s.len(),
        s.subrange(o, o + 8) == u64_le(x),
    ensures
        u64_at(s, o) == x,
{
    let t = s.subrange(o, o + 8);
    assert(s[o] == t[0]);
    assert(s[o + 1] == t[1]);
    assert(s[o + 2] == t[2]);
    assert(s[o + 3] == t[3]);
    assert(s[o + 4] == t[4]);
    assert(s[o + 5] == t[5]);
    assert(s[o + 6] == t[6]);
    assert(s[o + 7] == t[7]);
    assert(u64_of(
        x as u8,
        (x >> 8) as u8,
        (x >> 16) as u8,
        (x >> 24) as u8,
        (x >> 32) as u8,
        (x >> 40) as u8,
        (x >> 48) as u8,
        (x >> 56) as u8,
    ) == x) by (bit_vector);
}

/// Reading back the bytes of an `i64` gives the `i64`.
pub proof fn lemma_i64_round_trip(s: Seq<u8>, o: int, x: i64)
    requires
        0 <= o,
        o + 8 <= s.len(),
        s.subrange(o, o + 8) == i64_le(x),
    ensures
        i64_at(s, o) == x,
{
    lemma_u64_round_trip(s, o, x as u64);
    assert((x as u64) as i64 == x) by (bit_vector);
}

/// Appends the little-endian bytes of `x`.
pub fn put_u32(out: &mut Vec<u8>, x: u32)
    ensures
        final(out)@ == old(out)@ + u32_le(x),
{
    out.push(x as u8);
    out.push((x >> 8) as u8);
    out.push((x >> 16) as u8);
    out.push((x >> 24) as u8);
    assert(final(out)@ =~= old(out)@ + u32_le(x));
}

/// Appends the little-endian bytes of `x`.
pub fn put_u64(out: &mut Vec<u8>, x: u64)
    ensures
        final(out)@ == old(out)@ + u64_le(x),
{
    out.push(x as u8);
    out.push((x >> 8) as u8);
    out.push((x >> 16) as u8);
    out.push((x >> 24) as u8);
    out.push((x >> 32) as u8);
    out.push((x >> 40) as u8);
    out.push((x >> 48) as u8);
    out.push((x >> 56) as u8);
    assert(final(out)@ =~= old(out)@ + u64_le(x));
}

/// Appends the little-endian two's complement bytes of `x`.
pub fn put_i64(out: &mut Vec<u8>, x: i64)
    ensures
        final(out)@ == old(out)@ + i64_le(x),
{
    put_u64(out, x as u64);
}

/// Appends every byte of `b`.
pub fn put_bytes(out: &mut Vec<u8>, b: &[u8])
    ensures
        final(out)@ == old(out)@ + b@,
{
    let ghost start = out@;
    let mut i: usize = 0;
    while i < b.len()
        invariant
            i <= b.len(),
            out@ == start + b@.take(i as int),
        decreases b.len() - i,
    {
        out.push(b[i]);
        assert(b@.take(i as int + 1) =~= b@.take(i as int).push(b@[i as int]));
        assert(out@ =~= start + b@.take(i as int + 1));
        i += 1;
    }
    assert(b@.take(b.len() as int) =~= b@);
}

/// The `u32` at offset `o` of `b`.
pub fn get_u32(b: &[u8], o: usize) -> (r: u32)
    requires
        o + 4 <= b@.len(),
    ensures
        r == u32_at(b@, o as int),
{
    (b[o] as u32) | ((b[o + 1] as u32) << 8) | ((b[o + 2] as u32) << 16) | ((b[o + 3] as u32)
        << 24)
}

/// The `u64` at offset `o` of `b`.
pub fn get_u64(b: &[u8], o: usize) -> (r: u64)
    requires
        o + 8 <= b@.len(),
    ensures
        r == u64_at(b@, o as int),
{
    (b[o] as u64) | ((b[o + 1] as u64) << 8) | ((b[o + 2] as u64) << 16) | ((b[o + 3] as u64)
        << 24) | ((b[o + 4] as u64) << 32) | ((b[o + 5] as u64) << 40) | ((b[o + 6] as u64)
        << 48) | ((b[o + 7] as u64) << 56)
}

/// The `i64` at offset `o` of `b`.
pub fn get_i64(b: &[u8], o: usize) -> (r: i64)
    requires
        o + 8 <= b@.len(),
    ensures
        r == i64_at(b@, o as int),
{
    get_u64(b, o) as i64
}

/// The bytes of `b` from offset `start` to the end, as a new vector.
pub fn tail_from(b: &[u8], start: usize) -> (r: Vec<u8>)
    requires
        start <= b@.len(),
    ensures
        r@ == b@.subrange(start as int, b@.len() as int),
{
    let mut out: Vec<u8> = Vec::new();
    let mut i: usize = start;
    while i < b.len()
        invariant
            start <= i <= b.len(),
            out@ == b@.subrange(start as int, i as int),
        decreases b.len() - i,
    {
        out.push(b[i]);
        assert(out@ =~= b@.subrange(start as int, i as int + 1));
        i += 1;
    }
    out
}

} // verus!
