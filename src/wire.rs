use vstd::prelude::*;

verus! {

/// A 16-bit value as two bytes, most significant first.
pub open spec fn be16(x: u16) -> Seq<u8> {
    seq![(x >> 8u16) as u8, (x & 0xffu16) as u8]
}

/// A 32-bit value as four bytes, most significant first.
pub open spec fn be32(x: u32) -> Seq<u8> {
    seq![
        (x >> 24u32) as u8,
        ((x >> 16u32) & 0xffu32) as u8,
        ((x >> 8u32) & 0xffu32) as u8,
        (x & 0xffu32) as u8,
    ]
}

/// The low 40 bits of a 64-bit value as five bytes, most significant first.
pub open spec fn low40_be(x: u64) -> Seq<u8> {
    seq![
        ((x >> 32u64) & 0xffu64) as u8,
        ((x >> 24u64) & 0xffu64) as u8,
        ((x >> 16u64) & 0xffu64) as u8,
        ((x >> 8u64) & 0xffu64) as u8,
        (x & 0xffu64) as u8,
    ]
}

pub open spec fn be16_value(b0: u8, b1: u8) -> u16 {
    ((b0 as u16) << 8u16) | (b1 as u16)
}

pub open spec fn be32_value(b0: u8, b1: u8, b2: u8, b3: u8) -> u32 {
    ((b0 as u32) << 24u32) | ((b1 as u32) << 16u32) | ((b2 as u32) << 8u32) | (b3 as u32)
}

pub open spec fn be40_value(b0: u8, b1: u8, b2: u8, b3: u8, b4: u8) -> u64 {
    ((b0 as u64) << 32u64) | ((b1 as u64) << 24u64) | ((b2 as u64) << 16u64) | ((b3 as u64)
        << 8u64) | (b4 as u64)
}

/// The length byte of a name field: names longer than 255 bytes are cut.
pub open spec fn name_len(n: nat) -> nat {
    if n < 256 {
        n
    } else {
        255
    }
}

/// A name on the wire: one length byte, then that many bytes of the name.
pub open spec fn name_field(name: Seq<u8>) -> Seq<u8> {
    seq![name_len(name.len()) as u8] + name.take(name_len(name.len()) as int)
}

pub proof fn lemma_be16_round_trip(x: u16)
    ensures
        be16_value(be16(x)[0], be16(x)[1]) == x,
{
    assert(((((x >> 8u16) as u8) as u16) << 8u16) | (((x & 0xffu16) as u8) as u16) == x)
        by (bit_vector);
}

pub proof fn lemma_be32_round_trip(x: u32)
    ensures
        be32_value(be32(x)[0], be32(x)[1], be32(x)[2], be32(x)[3]) == x,
{
    assert(((((x >> 24u32) as u8) as u32) << 24u32) | (((((x >> 16u32) & 0xffu32) as u8) as u32)
        << 16u32) | (((((x >> 8u32) & 0xffu32) as u8) as u32) << 8u32) | (((x & 0xffu32) as u8)
        as u32) == x) by (bit_vector);
}

pub proof fn lemma_low40_round_trip(x: u64)
    ensures
        be40_value(low40_be(x)[0], low40_be(x)[1], low40_be(x)[2], low40_be(x)[3], low40_be(x)[4])
            == x & 0xff_ffff_ffffu64,
{
    assert(((((((x >> 32u64) & 0xffu64) as u8) as u64) << 32u64) | (((((x >> 24u64) & 0xffu64)
        as u8) as u64) << 24u64) | (((((x >> 16u64) & 0xffu64) as u8) as u64) << 16u64) | (((((x
        >> 8u64) & 0xffu64) as u8) as u64) << 8u64) | (((x & 0xffu64) as u8) as u64)) == x
        & 0xff_ffff_ffffu64) by (bit_vector);
}

pub fn push_be16(buf: &mut Vec<u8>, x: u16)
    ensures
        final(buf)@ == old(buf)@ + be16(x),
{
    buf.push((x >> 8u16) as u8);
    buf.push((x & 0xffu16) as u8);
    assert(buf@ =~= old(buf)@ + be16(x));
}

pub fn push_be32(buf: &mut Vec<u8>, x: u32)
    ensures
        final(buf)@ == old(buf)@ + be32(x),
{
    buf.push((x >> 24u32) as u8);
    buf.push(((x >> 16u32) & 0xffu32) as u8);
    buf.push(((x >> 8u32) & 0xffu32) as u8);
    buf.push((x & 0xffu32) as u8);
    assert(buf@ =~= old(buf)@ + be32(x));
}

pub fn push_low40_be(buf: &mut Vec<u8>, x: u64)
    ensures
        final(buf)@ == old(buf)@ + low40_be(x),
{
    buf.push(((x >> 32u64) & 0xffu64) as u8);
    buf.push(((x >> 24u64) & 0xffu64) as u8);
    buf.push(((x >> 16u64) & 0xffu64) as u8);
    buf.push(((x >> 8u64) & 0xffu64) as u8);
    buf.push((x & 0xffu64) as u8);
    assert(buf@ =~= old(buf)@ + low40_be(x));
}

/// Appends a length-prefixed name, cut to 255 bytes.
pub fn push_name(buf: &mut Vec<u8>, name: &[u8])
    ensures
        final(buf)@ == old(buf)@ + name_field(name@),
{
    let n: usize = if name.len() < 256 {
        name.len()
    } else {
        255
    };
    buf.push(n as u8);
    let mut i: usize = 0;
    while i < n
        invariant
            n == name_len(name@.len()),
            i <= n,
            buf@ == old(buf)@ + seq![n as u8] + name@.take(i as int),
        decreases n - i,
    {
        buf.push(name[i]);
        i = i + 1;
        assert(name@.take(i as int) =~= name@.take(i - 1).push(name@[i - 1]));
    }
    assert(buf@ =~= old(buf)@ + name_field(name@));
}

/// Appends every byte of `bytes`.
pub fn push_bytes(buf: &mut Vec<u8>, bytes: &[u8])
    ensures
        final(buf)@ == old(buf)@ + bytes@,
{
    let mut i: usize = 0;
    while i < bytes.len()
        invariant
            i <= bytes@.len(),
            buf@ == old(buf)@ + bytes@.take(i as int),
        decreases bytes@.len() - i,
    {
        buf.push(bytes[i]);
        i = i + 1;
        assert(bytes@.take(i as int) =~= bytes@.take(i - 1).push(bytes@[i - 1]));
    }
    assert(bytes@.take(bytes@.len() as int) =~= bytes@);
}

} // verus!
