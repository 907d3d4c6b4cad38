//! Little-endian 32-bit integers and byte ranges, as they lie in a buffer.

use vstd::prelude::*;

verus! {

/// The number that four bytes spell, least significant byte first.
pub open spec fn le_u32(s: Seq<u8>) -> u32
    recommends
        s.len() == 4,
{
    (s[0] as int + 256 * (s[1] as int) + 65536 * (s[2] as int) + 16777216 * (s[3] as int)) as u32
}

/// The four bytes that spell `x`, least significant byte first.
pub open spec fn le_bytes(x: u32) -> Seq<u8> {
    seq![
        (x as int % 256) as u8,
        (x as int / 256 % 256) as u8,
        (x as int / 65536 % 256) as u8,
        (x as int / 16777216) as u8,
    ]
}

/// `buf` with the bytes from `at` on replaced by `rec`, and nothing else
/// touched.
pub open spec fn splice(buf: Seq<u8>, at: int, rec: Seq<u8>) -> Seq<u8>
    recommends
        0 <= at,
        at + rec.len() <= buf.len(),
{
    buf.subrange(0, at) + rec + buf.subrange(at + rec.len(), buf.len() as int)
}

/// The four base-256 digits of a number below 2^32 put it together again.
proof fn lemma_digits_compose(x: int)
    requires
        0 <= x < 0x1_0000_0000,
    ensures
        x % 256 + 256 * (x / 256 % 256) + 65536 * (x / 65536 % 256) + 16777216 * (x / 16777216)
            == x,
        0 <= x / 16777216 < 256,
{
}

/// Reading back what `le_bytes` spelled gives the number again.
pub proof fn lemma_le_u32_of_le_bytes(x: u32)
    ensures
        le_bytes(x).len() == 4,
        le_u32(le_bytes(x)) == x,
{
    lemma_digits_compose(x as int);
}

/// Reads the little-endian integer at `data[at..at + 4]`.
pub(crate) fn read_u32(data: &[u8], at: usize) -> (x: u32)
    requires
        at + 4 <= data.len(),
    ensures
        x == le_u32(data@.subrange(at as int, at + 4)),
{
    let b0: u32 = data[at] as u32;
    let b1: u32 = data[at + 1] as u32;
    let b2: u32 = data[at + 2] as u32;
    let b3: u32 = data[at + 3] as u32;
    b0 + 256 * b1 + 65536 * b2 + 16777216 * b3
}

/// Writes `x` as a little-endian integer over `data[at..at + 4]`.
pub(crate) fn write_u32(data: &mut [u8], at: usize, x: u32)
    requires
        at + 4 <= old(data).len(),
    ensures
        final(data)@ == splice(old(data)@, at as int, le_bytes(x)),
{
    data[at] = (x % 256) as u8;
    data[at + 1] = (x / 256 % 256) as u8;
    data[at + 2] = (x / 65536 % 256) as u8;
    data[at + 3] = (x / 16777216) as u8;
}

/// Reads the 32 bytes at `data[at..at + 32]`.
pub(crate) fn read_block(data: &[u8], at: usize) -> (block: [u8; 32])
    requires
        at + 32 <= data.len(),
    ensures
        block@ == data@.subrange(at as int, at + 32),
{
    let mut block: [u8; 32] = [0u8; 32];
    let mut i: usize = 0;
    while i < 32
        invariant
            i <= 32,
            at + 32 <= data.len(),
            forall|j: int| 0 <= j < i ==> block@[j] == data@[at + j],
        decreases 32 - i,
    {
        block[i] = data[at + i];
        i += 1;
    }
    block
}

/// Appends `x` as a little-endian integer.
pub(crate) fn push_u32(out: &mut Vec<u8>, x: u32)
    ensures
        final(out)@ == old(out)@ + le_bytes(x),
{
    out.push((x % 256) as u8);
    out.push((x / 256 % 256) as u8);
    out.push((x / 65536 % 256) as u8);
    out.push((x / 16777216) as u8);
}

/// Appends the bytes of `src`.
pub(crate) fn push_bytes(out: &mut Vec<u8>, src: &[u8])
    ensures
        final(out)@ == old(out)@ + src@,
{
    let mut i: usize = 0;
    while i < src.len()
        invariant
            i <= src@.len(),
            out@ == old(out)@ + src@.subrange(0, i as int),
        decreases src@.len() - i,
    {
        out.push(src[i]);
        i += 1;
    }
}

} // verus!
