use vstd::prelude::*;

verus! {

/// One bit of the reflected CRC32 (IEEE) register: shifted right, and
/// folded with the reflected polynomial when the bit shifted out is set.
pub open spec fn crc_bit(crc: u32) -> u32 {
    if crc & 1 == 1 {
        (crc >> 1u32) ^ 0xedb8_8320
    } else {
        crc >> 1u32
    }
}

/// `crc` after `n` bits.
pub open spec fn crc_bits(crc: u32, n: nat) -> u32
    decreases n,
{
    if n == 0 {
        crc
    } else {
        crc_bit(crc_bits(crc, (n - 1) as nat))
    }
}

/// The register after `bytes`, from `crc`: each byte is folded into the low
/// bits, then eight bits are shifted out.
pub open spec fn crc_update(crc: u32, bytes: Seq<u8>) -> u32
    decreases bytes.len(),
{
    if bytes.len() == 0 {
        crc
    } else {
        crc_bits(crc_update(crc, bytes.drop_last()) ^ (bytes.last() as u32), 8)
    }
}

/// The CRC32 (IEEE) checksum of a byte sequence: the reflected register
/// starts with every bit set and is inverted at the end.
pub open spec fn crc32(bytes: Seq<u8>) -> u32 {
    crc_update(0xffff_ffff, bytes) ^ 0xffff_ffff
}

/// Calls `crc32fast::hash`. Trusted: the result is the CRC32 (IEEE) checksum of
/// `bytes`, as `crc32` states it.
#[verifier::external_body]
pub(crate) fn crc32_hash(bytes: &[u8]) -> (r: u32)
    ensures
        r == crc32(bytes@),
{
    crc32fast::hash(bytes)
}

/// The four bytes of `x`, least significant first.
pub open spec fn u32_le_bytes(x: u32) -> Seq<u8> {
    seq![
        (x & 0xff) as u8,
        ((x >> 8u32) & 0xff) as u8,
        ((x >> 16u32) & 0xff) as u8,
        ((x >> 24u32) & 0xff) as u8,
    ]
}

/// The bytes of a sequence of 32-bit words, each word least significant byte first.
pub open spec fn words_le_bytes(words: Seq<u32>) -> Seq<u8>
    decreases words.len(),
{
    if words.len() == 0 {
        Seq::empty()
    } else {
        words_le_bytes(words.drop_last()) + u32_le_bytes(words.last())
    }
}

/// Appends the little-endian bytes of `x` to `out`.
pub fn push_u32_le(out: &mut Vec<u8>, x: u32)
    ensures
        final(out)@ == old(out)@ + u32_le_bytes(x),
{
    out.push((x & 0xff) as u8);
    out.push(((x >> 8u32) & 0xff) as u8);
    out.push(((x >> 16u32) & 0xff) as u8);
    out.push(((x >> 24u32) & 0xff) as u8);
}

/// The little-endian bytes of every word in `words`, in order.
pub fn words_to_le_bytes(words: &[u32]) -> (r: Vec<u8>)
    ensures
        r@ == words_le_bytes(words@),
{
    let mut out: Vec<u8> = Vec::new();
    let mut i: usize = 0;
    while i < words.len()
        invariant
            i <= words.len(),
            out@ == words_le_bytes(words@.subrange(0, i as int)),
        decreases words.len() - i,
    {
        proof {
            assert(words@.subrange(0, i + 1).drop_last() =~= words@.subrange(0, i as int));
        }
        push_u32_le(&mut out, words[i]);
        i += 1;
    }
    assert(words@.subrange(0, words.len() as int) =~= words@);
    out
}

} // verus!
