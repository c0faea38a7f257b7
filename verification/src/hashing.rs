//! SHA-256 and the byte framings that feed it.
use sha2::Digest;
use vstd::prelude::*;

verus! {

/// The SHA-256 digest of a byte string (FIPS 180-4), as computed by the
/// `sha2` crate.
pub uninterp spec fn sha256_spec(data: Seq<u8>) -> Seq<u8>;

/// Calls `sha2::Sha256::digest`. The contract claims only that the 32-byte
/// result is the SHA-256 digest of exactly the bytes handed in; the digest
/// itself is left to the name `sha256_spec`.
#[verifier::external_body]
pub(crate) fn sha256(data: &[u8]) -> (r: [u8; 32])
    ensures
        r@ == sha256_spec(data@),
{
    sha2::Sha256::digest(data).into()
}

/// Big-endian encoding of a 32-bit integer.
pub open spec fn u32_be(x: u32) -> Seq<u8> {
    seq![
        ((x / 0x100_0000) % 256) as u8,
        ((x / 0x1_0000) % 256) as u8,
        ((x / 0x100) % 256) as u8,
        (x % 256) as u8,
    ]
}

/// Big-endian encoding of a 64-bit integer.
pub open spec fn u64_be(x: u64) -> Seq<u8> {
    u32_be((x / 0x1_0000_0000) as u32) + u32_be((x % 0x1_0000_0000) as u32)
}

/// Little-endian encoding of a 64-bit integer.
pub open spec fn u64_le(x: u64) -> Seq<u8> {
    u64_be(x).reverse()
}

/// Appends the big-endian encoding of `x`.
pub fn push_u32_be(out: &mut Vec<u8>, x: u32)
    ensures
        final(out)@ == old(out)@ + u32_be(x),
{
    out.push(((x / 0x100_0000) % 256) as u8);
    out.push(((x / 0x1_0000) % 256) as u8);
    out.push(((x / 0x100) % 256) as u8);
    out.push((x % 256) as u8);
    assert(out@ =~= old(out)@ + u32_be(x));
}

/// Appends the big-endian encoding of `x`.
pub fn push_u64_be(out: &mut Vec<u8>, x: u64)
    ensures
        final(out)@ == old(out)@ + u64_be(x),
{
    push_u32_be(out, (x / 0x1_0000_0000) as u32);
    push_u32_be(out, (x % 0x1_0000_0000) as u32);
    assert(out@ =~= old(out)@ + u64_be(x));
}

/// Appends the little-endian encoding of `x`.
pub fn push_u64_le(out: &mut Vec<u8>, x: u64)
    ensures
        final(out)@ == old(out)@ + u64_le(x),
{
    let ghost start = out@;
    let mut tmp: Vec<u8> = Vec::new();
    push_u64_be(&mut tmp, x);
    let mut i: usize = 8;
    while i > 0
        invariant
            i <= 8,
            tmp@ == u64_be(x),
            tmp@.len() == 8,
            out@ == start + u64_be(x).reverse().subrange(0, 8 - i as int),
        decreases i,
    {
        i -= 1;
        out.push(tmp[i]);
        assert(out@ =~= start + u64_be(x).reverse().subrange(0, 8 - i as int));
    }
    assert(u64_be(x).reverse().subrange(0, 8) =~= u64_be(x).reverse());
}

/// Appends a byte slice.
pub fn push_bytes(out: &mut Vec<u8>, data: &[u8])
    ensures
        final(out)@ == old(out)@ + data@,
{
    let ghost start = out@;
    let mut i: usize = 0;
    while i < data.len()
        invariant
            i <= data.len(),
            out@ == start + data@.subrange(0, i as int),
        decreases data.len() - i,
    {
        out.push(data[i]);
        i += 1;
        assert(out@ =~= start + data@.subrange(0, i as int));
    }
    assert(data@.subrange(0, data@.len() as int) =~= data@);
}

} // verus!
