//! Dynamic truncation of an HMAC digest into a 31-bit value.
use vstd::prelude::*;

verus! {

/// Failures of the code pipeline.
#[derive(Debug, Clone, Copy, PartialEq, Eq, Structural)]
pub enum OtpError {
    /// The digest is too short for the four bytes its offset selects.
    InvalidDigestLength,
}

/// The offset that a digest selects: the low four bits of its last byte.
pub open spec fn truncation_offset(digest: Seq<u8>) -> int {
    (digest.last() & 0x0F) as int
}

/// The unsigned big-endian value of the four bytes of `s` starting at `i`.
pub open spec fn be_u32_at(s: Seq<u8>, i: int) -> int {
    s[i] * 0x100_0000 + s[i + 1] * 0x1_0000 + s[i + 2] * 0x100 + s[i + 3]
}

/// A digest is long enough when it holds the four bytes at its own offset.
pub open spec fn truncatable(digest: Seq<u8>) -> bool {
    digest.len() > 0 && truncation_offset(digest) + 4 <= digest.len()
}

/// The selected four bytes read big-endian, with the top bit cleared.
pub open spec fn truncated_value(digest: Seq<u8>) -> int {
    be_u32_at(digest, truncation_offset(digest)) % 0x8000_0000
}

proof fn lemma_word_masked(b0: u8, b1: u8, b2: u8, b3: u8)
    by (bit_vector)
    ensures
        ((((b0 as u32) << 24u32) | ((b1 as u32) << 16u32) | ((b2 as u32) << 8u32) | (b3 as u32))
            & 0x7FFF_FFFFu32) as int == (b0 * 0x100_0000 + b1 * 0x1_0000 + b2 * 0x100 + b3)
            % 0x8000_0000,
{
}

/// Extracts the 31-bit value that RFC 4226 derives from an HMAC digest.
pub fn dynamic_truncate(hash: &[u8]) -> (r: Result<u32, OtpError>)
    ensures
        truncatable(hash@) <==> r is Ok,
        r matches Ok(v) ==> v == truncated_value(hash@),
        r matches Err(e) ==> e == OtpError::InvalidDigestLength,
{
    let n = hash.len();
    if n == 0 {
        return Err(OtpError::InvalidDigestLength);
    }
    let offset = (hash[n - 1] & 0x0F) as usize;
    if n < offset + 4 {
        return Err(OtpError::InvalidDigestLength);
    }
    let b0 = hash[offset];
    let b1 = hash[offset + 1];
    let b2 = hash[offset + 2];
    let b3 = hash[offset + 3];
    let word: u32 = ((b0 as u32) << 24u32) | ((b1 as u32) << 16u32) | ((b2 as u32) << 8u32) | (b3 as u32);
    proof {
        lemma_word_masked(b0, b1, b2, b3);
    }
    Ok(word & 0x7FFF_FFFF)
}

/// The offset is always one of 0 through 15, so a digest of at least 19 bytes
/// (a 20-byte SHA-1 digest among them) is always long enough.
pub proof fn lemma_long_digest_truncatable(digest: Seq<u8>)
    requires
        digest.len() >= 19,
    ensures
        0 <= truncation_offset(digest) <= 15,
        truncatable(digest),
{
    let last = digest.last();
    assert(last & 0x0Fu8 <= 15u8) by (bit_vector);
}

/// The offset is the low hex digit of the last byte: the high digit is ignored.
pub proof fn lemma_offset_is_low_nibble(digest: Seq<u8>, high: u8, low: u8)
    requires
        digest.len() > 0,
        high < 16,
        low < 16,
        digest.last() == high * 16 + low,
    ensures
        truncation_offset(digest) == low,
{
    let last = digest.last();
    assert(last & 0x0Fu8 == low) by (bit_vector)
        requires
            high < 16u8,
            low < 16u8,
            last as u32 == (high as u32) * 16u32 + (low as u32),
    ;
}

/// The most significant bit of a truncated value is always clear.
pub proof fn lemma_top_bit_clear(digest: Seq<u8>)
    requires
        truncatable(digest),
    ensures
        0 <= truncated_value(digest) < 0x8000_0000,
        (truncated_value(digest) as u32) & 0x8000_0000 == 0,
{
    let v = truncated_value(digest) as u32;
    assert(v < 0x8000_0000);
    assert(v & 0x8000_0000u32 == 0u32) by (bit_vector)
        requires
            v < 0x8000_0000u32,
    ;
}

proof fn lemma_masked_word_injective(a0: u8, a1: u8, a2: u8, a3: u8, b0: u8, b1: u8, b2: u8, b3: u8)
    by (bit_vector)
    requires
        (((a0 as u32) << 24u32) | ((a1 as u32) << 16u32) | ((a2 as u32) << 8u32) | (a3 as u32))
            & 0x7FFF_FFFFu32 == (((b0 as u32) << 24u32) | ((b1 as u32) << 16u32) | ((b2 as u32)
            << 8u32) | (b3 as u32)) & 0x7FFF_FFFFu32,
    ensures
        a0 % 128u8 == b0 % 128u8,
        a1 == b1,
        a2 == b2,
        a3 == b3,
{
}

/// Two digests that select the same offset and differ in the 31 bits read
/// there truncate to different values.
pub proof fn lemma_distinct_windows_distinct_values(d1: Seq<u8>, d2: Seq<u8>)
    requires
        truncatable(d1),
        truncatable(d2),
        truncation_offset(d1) == truncation_offset(d2),
        ({
            let o = truncation_offset(d1);
            d1[o] % 128 != d2[o] % 128 || d1[o + 1] != d2[o + 1] || d1[o + 2] != d2[o + 2] || d1[o
                + 3] != d2[o + 3]
        }),
    ensures
        truncated_value(d1) != truncated_value(d2),
{
    let o = truncation_offset(d1);
    if truncated_value(d1) == truncated_value(d2) {
        lemma_word_masked(d1[o], d1[o + 1], d1[o + 2], d1[o + 3]);
        lemma_word_masked(d2[o], d2[o + 1], d2[o + 2], d2[o + 3]);
        lemma_masked_word_injective(d1[o], d1[o + 1], d1[o + 2], d1[o + 3], d2[o], d2[o + 1], d2[o + 2], d2[o + 3]);
    }
}

} // verus!
