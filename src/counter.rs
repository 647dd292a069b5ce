//! The time-step counter and its fixed 8-byte big-endian encoding.
use vstd::prelude::*;

verus! {

/// Length of one time step, in seconds.
pub const STEP_SECONDS: u64 = 30;

/// The number of whole time steps completed at `epoch_seconds`.
pub open spec fn time_step(epoch_seconds: u64) -> u64 {
    epoch_seconds / 30
}

/// The eight bytes of `n`, most significant first.
pub open spec fn be_bytes(n: u64) -> Seq<u8> {
    seq![
        (n >> 56u64) as u8,
        (n >> 48u64) as u8,
        (n >> 40u64) as u8,
        (n >> 32u64) as u8,
        (n >> 24u64) as u8,
        (n >> 16u64) as u8,
        (n >> 8u64) as u8,
        n as u8,
    ]
}

/// Encodes a counter as the eight big-endian bytes that HOTP hashes.
pub fn counter_bytes(step: u64) -> (r: [u8; 8])
    ensures
        r@ == be_bytes(step),
{
    let r = [
        (step >> 56u64) as u8,
        (step >> 48u64) as u8,
        (step >> 40u64) as u8,
        (step >> 32u64) as u8,
        (step >> 24u64) as u8,
        (step >> 16u64) as u8,
        (step >> 8u64) as u8,
        step as u8,
    ];
    assert(r@ =~= be_bytes(step));
    r
}

proof fn lemma_bytes_determine_word(a: u64, b: u64)
    by (bit_vector)
    requires
        (a >> 56u64) as u8 == (b >> 56u64) as u8,
        (a >> 48u64) as u8 == (b >> 48u64) as u8,
        (a >> 40u64) as u8 == (b >> 40u64) as u8,
        (a >> 32u64) as u8 == (b >> 32u64) as u8,
        (a >> 24u64) as u8 == (b >> 24u64) as u8,
        (a >> 16u64) as u8 == (b >> 16u64) as u8,
        (a >> 8u64) as u8 == (b >> 8u64) as u8,
        a as u8 == b as u8,
    ensures
        a == b,
{
}

/// Distinct counters have distinct encodings.
pub proof fn lemma_be_bytes_injective(a: u64, b: u64)
    requires
        be_bytes(a) == be_bytes(b),
    ensures
        a == b,
{
    assert(be_bytes(a)[0] == be_bytes(b)[0]);
    assert(be_bytes(a)[1] == be_bytes(b)[1]);
    assert(be_bytes(a)[2] == be_bytes(b)[2]);
    assert(be_bytes(a)[3] == be_bytes(b)[3]);
    assert(be_bytes(a)[4] == be_bytes(b)[4]);
    assert(be_bytes(a)[5] == be_bytes(b)[5]);
    assert(be_bytes(a)[6] == be_bytes(b)[6]);
    assert(be_bytes(a)[7] == be_bytes(b)[7]);
    lemma_bytes_determine_word(a, b);
}

/// Times a full step apart are hashed under different counters.
pub proof fn lemma_next_step_new_counter(t: u64)
    requires
        t + 30 <= u64::MAX,
    ensures
        time_step((t + 30) as u64) == time_step(t) + 1,
        be_bytes(time_step((t + 30) as u64)) != be_bytes(time_step(t)),
{
    assert(((t + 30) as u64) / 30 == t / 30 + 1);
    if be_bytes(time_step((t + 30) as u64)) == be_bytes(time_step(t)) {
        lemma_be_bytes_injective(time_step((t + 30) as u64), time_step(t));
    }
}

} // verus!
