//! Code generation: time step, HMAC-SHA1, truncation and formatting.
use crypto::hmac::Hmac;
use crypto::mac::Mac;
use crypto::sha1::Sha1;
use vstd::prelude::*;
use crate::counter::{be_bytes, counter_bytes, lemma_next_step_new_counter, time_step, STEP_SECONDS};
use crate::format::{
    code_text,
    decimal_digits,
    digit_char,
    format_code,
    is_digit,
    lemma_code_text_places,
    pow10,
};
use crate::truncate::{
    dynamic_truncate,
    lemma_long_digest_truncatable,
    truncatable,
    truncated_value,
    OtpError,
};

verus! {

/// The HMAC-SHA1 of `message` under `key`, as RFC 2104 defines it.
pub uninterp spec fn hmac_sha1_of(key: Seq<u8>, message: Seq<u8>) -> Seq<u8>;

/// Keys shorter than this are hashed without overflowing SHA-1's bit counter.
pub open spec fn key_len_ok(key: Seq<u8>) -> bool {
    key.len() < 0x2000_0000_0000_0000
}

/// Relies on rust-crypto's `Hmac::<Sha1>` (`new`, `Mac::input`, `Mac::result`):
/// the 20-byte HMAC-SHA1 digest of `message` under `key`. SHA-1 panics when the
/// bit length of its input overflows 64 bits, hence the bound on the key.
#[verifier::external_body]
fn lib_hmac(key: &[u8], message: &[u8]) -> (r: Vec<u8>)
    requires
        key_len_ok(key@),
    ensures
        r@ == hmac_sha1_of(key@, message@),
        r@.len() == 20,
{
    let mut mac = Hmac::new(Sha1::new(), key);
    mac.input(message);
    mac.result().code().to_vec()
}

/// The six-digit code of a digest: dynamic truncation, then formatting.
pub open spec fn digest_code(digest: Seq<u8>) -> Seq<char> {
    code_text(truncated_value(digest) as u32)
}

/// The code for `key` at `epoch_seconds`.
pub open spec fn totp_code(key: Seq<u8>, epoch_seconds: u64) -> Seq<char> {
    digest_code(hmac_sha1_of(key, be_bytes(time_step(epoch_seconds))))
}

/// Turns an HMAC digest into its six-digit code, or fails when the digest is
/// too short for its own truncation offset.
pub fn code_from_digest(digest: &[u8]) -> (r: Result<String, OtpError>)
    ensures
        truncatable(digest@) <==> r is Ok,
        r matches Ok(s) ==> s@ == digest_code(digest@),
        r matches Err(e) ==> e == OtpError::InvalidDigestLength,
{
    match dynamic_truncate(digest) {
        Ok(v) => Ok(format_code(v)),
        Err(e) => Err(e),
    }
}

/// The time-based one-time password for `key` at `epoch_sec`: six decimal
/// digits derived from the HMAC-SHA1 of the 30-second step count.
pub fn topt(epoch_sec: u64, key: &[u8]) -> (r: String)
    requires
        key_len_ok(key@),
    ensures
        r@ == totp_code(key@, epoch_sec),
        r@.len() == 6,
        forall|i: int| 0 <= i < 6 ==> #[trigger] is_digit(r@[i]),
{
    let counter = counter_bytes(epoch_sec / STEP_SECONDS);
    let digest = lib_hmac(key, &counter);
    proof {
        lemma_long_digest_truncatable(digest@);
    }
    let v = dynamic_truncate(&digest).unwrap();
    format_code(v)
}

/// Two times within the same 30-second step give the same code.
pub proof fn lemma_same_step_same_code(key: Seq<u8>, t1: u64, t2: u64)
    requires
        t1 / 30 == t2 / 30,
    ensures
        totp_code(key, t1) == totp_code(key, t2),
{
}

/// The code is a function of the key's bytes and the time alone: equal inputs
/// give equal codes.
pub proof fn lemma_code_deterministic(key1: Seq<u8>, key2: Seq<u8>, t1: u64, t2: u64)
    requires
        key1 == key2,
        t1 == t2,
    ensures
        totp_code(key1, t1) == totp_code(key2, t2),
{
}

/// A full step later the code is taken from the HMAC of the next counter,
/// whose encoding differs from the current one. The two codes themselves may
/// still coincide.
pub proof fn lemma_next_step_code(key: Seq<u8>, t: u64)
    requires
        t + 30 <= u64::MAX,
    ensures
        time_step((t + 30) as u64) == time_step(t) + 1,
        totp_code(key, (t + 30) as u64) == digest_code(
            hmac_sha1_of(key, be_bytes((time_step(t) + 1) as u64)),
        ),
        be_bytes((time_step(t) + 1) as u64) != be_bytes(time_step(t)),
{
    lemma_next_step_new_counter(t);
}

/// Every code is six zero-padded decimal digits: with `n` the truncated HMAC
/// value modulo 10^6, character `i` is the digit `(n / 10^(5 - i)) % 10`.
pub proof fn lemma_code_digits(key: Seq<u8>, t: u64)
    ensures
        totp_code(key, t).len() == 6,
        forall|i: int| 0 <= i < 6 ==> #[trigger] is_digit(totp_code(key, t)[i]),
        forall|i: int|
            0 <= i < 6 ==> #[trigger] totp_code(key, t)[i] == digit_char(
                ((truncated_value(hmac_sha1_of(key, be_bytes(time_step(t)))) as u32 % 1_000_000) as nat
                    / pow10((5 - i) as nat)) % 10,
            ),
{
    let v = truncated_value(hmac_sha1_of(key, be_bytes(time_step(t)))) as u32;
    lemma_code_text_places(v, 0);
    assert forall|i: int| 0 <= i < 6 implies #[trigger] is_digit(totp_code(key, t)[i]) by {
        lemma_code_text_places(v, i);
    }
    assert forall|i: int| 0 <= i < 6 implies #[trigger] totp_code(key, t)[i] == digit_char(
        ((truncated_value(hmac_sha1_of(key, be_bytes(time_step(t)))) as u32 % 1_000_000) as nat
            / pow10((5 - i) as nat)) % 10,
    ) by {
        lemma_code_text_places(v, i);
    }
}

/// The digest `1f 86 98 69 0e 02 ca 16 61 85 50 ef 7f 19 da 8e 94 5b 55 5a`
/// truncates to `0x50ef7f19` and gives the code `872921`.
pub proof fn lemma_known_digest_code()
    ensures
        ({
            let d = seq![
                0x1fu8, 0x86u8, 0x98u8, 0x69u8, 0x0eu8, 0x02u8, 0xcau8, 0x16u8, 0x61u8, 0x85u8,
                0x50u8, 0xefu8, 0x7fu8, 0x19u8, 0xdau8, 0x8eu8, 0x94u8, 0x5bu8, 0x55u8, 0x5au8,
            ];
            &&& truncatable(d)
            &&& truncated_value(d) == 0x50ef7f19
            &&& digest_code(d) == seq!['8', '7', '2', '9', '2', '1']
        }),
{
    let d = seq![
        0x1fu8, 0x86u8, 0x98u8, 0x69u8, 0x0eu8, 0x02u8, 0xcau8, 0x16u8, 0x61u8, 0x85u8,
        0x50u8, 0xefu8, 0x7fu8, 0x19u8, 0xdau8, 0x8eu8, 0x94u8, 0x5bu8, 0x55u8, 0x5au8,
    ];
    assert(d.last() == 0x5a);
    assert(0x5au8 & 0x0Fu8 == 10u8) by (bit_vector);
    reveal_with_fuel(decimal_digits, 7);
    assert(digest_code(d) =~= seq!['8', '7', '2', '9', '2', '1']);
}

} // verus!
