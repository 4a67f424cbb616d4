use sha2::Digest;
use vstd::prelude::*;
use vstd::string::StringSliceAdditionalSpecFns;

use crate::constants::{MAX_RETRIES, RETRY_DELAY_MS};

verus! {

/// The SHA-256 digest of a byte string: 32 bytes, a function of the input
/// alone, identical on every machine and in every process.
pub uninterp spec fn sha256_of(data: Seq<u8>) -> Seq<u8>;

/// Relies on sha2::Sha256 (through the one-shot Digest::digest): the SHA-256
/// digest of `data`, which is 32 bytes long and depends on `data` alone.
#[verifier::external_body]
fn sha256_digest(data: &[u8]) -> (d: Vec<u8>)
    ensures
        d@ == sha256_of(data@),
        d@.len() == 32,
{
    sha2::Sha256::digest(data).to_vec()
}

/// The lowercase hex digit for a value below 16.
pub open spec fn hex_digit(n: u8) -> char {
    if n < 10 {
        ((48 + n) as char)
    } else {
        ((87 + n) as char)
    }
}

/// Lowercase hex encoding: each byte becomes two digits, high nibble first.
pub open spec fn hex_encoding_of(b: Seq<u8>) -> Seq<char> {
    Seq::new(2 * b.len(), |i: int| {
        if i % 2 == 0 {
            hex_digit(b[i / 2] / 16)
        } else {
            hex_digit(b[i / 2] % 16)
        }
    })
}

/// Relies on hex::encode: the lowercase hex encoding of `data`.
#[verifier::external_body]
fn hex_encode(data: &Vec<u8>) -> (s: String)
    ensures
        s@ == hex_encoding_of(data@),
{
    hex::encode(data)
}

/// The cache key of a canonical request URI: the hex-encoded SHA-256 digest
/// of its UTF-8 bytes. Deterministic — the same URI always maps to the same
/// key — and 64 characters long.
pub fn generate_cache_key(uri: &String) -> (key: String)
    ensures
        key@ == hex_encoding_of(sha256_of(vstd::utf8::encode_utf8(uri@))),
        key@.len() == 64,
{
    let digest = sha256_digest(uri.as_str().as_bytes());
    hex_encode(&digest)
}

/// What one origin-fetch attempt came to, as the fetch loop reports it.
pub enum AttemptOutcome {
    /// A response arrived, whatever its status: it is accepted as is.
    Delivered,
    /// The transport failed before a response arrived.
    TransportError,
    /// The attempt exceeded the per-attempt timeout.
    TimedOut,
}

/// What the fetch loop must do after an attempt.
pub enum RetryDecision {
    /// Hand the received response to the caller.
    Accept,
    /// Surface the failure: the retry budget is spent.
    GiveUp,
    /// Wait the fixed delay, then try again.
    RetryAfter { delay_ms: u64 },
}

/// The retry rule: any received response is accepted, a failed attempt is
/// retried after the fixed delay until MAX_RETRIES retries are spent.
pub open spec fn retry_decision_spec(retries: u32, outcome: AttemptOutcome) -> RetryDecision {
    match outcome {
        AttemptOutcome::Delivered => RetryDecision::Accept,
        _ => if retries >= MAX_RETRIES {
            RetryDecision::GiveUp
        } else {
            RetryDecision::RetryAfter { delay_ms: RETRY_DELAY_MS }
        },
    }
}

/// Decides what the fetch loop does after its attempt number `retries`
/// (counting from zero) ends in `outcome`.
pub fn retry_decision(retries: u32, outcome: &AttemptOutcome) -> (d: RetryDecision)
    ensures
        d == retry_decision_spec(retries, *outcome),
{
    match outcome {
        AttemptOutcome::Delivered => RetryDecision::Accept,
        _ => {
            if retries >= MAX_RETRIES {
                RetryDecision::GiveUp
            } else {
                RetryDecision::RetryAfter { delay_ms: RETRY_DELAY_MS }
            }
        },
    }
}

/// Retry budget: a fetch whose every attempt fails is retried exactly
/// MAX_RETRIES times — attempts 0 through MAX_RETRIES - 1 are followed by a
/// fixed delay and another attempt, and attempt MAX_RETRIES gives up — so
/// exactly 1 + MAX_RETRIES attempts are made before the failure surfaces.
/// A received response, on any attempt, is accepted at once.
pub proof fn lemma_retry_budget(n: u32, outcome: AttemptOutcome)
    ensures
        outcome is Delivered ==> retry_decision_spec(n, outcome) == RetryDecision::Accept,
        !(outcome is Delivered) && n < MAX_RETRIES ==> retry_decision_spec(n, outcome)
            == (RetryDecision::RetryAfter { delay_ms: RETRY_DELAY_MS }),
        !(outcome is Delivered) && n >= MAX_RETRIES ==> retry_decision_spec(n, outcome)
            == RetryDecision::GiveUp,
{
}

} // verus!
