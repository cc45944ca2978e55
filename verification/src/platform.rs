//! What the machine gives: the time of day and random bytes.

use rand::RngCore;
use vstd::prelude::*;

verus! {

/// The wall-clock time in milliseconds since the Unix epoch, from
/// `std::time::SystemTime::now`. Nothing is promised of the value: two
/// calls may differ, and a clock may run backwards.
#[verifier::external_body]
pub(crate) fn now_ms() -> (ms: i64) {
    std::time::SystemTime::now().duration_since(std::time::UNIX_EPOCH).map(|d| d.as_millis() as i64).unwrap_or(0)
}

/// Fills a new buffer of `n` bytes with `rand::thread_rng().fill_bytes`.
/// Only the length is promised.
#[verifier::external_body]
pub(crate) fn random_bytes(n: usize) -> (bytes: Vec<u8>)
    ensures
        bytes@.len() == n,
{
    let mut bytes = vec![0u8; n];
    rand::thread_rng().fill_bytes(&mut bytes);
    bytes
}

/// A fresh random id: nine random bytes in URL-safe base64.
pub fn random_guid() -> (id: String)
    ensures
        exists|bytes: Seq<u8>| bytes.len() == 9 && id@ == #[trigger] crate::codec::base64url_text(bytes),
{
    let bytes = random_bytes(9);
    crate::codec::base64url_encode(bytes.as_slice())
}

} // verus!
