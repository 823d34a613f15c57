//! The two sources the identity tokens depend on: random bytes and the
//! current time. Nothing beyond the length of a random buffer can be
//! promised of either.
use vstd::prelude::*;

verus! {

/// Relies on rand's thread_rng and Rng::fill: a buffer of `n` random bytes.
#[verifier::external_body]
pub fn random_bytes(n: usize) -> (r: Vec<u8>)
    ensures
        r@.len() == n,
{
    let mut v = vec![0u8; n];
    rand::Rng::fill(&mut rand::thread_rng(), &mut v[..]);
    v
}

/// Relies on chrono's Local::now: the current time in seconds since the
/// Unix epoch. Nothing is promised of the value.
#[verifier::external_body]
pub fn unix_timestamp() -> (r: i64) {
    chrono::Local::now().timestamp()
}

} // verus!
