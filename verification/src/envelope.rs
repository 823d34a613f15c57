//! Classification of the service's response envelope `{code, msg, data}`
//! and of HTTP statuses: what counts as success, what is retried, and the
//! QR-poll codes the login collaborator treats as non-fatal.
use vstd::prelude::*;

use crate::errors::DownloadError;

verus! {

/// What a response classifies to: a non-200 status is an HTTP error, then
/// a non-zero envelope code is an envelope error, then missing data is a
/// decode error; only a 200 with code 0 and data present succeeds.
pub open spec fn classify_spec(status: u16, code: i64, has_data: bool) -> Result<
    (),
    DownloadError,
> {
    if status != 200 {
        Err(DownloadError::HttpStatus { code: status })
    } else if code != 0 {
        Err(DownloadError::EnvelopeCode { code })
    } else if !has_data {
        Err(DownloadError::Decode)
    } else {
        Ok(())
    }
}

/// Classify an HTTP status and envelope pair.
pub fn classify_response(status: u16, code: i64, has_data: bool) -> (r: Result<(), DownloadError>)
    ensures
        r == classify_spec(status, code, has_data),
{
    if status != 200 {
        Err(DownloadError::HttpStatus { code: status })
    } else if code != 0 {
        Err(DownloadError::EnvelopeCode { code })
    } else if !has_data {
        Err(DownloadError::Decode)
    } else {
        Ok(())
    }
}

/// The comic-detail endpoint's code 99 means the cookie is incomplete and
/// the user must refresh it.
pub fn is_incomplete_cookie(code: i64) -> (r: bool)
    ensures
        r == (code == 99),
{
    code == 99
}

/// The QR-poll codes the login collaborator treats as pending rather than
/// fatal.
pub open spec fn is_qr_poll_code_spec(code: i64) -> bool {
    code == 86038 || code == 86039 || code == 86090
}

pub fn is_qr_poll_code(code: i64) -> (r: bool)
    ensures
        r == is_qr_poll_code_spec(code),
{
    code == 86038 || code == 86039 || code == 86090
}

/// Whether an HTTP status is transient and worth a retry: the 5xx family.
pub open spec fn is_transient_status_spec(status: u16) -> bool {
    500 <= status < 600
}

pub fn is_transient_status(status: u16) -> (r: bool)
    ensures
        r == is_transient_status_spec(status),
{
    500 <= status && status < 600
}

pub open spec fn pow2_nat(n: nat) -> nat
    decreases n,
{
    if n == 0 {
        1
    } else {
        2 * pow2_nat((n - 1) as nat)
    }
}

/// Whether a failed attempt should be retried, and after how many
/// milliseconds: attempts count from zero; at most `max_retries` retries
/// happen, only for transient failures, and the delay doubles per attempt
/// up to a cap.
pub open spec fn retry_delay_capped(attempt: nat) -> nat {
    if attempt >= 10 {
        512000
    } else {
        (500 * pow2_nat(attempt)) as nat
    }
}

pub fn retry_decision(attempt: u32, max_retries: u32, transient: bool) -> (r: Option<u64>)
    ensures
        r is Some <==> transient && attempt < max_retries,
        r matches Some(d) ==> d == retry_delay_capped(attempt as nat),
{
    if !transient || attempt >= max_retries {
        return None;
    }
    if attempt >= 10 {
        return Some(512000);
    }
    let mut d: u64 = 500;
    let mut i: u32 = 0;
    while i < attempt
        invariant
            i <= attempt < 10,
            d == 500 * pow2_nat(i as nat),
            d <= 256000,
        decreases attempt - i,
    {
        proof {
            assert(pow2_nat((i + 1) as nat) == 2 * pow2_nat(i as nat));
            lemma_pow2_small((i + 1) as nat);
        }
        d = d * 2;
        i = i + 1;
    }
    Some(d)
}

proof fn lemma_pow2_small(n: nat)
    requires
        n <= 9,
    ensures
        pow2_nat(n) <= 512,
{
    assert(pow2_nat(0) == 1);
    assert(pow2_nat(1) == 2);
    assert(pow2_nat(2) == 4);
    assert(pow2_nat(3) == 8);
    assert(pow2_nat(4) == 16);
    assert(pow2_nat(5) == 32);
    assert(pow2_nat(6) == 64);
    assert(pow2_nat(7) == 128);
    assert(pow2_nat(8) == 256);
    assert(pow2_nat(9) == 512);
}

} // verus!
