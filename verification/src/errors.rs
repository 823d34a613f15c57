//! The error taxonomy of the downloader core.
use vstd::prelude::*;

verus! {

#[derive(Clone, Debug, PartialEq)]
pub enum DownloadError {
    /// Socket, TLS or connect failure; transient, retried by the engine.
    Transport,
    /// A non-200 HTTP status.
    HttpStatus { code: u16 },
    /// The response envelope carried a non-zero code.
    EnvelopeCode { code: i64 },
    /// The response body or its nested data could not be parsed.
    Decode,
    /// The image decryptor met an unknown wrapper flag or a truncated header.
    Wrapper,
    /// AES or PKCS#7 failure: bad key or IV material, or invalid padding.
    Crypto,
    /// A create, rename, write or remove failed.
    Filesystem,
    /// The submission queue is saturated.
    BackpressureFull,
    /// The scheduler shut down mid-task.
    Cancelled,
}

} // verus!
