//! The MD5 digest used by request signing and buvid derivation. The digest
//! itself is named, not specified: it is a function of the input bytes
//! alone, computed by the outside crate.
use vstd::prelude::*;

verus! {

/// The 16-byte MD5 digest of a byte sequence.
pub uninterp spec fn md5_of(data: Seq<u8>) -> Seq<u8>;

/// Relies on md5::compute: the MD5 digest of the input, 16 bytes, a
/// function of the input bytes alone.
#[verifier::external_body]
pub fn md5_digest(data: &Vec<u8>) -> (r: Vec<u8>)
    ensures
        r@ == md5_of(data@),
        r@.len() == 16,
{
    md5::compute(data.as_slice()).0.to_vec()
}

} // verus!
