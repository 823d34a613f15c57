//! The proprietary image wrapper: detection of plain images, parsing of the
//! wrapped layout (flag, big-endian length, encrypted head, plaintext tail,
//! trailing key), the IV carried in the `cpx` URL parameter, and the exact
//! round trip between the encoder and the decryptor.
use vstd::prelude::*;
use vstd::string::*;

use crate::codec::{
    base64_bytes_of, base64_decode, base64_encode_bytes, lemma_base64_bytes_injective,
    lemma_base64_no_percent, lemma_percent_decode_identity, percent_decode_bytes,
    percent_decode_spec,
};
use crate::crypto::{aes_cbc_decrypt, aes_cbc_encrypt, cbc_decrypt_spec, pkcs7_unpad_spec};
use crate::errors::DownloadError;
use crate::text::{push_all, subvec};

verus! {

/// Whether image::guess_format recognizes the bytes as a known format.
pub uninterp spec fn recognized_image(data: Seq<u8>) -> bool;

/// Relies on image::guess_format: succeeds iff the buffer begins with a
/// known magic signature. Every signature in its table is non-empty and
/// begins with a byte other than 1, so empty buffers and buffers beginning
/// with byte 1 are never recognized.
#[verifier::external_body]
pub fn is_recognized_image(data: &Vec<u8>) -> (r: bool)
    ensures
        r == recognized_image(data@),
        data@.len() > 0 && data@[0] == 1u8 ==> !r,
        data@.len() == 0 ==> !r,
{
    image::guess_format(data.as_slice()).is_ok()
}

/// A big-endian 32-bit value read from four bytes.
pub open spec fn be32_val(b: Seq<u8>) -> int
    recommends
        b.len() == 4,
{
    b[0] as int * 16777216 + b[1] as int * 65536 + b[2] as int * 256 + b[3] as int
}

/// The decoded cpx parameter: percent-decode, then base64-decode. The
/// decoding is the unique preimage of the encoding, when one exists.
pub open spec fn cpx_decoded(cpx: Seq<u8>) -> Option<Seq<u8>> {
    let pd = percent_decode_spec(cpx);
    if exists|b: Seq<u8>| base64_bytes_of(b) == pd {
        Some(choose|b: Seq<u8>| base64_bytes_of(b) == pd)
    } else {
        None
    }
}

/// The IV carried by the cpx parameter: bytes 60..76 of the decoded value.
pub open spec fn cpx_iv(cpx: Seq<u8>) -> Option<Seq<u8>> {
    match cpx_decoded(cpx) {
        Some(b) => if b.len() >= 76 {
            Some(b.subrange(60, 76))
        } else {
            None
        },
        None => None,
    }
}

/// Decrypt the wrapped payload between the header and the trailing key:
/// a short payload is CBC-decrypted whole and PKCS#7-unpadded; a payload of
/// 20496 bytes or more has only its first 20496 bytes decrypted (no unpad)
/// and keeps the rest as a plaintext tail.
pub open spec fn wrapped_payload_spec(content: Seq<u8>, key: Seq<u8>, iv: Seq<u8>) -> Result<
    Seq<u8>,
    DownloadError,
> {
    if content.len() >= 20496 {
        Ok(cbc_decrypt_spec(content.take(20496), key, iv) + content.skip(20496))
    } else if content.len() == 0 || content.len() % 16 != 0 {
        Err(DownloadError::Crypto)
    } else {
        let d = cbc_decrypt_spec(content, key, iv);
        if d.last() as int > d.len() {
            Err(DownloadError::Crypto)
        } else {
            Ok(pkcs7_unpad_spec(d))
        }
    }
}

/// Decode image bytes that did not pass format detection: byte 0 must be
/// the flag 1; bytes 1..5 give the payload length; a length past the end
/// means best-effort passthrough; the trailing key must be exactly 32
/// bytes; the IV comes from the cpx parameter.
pub open spec fn unwrap_image_spec(data: Seq<u8>, cpx: Seq<u8>) -> Result<Seq<u8>, DownloadError> {
    if data.len() == 0 || data[0] != 1 {
        Err(DownloadError::Wrapper)
    } else if data.len() < 5 {
        Err(DownloadError::Wrapper)
    } else {
        let dl = be32_val(data.subrange(1, 5));
        if dl + 5 > data.len() {
            Ok(data)
        } else {
            match cpx_iv(cpx) {
                None => Err(DownloadError::Crypto),
                Some(iv) => {
                    let key = data.skip(5 + dl);
                    if key.len() != 32 {
                        Err(DownloadError::Crypto)
                    } else {
                        wrapped_payload_spec(data.subrange(5, 5 + dl), key, iv)
                    }
                },
            }
        }
    }
}

/// What the decryptor returns: recognized image bytes pass through
/// unchanged; everything else goes through the wrapper decoding.
pub open spec fn decrypt_image_spec(data: Seq<u8>, cpx: Seq<u8>) -> Result<Seq<u8>, DownloadError> {
    if recognized_image(data) {
        Ok(data)
    } else {
        unwrap_image_spec(data, cpx)
    }
}

/// Decrypt (or pass through) downloaded image bytes, given the raw value of
/// the url's cpx parameter.
pub fn decrypt_img_data(data: Vec<u8>, cpx: &Vec<u8>) -> (r: Result<Vec<u8>, DownloadError>)
    ensures
        match decrypt_image_spec(data@, cpx@) {
            Ok(v) => r matches Ok(rv) && rv@ == v,
            Err(e) => r matches Err(re) && re == e,
        },
{
    if is_recognized_image(&data) {
        return Ok(data);
    }
    if data.len() == 0 {
        return Err(DownloadError::Wrapper);
    }
    if data[0] != 1 {
        return Err(DownloadError::Wrapper);
    }
    if data.len() < 5 {
        return Err(DownloadError::Wrapper);
    }
    let dl: u32 = (data[1] as u32) * 16777216 + (data[2] as u32) * 65536 + (data[3] as u32) * 256 + (
    data[4] as u32);
    proof {
        assert(data@.subrange(1, 5)[0] == data@[1]);
        assert(data@.subrange(1, 5)[1] == data@[2]);
        assert(data@.subrange(1, 5)[2] == data@[3]);
        assert(data@.subrange(1, 5)[3] == data@[4]);
    }
    let dlu: usize = dl as usize;
    if dlu > data.len() - 5 {
        return Ok(data);
    }
    let pd = percent_decode_bytes(cpx);
    let decoded = base64_decode(&pd);
    let iv: Vec<u8> = match decoded {
        None => {
            return Err(DownloadError::Crypto);
        },
        Some(v) => {
            proof {
                let b = choose|b: Seq<u8>| base64_bytes_of(b) == pd@;
                lemma_base64_bytes_injective(v@, b);
            }
            if v.len() < 76 {
                return Err(DownloadError::Crypto);
            }
            subvec(&v, 60, 76)
        },
    };
    let keylen = data.len() - (dlu + 5);
    if keylen != 32 {
        return Err(DownloadError::Crypto);
    }
    let key = subvec(&data, dlu + 5, data.len());
    let content = subvec(&data, 5, dlu + 5);
    proof {
        assert(key@ =~= data@.skip(5 + dlu as int));
    }
    if content.len() >= 20496 {
        let head = subvec(&content, 0, 20496);
        let tail = subvec(&content, 20496, content.len());
        let mut out = aes_cbc_decrypt(&head, &key, &iv);
        push_all(&mut out, &tail);
        proof {
            assert(head@ =~= content@.take(20496));
        }
        Ok(out)
    } else {
        if content.len() == 0 || content.len() % 16 != 0 {
            return Err(DownloadError::Crypto);
        }
        let d = aes_cbc_decrypt(&content, &key, &iv);
        let pad = d[d.len() - 1];
        if pad as usize > d.len() {
            return Err(DownloadError::Crypto);
        }
        let out = subvec(&d, 0, d.len() - pad as usize);
        proof {
            assert(d@.last() == d@[d@.len() - 1]);
            assert(out@ =~= pkcs7_unpad_spec(d@));
        }
        Ok(out)
    }
}

/// Build the cpx parameter bytes that carry an IV: 60 zero bytes, the IV,
/// base64-encoded. The decryptor's IV extraction recovers exactly the IV.
pub fn cpx_for_iv(iv: &Vec<u8>) -> (r: Vec<u8>)
    requires
        iv@.len() == 16,
    ensures
        cpx_iv(r@) == Some(iv@),
{
    let mut pre: Vec<u8> = Vec::new();
    let mut i: usize = 0;
    while i < 60
        invariant
            i <= 60,
            pre@.len() == i,
            forall|j: int| 0 <= j < i ==> pre@[j] == 0u8,
        decreases 60 - i,
    {
        pre.push(0u8);
        i = i + 1;
    }
    push_all(&mut pre, iv);
    let out = base64_encode_bytes(&pre);
    proof {
        lemma_base64_no_percent(pre@);
        lemma_percent_decode_identity(out@);
        assert(percent_decode_spec(out@) == base64_bytes_of(pre@));
        let b = choose|b: Seq<u8>| base64_bytes_of(b) == percent_decode_spec(out@);
        assert(base64_bytes_of(pre@) == percent_decode_spec(out@));
        lemma_base64_bytes_injective(b, pre@);
        assert(pre@.len() == 76);
        assert(pre@.subrange(60, 76) =~= iv@);
    }
    out
}

/// Encode a plaintext of at least 20496 bytes in the wrapped image form,
/// together with a cpx parameter carrying the IV. Passing the result
/// through the decryptor yields exactly the plaintext: the round-trip law.
pub fn encode_wrapped(p: &Vec<u8>, key: &Vec<u8>, iv: &Vec<u8>) -> (r: (Vec<u8>, Vec<u8>))
    requires
        p@.len() >= 20496,
        p@.len() < 4294967296,
        key@.len() == 32,
        iv@.len() == 16,
    ensures
        decrypt_image_spec(r.0@, r.1@) == Ok::<Seq<u8>, DownloadError>(p@),
        r.0@.len() == p@.len() + 37,
{
    let n = p.len();
    let b0: u8 = ((n / 16777216) % 256) as u8;
    let b1: u8 = ((n / 65536) % 256) as u8;
    let b2: u8 = ((n / 256) % 256) as u8;
    let b3: u8 = (n % 256) as u8;
    let mut out: Vec<u8> = Vec::new();
    out.push(1u8);
    out.push(b0);
    out.push(b1);
    out.push(b2);
    out.push(b3);
    let head = subvec(p, 0, 20496);
    let tail = subvec(p, 20496, n);
    let enc = aes_cbc_encrypt(&head, key, iv);
    push_all(&mut out, &enc);
    push_all(&mut out, &tail);
    push_all(&mut out, key);
    let recognized = is_recognized_image(&out);
    proof {
        assert(!recognized);
        let d = out@;
        assert(d[0] == 1u8);
        assert(d.subrange(1, 5) =~= seq![b0, b1, b2, b3]);
        let nn = n as int;
        assert(nn / 16777216 < 256) by {
            assert(nn < 4294967296);
        }
        assert(b0 as int == nn / 16777216);
        assert(nn / 65536 == 256 * (nn / 16777216) + (nn / 65536) % 256) by {
            vstd::arithmetic::div_mod::lemma_div_denominator(nn, 65536, 256);
            vstd::arithmetic::div_mod::lemma_fundamental_div_mod(nn / 65536, 256);
        }
        assert(nn / 256 == 256 * (nn / 65536) + (nn / 256) % 256) by {
            vstd::arithmetic::div_mod::lemma_div_denominator(nn, 256, 256);
            vstd::arithmetic::div_mod::lemma_fundamental_div_mod(nn / 256, 256);
        }
        assert(nn == 256 * (nn / 256) + nn % 256) by {
            vstd::arithmetic::div_mod::lemma_fundamental_div_mod(nn, 256);
        }
        assert(be32_val(d.subrange(1, 5)) == nn);
        assert(d.len() == nn + 37);
        assert(d.skip(5 + nn) =~= key@);
        let content = d.subrange(5, 5 + nn);
        assert(content =~= enc@ + tail@);
        assert(content.len() == nn >= 20496);
        assert(content.take(20496) =~= enc@);
        assert(content.skip(20496) =~= tail@);
        assert(cbc_decrypt_spec(enc@, key@, iv@) == head@);
        assert(head@ + tail@ =~= p@);
    }
    let cpx = cpx_for_iv(iv);
    (out, cpx)
}

/// Strip one byte at a time through the query string, looking for a
/// segment that starts with `cpx=`; `at_start` says whether the scan is at
/// the start of a segment.
pub open spec fn cpx_from(q: Seq<u8>, at_start: bool) -> Option<Seq<u8>>
    decreases q.len(),
{
    if q.len() == 0 {
        None
    } else if at_start && q.len() >= 4 && q[0] == 0x63 && q[1] == 0x70 && q[2] == 0x78 && q[3]
        == 0x3d {
        Some(upto(q.skip(4), 0x26))
    } else {
        cpx_from(q.drop_first(), q[0] == 0x26)
    }
}

/// The bytes before the first occurrence of `b` (all of `s` if none).
pub open spec fn upto(s: Seq<u8>, b: u8) -> Seq<u8>
    decreases s.len(),
{
    if s.len() == 0 {
        s
    } else if s[0] == b {
        Seq::empty()
    } else {
        seq![s[0]] + upto(s.drop_first(), b)
    }
}

/// The bytes after the first occurrence of `b` (empty if none).
pub open spec fn after_first(s: Seq<u8>, b: u8) -> Seq<u8>
    decreases s.len(),
{
    if s.len() == 0 {
        s
    } else if s[0] == b {
        s.drop_first()
    } else {
        after_first(s.drop_first(), b)
    }
}

/// The raw value of the `cpx` query parameter of a URL, if present.
pub open spec fn cpx_param_spec(url: Seq<u8>) -> Option<Seq<u8>> {
    cpx_from(after_first(url, 0x3f), true)
}

proof fn lemma_after_first(s: Seq<u8>, b: u8, i: int)
    requires
        0 <= i <= s.len(),
        forall|j: int| 0 <= j < i ==> s[j] != b,
        i < s.len() ==> s[i] == b,
    ensures
        i < s.len() ==> after_first(s, b) == s.skip(i + 1),
        i == s.len() ==> after_first(s, b) == Seq::<u8>::empty(),
    decreases i,
{
    if s.len() == 0 {
        assert(after_first(s, b) =~= Seq::<u8>::empty());
    } else if i == 0 {
        if 0 < s.len() {
            assert(s.skip(1) =~= s.drop_first());
        }
    } else {
        lemma_after_first(s.drop_first(), b, i - 1);
        if i < s.len() {
            assert(s.drop_first().skip(i) =~= s.skip(i + 1));
        } else {
            assert(i - 1 == s.drop_first().len());
        }
    }
}

proof fn lemma_upto(s: Seq<u8>, b: u8, k: int)
    requires
        0 <= k <= s.len(),
        forall|j: int| 0 <= j < k ==> s[j] != b,
        k < s.len() ==> s[k] == b,
    ensures
        upto(s, b) == s.take(k),
    decreases k,
{
    if k == 0 {
        assert(s.take(0) =~= Seq::<u8>::empty());
        if s.len() > 0 {
            assert(upto(s, b) =~= s.take(0));
        }
    } else {
        lemma_upto(s.drop_first(), b, k - 1);
        assert(seq![s[0]] + s.drop_first().take(k - 1) =~= s.take(k));
    }
}

/// Extract the raw `cpx` query-parameter value from a URL.
pub fn cpx_param(url: &str) -> (r: Option<Vec<u8>>)
    ensures
        match cpx_param_spec(url.spec_bytes()) {
            Some(v) => r matches Some(rv) && rv@ == v,
            None => r is None,
        },
{
    let bytes = url.as_bytes_vec();
    let n = bytes.len();
    let mut i: usize = 0;
    while i < n && bytes[i] != 0x3f
        invariant
            i <= n,
            n == bytes@.len(),
            forall|j: int| 0 <= j < i ==> bytes@[j] != 0x3f,
        decreases n - i,
    {
        i = i + 1;
    }
    proof {
        lemma_after_first(bytes@, 0x3f, i as int);
    }
    if i == n {
        return None;
    }
    let qstart = i + 1;
    let ghost q = bytes@.skip(qstart as int);
    let mut j: usize = qstart;
    let mut at_start: bool = true;
    while j < n
        invariant
            qstart <= j <= n,
            n == bytes@.len(),
            bytes@ == url.spec_bytes(),
            q == bytes@.skip(qstart as int),
            after_first(url.spec_bytes(), 0x3f) == q,
            cpx_from(q, true) == cpx_from(bytes@.skip(j as int), at_start),
        decreases n - j,
    {
        let seg_match = at_start && n - j >= 4 && bytes[j] == 0x63 && bytes[j + 1] == 0x70
            && bytes[j + 2] == 0x78 && bytes[j + 3] == 0x3d;
        proof {
            assert(bytes@.skip(j as int).len() == n - j);
            assert forall|k: int| 0 <= k < n - j implies #[trigger] bytes@.skip(j as int)[k]
                == bytes@[j + k] by {}
        }
        if seg_match {
            let vstart = j + 4;
            let mut k: usize = vstart;
            while k < n && bytes[k] != 0x26
                invariant
                    vstart <= k <= n,
                    n == bytes@.len(),
                    forall|m: int| vstart <= m < k ==> bytes@[m] != 0x26,
                decreases n - k,
            {
                k = k + 1;
            }
            proof {
                let tail = bytes@.skip(vstart as int);
                assert forall|m: int| 0 <= m < k - vstart implies #[trigger] tail[m] != 0x26 by {
                    assert(tail[m] == bytes@[vstart + m]);
                }
                lemma_upto(tail, 0x26, k - vstart as int);
                assert(bytes@.skip(j as int).skip(4) =~= tail);
                assert(tail.take(k - vstart as int) =~= bytes@.subrange(
                    vstart as int,
                    k as int,
                ));
            }
            proof {
                let sj = bytes@.skip(j as int);
                assert(sj.len() >= 4);
                assert(sj[0] == 0x63 && sj[1] == 0x70 && sj[2] == 0x78 && sj[3] == 0x3d);
                assert(cpx_from(sj, true) == Some(upto(sj.skip(4), 0x26)));
                assert(sj.skip(4) =~= bytes@.skip(vstart as int));
                assert(cpx_param_spec(url.spec_bytes()) == Some(
                    upto(bytes@.skip(vstart as int), 0x26),
                ));
            }
            return Some(subvec(&bytes, vstart, k));
        }
        proof {
            assert(bytes@.skip(j as int).drop_first() =~= bytes@.skip(j + 1));
        }
        at_start = bytes[j] == 0x26;
        j = j + 1;
    }
    proof {
        assert(bytes@.skip(n as int).len() == 0);
    }
    None
}

/// What processing downloaded image bytes returns, given the image URL: the
/// decryptor runs only when the URL carries a cpx parameter.
pub open spec fn process_image_spec(data: Seq<u8>, url: Seq<u8>) -> Result<Seq<u8>, DownloadError> {
    match cpx_param_spec(url) {
        None => Ok(data),
        Some(c) => decrypt_image_spec(data, c),
    }
}

/// Normalize downloaded image bytes: decrypt them when the URL carries a
/// cpx parameter, pass them through otherwise.
pub fn process_image_bytes(data: Vec<u8>, url: &str) -> (r: Result<Vec<u8>, DownloadError>)
    ensures
        match process_image_spec(data@, url.spec_bytes()) {
            Ok(v) => r matches Ok(rv) && rv@ == v,
            Err(e) => r matches Err(re) && re == e,
        },
{
    match cpx_param(url) {
        None => Ok(data),
        Some(c) => decrypt_img_data(data, &c),
    }
}

} // verus!
