//! AES-256-CBC as the image decryptor uses it: the outside cipher supplies
//! single-block operations; the chaining, and the fact that decryption
//! inverts encryption block by block, are handled here.
use aes::cipher::generic_array::GenericArray;
use aes::cipher::{BlockDecrypt, BlockEncrypt, KeyInit};
use vstd::prelude::*;

use crate::text::{push_all, subvec};

verus! {

/// AES-256 single-block encryption of a 16-byte block under a 32-byte key.
pub uninterp spec fn aes256_enc_block(key: Seq<u8>, block: Seq<u8>) -> Seq<u8>;

/// AES-256 single-block decryption of a 16-byte block under a 32-byte key.
pub uninterp spec fn aes256_dec_block(key: Seq<u8>, block: Seq<u8>) -> Seq<u8>;

/// Relies on aes::Aes256 (KeyInit + BlockDecrypt): one block decrypted
/// under the key, 16 bytes, a function of key and block alone.
#[verifier::external_body]
fn dec_block(key: &Vec<u8>, block: &Vec<u8>) -> (r: Vec<u8>)
    requires
        key@.len() == 32,
        block@.len() == 16,
    ensures
        r@ == aes256_dec_block(key@, block@),
        r@.len() == 16,
{
    let cipher = aes::Aes256::new(GenericArray::from_slice(key.as_slice()));
    let mut b = GenericArray::clone_from_slice(block.as_slice());
    cipher.decrypt_block(&mut b);
    b.to_vec()
}

/// Relies on aes::Aes256 (KeyInit + BlockEncrypt): one block encrypted
/// under the key; block ciphers guarantee that decryption under the same
/// key inverts it.
#[verifier::external_body]
fn enc_block(key: &Vec<u8>, block: &Vec<u8>) -> (r: Vec<u8>)
    requires
        key@.len() == 32,
        block@.len() == 16,
    ensures
        r@ == aes256_enc_block(key@, block@),
        r@.len() == 16,
        aes256_dec_block(key@, r@) == block@,
{
    let cipher = aes::Aes256::new(GenericArray::from_slice(key.as_slice()));
    let mut b = GenericArray::clone_from_slice(block.as_slice());
    cipher.encrypt_block(&mut b);
    b.to_vec()
}

/// XOR of two 16-byte blocks.
pub open spec fn xor16(a: Seq<u8>, b: Seq<u8>) -> Seq<u8> {
    Seq::new(16, |i: int| a[i] ^ b[i])
}

proof fn lemma_xor_cancel(a: Seq<u8>, b: Seq<u8>)
    requires
        a.len() == 16,
        b.len() == 16,
    ensures
        xor16(xor16(a, b), b) == a,
{
    assert forall|i: int| 0 <= i < 16 implies xor16(xor16(a, b), b)[i] == a[i] by {
        let x = a[i];
        let y = b[i];
        assert((x ^ y) ^ y == x) by (bit_vector);
    }
    assert(xor16(xor16(a, b), b) =~= a);
}

/// CBC decryption over whole blocks: each ciphertext block is decrypted and
/// XORed with the previous ciphertext block, the IV standing first.
pub open spec fn cbc_decrypt_spec(data: Seq<u8>, key: Seq<u8>, iv: Seq<u8>) -> Seq<u8>
    decreases data.len(),
{
    if data.len() < 16 {
        Seq::empty()
    } else {
        xor16(aes256_dec_block(key, data.take(16)), iv) + cbc_decrypt_spec(
            data.skip(16),
            key,
            data.take(16),
        )
    }
}

/// CBC encryption over whole blocks: each plaintext block is XORed with the
/// previous ciphertext block (the IV first) and then encrypted.
pub open spec fn cbc_encrypt_spec(data: Seq<u8>, key: Seq<u8>, iv: Seq<u8>) -> Seq<u8>
    decreases data.len(),
{
    if data.len() < 16 {
        Seq::empty()
    } else {
        let c = aes256_enc_block(key, xor16(data.take(16), iv));
        c + cbc_encrypt_spec(data.skip(16), key, c)
    }
}

pub proof fn lemma_cbc_decrypt_len(data: Seq<u8>, key: Seq<u8>, iv: Seq<u8>)
    requires
        data.len() % 16 == 0,
    ensures
        cbc_decrypt_spec(data, key, iv).len() == data.len(),
    decreases data.len(),
{
    if data.len() >= 16 {
        lemma_cbc_decrypt_len(data.skip(16), key, data.take(16));
    }
}

/// Decrypt whole CBC blocks (no padding handling).
pub fn aes_cbc_decrypt(data: &Vec<u8>, key: &Vec<u8>, iv: &Vec<u8>) -> (r: Vec<u8>)
    requires
        data@.len() % 16 == 0,
        key@.len() == 32,
        iv@.len() == 16,
    ensures
        r@ == cbc_decrypt_spec(data@, key@, iv@),
        r@.len() == data@.len(),
    decreases data@.len(),
{
    proof {
        lemma_cbc_decrypt_len(data@, key@, iv@);
    }
    if data.len() == 0 {
        return Vec::new();
    }
    let head = subvec(data, 0, 16);
    let rest = subvec(data, 16, data.len());
    let d = dec_block(key, &head);
    let mut r: Vec<u8> = Vec::new();
    let mut i: usize = 0;
    while i < 16
        invariant
            i <= 16,
            d@.len() == 16,
            iv@.len() == 16,
            r@ == xor16(d@, iv@).take(i as int),
        decreases 16 - i,
    {
        r.push(d[i] ^ iv[i]);
        proof {
            assert(r@ =~= xor16(d@, iv@).take(i + 1));
        }
        i = i + 1;
    }
    proof {
        assert(xor16(d@, iv@).take(16) =~= xor16(d@, iv@));
    }
    let tail = aes_cbc_decrypt(&rest, key, &head);
    push_all(&mut r, &tail);
    proof {
        assert(head@ =~= data@.take(16));
        assert(rest@ =~= data@.skip(16));
    }
    r
}

/// Encrypt whole CBC blocks. Decrypting the result under the same key and
/// IV gives the input back.
pub fn aes_cbc_encrypt(data: &Vec<u8>, key: &Vec<u8>, iv: &Vec<u8>) -> (r: Vec<u8>)
    requires
        data@.len() % 16 == 0,
        key@.len() == 32,
        iv@.len() == 16,
    ensures
        r@ == cbc_encrypt_spec(data@, key@, iv@),
        r@.len() == data@.len(),
        cbc_decrypt_spec(r@, key@, iv@) == data@,
    decreases data@.len(),
{
    if data.len() == 0 {
        let r: Vec<u8> = Vec::new();
        proof {
            assert(cbc_decrypt_spec(r@, key@, iv@) =~= data@);
        }
        return r;
    }
    let head = subvec(data, 0, 16);
    let rest = subvec(data, 16, data.len());
    let mut x: Vec<u8> = Vec::new();
    let mut i: usize = 0;
    while i < 16
        invariant
            i <= 16,
            head@.len() == 16,
            iv@.len() == 16,
            x@ == xor16(head@, iv@).take(i as int),
        decreases 16 - i,
    {
        x.push(head[i] ^ iv[i]);
        proof {
            assert(x@ =~= xor16(head@, iv@).take(i + 1));
        }
        i = i + 1;
    }
    proof {
        assert(xor16(head@, iv@).take(16) =~= xor16(head@, iv@));
    }
    let c = enc_block(key, &x);
    let tail = aes_cbc_encrypt(&rest, key, &c);
    let mut r = c.clone();
    push_all(&mut r, &tail);
    proof {
        assert(head@ =~= data@.take(16));
        assert(rest@ =~= data@.skip(16));
        assert(r@ =~= c@ + tail@);
        assert(r@.take(16) =~= c@);
        assert(r@.skip(16) =~= tail@);
        lemma_xor_cancel(head@, iv@);
        assert(xor16(aes256_dec_block(key@, c@), iv@) =~= head@);
        assert(cbc_decrypt_spec(r@, key@, iv@) =~= data@);
    }
    r
}

/// Strip PKCS#7 padding: the final byte gives the pad length.
pub open spec fn pkcs7_unpad_spec(d: Seq<u8>) -> Seq<u8>
    recommends
        d.len() > 0,
        d.last() as int <= d.len(),
{
    d.take(d.len() - d.last() as int)
}

} // verus!
