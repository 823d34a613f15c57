//! Client-identity tokens expected by the upstream anti-scrape layer:
//! android id, buvid, aurora eid, trace id and session id.
use vstd::prelude::*;
use vstd::string::*;

use crate::codec::{
    base64_of, base64_encode, hex_of, hex_lower, hex_digit, is_lower_hex_char, lemma_hex_of_chars,
    lemma_hex_of_len,
};
use crate::digest::{md5_digest, md5_of};
use crate::entropy::{random_bytes, unix_timestamp};
use crate::text::{chars_to_string, dec_bytes_of, push_dec_bytes, push_range, string_chars};

verus! {

/// The fixed XOR key of the aurora-eid scheme: the bytes of "ad1va46a7lza".
pub open spec fn aurora_key() -> Seq<u8> {
    seq![0x61u8, 0x64u8, 0x31u8, 0x76u8, 0x61u8, 0x34u8, 0x36u8, 0x61u8, 0x37u8, 0x6cu8, 0x7au8, 0x61u8]
}

pub open spec fn aurora_xor(b: Seq<u8>) -> Seq<u8> {
    Seq::new(b.len(), |i: int| b[i] ^ aurora_key()[i % 12])
}

/// The `x-bili-aurora-eid` header value: empty for uid 0, otherwise the
/// base64 of the decimal uid XORed with the fixed key.
pub open spec fn aurora_eid_spec(uid: nat) -> Seq<char> {
    if uid == 0 {
        Seq::empty()
    } else {
        base64_of(aurora_xor(dec_bytes_of(uid)))
    }
}

pub fn gen_aurora_eid(uid: u64) -> (r: String)
    ensures
        r@ == aurora_eid_spec(uid as nat),
{
    if uid == 0 {
        return String::new();
    }
    let mut digits: Vec<u8> = Vec::new();
    push_dec_bytes(uid, &mut digits);
    let key: Vec<u8> = vec![
        0x61u8, 0x64u8, 0x31u8, 0x76u8, 0x61u8, 0x34u8, 0x36u8, 0x61u8, 0x37u8, 0x6cu8, 0x7au8,
        0x61u8,
    ];
    proof {
        assert(key@ =~= aurora_key());
    }
    let mut xored: Vec<u8> = Vec::new();
    let mut i: usize = 0;
    while i < digits.len()
        invariant
            i <= digits@.len(),
            key@ == aurora_key(),
            xored@ == aurora_xor(digits@).take(i as int),
        decreases digits@.len() - i,
    {
        xored.push(digits[i] ^ key[i % 12]);
        proof {
            assert(xored@ =~= aurora_xor(digits@).take(i + 1));
        }
        i = i + 1;
    }
    proof {
        assert(aurora_xor(digits@).take(digits@.len() as int) =~= aurora_xor(digits@));
    }
    base64_encode(&xored)
}

/// The character used at position `v` of the 36-character charset
/// `0-9a-z` that random identifiers draw from.
pub open spec fn charset36(v: int) -> char {
    if v < 10 {
        ((0x30 + v) as u8) as char
    } else {
        ((0x61 + (v - 10)) as u8) as char
    }
}

pub open spec fn is_lower_alnum(c: char) -> bool {
    (0x30 <= c as u32 && c as u32 <= 0x39) || (0x61 <= c as u32 && c as u32 <= 0x7a)
}

fn charset36_exec(b: u8) -> (c: char)
    requires
        b < 36,
    ensures
        c == charset36(b as int),
        is_lower_alnum(c),
{
    if b < 10 {
        let c = (0x30 + b) as char;
        proof {
            assert(c as u32 == 0x30 + b);
        }
        c
    } else {
        let c = (0x61 + (b - 10)) as char;
        proof {
            assert(c as u32 == 0x61 + (b - 10));
        }
        c
    }
}

/// Map raw random bytes onto the lowercase alphanumeric charset.
pub open spec fn charset36_map(d: Seq<u8>) -> Seq<char> {
    d.map_values(|b: u8| charset36(b as int % 36))
}

fn random_lower_alnum(n: usize) -> (r: Vec<char>)
    ensures
        r@.len() == n,
        forall|i: int| 0 <= i < n ==> is_lower_alnum(#[trigger] r@[i]),
{
    let bytes = random_bytes(n);
    let mut r: Vec<char> = Vec::new();
    let mut i: usize = 0;
    while i < bytes.len()
        invariant
            i <= bytes@.len(),
            bytes@.len() == n,
            r@.len() == i,
            forall|j: int| 0 <= j < i ==> is_lower_alnum(#[trigger] r@[j]),
        decreases bytes@.len() - i,
    {
        r.push(charset36_exec(bytes[i] % 36));
        i = i + 1;
    }
    r
}

/// An 8-character lowercase alphanumeric session id.
pub fn gen_session_id() -> (r: String)
    ensures
        r@.len() == 8,
        forall|i: int| 0 <= i < 8 ==> is_lower_alnum(#[trigger] r@[i]),
{
    let cs = random_lower_alnum(8);
    chars_to_string(&cs)
}

/// The hex string of an 8-byte random seed: the device's android id.
pub fn generate_android_id() -> (r: String)
    ensures
        r@.len() == 16,
        forall|i: int| 0 <= i < 16 ==> is_lower_hex_char(#[trigger] r@[i]),
{
    let bytes = random_bytes(8);
    proof {
        lemma_hex_of_len(bytes@);
        lemma_hex_of_chars(bytes@);
    }
    hex_lower(&bytes)
}

/// The buvid layout over the 32 hex characters `m` of the android id's MD5:
/// the literal "XX", the characters at positions 2, 12 and 22, then `m`.
pub open spec fn buvid_spec(m: Seq<char>) -> Seq<char>
    recommends
        m.len() == 32,
{
    seq!['X', 'X', m[2], m[12], m[22]] + m
}

/// Derive the buvid device identifier from an android id.
pub fn gen_buvid(android_id: &str) -> (r: String)
    ensures
        r@ == buvid_spec(hex_of(md5_of(android_id.spec_bytes()))),
        r@.len() == 37,
{
    let bytes = android_id.as_bytes_vec();
    let digest = md5_digest(&bytes);
    let m = hex_lower(&digest);
    proof {
        lemma_hex_of_len(digest@);
    }
    let mc = string_chars(m.as_str());
    let mut out: Vec<char> = Vec::new();
    out.push('X');
    out.push('X');
    out.push(mc[2]);
    out.push(mc[12]);
    out.push(mc[22]);
    push_range(&mut out, &mc, 0, mc.len());
    proof {
        assert(mc@.subrange(0, 32) =~= mc@);
        assert(out@ =~= buvid_spec(hex_of(md5_of(android_id.spec_bytes()))));
    }
    chars_to_string(&out)
}

/// The signed-byte step of the trace-id timestamp encoding: the low byte of
/// `v`, shifted into `-128..=127` when its high bit is set.
pub open spec fn trace_signed_byte(v: int) -> int {
    if (v / 128) % 2 == 0 {
        v % 256
    } else {
        v % 256 - 256
    }
}

/// A signed byte printed as two lowercase hex digits of its 8-bit
/// two's-complement representation.
pub open spec fn two_hex_of_signed(s: int) -> Seq<char> {
    hex_of(seq![((s + 256) % 256) as u8])
}

/// The six timestamp characters of a trace id: the third, second and first
/// bytes above the low byte of the unix second, each passed through the
/// signed-byte step and hex-printed.
pub open spec fn trace_ts_hex(ts: int) -> Seq<char> {
    two_hex_of_signed(trace_signed_byte(ts / 16777216)) + two_hex_of_signed(
        trace_signed_byte(ts / 65536),
    ) + two_hex_of_signed(trace_signed_byte(ts / 256))
}

/// The full `x-bili-trace-id` value built from 32 random bytes and a
/// timestamp: 24 random chars, 6 timestamp hex chars, 2 random chars,
/// then `:`, its own chars 16..32, and `:0:0`.
pub open spec fn trace_id_spec(d: Seq<u8>, ts: int) -> Seq<char>
    recommends
        d.len() == 32,
{
    let rc = charset36_map(d);
    let t = rc.take(24) + trace_ts_hex(ts) + rc.subrange(30, 32);
    t + seq![':'] + t.subrange(16, 32) + seq![':', '0', ':', '0']
}

proof fn lemma_hex_single(b: u8)
    ensures
        hex_of(seq![b]) =~= seq![hex_digit(b as int / 16), hex_digit(b as int % 16)],
        hex_of(seq![b]).len() == 2,
{
    assert(seq![b].drop_first() =~= Seq::<u8>::empty());
    assert(hex_of(Seq::<u8>::empty()) =~= Seq::<char>::empty());
    assert(hex_of(seq![b]) =~= seq![hex_digit(b as int / 16), hex_digit(b as int % 16)]
        + hex_of(seq![b].drop_first()));
}

fn hex_digit_exec(n: u8) -> (c: char)
    requires
        n < 16,
    ensures
        c == hex_digit(n as int),
{
    if n < 10 {
        (0x30 + n) as char
    } else {
        (0x57 + n) as char
    }
}

proof fn lemma_trace_byte(v: int)
    requires
        v >= 0,
    ensures
        (trace_signed_byte(v) + 256) % 256 == v % 256,
{
    if (v / 128) % 2 == 0 {
        assert(0 <= v % 256 < 256);
        assert((v % 256 + 256) % 256 == v % 256);
    } else {
        assert(0 <= v % 256 < 256);
        assert((v % 256 - 256 + 256) % 256 == v % 256);
    }
}

/// Push the two hex characters of the trace byte for `v` (already shifted).
fn push_trace_byte(v: i64, out: &mut Vec<char>)
    requires
        v >= 0,
    ensures
        final(out)@ == old(out)@ + two_hex_of_signed(trace_signed_byte(v as int)),
{
    let b = (v % 256) as u8;
    proof {
        lemma_trace_byte(v as int);
        assert(seq![((trace_signed_byte(v as int) + 256) % 256) as u8] =~= seq![b]);
        lemma_hex_single(b);
    }
    out.push(hex_digit_exec(b / 16));
    out.push(hex_digit_exec(b % 16));
    proof {
        assert(out@ =~= old(out)@ + two_hex_of_signed(trace_signed_byte(v as int)));
    }
}

/// Build a trace id from 32 random bytes and a non-negative timestamp.
pub fn trace_id_from(d: &Vec<u8>, ts: i64) -> (r: String)
    requires
        d@.len() == 32,
        ts >= 0,
    ensures
        r@ == trace_id_spec(d@, ts as int),
        r@.len() == 53,
{
    let mut rc: Vec<char> = Vec::new();
    let mut i: usize = 0;
    while i < d.len()
        invariant
            i <= d@.len(),
            d@.len() == 32,
            rc@ == charset36_map(d@).take(i as int),
        decreases d@.len() - i,
    {
        rc.push(charset36_exec(d[i] % 36));
        proof {
            assert(rc@ =~= charset36_map(d@).take(i + 1));
        }
        i = i + 1;
    }
    proof {
        assert(charset36_map(d@).take(32) =~= charset36_map(d@));
    }
    let mut t: Vec<char> = Vec::new();
    push_range(&mut t, &rc, 0, 24);
    push_trace_byte(ts / 16777216, &mut t);
    push_trace_byte(ts / 65536, &mut t);
    push_trace_byte(ts / 256, &mut t);
    push_range(&mut t, &rc, 30, 32);
    proof {
        assert(charset36_map(d@).take(24) =~= rc@.subrange(0, 24));
        assert(t@ =~= charset36_map(d@).take(24) + trace_ts_hex(ts as int) + charset36_map(
            d@,
        ).subrange(30, 32));
    }
    let mut out: Vec<char> = Vec::new();
    push_range(&mut out, &t, 0, t.len());
    out.push(':');
    push_range(&mut out, &t, 16, 32);
    out.push(':');
    out.push('0');
    out.push(':');
    out.push('0');
    proof {
        lemma_hex_single(((trace_signed_byte(ts as int / 16777216) + 256) % 256) as u8);
        lemma_hex_single(((trace_signed_byte(ts as int / 65536) + 256) % 256) as u8);
        lemma_hex_single(((trace_signed_byte(ts as int / 256) + 256) % 256) as u8);
        assert(t@.len() == 32);
        assert(t@.subrange(0, 32) =~= t@);
        assert(out@ =~= trace_id_spec(d@, ts as int));
    }
    chars_to_string(&out)
}

/// A fresh trace id from fresh randomness and the current clock. A clock
/// before the Unix epoch is treated as the epoch.
pub fn gen_trace_id() -> (r: String)
    ensures
        exists|d: Seq<u8>, ts: int|
            d.len() == 32 && ts >= 0 && r@ == #[trigger] trace_id_spec(d, ts),
        r@.len() == 53,
{
    let d = random_bytes(32);
    let now = unix_timestamp();
    let ts: i64 = if now < 0 {
        0
    } else {
        now
    };
    let r = trace_id_from(&d, ts);
    proof {
        assert(r@ == trace_id_spec(d@, ts as int));
    }
    r
}

} // verus!
