//! Byte-level codecs the downloader relies on: lowercase hex, standard
//! base64 with padding, and percent-decoding. The encodings are specified
//! exactly; the outside crates perform them at run time.
use vstd::prelude::*;

verus! {

/// The lowercase hexadecimal digit for a value in `0..16`.
pub open spec fn hex_digit(n: int) -> char {
    if n < 10 {
        ((0x30 + n) as u8) as char
    } else {
        ((0x57 + n) as u8) as char
    }
}

/// Lowercase hex encoding: two digits per byte, high nibble first.
pub open spec fn hex_of(b: Seq<u8>) -> Seq<char>
    decreases b.len(),
{
    if b.len() == 0 {
        Seq::empty()
    } else {
        seq![hex_digit(b[0] as int / 16), hex_digit(b[0] as int % 16)] + hex_of(b.drop_first())
    }
}

pub proof fn lemma_hex_of_len(b: Seq<u8>)
    ensures
        hex_of(b).len() == 2 * b.len(),
    decreases b.len(),
{
    if b.len() > 0 {
        lemma_hex_of_len(b.drop_first());
    }
}

pub open spec fn is_lower_hex_char(c: char) -> bool {
    (0x30 <= c as u32 && c as u32 <= 0x39) || (0x61 <= c as u32 && c as u32 <= 0x66)
}

proof fn lemma_hex_digit_char(n: int)
    requires
        0 <= n < 16,
    ensures
        is_lower_hex_char(hex_digit(n)),
{
    if n < 10 {
        assert(((0x30 + n) as u8) as char as u32 == 0x30 + n);
    } else {
        assert(((0x57 + n) as u8) as char as u32 == 0x57 + n);
    }
}

pub proof fn lemma_hex_of_chars(b: Seq<u8>)
    ensures
        forall|i: int| 0 <= i < hex_of(b).len() ==> is_lower_hex_char(#[trigger] hex_of(b)[i]),
    decreases b.len(),
{
    if b.len() > 0 {
        lemma_hex_digit_char(b[0] as int / 16);
        lemma_hex_digit_char(b[0] as int % 16);
        lemma_hex_of_chars(b.drop_first());
        assert forall|i: int| 0 <= i < hex_of(b).len() implies is_lower_hex_char(
            #[trigger] hex_of(b)[i],
        ) by {
            if i >= 2 {
                assert(hex_of(b)[i] == hex_of(b.drop_first())[i - 2]);
            }
        }
    }
}

/// Relies on hex::encode: the lowercase hex string of the input bytes.
#[verifier::external_body]
pub fn hex_lower(data: &Vec<u8>) -> (r: String)
    ensures
        r@ == hex_of(data@),
{
    hex::encode(data)
}

/// The base64 character for a 6-bit value in `0..64` (standard alphabet).
pub open spec fn b64_char(v: int) -> char {
    if v < 26 {
        ((0x41 + v) as u8) as char
    } else if v < 52 {
        ((0x61 + (v - 26)) as u8) as char
    } else if v < 62 {
        ((0x30 + (v - 52)) as u8) as char
    } else if v == 62 {
        '+'
    } else {
        '/'
    }
}

/// Standard base64 with `=` padding, as a character sequence.
pub open spec fn base64_of(b: Seq<u8>) -> Seq<char>
    decreases b.len(),
{
    if b.len() == 0 {
        Seq::empty()
    } else if b.len() == 1 {
        let n = b[0] as int;
        seq![b64_char(n / 4), b64_char((n % 4) * 16), '=', '=']
    } else if b.len() == 2 {
        let n = b[0] as int * 256 + b[1] as int;
        seq![b64_char(n / 1024), b64_char((n / 16) % 64), b64_char((n % 16) * 4), '=']
    } else {
        let n = b[0] as int * 65536 + b[1] as int * 256 + b[2] as int;
        seq![
            b64_char(n / 262144),
            b64_char((n / 4096) % 64),
            b64_char((n / 64) % 64),
            b64_char(n % 64),
        ] + base64_of(b.skip(3))
    }
}

/// The same encoding as ASCII bytes rather than characters.
pub open spec fn base64_bytes_of(b: Seq<u8>) -> Seq<u8> {
    base64_of(b).map_values(|c: char| c as u8)
}

/// Relies on base64's STANDARD engine: canonical alphabet, `=` padding.
#[verifier::external_body]
pub fn base64_encode(data: &Vec<u8>) -> (r: String)
    ensures
        r@ == base64_of(data@),
{
    base64::Engine::encode(&base64::engine::general_purpose::STANDARD, data)
}

/// Relies on base64's STANDARD engine, as `base64_encode` does, returning
/// the encoding as its ASCII bytes.
#[verifier::external_body]
pub fn base64_encode_bytes(data: &Vec<u8>) -> (r: Vec<u8>)
    ensures
        r@ == base64_bytes_of(data@),
{
    base64::Engine::encode(&base64::engine::general_purpose::STANDARD, data).into_bytes()
}

/// Relies on base64's STANDARD engine decode: it accepts exactly the
/// canonically padded encodings (no trailing bits, padding required) and
/// inverts the encoding.
#[verifier::external_body]
pub fn base64_decode(data: &Vec<u8>) -> (r: Option<Vec<u8>>)
    ensures
        r matches Some(v) ==> base64_bytes_of(v@) == data@,
        r is Some <==> exists|b: Seq<u8>| base64_bytes_of(b) == data@,
{
    base64::Engine::decode(&base64::engine::general_purpose::STANDARD, data).ok()
}

proof fn lemma_b64_char_code(v: int)
    requires
        0 <= v < 64,
    ensures
        b64_char(v) as u32 == if v < 26 {
            65 + v
        } else if v < 52 {
            71 + v
        } else if v < 62 {
            v - 4
        } else if v == 62 {
            43
        } else {
            47
        },
{
    if v < 26 {
        assert(((0x41 + v) as u8) as char as u32 == 0x41 + v);
    } else if v < 52 {
        assert(((0x61 + (v - 26)) as u8) as char as u32 == 0x61 + (v - 26));
    } else if v < 62 {
        assert(((0x30 + (v - 52)) as u8) as char as u32 == 0x30 + (v - 52));
    } else if v == 62 {
        assert('+' as u32 == 43);
    } else {
        assert('/' as u32 == 47);
    }
}

proof fn lemma_b64_char_injective(v1: int, v2: int)
    requires
        0 <= v1 < 64,
        0 <= v2 < 64,
        b64_char(v1) == b64_char(v2),
    ensures
        v1 == v2,
{
    lemma_b64_char_code(v1);
    lemma_b64_char_code(v2);
}

proof fn lemma_b64_char_not_pad(v: int)
    requires
        0 <= v < 64,
    ensures
        b64_char(v) != '=',
{
    lemma_b64_char_code(v);
    assert('=' as u32 == 61);
}

/// A character with a code below 256 keeps that code when cast to a byte.
pub proof fn lemma_char_byte(c: char)
    requires
        (c as u32) < 256,
    ensures
        c as u8 as u32 == c as u32,
{
}

/// Every character of a base64 encoding has a code in `43..=122`.
pub proof fn lemma_base64_chars(b: Seq<u8>)
    ensures
        forall|i: int|
            0 <= i < base64_of(b).len() ==> 43 <= (#[trigger] base64_of(b)[i]) as u32 <= 122,
    decreases b.len(),
{
    assert('=' as u32 == 61);
    if b.len() == 0 {
    } else if b.len() <= 2 {
        assert forall|i: int| 0 <= i < base64_of(b).len() implies 43 <= (
        #[trigger] base64_of(b)[i]) as u32 <= 122 by {
            if b.len() == 1 {
                let n = b[0] as int;
                lemma_b64_char_code(n / 4);
                lemma_b64_char_code((n % 4) * 16);
            } else {
                let n = b[0] as int * 256 + b[1] as int;
                lemma_b64_char_code(n / 1024);
                lemma_b64_char_code((n / 16) % 64);
                lemma_b64_char_code((n % 16) * 4);
            }
        }
    } else {
        lemma_base64_chars(b.skip(3));
        assert forall|i: int| 0 <= i < base64_of(b).len() implies 43 <= (
        #[trigger] base64_of(b)[i]) as u32 <= 122 by {
            let n = b[0] as int * 65536 + b[1] as int * 256 + b[2] as int;
            lemma_b64_char_code(n / 262144);
            lemma_b64_char_code((n / 4096) % 64);
            lemma_b64_char_code((n / 64) % 64);
            lemma_b64_char_code(n % 64);
            if i >= 4 {
                assert(base64_of(b)[i] == base64_of(b.skip(3))[i - 4]);
            }
        }
    }
}

pub proof fn lemma_base64_of_len(b: Seq<u8>)
    ensures
        base64_of(b).len() == 4 * ((b.len() + 2) / 3),
    decreases b.len(),
{
    if b.len() >= 3 {
        lemma_base64_of_len(b.skip(3));
    }
}

proof fn lemma_block1_inj(nx: int, ny: int)
    requires
        0 <= nx < 256,
        0 <= ny < 256,
        b64_char(nx / 4) == b64_char(ny / 4),
        b64_char((nx % 4) * 16) == b64_char((ny % 4) * 16),
    ensures
        nx == ny,
{
    lemma_b64_char_injective(nx / 4, ny / 4);
    lemma_b64_char_injective((nx % 4) * 16, (ny % 4) * 16);
    assert(nx == 4 * (nx / 4) + nx % 4) by {
        vstd::arithmetic::div_mod::lemma_fundamental_div_mod(nx, 4);
    }
    assert(ny == 4 * (ny / 4) + ny % 4) by {
        vstd::arithmetic::div_mod::lemma_fundamental_div_mod(ny, 4);
    }
}

proof fn lemma_block2_inj(nx: int, ny: int)
    requires
        0 <= nx < 65536,
        0 <= ny < 65536,
        b64_char(nx / 1024) == b64_char(ny / 1024),
        b64_char((nx / 16) % 64) == b64_char((ny / 16) % 64),
        b64_char((nx % 16) * 4) == b64_char((ny % 16) * 4),
    ensures
        nx == ny,
{
    lemma_b64_char_injective(nx / 1024, ny / 1024);
    lemma_b64_char_injective((nx / 16) % 64, (ny / 16) % 64);
    lemma_b64_char_injective((nx % 16) * 4, (ny % 16) * 4);
    assert(nx / 16 == 64 * (nx / 1024) + (nx / 16) % 64) by {
        vstd::arithmetic::div_mod::lemma_div_denominator(nx, 16, 64);
        vstd::arithmetic::div_mod::lemma_fundamental_div_mod(nx / 16, 64);
    }
    assert(ny / 16 == 64 * (ny / 1024) + (ny / 16) % 64) by {
        vstd::arithmetic::div_mod::lemma_div_denominator(ny, 16, 64);
        vstd::arithmetic::div_mod::lemma_fundamental_div_mod(ny / 16, 64);
    }
    assert(nx == 16 * (nx / 16) + nx % 16) by {
        vstd::arithmetic::div_mod::lemma_fundamental_div_mod(nx, 16);
    }
    assert(ny == 16 * (ny / 16) + ny % 16) by {
        vstd::arithmetic::div_mod::lemma_fundamental_div_mod(ny, 16);
    }
}

proof fn lemma_block3_inj(nx: int, ny: int)
    requires
        0 <= nx < 16777216,
        0 <= ny < 16777216,
        b64_char(nx / 262144) == b64_char(ny / 262144),
        b64_char((nx / 4096) % 64) == b64_char((ny / 4096) % 64),
        b64_char((nx / 64) % 64) == b64_char((ny / 64) % 64),
        b64_char(nx % 64) == b64_char(ny % 64),
    ensures
        nx == ny,
{
    lemma_b64_char_injective(nx / 262144, ny / 262144);
    lemma_b64_char_injective((nx / 4096) % 64, (ny / 4096) % 64);
    lemma_b64_char_injective((nx / 64) % 64, (ny / 64) % 64);
    lemma_b64_char_injective(nx % 64, ny % 64);
    assert(nx / 4096 == 64 * (nx / 262144) + (nx / 4096) % 64) by {
        vstd::arithmetic::div_mod::lemma_div_denominator(nx, 4096, 64);
        vstd::arithmetic::div_mod::lemma_fundamental_div_mod(nx / 4096, 64);
    }
    assert(ny / 4096 == 64 * (ny / 262144) + (ny / 4096) % 64) by {
        vstd::arithmetic::div_mod::lemma_div_denominator(ny, 4096, 64);
        vstd::arithmetic::div_mod::lemma_fundamental_div_mod(ny / 4096, 64);
    }
    assert(nx / 64 == 64 * (nx / 4096) + (nx / 64) % 64) by {
        vstd::arithmetic::div_mod::lemma_div_denominator(nx, 64, 64);
        vstd::arithmetic::div_mod::lemma_fundamental_div_mod(nx / 64, 64);
    }
    assert(ny / 64 == 64 * (ny / 4096) + (ny / 64) % 64) by {
        vstd::arithmetic::div_mod::lemma_div_denominator(ny, 64, 64);
        vstd::arithmetic::div_mod::lemma_fundamental_div_mod(ny / 64, 64);
    }
    assert(nx == 64 * (nx / 64) + nx % 64) by {
        vstd::arithmetic::div_mod::lemma_fundamental_div_mod(nx, 64);
    }
    assert(ny == 64 * (ny / 64) + ny % 64) by {
        vstd::arithmetic::div_mod::lemma_fundamental_div_mod(ny, 64);
    }
}

proof fn lemma_bytes2_of_n(x: Seq<u8>, y: Seq<u8>)
    requires
        x.len() == 2,
        y.len() == 2,
        x[0] as int * 256 + x[1] as int == y[0] as int * 256 + y[1] as int,
    ensures
        x =~= y,
{
    assert(x[0] == y[0] && x[1] == y[1]);
}

proof fn lemma_bytes3_of_n(x: Seq<u8>, y: Seq<u8>)
    requires
        x.len() >= 3,
        y.len() >= 3,
        x[0] as int * 65536 + x[1] as int * 256 + x[2] as int == y[0] as int * 65536 + y[1] as int
            * 256 + y[2] as int,
    ensures
        x[0] == y[0],
        x[1] == y[1],
        x[2] == y[2],
{
}

proof fn lemma_enc_arity(x: Seq<u8>, y: Seq<u8>)
    requires
        base64_of(x) == base64_of(y),
    ensures
        (x.len() == 0) == (y.len() == 0),
        (x.len() == 1) == (y.len() == 1),
        (x.len() == 2) == (y.len() == 2),
{
    lemma_base64_of_len(x);
    lemma_base64_of_len(y);
    let k = (x.len() + 2) / 3;
    assert((y.len() + 2) / 3 == k);
    if k == 1 {
        if x.len() == 1 {
            assert(base64_of(x)[2] == '=');
        } else if x.len() == 2 {
            let nx = x[0] as int * 256 + x[1] as int;
            lemma_b64_char_not_pad((nx % 16) * 4);
            assert(base64_of(x)[2] != '=');
            assert(base64_of(x)[3] == '=');
        } else {
            let nx = x[0] as int * 65536 + x[1] as int * 256 + x[2] as int;
            lemma_b64_char_not_pad((nx / 64) % 64);
            lemma_b64_char_not_pad(nx % 64);
            assert(base64_of(x)[2] != '=');
            assert(base64_of(x)[3] != '=');
        }
        if y.len() == 1 {
            assert(base64_of(y)[2] == '=');
        } else if y.len() == 2 {
            let ny = y[0] as int * 256 + y[1] as int;
            lemma_b64_char_not_pad((ny % 16) * 4);
            assert(base64_of(y)[2] != '=');
            assert(base64_of(y)[3] == '=');
        } else {
            let ny = y[0] as int * 65536 + y[1] as int * 256 + y[2] as int;
            lemma_b64_char_not_pad((ny / 64) % 64);
            lemma_b64_char_not_pad(ny % 64);
            assert(base64_of(y)[2] != '=');
            assert(base64_of(y)[3] != '=');
        }
    }
}

proof fn lemma_inj_case11(x: Seq<u8>, y: Seq<u8>)
    requires
        x.len() == 1,
        y.len() == 1,
        base64_of(x) == base64_of(y),
    ensures
        x =~= y,
{
    lemma_block1_inj(x[0] as int, y[0] as int);
}

proof fn lemma_inj_case22(x: Seq<u8>, y: Seq<u8>)
    requires
        x.len() == 2,
        y.len() == 2,
        base64_of(x) == base64_of(y),
    ensures
        x =~= y,
{
    lemma_block2_inj(x[0] as int * 256 + x[1] as int, y[0] as int * 256 + y[1] as int);
    lemma_bytes2_of_n(x, y);
}

#[verifier::rlimit(100)]
#[verifier::spinoff_prover]
proof fn lemma_inj_case33(x: Seq<u8>, y: Seq<u8>)
    requires
        x.len() >= 3,
        y.len() >= 3,
        base64_of(x) == base64_of(y),
    ensures
        x[0] == y[0],
        x[1] == y[1],
        x[2] == y[2],
        base64_of(x.skip(3)) == base64_of(y.skip(3)),
{
    let nx = x[0] as int * 65536 + x[1] as int * 256 + x[2] as int;
    let ny = y[0] as int * 65536 + y[1] as int * 256 + y[2] as int;
    let hx = seq![
        b64_char(nx / 262144),
        b64_char((nx / 4096) % 64),
        b64_char((nx / 64) % 64),
        b64_char(nx % 64),
    ];
    let hy = seq![
        b64_char(ny / 262144),
        b64_char((ny / 4096) % 64),
        b64_char((ny / 64) % 64),
        b64_char(ny % 64),
    ];
    assert(base64_of(x) == hx + base64_of(x.skip(3)));
    assert(base64_of(y) == hy + base64_of(y.skip(3)));
    assert((hx + base64_of(x.skip(3)))[0] == hx[0]);
    assert((hy + base64_of(y.skip(3)))[0] == hy[0]);
    assert((hx + base64_of(x.skip(3)))[1] == hx[1]);
    assert((hy + base64_of(y.skip(3)))[1] == hy[1]);
    assert((hx + base64_of(x.skip(3)))[2] == hx[2]);
    assert((hy + base64_of(y.skip(3)))[2] == hy[2]);
    assert((hx + base64_of(x.skip(3)))[3] == hx[3]);
    assert((hy + base64_of(y.skip(3)))[3] == hy[3]);
    lemma_block3_inj(nx, ny);
    lemma_bytes3_of_n(x, y);
    let tx = base64_of(x.skip(3));
    let ty = base64_of(y.skip(3));
    lemma_base64_of_len(x.skip(3));
    lemma_base64_of_len(y.skip(3));
    assert(tx.len() == ty.len());
    assert forall|i: int| 0 <= i < tx.len() implies tx[i] == ty[i] by {
        assert((hx + tx)[i + 4] == tx[i]);
        assert((hy + ty)[i + 4] == ty[i]);
    }
    assert(tx =~= ty);
}

/// The base64 encoding is injective: equal encodings come from equal bytes.
#[verifier::rlimit(100)]
#[verifier::spinoff_prover]
pub proof fn lemma_base64_injective(x: Seq<u8>, y: Seq<u8>)
    requires
        base64_of(x) == base64_of(y),
    ensures
        x == y,
    decreases x.len(),
{
    lemma_enc_arity(x, y);
    if x.len() == 0 {
        assert(x =~= y);
    } else if x.len() == 1 {
        lemma_inj_case11(x, y);
    } else if x.len() == 2 {
        lemma_inj_case22(x, y);
    } else {
        lemma_inj_case33(x, y);
        lemma_base64_injective(x.skip(3), y.skip(3));
        assert(x.skip(3) =~= y.skip(3));
        assert(x.len() == 3 + x.skip(3).len());
        assert(y.len() == 3 + y.skip(3).len());
        assert forall|i: int| 0 <= i < x.len() implies x[i] == y[i] by {
            if i >= 3 {
                assert(x[i] == x.skip(3)[i - 3]);
                assert(y[i] == y.skip(3)[i - 3]);
            }
        }
        assert(x =~= y);
    }
}

proof fn lemma_bytes_eq_chars_eq(x: Seq<u8>, y: Seq<u8>)
    requires
        base64_bytes_of(x) == base64_bytes_of(y),
    ensures
        base64_of(x) == base64_of(y),
{
    lemma_base64_chars(x);
    lemma_base64_chars(y);
    assert(base64_of(x).len() == base64_bytes_of(x).len());
    assert(base64_of(y).len() == base64_bytes_of(y).len());
    assert forall|i: int| 0 <= i < base64_of(x).len() implies base64_of(x)[i] == base64_of(
        y,
    )[i] by {
        let cx = base64_of(x)[i];
        let cy = base64_of(y)[i];
        assert(43 <= (cx as u32) <= 122);
        assert(0 <= i < base64_of(y).len());
        assert(43 <= (cy as u32) <= 122);
        lemma_char_byte(cx);
        lemma_char_byte(cy);
        assert(base64_bytes_of(x)[i] == cx as u8);
        assert(base64_bytes_of(y)[i] == cy as u8);
        assert(cx as u8 as u32 == cy as u8 as u32);
        vstd::utf8::char_u32_cast(cx, cx as u32);
        vstd::utf8::char_u32_cast(cy, cy as u32);
    }
    assert(base64_of(x) =~= base64_of(y));
}

/// Injectivity carried to the byte form of the encoding.
pub proof fn lemma_base64_bytes_injective(x: Seq<u8>, y: Seq<u8>)
    requires
        base64_bytes_of(x) == base64_bytes_of(y),
    ensures
        x == y,
{
    lemma_bytes_eq_chars_eq(x, y);
    lemma_base64_injective(x, y);
}

/// A base64 encoding never contains the `%` byte, so percent-decoding
/// leaves it unchanged.
pub proof fn lemma_base64_no_percent(b: Seq<u8>)
    ensures
        forall|i: int|
            0 <= i < base64_bytes_of(b).len() ==> #[trigger] base64_bytes_of(b)[i] != 0x25,
{
    lemma_base64_chars(b);
    assert forall|i: int| 0 <= i < base64_bytes_of(b).len() implies #[trigger] base64_bytes_of(
        b,
    )[i] != 0x25 by {
        let c = base64_of(b)[i];
        assert(0 <= i < base64_of(b).len());
        assert(43 <= (c as u32) <= 122);
        lemma_char_byte(c);
        assert(base64_bytes_of(b)[i] == c as u8);
    }
}

pub open spec fn is_hex_byte(b: u8) -> bool {
    (0x30 <= b && b <= 0x39) || (0x61 <= b && b <= 0x66) || (0x41 <= b && b <= 0x46)
}

pub open spec fn hex_byte_val(b: u8) -> int {
    if 0x30 <= b && b <= 0x39 {
        b - 0x30
    } else if 0x61 <= b && b <= 0x66 {
        b - 0x61 + 10
    } else {
        b - 0x41 + 10
    }
}

/// Percent-decoding over bytes: `%` followed by two hex digits becomes one
/// byte; everything else passes through unchanged.
pub open spec fn percent_decode_spec(s: Seq<u8>) -> Seq<u8>
    decreases s.len(),
{
    if s.len() == 0 {
        Seq::empty()
    } else if s[0] == 0x25 && s.len() >= 3 && is_hex_byte(s[1]) && is_hex_byte(s[2]) {
        seq![(hex_byte_val(s[1]) * 16 + hex_byte_val(s[2])) as u8] + percent_decode_spec(s.skip(3))
    } else {
        seq![s[0]] + percent_decode_spec(s.drop_first())
    }
}

/// Percent-decoding is the identity on byte strings without `%`.
pub proof fn lemma_percent_decode_identity(s: Seq<u8>)
    requires
        forall|i: int| 0 <= i < s.len() ==> s[i] != 0x25,
    ensures
        percent_decode_spec(s) == s,
    decreases s.len(),
{
    if s.len() > 0 {
        lemma_percent_decode_identity(s.drop_first());
        assert(percent_decode_spec(s) =~= s);
    } else {
        assert(percent_decode_spec(s) =~= s);
    }
}

/// Relies on percent_encoding::percent_decode: replaces every valid
/// `%XX` escape by its byte and leaves other bytes unchanged.
#[verifier::external_body]
pub fn percent_decode_bytes(s: &Vec<u8>) -> (r: Vec<u8>)
    ensures
        r@ == percent_decode_spec(s@),
{
    percent_encoding::percent_decode(s.as_slice()).collect()
}

} // verus!
