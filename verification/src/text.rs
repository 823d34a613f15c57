//! Small executable helpers for building and inspecting strings.
use vstd::prelude::*;
use vstd::string::*;

verus! {

/// Turns a vector of characters into the `String` holding exactly those
/// characters. Relies on std's `FromIterator<char> for String`, which
/// collects the iterated characters in order.
#[verifier::external_body]
pub fn chars_to_string(v: &Vec<char>) -> (r: String)
    ensures
        r@ == v@,
{
    v.iter().collect()
}

/// The characters of `s`, in order, as a vector.
pub fn string_chars(s: &str) -> (r: Vec<char>)
    ensures
        r@ == s@,
{
    let n = s.unicode_len();
    let mut r: Vec<char> = Vec::new();
    let mut i: usize = 0;
    while i < n
        invariant
            i <= n,
            n == s@.len(),
            r@ == s@.take(i as int),
        decreases n - i,
    {
        let c = s.get_char(i);
        r.push(c);
        proof {
            assert(r@ =~= s@.take(i + 1));
        }
        i = i + 1;
    }
    proof {
        assert(s@.take(n as int) =~= s@);
    }
    r
}

/// Append `v[from..to]` to `out`.
pub fn push_range<T: Copy>(out: &mut Vec<T>, v: &Vec<T>, from: usize, to: usize)
    requires
        from <= to <= v@.len(),
    ensures
        final(out)@ == old(out)@ + v@.subrange(from as int, to as int),
{
    let mut i: usize = from;
    while i < to
        invariant
            from <= i <= to <= v@.len(),
            out@ == old(out)@ + v@.subrange(from as int, i as int),
        decreases to - i,
    {
        out.push(v[i]);
        proof {
            assert(out@ =~= old(out)@ + v@.subrange(from as int, i + 1));
        }
        i = i + 1;
    }
    proof {
        assert(out@ =~= old(out)@ + v@.subrange(from as int, to as int));
    }
}

/// A copy of `v[from..to]`.
pub fn subvec<T: Copy>(v: &Vec<T>, from: usize, to: usize) -> (r: Vec<T>)
    requires
        from <= to <= v@.len(),
    ensures
        r@ == v@.subrange(from as int, to as int),
{
    let mut r: Vec<T> = Vec::new();
    push_range(&mut r, v, from, to);
    r
}

/// Append all of `v` to `out`.
pub fn push_all<T: Copy>(out: &mut Vec<T>, v: &Vec<T>)
    ensures
        final(out)@ == old(out)@ + v@,
{
    push_range(out, v, 0, v.len());
    proof {
        assert(v@.subrange(0, v@.len() as int) =~= v@);
    }
}

/// The ASCII decimal digits of `n`, most significant first.
pub open spec fn dec_bytes_of(n: nat) -> Seq<u8>
    decreases n,
{
    if n < 10 {
        seq![(0x30 + n) as u8]
    } else {
        dec_bytes_of(n / 10) + seq![(0x30 + n % 10) as u8]
    }
}

/// The same digits as characters.
pub open spec fn dec_str_of(n: nat) -> Seq<char> {
    dec_bytes_of(n).map_values(|b: u8| b as char)
}

/// Append the decimal digits of `n` to `out`.
pub fn push_dec_bytes(n: u64, out: &mut Vec<u8>)
    ensures
        final(out)@ == old(out)@ + dec_bytes_of(n as nat),
    decreases n,
{
    if n < 10 {
        out.push(0x30 + n as u8);
    } else {
        push_dec_bytes(n / 10, out);
        out.push(0x30 + (n % 10) as u8);
        proof {
            assert(out@ =~= old(out)@ + dec_bytes_of(n as nat));
        }
    }
}

/// The decimal string of `n`.
pub fn u64_to_string(n: u64) -> (r: String)
    ensures
        r@ == dec_str_of(n as nat),
{
    let mut digits: Vec<u8> = Vec::new();
    push_dec_bytes(n, &mut digits);
    let mut cs: Vec<char> = Vec::new();
    let mut i: usize = 0;
    while i < digits.len()
        invariant
            i <= digits@.len(),
            digits@ == dec_bytes_of(n as nat),
            cs@ == dec_str_of(n as nat).take(i as int),
        decreases digits@.len() - i,
    {
        cs.push(digits[i] as char);
        proof {
            assert(cs@ =~= dec_str_of(n as nat).take(i + 1));
        }
        i = i + 1;
    }
    proof {
        assert(dec_str_of(n as nat).take(digits@.len() as int) =~= dec_str_of(n as nat));
    }
    chars_to_string(&cs)
}

/// The decimal digits of an integer, with a leading minus when negative.
pub open spec fn dec_signed_of(n: int) -> Seq<char> {
    if n >= 0 {
        dec_str_of(n as nat)
    } else {
        seq!['-'] + dec_str_of((-n) as nat)
    }
}

/// The decimal string of a signed integer.
pub fn i64_to_string(n: i64) -> (r: String)
    ensures
        r@ == dec_signed_of(n as int),
{
    if n >= 0 {
        u64_to_string(n as u64)
    } else {
        let mag: u64 = (-(n as i128)) as u64;
        let mut s = String::new();
        s.append("-");
        let d = u64_to_string(mag);
        s.append(d.as_str());
        proof {
            reveal_strlit("-");
            assert(s@ =~= dec_signed_of(n as int));
        }
        s
    }
}

} // verus!
