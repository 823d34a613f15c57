//! The update checker's decision logic: which release tags name a version
//! newer than the running one. A tag is accepted when it is a `v` followed
//! by three dot-separated runs of up to nine digits.
use vstd::prelude::*;
use vstd::string::*;

use crate::text::string_chars;

verus! {

#[derive(Clone, Debug, PartialEq)]
pub struct CheckUpdateResult {
    pub normal_versions: Vec<String>,
    pub important_versions: Vec<String>,
}

pub open spec fn is_digit(c: char) -> bool {
    0x30 <= c as u32 && c as u32 <= 0x39
}

pub open spec fn is_digit_run(s: Seq<char>) -> bool {
    &&& s.len() >= 1
    &&& s.len() <= 9
    &&& forall|i: int| 0 <= i < s.len() ==> is_digit(#[trigger] s[i])
}

/// The value of a run of digit characters, most significant first.
pub open spec fn digits_val(s: Seq<char>) -> nat
    decreases s.len(),
{
    if s.len() == 0 {
        0
    } else {
        digits_val(s.drop_last()) * 10 + (s.last() as u32 - 0x30) as nat
    }
}

/// A well-formed version body `X.Y.Z`: three digit runs joined by dots.
pub open spec fn is_version_body(s: Seq<char>, a: Seq<char>, b: Seq<char>, c: Seq<char>) -> bool {
    &&& s == a + seq!['.'] + b + seq!['.'] + c
    &&& is_digit_run(a)
    &&& is_digit_run(b)
    &&& is_digit_run(c)
}

/// Parse a `X.Y.Z` version body into its three numbers.
pub fn parse_version_body(s: &str) -> (r: Option<(u64, u64, u64)>)
    ensures
        r matches Some(v) ==> exists|a: Seq<char>, b: Seq<char>, c: Seq<char>|
            #[trigger] is_version_body(s@, a, b, c) && v.0 == digits_val(a) && v.1 == digits_val(
                b,
            ) && v.2 == digits_val(c),
        r is None ==> !(exists|a: Seq<char>, b: Seq<char>, c: Seq<char>|
            #[trigger] is_version_body(s@, a, b, c)),
{
    let cs = string_chars(s);
    let n = cs.len();
    let mut dot1: usize = n;
    let mut dot2: usize = n;
    let mut i: usize = 0;
    while i < n
        invariant
            i <= n,
            n == cs@.len(),
            cs@ == s@,
            dot1 <= n && dot2 <= n,
            dot1 < n ==> dot1 < i,
            dot2 < n ==> dot2 < i,
            dot1 == n ==> (dot2 == n && (forall|j: int| 0 <= j < i ==> cs@[j] != '.')),
            dot1 < n ==> cs@[dot1 as int] == '.' && (forall|j: int|
                0 <= j < dot1 ==> cs@[j] != '.'),
            dot1 < n && dot2 == n ==> (forall|j: int| dot1 < j < i ==> cs@[j] != '.'),
            dot2 < n ==> dot1 < dot2 && cs@[dot2 as int] == '.' && (forall|j: int|
                dot1 < j < dot2 ==> cs@[j] != '.') && (forall|j: int|
                dot2 < j < i ==> cs@[j] != '.'),
        decreases n - i,
    {
        if cs[i] == '.' {
            if dot1 == n {
                dot1 = i;
            } else if dot2 == n {
                dot2 = i;
            } else {
                proof {
                    lemma_no_version_body(cs@, dot1 as int, dot2 as int, i as int);
                }
                return None;
            }
        }
        i = i + 1;
    }
    if dot1 == n || dot2 == n {
        proof {
            lemma_too_few_dots(cs@, dot1 as int, dot2 as int);
        }
        return None;
    }
    let a = parse_digit_run(&cs, 0, dot1);
    let b = parse_digit_run(&cs, dot1 + 1, dot2);
    let c = parse_digit_run(&cs, dot2 + 1, n);
    match (a, b, c) {
        (Some(va), Some(vb), Some(vc)) => {
            proof {
                let sa = cs@.subrange(0, dot1 as int);
                let sb = cs@.subrange(dot1 + 1, dot2 as int);
                let sc = cs@.subrange(dot2 + 1, n as int);
                assert(cs@ =~= sa + seq!['.'] + sb + seq!['.'] + sc);
                assert(is_version_body(s@, sa, sb, sc));
            }
            Some((va, vb, vc))
        },
        _ => {
            proof {
                lemma_bad_run(cs@, dot1 as int, dot2 as int);
            }
            None
        },
    }
}

/// The layout facts of a decomposed version body: its length and where
/// its characters come from.
proof fn lemma_body_shape(s: Seq<char>, a: Seq<char>, b: Seq<char>, c: Seq<char>)
    requires
        is_version_body(s, a, b, c),
    ensures
        s.len() == a.len() + b.len() + c.len() + 2,
        s[a.len() as int] == '.',
        s[a.len() + 1 + b.len() as int] == '.',
        forall|j: int| 0 <= j < a.len() ==> s[j] == a[j],
        forall|j: int| 0 <= j < b.len() ==> s[a.len() as int + 1 + j] == b[j],
        forall|j: int| 0 <= j < c.len() ==> s[a.len() as int + b.len() as int + 2 + j] == c[j],
{
    let t = a + seq!['.'] + b + seq!['.'] + c;
    assert(s == t);
    assert(t.len() == a.len() + b.len() + c.len() + 2);
    assert(t[a.len() as int] == '.');
    assert(t[a.len() + 1 + b.len() as int] == '.');
    assert forall|j: int| 0 <= j < a.len() implies t[j] == a[j] by {}
    assert forall|j: int| 0 <= j < b.len() implies t[a.len() as int + 1 + j] == b[j] by {}
    assert forall|j: int| 0 <= j < c.len() implies t[a.len() as int + b.len() as int + 2 + j] == c[j] by {}
}

/// If the body decomposes as `a.b.c` with digit runs, the dots of the
/// decomposition are exactly the dots of the string; three dots rule any
/// decomposition out.
proof fn lemma_no_version_body(s: Seq<char>, d1: int, d2: int, d3: int)
    requires
        0 <= d1 < d2 < d3 < s.len(),
        s[d1] == '.' && s[d2] == '.' && s[d3] == '.',
    ensures
        !(exists|a: Seq<char>, b: Seq<char>, c: Seq<char>| #[trigger] is_version_body(s, a, b, c)),
{
    assert forall|a: Seq<char>, b: Seq<char>, c: Seq<char>| !(#[trigger] is_version_body(
        s,
        a,
        b,
        c,
    )) by {
        if is_version_body(s, a, b, c) {
            lemma_body_shape(s, a, b, c);
            assert(('.' as u32) == 0x2e);
            assert(!is_digit('.'));
            let p1 = a.len() as int;
            let p2 = a.len() + 1 + b.len();
            assert forall|j: int| 0 <= j < s.len() && s[j] == '.' implies j == p1 || j
                == p2 as int by {
                if j < p1 {
                    assert(s[j] == a[j]);
                } else if p1 < j < p2 {
                    assert(s[j] == b[j - p1 - 1]);
                } else if j > p2 {
                    assert(s[j] == c[j - (p2 + 1)]);
                }
            }
            assert(s[d1] == '.' && s[d2] == '.' && s[d3] == '.');
        }
    }
}

proof fn lemma_too_few_dots(s: Seq<char>, d1: int, d2: int)
    requires
        0 <= d1 <= s.len(),
        0 <= d2 <= s.len(),
        d1 == s.len() ==> (forall|j: int| 0 <= j < s.len() ==> s[j] != '.'),
        d1 < s.len() && d2 == s.len() ==> (forall|j: int|
            0 <= j < s.len() && j != d1 ==> s[j] != '.'),
        d1 == s.len() || d2 == s.len(),
    ensures
        !(exists|a: Seq<char>, b: Seq<char>, c: Seq<char>| #[trigger] is_version_body(s, a, b, c)),
{
    assert forall|a: Seq<char>, b: Seq<char>, c: Seq<char>| !(#[trigger] is_version_body(
        s,
        a,
        b,
        c,
    )) by {
        if is_version_body(s, a, b, c) {
            lemma_body_shape(s, a, b, c);
            let p1 = a.len() as int;
            let p2 = a.len() as int + 1 + b.len() as int;
            assert(s[p1] == '.');
            assert(s[p2] == '.');
            assert(p1 != p2);
            assert(0 <= p1 < s.len());
            assert(0 <= p2 < s.len());
            if d1 == s.len() {
                assert(s[p1] != '.');
            } else {
                if p1 != d1 {
                    assert(s[p1] != '.');
                } else {
                    assert(p2 != d1);
                    assert(s[p2] != '.');
                }
            }
        }
    }
}

/// With exactly two dots, any decomposition must split at them; a split
/// whose runs fail the digit check rules the body out.
proof fn lemma_bad_run(s: Seq<char>, d1: int, d2: int)
    requires
        0 <= d1 < d2 < s.len(),
        s[d1] == '.' && s[d2] == '.',
        forall|j: int| 0 <= j < s.len() && j != d1 && j != d2 ==> s[j] != '.',
        !(is_digit_run(s.subrange(0, d1)) && is_digit_run(s.subrange(d1 + 1, d2)) && is_digit_run(
            s.subrange(d2 + 1, s.len() as int),
        )),
    ensures
        !(exists|a: Seq<char>, b: Seq<char>, c: Seq<char>| #[trigger] is_version_body(s, a, b, c)),
{
    assert forall|a: Seq<char>, b: Seq<char>, c: Seq<char>| !(#[trigger] is_version_body(
        s,
        a,
        b,
        c,
    )) by {
        if is_version_body(s, a, b, c) {
            lemma_body_shape(s, a, b, c);
            let p1 = a.len() as int;
            let p2 = a.len() + 1 + b.len();
            assert(s[p1] == '.');
            assert(s[p2 as int] == '.');
            assert(('.' as u32) == 0x2e);
            assert(!is_digit('.'));
            assert(p1 != p2);
            assert(0 <= p1 < s.len());
            assert(0 <= p2 < s.len());
            if p1 != d1 && p1 != d2 {
                assert(s[p1] != '.');
            }
            if p2 != d1 && p2 != d2 {
                assert(s[p2 as int] != '.');
            }
            if p1 == d2 {
                assert(p2 > d2);
                assert(p2 == d1 || p2 == d2);
            }
            assert(p1 == d1 && p2 == d2);
            assert(a =~= s.subrange(0, d1));
            assert(b =~= s.subrange(d1 + 1, d2));
            assert(c =~= s.subrange(d2 + 1, s.len() as int));
        }
    }
}

/// Parse `cs[from..to]` as a digit run of one to nine digits.
fn parse_digit_run(cs: &Vec<char>, from: usize, to: usize) -> (r: Option<u64>)
    requires
        from <= to <= cs@.len(),
    ensures
        r matches Some(v) ==> is_digit_run(cs@.subrange(from as int, to as int)) && v
            == digits_val(cs@.subrange(from as int, to as int)),
        r is None ==> !is_digit_run(cs@.subrange(from as int, to as int)),
{
    if to == from || to - from > 9 {
        return None;
    }
    let mut v: u64 = 0;
    let mut i: usize = from;
    while i < to
        invariant
            from <= i <= to <= cs@.len(),
            to - from <= 9,
            forall|j: int| from <= j < i ==> is_digit(#[trigger] cs@[j]),
            v == digits_val(cs@.subrange(from as int, i as int)),
            v < 1000000000,
        decreases to - i,
    {
        let c = cs[i];
        let u = c as u32;
        if !(0x30 <= u && u <= 0x39) {
            proof {
                assert(cs@.subrange(from as int, to as int)[i - from] == cs@[i as int]);
            }
            return None;
        }
        proof {
            let pre = cs@.subrange(from as int, i + 1);
            assert(pre.drop_last() =~= cs@.subrange(from as int, i as int));
            assert(pre.last() == cs@[i as int]);
            let cur = cs@.subrange(from as int, i as int);
            assert(forall|j: int| 0 <= j < cur.len() ==> is_digit(#[trigger] cur[j]));
            lemma_digits_val_lt(cur);
            lemma_pow10_small();
            lemma_pow10_mono(cur.len() as nat);
        }
        v = v * 10 + ((u - 0x30) as u64);
        i = i + 1;
    }
    proof {
        assert(is_digit_run(cs@.subrange(from as int, to as int)));
    }
    Some(v)
}

/// A run of digits is bounded by the power of ten of its length.
proof fn lemma_digits_val_lt(s: Seq<char>)
    requires
        forall|j: int| 0 <= j < s.len() ==> is_digit(#[trigger] s[j]),
    ensures
        digits_val(s) < pow10(s.len() as nat),
    decreases s.len(),
{
    if s.len() > 0 {
        assert(forall|j: int|
            0 <= j < s.drop_last().len() ==> is_digit(#[trigger] s.drop_last()[j]));
        lemma_digits_val_lt(s.drop_last());
        assert((s.last() as u32 - 0x30) as nat <= 9);
    }
}

proof fn lemma_pow10_small()
    ensures
        pow10(8) == 100000000,
{
    assert(pow10(0) == 1);
    assert(pow10(1) == 10);
    assert(pow10(2) == 100);
    assert(pow10(3) == 1000);
    assert(pow10(4) == 10000);
    assert(pow10(5) == 100000);
    assert(pow10(6) == 1000000);
    assert(pow10(7) == 10000000);
    assert(pow10(8) == 100000000);
}

pub open spec fn pow10(n: nat) -> nat
    decreases n,
{
    if n == 0 {
        1
    } else {
        10 * pow10((n - 1) as nat)
    }
}

proof fn lemma_pow10_mono(n: nat)
    requires
        n <= 8,
    ensures
        pow10(n) <= pow10(8),
    decreases 8 - n,
{
    if n < 8 {
        lemma_pow10_mono(n + 1);
        assert(pow10(n + 1) == 10 * pow10(n));
        assert(pow10(n) >= 1) by {
            lemma_pow10_pos(n);
        }
    }
}

proof fn lemma_pow10_pos(n: nat)
    ensures
        pow10(n) >= 1,
    decreases n,
{
    if n > 0 {
        lemma_pow10_pos((n - 1) as nat);
    }
}

/// Whether one version triple is strictly newer than another.
pub fn is_newer_version(a: (u64, u64, u64), b: (u64, u64, u64)) -> (r: bool)
    ensures
        r == (a.0 > b.0 || (a.0 == b.0 && a.1 > b.1) || (a.0 == b.0 && a.1 == b.1 && a.2 > b.2)),
{
    a.0 > b.0 || (a.0 == b.0 && a.1 > b.1) || (a.0 == b.0 && a.1 == b.1 && a.2 > b.2)
}

/// The dots of a decomposed version body are exactly the two separators.
proof fn lemma_body_dots(s: Seq<char>, a: Seq<char>, b: Seq<char>, c: Seq<char>)
    requires
        is_version_body(s, a, b, c),
    ensures
        forall|j: int|
            0 <= j < s.len() ==> (s[j] == '.' <==> (j == a.len() || j == a.len() + 1
                + b.len() as int)),
{
    lemma_body_shape(s, a, b, c);
    assert(('.' as u32) == 0x2e);
    assert(!is_digit('.'));
    let p1 = a.len() as int;
    let p2 = a.len() as int + 1 + b.len() as int;
    assert forall|j: int| 0 <= j < s.len() implies (s[j] == '.' <==> (j == p1 || j == p2)) by {
        if j < p1 {
            assert(s[j] == a[j]);
        } else if p1 < j < p2 {
            assert(s[j] == b[j - p1 - 1]);
        } else if j > p2 {
            assert(s[j] == c[j - p2 - 1]);
        }
    }
}

/// A string decomposes as a version body in at most one way.
proof fn lemma_version_body_unique(
    s: Seq<char>,
    a: Seq<char>,
    b: Seq<char>,
    c: Seq<char>,
    a2: Seq<char>,
    b2: Seq<char>,
    c2: Seq<char>,
)
    requires
        is_version_body(s, a, b, c),
        is_version_body(s, a2, b2, c2),
    ensures
        a == a2,
        b == b2,
        c == c2,
{
    lemma_body_shape(s, a, b, c);
    lemma_body_shape(s, a2, b2, c2);
    lemma_body_dots(s, a, b, c);
    lemma_body_dots(s, a2, b2, c2);
    let p1 = a.len() as int;
    let p2 = a.len() as int + 1 + b.len() as int;
    let q1 = a2.len() as int;
    let q2 = a2.len() as int + 1 + b2.len() as int;
    assert(s[q1] == '.');
    assert(s[q2] == '.');
    assert(q1 == p1 || q1 == p2);
    assert(q2 == p1 || q2 == p2);
    if q1 == p2 {
        assert(s[p1] == '.');
        assert(p1 == q1 || p1 == q2);
        assert(false);
    }
    assert(q1 == p1 && q2 == p2);
    assert(a =~= a2) by {
        assert(forall|j: int| 0 <= j < a.len() ==> s[j] == a[j] && s[j] == a2[j]);
    }
    assert(b =~= b2) by {
        assert(forall|j: int|
            0 <= j < b.len() ==> s[p1 + 1 + j] == b[j] && s[p1 + 1 + j] == b2[j]);
    }
    assert(c =~= c2) by {
        assert(forall|j: int|
            0 <= j < c.len() ==> s[p2 + 1 + j] == c[j] && s[p2 + 1 + j] == c2[j]);
    }
}

/// Whether one triple of parsed version numbers is strictly newer than the
/// running version.
pub open spec fn newer_triple(x0: nat, x1: nat, x2: nat, cur: (u64, u64, u64)) -> bool {
    x0 > cur.0 || (x0 == cur.0 && x1 > cur.1) || (x0 == cur.0 && x1 == cur.1 && x2 > cur.2)
}

/// Whether a release tag names a version strictly newer than `current`:
/// exactly when it is a `v` followed by a well-formed version body whose
/// triple compares greater.
pub fn release_is_newer(tag: &str, current: (u64, u64, u64)) -> (r: bool)
    ensures
        r <==> (tag@.len() >= 1 && tag@[0] == 'v' && exists|a: Seq<char>, b: Seq<char>, c: Seq<
            char,
        >|
            #[trigger] is_version_body(tag@.skip(1), a, b, c) && newer_triple(
                digits_val(a),
                digits_val(b),
                digits_val(c),
                current,
            )),
{
    let cs = string_chars(tag);
    if cs.len() == 0 {
        return false;
    }
    if cs[0] != 'v' {
        return false;
    }
    let body = tag.substring_char(1, cs.len());
    proof {
        assert(body@ =~= tag@.skip(1));
    }
    match parse_version_body(body) {
        Some(v) => {
            let newer = is_newer_version(v, current);
            proof {
                let (a, b, c) = choose|a: Seq<char>, b: Seq<char>, c: Seq<char>|
                    #[trigger] is_version_body(body@, a, b, c) && v.0 == digits_val(a) && v.1
                        == digits_val(b) && v.2 == digits_val(c);
                if !newer {
                    assert forall|a2: Seq<char>, b2: Seq<char>, c2: Seq<char>|
                        #[trigger] is_version_body(tag@.skip(1), a2, b2, c2)
                            implies !newer_triple(
                        digits_val(a2),
                        digits_val(b2),
                        digits_val(c2),
                        current,
                    ) by {
                        lemma_version_body_unique(body@, a, b, c, a2, b2, c2);
                    }
                }
            }
            newer
        },
        None => false,
    }
}

/// Whether `pat` occurs as a contiguous substring of `s`.
pub open spec fn contains_seq(s: Seq<char>, pat: Seq<char>) -> bool {
    exists|k: int| 0 <= k <= s.len() - pat.len() && #[trigger] s.subrange(k, k + pat.len()) == pat
}

/// Substring search; decides how a release is classified.
pub fn contains_marker(s: &str, pat: &str) -> (r: bool)
    ensures
        r == contains_seq(s@, pat@),
{
    let sc = string_chars(s);
    let pc = string_chars(pat);
    let n = sc.len();
    let m = pc.len();
    if m > n {
        proof {
            assert forall|k: int| !(0 <= k <= s@.len() - pat@.len() && #[trigger] s@.subrange(
                k,
                k + pat@.len(),
            ) == pat@) by {}
        }
        return false;
    }
    let mut k: usize = 0;
    while k <= n - m
        invariant
            m <= n,
            k <= n - m + 1,
            n == sc@.len() && sc@ == s@,
            m == pc@.len() && pc@ == pat@,
            forall|j: int| 0 <= j < k ==> #[trigger] s@.subrange(j, j + pat@.len()) != pat@,
        decreases n - k,
    {
        let mut i: usize = 0;
        while i < m && sc[k + i] == pc[i]
            invariant
                i <= m,
                k + m <= n,
                n == sc@.len() && sc@ == s@,
                m == pc@.len() && pc@ == pat@,
                forall|j: int| 0 <= j < i ==> s@[k + j] == pat@[j],
            decreases m - i,
        {
            i = i + 1;
        }
        if i == m {
            proof {
                assert(s@.subrange(k as int, k + pat@.len()) =~= pat@);
            }
            return true;
        }
        proof {
            assert(s@.subrange(k as int, k + pat@.len())[i as int] != pat@[i as int]);
        }
        k = k + 1;
    }
    proof {
        assert forall|j: int| !(0 <= j <= s@.len() - pat@.len() && #[trigger] s@.subrange(
            j,
            j + pat@.len(),
        ) == pat@) by {
            if 0 <= j <= s@.len() - pat@.len() {
                assert(j < k);
            }
        }
    }
    false
}

/// Classify an accepted release tag: releases whose display name carries
/// the importance marker are reported separately.
pub fn classify_release(name: &str) -> (r: bool)
    ensures
        r == contains_seq(name@, "重要重要重要"@),
{
    contains_marker(name, "重要重要重要")
}

} // verus!
