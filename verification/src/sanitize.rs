//! Filename sanitization: characters that are unsafe in file names are
//! replaced by visually similar full-width or alternative characters, and
//! the result is trimmed of surrounding whitespace.
use vstd::prelude::*;

use crate::text::{chars_to_string, string_chars};

verus! {

/// The per-character replacement applied to every filename-bearing string.
pub open spec fn replace_char(c: char) -> char {
    if c == '\\' || c == '/' {
        ' '
    } else if c == ':' {
        '：'
    } else if c == '*' {
        '⭐'
    } else if c == '?' {
        '？'
    } else if c == '"' {
        '\''
    } else if c == '<' {
        '《'
    } else if c == '>' {
        '》'
    } else if c == '|' {
        '丨'
    } else if c == '.' {
        '·'
    } else {
        c
    }
}

/// Exactly the characters with the Unicode `White_Space` property, which is
/// what `str::trim` removes.
pub open spec fn is_trim_space(c: char) -> bool {
    (0x09 <= c as u32 && c as u32 <= 0x0d) || c as u32 == 0x20 || c as u32 == 0x85 || c as u32
        == 0xa0 || c as u32 == 0x1680 || (0x2000 <= c as u32 && c as u32 <= 0x200a) || c as u32
        == 0x2028 || c as u32 == 0x2029 || c as u32 == 0x202f || c as u32 == 0x205f || c as u32
        == 0x3000
}

pub open spec fn trim_front_spec(s: Seq<char>) -> Seq<char>
    decreases s.len(),
{
    if s.len() > 0 && is_trim_space(s[0]) {
        trim_front_spec(s.drop_first())
    } else {
        s
    }
}

pub open spec fn trim_back_spec(s: Seq<char>) -> Seq<char>
    decreases s.len(),
{
    if s.len() > 0 && is_trim_space(s[s.len() - 1]) {
        trim_back_spec(s.drop_last())
    } else {
        s
    }
}

pub open spec fn trim_spec(s: Seq<char>) -> Seq<char> {
    trim_back_spec(trim_front_spec(s))
}

/// What `filename_filter` returns: every character replaced, then the
/// surrounding whitespace removed.
pub open spec fn sanitize_spec(s: Seq<char>) -> Seq<char> {
    trim_spec(s.map_values(|c: char| replace_char(c)))
}

fn replace_char_exec(c: char) -> (r: char)
    ensures
        r == replace_char(c),
{
    if c == '\\' || c == '/' {
        ' '
    } else if c == ':' {
        '：'
    } else if c == '*' {
        '⭐'
    } else if c == '?' {
        '？'
    } else if c == '"' {
        '\''
    } else if c == '<' {
        '《'
    } else if c == '>' {
        '》'
    } else if c == '|' {
        '丨'
    } else if c == '.' {
        '·'
    } else {
        c
    }
}

fn is_trim_space_exec(c: char) -> (r: bool)
    ensures
        r == is_trim_space(c),
{
    let u = c as u32;
    (0x09 <= u && u <= 0x0d) || u == 0x20 || u == 0x85 || u == 0xa0 || u == 0x1680 || (0x2000 <= u
        && u <= 0x200a) || u == 0x2028 || u == 0x2029 || u == 0x202f || u == 0x205f || u == 0x3000
}

proof fn lemma_trim_front_skip(s: Seq<char>, k: int)
    requires
        0 <= k <= s.len(),
        forall|i: int| 0 <= i < k ==> is_trim_space(s[i]),
        k < s.len() ==> !is_trim_space(s[k]),
    ensures
        trim_front_spec(s) == s.skip(k),
    decreases k,
{
    if k == 0 {
        if s.len() > 0 {
            assert(!is_trim_space(s[0]));
        }
        assert(s.skip(0) =~= s);
    } else {
        assert(is_trim_space(s[0]));
        lemma_trim_front_skip(s.drop_first(), k - 1);
        assert(s.drop_first().skip(k - 1) =~= s.skip(k));
    }
}

proof fn lemma_trim_back_take(s: Seq<char>, k: int)
    requires
        0 <= k <= s.len(),
        forall|i: int| k <= i < s.len() ==> is_trim_space(s[i]),
        k > 0 ==> !is_trim_space(s[k - 1]),
    ensures
        trim_back_spec(s) == s.take(k),
    decreases s.len() - k,
{
    if k == s.len() {
        if s.len() > 0 {
            assert(!is_trim_space(s[s.len() - 1]));
        }
        assert(s.take(k) =~= s);
    } else {
        assert(is_trim_space(s[s.len() - 1]));
        lemma_trim_back_take(s.drop_last(), k);
        assert(s.drop_last().take(k) =~= s.take(k));
    }
}

/// Trim whitespace from both ends of a character vector.
pub fn trim_chars(v: &Vec<char>) -> (r: Vec<char>)
    ensures
        r@ == trim_spec(v@),
{
    let n = v.len();
    let mut start: usize = 0;
    while start < n && is_trim_space_exec(v[start])
        invariant
            start <= n,
            n == v@.len(),
            forall|i: int| 0 <= i < start ==> is_trim_space(v@[i]),
        decreases n - start,
    {
        start = start + 1;
    }
    proof {
        lemma_trim_front_skip(v@, start as int);
    }
    let ghost f = v@.skip(start as int);
    let mut end: usize = n;
    while end > start && is_trim_space_exec(v[end - 1])
        invariant
            start <= end <= n,
            n == v@.len(),
            f == v@.skip(start as int),
            forall|i: int| end <= i < n ==> is_trim_space(v@[i]),
        decreases end,
    {
        end = end - 1;
    }
    proof {
        assert(forall|i: int| 0 <= i < f.len() ==> f[i] == v@[start + i]);
        lemma_trim_back_take(f, end - start);
    }
    let mut r: Vec<char> = Vec::new();
    let mut i: usize = start;
    while i < end
        invariant
            start <= i <= end <= n,
            n == v@.len(),
            r@ == v@.subrange(start as int, i as int),
        decreases end - i,
    {
        r.push(v[i]);
        proof {
            assert(r@ =~= v@.subrange(start as int, i + 1));
        }
        i = i + 1;
    }
    proof {
        assert(v@.skip(start as int).take(end - start) =~= v@.subrange(
            start as int,
            end as int,
        ));
    }
    r
}

/// Replace every character unsafe in a file name and trim the result.
pub fn filename_filter(s: &str) -> (r: String)
    ensures
        r@ == sanitize_spec(s@),
{
    let cs = string_chars(s);
    let mut mapped: Vec<char> = Vec::new();
    let mut i: usize = 0;
    while i < cs.len()
        invariant
            i <= cs@.len(),
            cs@ == s@,
            mapped@ == s@.take(i as int).map_values(|c: char| replace_char(c)),
        decreases cs@.len() - i,
    {
        let c = replace_char_exec(cs[i]);
        mapped.push(c);
        proof {
            assert(mapped@ =~= s@.take(i + 1).map_values(|c: char| replace_char(c)));
        }
        i = i + 1;
    }
    proof {
        assert(s@.take(s@.len() as int) =~= s@);
    }
    let trimmed = trim_chars(&mapped);
    chars_to_string(&trimmed)
}

proof fn lemma_trim_front_props(s: Seq<char>)
    ensures
        trim_front_spec(s).len() > 0 ==> !is_trim_space(trim_front_spec(s)[0]),
        exists|k: int|
            0 <= k <= s.len() && trim_front_spec(s) == #[trigger] s.skip(k),
    decreases s.len(),
{
    if s.len() > 0 && is_trim_space(s[0]) {
        lemma_trim_front_props(s.drop_first());
        let k = choose|k: int|
            0 <= k <= s.drop_first().len() && trim_front_spec(s.drop_first())
                == #[trigger] s.drop_first().skip(k);
        assert(s.drop_first().skip(k) =~= s.skip(k + 1));
    } else {
        assert(s.skip(0) =~= s);
    }
}

proof fn lemma_trim_back_props(s: Seq<char>)
    ensures
        trim_back_spec(s).len() > 0 ==> !is_trim_space(
            trim_back_spec(s)[trim_back_spec(s).len() - 1],
        ),
        exists|k: int|
            0 <= k <= s.len() && trim_back_spec(s) == #[trigger] s.take(k),
    decreases s.len(),
{
    if s.len() > 0 && is_trim_space(s[s.len() - 1]) {
        lemma_trim_back_props(s.drop_last());
        let k = choose|k: int|
            0 <= k <= s.drop_last().len() && trim_back_spec(s.drop_last())
                == #[trigger] s.drop_last().take(k);
        assert(s.drop_last().take(k) =~= s.take(k));
    } else {
        assert(s.take(s.len() as int) =~= s);
    }
}

/// After trimming, the string starts and ends with non-whitespace, and is a
/// contiguous slice of the original.
proof fn lemma_trim_props(s: Seq<char>)
    ensures
        trim_spec(s).len() > 0 ==> !is_trim_space(trim_spec(s)[0]),
        trim_spec(s).len() > 0 ==> !is_trim_space(trim_spec(s)[trim_spec(s).len() - 1]),
        forall|i: int|
            0 <= i < trim_spec(s).len() ==> exists|j: int|
                0 <= j < s.len() && #[trigger] trim_spec(s)[i] == s[j],
{
    lemma_trim_front_props(s);
    let f = trim_front_spec(s);
    lemma_trim_back_props(f);
    let t = trim_spec(s);
    let kf = choose|k: int| 0 <= k <= s.len() && f == #[trigger] s.skip(k);
    let kb = choose|k: int| 0 <= k <= f.len() && t == #[trigger] f.take(k);
    if t.len() > 0 {
        assert(t[0] == f[0]);
    }
    assert forall|i: int| 0 <= i < t.len() implies exists|j: int|
        0 <= j < s.len() && #[trigger] t[i] == s[j] by {
        assert(t[i] == f[i]);
        assert(f[i] == s[kf + i]);
    }
}

proof fn lemma_trim_idempotent(s: Seq<char>)
    ensures
        trim_spec(trim_spec(s)) == trim_spec(s),
{
    lemma_trim_props(s);
    let t = trim_spec(s);
    assert(trim_front_spec(t) == t);
    assert(trim_back_spec(t) == t);
}

/// Sanitization is idempotent: applying the filename filter twice gives the
/// same string as applying it once.
pub proof fn lemma_sanitize_idempotent(s: Seq<char>)
    ensures
        sanitize_spec(sanitize_spec(s)) == sanitize_spec(s),
{
    let rc = |c: char| replace_char(c);
    let m = s.map_values(rc);
    let t = trim_spec(m);
    lemma_trim_props(m);
    assert forall|c: char| #[trigger] replace_char(replace_char(c)) == replace_char(c) by {}
    assert forall|i: int| 0 <= i < t.len() implies #[trigger] rc(t[i]) == t[i] by {
        let j = choose|j: int| 0 <= j < m.len() && t[i] == m[j];
        assert(m[j] == rc(s[j]));
    }
    assert(t.map_values(rc) =~= t);
    lemma_trim_idempotent(m);
}

} // verus!
