//! The filesystem layout of downloads, as strings with `/` separators: the
//! temporary in-progress directory, the final directory or archive, the
//! bonus-gallery directory, and the per-image file names that keep reading
//! order.
use vstd::prelude::*;
use vstd::string::*;

use crate::text::{chars_to_string, dec_str_of, string_chars, u64_to_string};

verus! {

/// `{root}/{comic}/.下载中-{episode}`: the leading marker names a chapter
/// in flight, so finalization is idempotent and interruptions detectable.
pub open spec fn temp_dir_spec(root: Seq<char>, comic: Seq<char>, episode: Seq<char>) -> Seq<
    char,
> {
    root + "/"@ + comic + "/"@ + ".下载中-"@ + episode
}

/// `{root}/{comic}/{episode}`: the final directory of an image-format
/// chapter, and the stem of a zip or cbz archive.
pub open spec fn final_dir_spec(root: Seq<char>, comic: Seq<char>, episode: Seq<char>) -> Seq<
    char,
> {
    root + "/"@ + comic + "/"@ + episode
}

/// `{root}/{comic}/特典/{title}`: where one bonus-gallery item lands.
pub open spec fn bonus_dir_spec(root: Seq<char>, comic: Seq<char>, title: Seq<char>) -> Seq<
    char,
> {
    root + "/"@ + comic + "/"@ + "特典"@ + "/"@ + title
}

pub fn temp_download_dir(root: &String, comic_title: &String, episode_title: &String) -> (r:
    String)
    ensures
        r@ == temp_dir_spec(root@, comic_title@, episode_title@),
{
    let mut s = root.clone();
    s.append("/");
    s.append(comic_title.as_str());
    s.append("/");
    s.append(".下载中-");
    s.append(episode_title.as_str());
    s
}

pub fn final_download_dir(root: &String, comic_title: &String, episode_title: &String) -> (r:
    String)
    ensures
        r@ == final_dir_spec(root@, comic_title@, episode_title@),
{
    let mut s = root.clone();
    s.append("/");
    s.append(comic_title.as_str());
    s.append("/");
    s.append(episode_title.as_str());
    s
}

pub fn bonus_download_dir(root: &String, comic_title: &String, item_title: &String) -> (r: String)
    ensures
        r@ == bonus_dir_spec(root@, comic_title@, item_title@),
{
    let mut s = root.clone();
    s.append("/");
    s.append(comic_title.as_str());
    s.append("/");
    s.append("特典");
    s.append("/");
    s.append(item_title.as_str());
    s
}

/// The decimal digits of `n` zero-padded to width three (wider only past
/// 999), with the `.jpg` extension: the file name of image `n` of a
/// chapter, numbered from one.
pub open spec fn image_name_spec(n: nat) -> Seq<char> {
    let d = dec_str_of(n);
    let padded = if d.len() >= 3 {
        d
    } else if d.len() == 2 {
        seq!['0'] + d
    } else {
        seq!['0', '0'] + d
    };
    padded + ".jpg"@
}

proof fn lemma_dec_len(n: nat)
    ensures
        dec_str_of(n).len() == crate::text::dec_bytes_of(n).len(),
        n < 10 ==> dec_str_of(n).len() == 1,
        10 <= n < 100 ==> dec_str_of(n).len() == 2,
        100 <= n < 1000 ==> dec_str_of(n).len() == 3,
        n >= 10 ==> dec_str_of(n).len() >= 2,
        n >= 100 ==> dec_str_of(n).len() >= 3,
    decreases n,
{
    if n >= 10 {
        lemma_dec_len(n / 10);
    }
}

/// The file name for image `n` (one-based) of a chapter.
pub fn image_file_name(n: u32) -> (r: String)
    requires
        n >= 1,
    ensures
        r@ == image_name_spec(n as nat),
{
    proof {
        lemma_dec_len(n as nat);
    }
    let d = u64_to_string(n as u64);
    let mut out: Vec<char> = Vec::new();
    if n < 10 {
        out.push('0');
        out.push('0');
    } else if n < 100 {
        out.push('0');
    }
    let dc = string_chars(d.as_str());
    let mut i: usize = 0;
    while i < dc.len()
        invariant
            i <= dc@.len(),
            dc@ == dec_str_of(n as nat),
            out@.len() >= i,
            out@ == (if n < 10 {
                seq!['0', '0']
            } else if n < 100 {
                seq!['0']
            } else {
                Seq::<char>::empty()
            }) + dec_str_of(n as nat).take(i as int),
        decreases dc@.len() - i,
    {
        out.push(dc[i]);
        proof {
            assert(out@ =~= (if n < 10 {
                seq!['0', '0']
            } else if n < 100 {
                seq!['0']
            } else {
                Seq::<char>::empty()
            }) + dec_str_of(n as nat).take(i + 1));
        }
        i = i + 1;
    }
    out.push('.');
    out.push('j');
    out.push('p');
    out.push('g');
    proof {
        reveal_strlit(".jpg");
        assert(dec_str_of(n as nat).take(dec_str_of(n as nat).len() as int) =~= dec_str_of(
            n as nat,
        ));
        assert(out@ =~= image_name_spec(n as nat));
    }
    chars_to_string(&out)
}

/// Strict lexicographic order on character sequences.
pub open spec fn chars_lex_lt(a: Seq<char>, b: Seq<char>) -> bool
    decreases a.len(),
{
    if b.len() == 0 {
        false
    } else if a.len() == 0 {
        true
    } else if (a[0] as u32) < (b[0] as u32) {
        true
    } else if (a[0] as u32) > (b[0] as u32) {
        false
    } else {
        chars_lex_lt(a.drop_first(), b.drop_first())
    }
}

proof fn lemma_dec_digit_chars(n: nat)
    ensures
        n < 10 ==> dec_str_of(n) =~= seq![((0x30 + n) as u8) as char],
{
    if n < 10 {
        assert(crate::text::dec_bytes_of(n) =~= seq![(0x30 + n) as u8]);
    }
}

/// Within a chapter of at most 999 images the padded file names are
/// strictly increasing in lexicographic order, so an archive listing them
/// alphabetically preserves manifest (reading) order. The names of image
/// 1000 and beyond break the alignment, so the guarantee is stated up to
/// three digits.
pub proof fn lemma_image_names_ordered(i: nat, j: nat)
    requires
        1 <= i < j <= 999,
    ensures
        chars_lex_lt(image_name_spec(i), image_name_spec(j)),
{
    lemma_padded3(i);
    lemma_padded3(j);
    let i0 = i / 100;
    let i1 = (i / 10) % 10;
    let i2 = i % 10;
    let j0 = j / 100;
    let j1 = (j / 10) % 10;
    let j2 = j % 10;
    assert(i == 100 * i0 + 10 * i1 + i2) by {
        vstd::arithmetic::div_mod::lemma_fundamental_div_mod(i as int, 10);
        vstd::arithmetic::div_mod::lemma_fundamental_div_mod(i as int / 10, 10);
        vstd::arithmetic::div_mod::lemma_div_denominator(i as int, 10, 10);
    }
    assert(j == 100 * j0 + 10 * j1 + j2) by {
        vstd::arithmetic::div_mod::lemma_fundamental_div_mod(j as int, 10);
        vstd::arithmetic::div_mod::lemma_fundamental_div_mod(j as int / 10, 10);
        vstd::arithmetic::div_mod::lemma_div_denominator(j as int, 10, 10);
    }
    let a = padded3(i);
    let b = padded3(j);
    let t = ".jpg"@;
    let x = a + t;
    let y = b + t;
    assert(x[0] == a[0] && y[0] == b[0]);
    assert(a[0] as u32 == 0x30 + i0) by {
        assert(((0x30 + i0) as u8) as char as u32 == 0x30 + i0);
    }
    assert(b[0] as u32 == 0x30 + j0) by {
        assert(((0x30 + j0) as u8) as char as u32 == 0x30 + j0);
    }
    assert(a[1] as u32 == 0x30 + i1) by {
        assert(((0x30 + i1) as u8) as char as u32 == 0x30 + i1);
    }
    assert(b[1] as u32 == 0x30 + j1) by {
        assert(((0x30 + j1) as u8) as char as u32 == 0x30 + j1);
    }
    assert(a[2] as u32 == 0x30 + i2) by {
        assert(((0x30 + i2) as u8) as char as u32 == 0x30 + i2);
    }
    assert(b[2] as u32 == 0x30 + j2) by {
        assert(((0x30 + j2) as u8) as char as u32 == 0x30 + j2);
    }
    if i0 < j0 {
        assert((x[0] as u32) < (y[0] as u32));
        assert(chars_lex_lt(x, y));
    } else {
        assert(i0 == j0);
        assert(x[0] as u32 == y[0] as u32);
        vstd::utf8::char_u32_cast(x[0], x[0] as u32);
        vstd::utf8::char_u32_cast(y[0], y[0] as u32);
        assert(x[0] == y[0]);
        let x1 = x.drop_first();
        let y1 = y.drop_first();
        assert(x1[0] == a[1] && y1[0] == b[1]);
        if i1 < j1 {
            assert((x1[0] as u32) < (y1[0] as u32));
            assert(chars_lex_lt(x1, y1));
            assert(chars_lex_lt(x, y));
        } else {
            assert(i1 == j1);
            vstd::utf8::char_u32_cast(x1[0], x1[0] as u32);
            vstd::utf8::char_u32_cast(y1[0], y1[0] as u32);
            assert(x1[0] == y1[0]);
            let x2 = x1.drop_first();
            let y2 = y1.drop_first();
            assert(x2[0] == a[2] && y2[0] == b[2]);
            assert(i2 < j2);
            assert((x2[0] as u32) < (y2[0] as u32));
            assert(chars_lex_lt(x2, y2));
            assert(chars_lex_lt(x1, y1));
            assert(chars_lex_lt(x, y));
        }
    }
    assert(image_name_spec(i) == x);
    assert(image_name_spec(j) == y);
}

/// The three digit characters of `n` in `1..=999`, hundreds first.
pub open spec fn padded3(n: nat) -> Seq<char> {
    seq![
        ((0x30 + n / 100) as u8) as char,
        ((0x30 + (n / 10) % 10) as u8) as char,
        ((0x30 + n % 10) as u8) as char,
    ]
}

proof fn lemma_padded3(n: nat)
    requires
        1 <= n <= 999,
    ensures
        image_name_spec(n) == padded3(n) + ".jpg"@,
{
    lemma_dec_len(n);
    if n < 10 {
        lemma_dec_digit_chars(n);
        assert(padded3(n) =~= seq!['0', '0'] + dec_str_of(n));
    } else if n < 100 {
        lemma_dec_digit_chars(n / 10);
        lemma_dec_digit_chars(n % 10);
        assert(crate::text::dec_bytes_of(n) =~= crate::text::dec_bytes_of(n / 10) + seq![
            (0x30 + n % 10) as u8,
        ]);
        assert(dec_str_of(n) =~= seq![
            ((0x30 + n / 10) as u8) as char,
            ((0x30 + n % 10) as u8) as char,
        ]);
        assert(padded3(n) =~= seq!['0'] + dec_str_of(n));
    } else {
        lemma_dec_digit_chars(n / 100);
        assert(crate::text::dec_bytes_of(n / 10) =~= crate::text::dec_bytes_of(n / 100) + seq![
            (0x30 + (n / 10) % 10) as u8,
        ]);
        assert(crate::text::dec_bytes_of(n) =~= crate::text::dec_bytes_of(n / 10) + seq![
            (0x30 + n % 10) as u8,
        ]);
        assert((n / 10) / 10 == n / 100) by {
            vstd::arithmetic::div_mod::lemma_div_denominator(n as int, 10, 10);
        }
        assert(dec_str_of(n) =~= padded3(n));
    }
    assert(image_name_spec(n) =~= padded3(n) + ".jpg"@);
}

} // verus!
