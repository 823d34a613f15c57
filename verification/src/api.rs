//! The typed operations against the remote service, as the core computes
//! them: endpoint addresses, referers, the signed image URLs, and the
//! payload the image-token call carries.
use vstd::prelude::*;
use vstd::string::*;

use crate::responses::{ImageIndexRespData, UrlTokenRespData};
use crate::text::{chars_to_string, dec_signed_of, i64_to_string, string_chars};

verus! {

pub fn comic_detail_endpoint() -> (r: &'static str)
    ensures
        r@ == "https://manga.bilibili.com/twirp/comic.v1.Comic/ComicDetail"@,
{
    "https://manga.bilibili.com/twirp/comic.v1.Comic/ComicDetail"
}

pub fn image_index_endpoint() -> (r: &'static str)
    ensures
        r@ == "https://manga.bilibili.com/twirp/comic.v1.Comic/GetImageIndex"@,
{
    "https://manga.bilibili.com/twirp/comic.v1.Comic/GetImageIndex"
}

pub fn image_token_endpoint() -> (r: &'static str)
    ensures
        r@ == "https://manga.bilibili.com/twirp/comic.v1.Comic/ImageToken"@,
{
    "https://manga.bilibili.com/twirp/comic.v1.Comic/ImageToken"
}

pub fn search_endpoint() -> (r: &'static str)
    ensures
        r@ == "https://manga.bilibili.com/twirp/search.v1.Search/SearchKeyword"@,
{
    "https://manga.bilibili.com/twirp/search.v1.Search/SearchKeyword"
}

/// The referer of a comic-detail request.
pub fn comic_detail_referer(comic_id: i64) -> (r: String)
    ensures
        r@ == "https://manga.bilibili.com/detail/mc"@ + dec_signed_of(comic_id as int)
            + "?from=manga_person"@,
{
    let mut s = String::from_str("https://manga.bilibili.com/detail/mc");
    let id = i64_to_string(comic_id);
    s.append(id.as_str());
    s.append("?from=manga_person");
    s
}

/// The referer of the image-index and image-token requests of a chapter.
pub fn episode_referer(comic_id: i64, episode_id: i64) -> (r: String)
    ensures
        r@ == "https://manga.bilibili.com/mc"@ + dec_signed_of(comic_id as int) + "/"@
            + dec_signed_of(episode_id as int),
{
    let mut s = String::from_str("https://manga.bilibili.com/mc");
    let cid = i64_to_string(comic_id);
    s.append(cid.as_str());
    s.append("/");
    let eid = i64_to_string(episode_id);
    s.append(eid.as_str());
    s
}

/// The relative image paths of a chapter manifest, in manifest order.
pub fn manifest_paths(data: &ImageIndexRespData) -> (r: Vec<String>)
    ensures
        r@.len() == data.images@.len(),
        forall|i: int| 0 <= i < r@.len() ==> #[trigger] r@[i]@ == data.images@[i].path@,
{
    let mut r: Vec<String> = Vec::new();
    let mut i: usize = 0;
    while i < data.images.len()
        invariant
            i <= data.images@.len(),
            r@.len() == i,
            forall|j: int| 0 <= j < i ==> #[trigger] r@[j]@ == data.images@[j].path@,
        decreases data.images@.len() - i,
    {
        r.push(data.images[i].path.clone());
        i = i + 1;
    }
    r
}

/// Build the complete, CDN-ready URL of each signed image: the base URL
/// with the token appended as its query string. The result has exactly one
/// URL per requested path, in request order — the postcondition the
/// chapter algorithm requires.
pub fn complete_urls(tokens: &Vec<UrlTokenRespData>) -> (r: Vec<String>)
    ensures
        r@.len() == tokens@.len(),
        forall|i: int|
            0 <= i < r@.len() ==> #[trigger] r@[i]@ == tokens@[i].url@ + "?token="@
                + tokens@[i].token@,
{
    let mut r: Vec<String> = Vec::new();
    let mut i: usize = 0;
    while i < tokens.len()
        invariant
            i <= tokens@.len(),
            r@.len() == i,
            forall|j: int|
                0 <= j < i ==> #[trigger] r@[j]@ == tokens@[j].url@ + "?token="@
                    + tokens@[j].token@,
        decreases tokens@.len() - i,
    {
        let mut u = tokens[i].url.clone();
        u.append("?token=");
        u.append(tokens[i].token.as_str());
        r.push(u);
        i = i + 1;
    }
    r
}

/// JSON string escaping: quote and backslash are escaped, control
/// characters become `\u00XX`, everything else passes through.
pub open spec fn json_escape_spec(s: Seq<char>) -> Seq<char>
    decreases s.len(),
{
    if s.len() == 0 {
        Seq::empty()
    } else {
        let c = s[0];
        let head = if c == '"' {
            seq!['\\', '"']
        } else if c == '\\' {
            seq!['\\', '\\']
        } else if (c as u32) < 0x20 {
            seq!['\\', 'u', '0', '0', crate::codec::hex_digit(c as u32 as int / 16),
                crate::codec::hex_digit(c as u32 as int % 16)]
        } else {
            seq![c]
        };
        head + json_escape_spec(s.drop_first())
    }
}

/// One JSON string literal with its quotes.
pub open spec fn json_string_spec(s: Seq<char>) -> Seq<char> {
    seq!['"'] + json_escape_spec(s) + seq!['"']
}

/// The JSON array of string literals the image-token payload carries.
pub open spec fn json_string_array_spec(v: Seq<Seq<char>>) -> Seq<char>
    decreases v.len(),
{
    if v.len() == 0 {
        seq!['[', ']']
    } else if v.len() == 1 {
        seq!['['] + json_string_spec(v[0]) + seq![']']
    } else {
        json_string_array_spec(v.drop_last()).drop_last() + seq![','] + json_string_spec(v.last())
            + seq![']']
    }
}

proof fn lemma_json_escape_snoc(s: Seq<char>, i: int)
    requires
        0 <= i < s.len(),
    ensures
        json_escape_spec(s.take(i + 1)) == json_escape_spec(s.take(i)) + json_escape_spec(
            seq![s[i]],
        ),
    decreases i,
{
    if i == 0 {
        assert(s.take(0) =~= Seq::<char>::empty());
        assert(s.take(1) =~= seq![s[0]]);
        assert(json_escape_spec(s.take(1)) =~= json_escape_spec(Seq::<char>::empty())
            + json_escape_spec(seq![s[0]]));
    } else {
        lemma_json_escape_snoc(s.drop_first(), i - 1);
        let a = s.take(i + 1);
        let b = s.take(i);
        assert(a.drop_first() =~= s.drop_first().take(i));
        assert(b.drop_first() =~= s.drop_first().take(i - 1));
        assert(seq![s.drop_first()[i - 1]] =~= seq![s[i]]);
        assert(json_escape_spec(a) =~= json_escape_spec(b) + json_escape_spec(seq![s[i]]));
    }
}

proof fn lemma_json_escape_single(c: char)
    ensures
        json_escape_spec(seq![c]) == if c == '"' {
            seq!['\\', '"']
        } else if c == '\\' {
            seq!['\\', '\\']
        } else if (c as u32) < 0x20 {
            seq!['\\', 'u', '0', '0', crate::codec::hex_digit(c as u32 as int / 16),
                crate::codec::hex_digit(c as u32 as int % 16)]
        } else {
            seq![c]
        },
{
    assert(seq![c].drop_first() =~= Seq::<char>::empty());
    let head = if c == '"' {
        seq!['\\', '"']
    } else if c == '\\' {
        seq!['\\', '\\']
    } else if (c as u32) < 0x20 {
        seq!['\\', 'u', '0', '0', crate::codec::hex_digit(c as u32 as int / 16),
            crate::codec::hex_digit(c as u32 as int % 16)]
    } else {
        seq![c]
    };
    assert(json_escape_spec(seq![c]) =~= head + json_escape_spec(Seq::<char>::empty()));
    assert(head + Seq::<char>::empty() =~= head);
}

fn push_json_escaped(out: &mut Vec<char>, s: &String)
    ensures
        final(out)@ == old(out)@ + json_escape_spec(s@),
{
    let cs = string_chars(s.as_str());
    let mut i: usize = 0;
    while i < cs.len()
        invariant
            i <= cs@.len(),
            cs@ == s@,
            out@ == old(out)@ + json_escape_spec(s@.take(i as int)),
        decreases cs@.len() - i,
    {
        let ghost pre = out@;
        let c = cs[i];
        let u = c as u32;
        if c == '"' {
            out.push('\\');
            out.push('"');
            proof {
                assert(out@ =~= pre + seq!['\\', '"']);
            }
        } else if c == '\\' {
            out.push('\\');
            out.push('\\');
            proof {
                assert(out@ =~= pre + seq!['\\', '\\']);
            }
        } else if u < 0x20 {
            out.push('\\');
            out.push('u');
            out.push('0');
            out.push('0');
            let hi = (u / 16) as u8;
            let lo = (u % 16) as u8;
            out.push(hex_digit_char(hi));
            out.push(hex_digit_char(lo));
            proof {
                assert(out@ =~= pre + seq!['\\', 'u', '0', '0',
                    crate::codec::hex_digit(c as u32 as int / 16),
                    crate::codec::hex_digit(c as u32 as int % 16)]);
            }
        } else {
            out.push(c);
            proof {
                assert(out@ =~= pre + seq![s@[i as int]]);
            }
        }
        proof {
            lemma_json_escape_snoc(s@, i as int);
            lemma_json_escape_single(s@[i as int]);
            assert(out@ =~= old(out)@ + json_escape_spec(s@.take(i + 1)));
        }
        i = i + 1;
    }
    proof {
        assert(s@.take(s@.len() as int) =~= s@);
    }
}

fn hex_digit_char(n: u8) -> (c: char)
    requires
        n < 16,
    ensures
        c == crate::codec::hex_digit(n as int),
{
    if n < 10 {
        (0x30 + n) as char
    } else {
        (0x57 + n) as char
    }
}

/// Serialize the requested paths as the JSON array-of-strings text the
/// image-token endpoint expects in its payload.
pub fn json_string_array(v: &Vec<String>) -> (r: String)
    ensures
        r@ == json_string_array_spec(v@.map_values(|s: String| s@)),
{
    let ghost vw = v@.map_values(|s: String| s@);
    let mut out: Vec<char> = Vec::new();
    out.push('[');
    let mut i: usize = 0;
    while i < v.len()
        invariant
            i <= v@.len(),
            vw == v@.map_values(|s: String| s@),
            i == 0 ==> out@ =~= seq!['['],
            i > 0 ==> out@ =~= json_string_array_spec(vw.take(i as int)).drop_last(),
        decreases v@.len() - i,
    {
        if i > 0 {
            out.push(',');
        }
        out.push('"');
        push_json_escaped(&mut out, &v[i]);
        out.push('"');
        proof {
            lemma_json_array_snoc(vw, i as int);
            assert(out@ =~= json_string_array_spec(vw.take(i + 1)).drop_last());
        }
        i = i + 1;
    }
    out.push(']');
    proof {
        assert(vw.take(vw.len() as int) =~= vw);
        if v@.len() == 0 {
            assert(out@ =~= json_string_array_spec(vw));
        } else {
            assert(json_string_array_spec(vw).last() == ']');
            assert(out@ =~= json_string_array_spec(vw));
        }
    }
    chars_to_string(&out)
}

proof fn lemma_json_array_snoc(v: Seq<Seq<char>>, i: int)
    requires
        0 <= i < v.len(),
    ensures
        i == 0 ==> json_string_array_spec(v.take(1)).drop_last() =~= seq!['['] + json_string_spec(
            v[0],
        ),
        i > 0 ==> json_string_array_spec(v.take(i + 1)).drop_last() =~= json_string_array_spec(
            v.take(i),
        ).drop_last() + seq![','] + json_string_spec(v[i]),
{
    if i == 0 {
        assert(v.take(1) =~= seq![v[0]]);
        assert(json_string_array_spec(seq![v[0]]) =~= seq!['['] + json_string_spec(v[0])
            + seq![']']);
        assert((seq!['['] + json_string_spec(v[0]) + seq![']']).drop_last() =~= seq!['[']
            + json_string_spec(v[0]));
    } else {
        let a = v.take(i + 1);
        assert(a.drop_last() =~= v.take(i));
        assert(a.last() == v[i]);
        assert(a.len() >= 2);
        assert(json_string_array_spec(a) =~= json_string_array_spec(v.take(i)).drop_last()
            + seq![','] + json_string_spec(v[i]) + seq![']']);
        assert(json_string_array_spec(a).drop_last() =~= json_string_array_spec(
            v.take(i),
        ).drop_last() + seq![','] + json_string_spec(v[i]));
    }
}

} // verus!
