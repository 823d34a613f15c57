//! The comic metadata written into archives as a `ComicInfo.xml` sidecar,
//! and the exact XML text produced for it.
use vstd::prelude::*;
use vstd::string::*;

use crate::text::{dec_str_of, string_chars, u64_to_string};

verus! {

/// The metadata carried by a chapter work item and serialized into
/// `ComicInfo.xml` on archive finalization.
#[derive(Clone, Debug)]
pub struct ComicMetadata {
    pub title: String,
    pub series: String,
    pub summary: String,
    pub writer: String,
    pub genre: String,
    pub page_count: u32,
}

/// XML-escape a text node: the five predefined entities.
pub open spec fn xml_escape_spec(s: Seq<char>) -> Seq<char>
    decreases s.len(),
{
    if s.len() == 0 {
        Seq::empty()
    } else {
        let head = if s[0] == '&' {
            "&amp;"@
        } else if s[0] == '<' {
            "&lt;"@
        } else if s[0] == '>' {
            "&gt;"@
        } else if s[0] == '"' {
            "&quot;"@
        } else if s[0] == '\'' {
            "&apos;"@
        } else {
            seq![s[0]]
        };
        head + xml_escape_spec(s.drop_first())
    }
}

/// One XML element with an escaped text body.
pub open spec fn xml_elem_spec(name: Seq<char>, body: Seq<char>) -> Seq<char> {
    seq!['<'] + name + seq!['>'] + xml_escape_spec(body) + seq!['<', '/'] + name + seq!['>']
}

/// The full ComicInfo document for a metadata value.
pub open spec fn comic_info_xml_spec(m: ComicMetadata) -> Seq<char> {
    "<?xml version=\"1.0\" encoding=\"utf-8\"?><ComicInfo>"@ + xml_elem_spec("Title"@, m.title@)
        + xml_elem_spec("Series"@, m.series@) + xml_elem_spec("Summary"@, m.summary@)
        + xml_elem_spec("Writer"@, m.writer@) + xml_elem_spec("Genre"@, m.genre@) + xml_elem_spec(
        "PageCount"@,
        dec_str_of(m.page_count as nat),
    ) + "</ComicInfo>"@
}

fn push_escaped(out: &mut Vec<char>, s: &String)
    ensures
        final(out)@ == old(out)@ + xml_escape_spec(s@),
{
    let cs = string_chars(s.as_str());
    let mut i: usize = 0;
    while i < cs.len()
        invariant
            i <= cs@.len(),
            cs@ == s@,
            out@ == old(out)@ + xml_escape_spec(s@.take(i as int)),
        decreases cs@.len() - i,
    {
        let ghost pre = out@;
        let c = cs[i];
        if c == '&' {
            out.push('&');
            out.push('a');
            out.push('m');
            out.push('p');
            out.push(';');
            proof {
                reveal_strlit("&amp;");
                assert(out@ =~= pre + "&amp;"@);
            }
        } else if c == '<' {
            out.push('&');
            out.push('l');
            out.push('t');
            out.push(';');
            proof {
                reveal_strlit("&lt;");
                assert(out@ =~= pre + "&lt;"@);
            }
        } else if c == '>' {
            out.push('&');
            out.push('g');
            out.push('t');
            out.push(';');
            proof {
                reveal_strlit("&gt;");
                assert(out@ =~= pre + "&gt;"@);
            }
        } else if c == '"' {
            out.push('&');
            out.push('q');
            out.push('u');
            out.push('o');
            out.push('t');
            out.push(';');
            proof {
                reveal_strlit("&quot;");
                assert(out@ =~= pre + "&quot;"@);
            }
        } else if c == '\'' {
            out.push('&');
            out.push('a');
            out.push('p');
            out.push('o');
            out.push('s');
            out.push(';');
            proof {
                reveal_strlit("&apos;");
                assert(out@ =~= pre + "&apos;"@);
            }
        } else {
            out.push(c);
            proof {
                assert(out@ =~= pre + seq![s@[i as int]]);
            }
        }
        proof {
            lemma_xml_escape_snoc(s@, i as int);
            lemma_xml_escape_single(s@[i as int]);
            assert(out@ =~= old(out)@ + xml_escape_spec(s@.take(i + 1)));
        }
        i = i + 1;
    }
    proof {
        assert(s@.take(s@.len() as int) =~= s@);
    }
}

proof fn lemma_xml_escape_snoc(s: Seq<char>, i: int)
    requires
        0 <= i < s.len(),
    ensures
        xml_escape_spec(s.take(i + 1)) == xml_escape_spec(s.take(i)) + xml_escape_spec(
            seq![s[i]],
        ),
    decreases i,
{
    if i == 0 {
        assert(s.take(0) =~= Seq::<char>::empty());
        assert(s.take(1) =~= seq![s[0]]);
        assert(xml_escape_spec(s.take(1)) =~= xml_escape_spec(Seq::<char>::empty())
            + xml_escape_spec(seq![s[0]]));
    } else {
        lemma_xml_escape_snoc(s.drop_first(), i - 1);
        let a = s.take(i + 1);
        let b = s.take(i);
        assert(a.drop_first() =~= s.drop_first().take(i));
        assert(b.drop_first() =~= s.drop_first().take(i - 1));
        assert(a[0] == s[0] && b[0] == s[0]);
        assert(s.drop_first().take(i)[i - 1] == s[i]);
        assert(seq![s.drop_first()[i - 1]] =~= seq![s[i]]);
        assert(xml_escape_spec(a) =~= xml_escape_spec(b) + xml_escape_spec(seq![s[i]]));
    }
}

proof fn lemma_xml_escape_single(c: char)
    ensures
        xml_escape_spec(seq![c]) == if c == '&' {
            "&amp;"@
        } else if c == '<' {
            "&lt;"@
        } else if c == '>' {
            "&gt;"@
        } else if c == '"' {
            "&quot;"@
        } else if c == '\'' {
            "&apos;"@
        } else {
            seq![c]
        },
{
    assert(seq![c].drop_first() =~= Seq::<char>::empty());
    assert(xml_escape_spec(seq![c]) =~= xml_escape_spec(seq![c]).take(
        xml_escape_spec(seq![c]).len() as int,
    ));
    let head = if c == '&' {
        "&amp;"@
    } else if c == '<' {
        "&lt;"@
    } else if c == '>' {
        "&gt;"@
    } else if c == '"' {
        "&quot;"@
    } else if c == '\'' {
        "&apos;"@
    } else {
        seq![c]
    };
    assert(xml_escape_spec(seq![c]) =~= head + xml_escape_spec(Seq::<char>::empty()));
    assert(head + Seq::<char>::empty() =~= head);
}

fn push_str_chars(out: &mut Vec<char>, s: &str)
    ensures
        final(out)@ == old(out)@ + s@,
{
    let cs = string_chars(s);
    let mut i: usize = 0;
    while i < cs.len()
        invariant
            i <= cs@.len(),
            cs@ == s@,
            out@ == old(out)@ + s@.take(i as int),
        decreases cs@.len() - i,
    {
        out.push(cs[i]);
        proof {
            assert(out@ =~= old(out)@ + s@.take(i + 1));
        }
        i = i + 1;
    }
    proof {
        assert(s@.take(s@.len() as int) =~= s@);
    }
}

fn push_elem(out: &mut Vec<char>, name: &str, body: &String)
    ensures
        final(out)@ == old(out)@ + xml_elem_spec(name@, body@),
{
    out.push('<');
    push_str_chars(out, name);
    out.push('>');
    push_escaped(out, body);
    out.push('<');
    out.push('/');
    push_str_chars(out, name);
    out.push('>');
    proof {
        assert(out@ =~= old(out)@ + xml_elem_spec(name@, body@));
    }
}

/// Serialize the metadata as the ComicInfo XML document.
pub fn comic_info_xml(m: &ComicMetadata) -> (r: String)
    ensures
        r@ == comic_info_xml_spec(*m),
{
    let mut out: Vec<char> = Vec::new();
    push_str_chars(&mut out, "<?xml version=\"1.0\" encoding=\"utf-8\"?><ComicInfo>");
    push_elem(&mut out, "Title", &m.title);
    push_elem(&mut out, "Series", &m.series);
    push_elem(&mut out, "Summary", &m.summary);
    push_elem(&mut out, "Writer", &m.writer);
    push_elem(&mut out, "Genre", &m.genre);
    let pc = u64_to_string(m.page_count as u64);
    push_elem(&mut out, "PageCount", &pc);
    push_str_chars(&mut out, "</ComicInfo>");
    proof {
        assert(out@ =~= comic_info_xml_spec(*m));
    }
    crate::text::chars_to_string(&out)
}

} // verus!
