//! The mobile-app request signature: insert the app key, sort the
//! parameters, URL-encode them as a query string, append the app secret
//! and take the MD5. The signature depends only on the multiset of
//! parameters — insertion order never changes it.
use vstd::prelude::*;
use vstd::relations::{sorted_by, total_ordering};
use vstd::seq_lib::lemma_sorted_unique;
use vstd::string::*;

use crate::codec::{hex_lower, hex_of};
use crate::digest::{md5_digest, md5_of};
use crate::text::push_all;

verus! {

/// Byte-wise lexicographic order; a prefix comes first.
pub open spec fn lex_le(a: Seq<u8>, b: Seq<u8>) -> bool
    decreases a.len(),
{
    if a.len() == 0 {
        true
    } else if b.len() == 0 {
        false
    } else if a[0] < b[0] {
        true
    } else if a[0] > b[0] {
        false
    } else {
        lex_le(a.drop_first(), b.drop_first())
    }
}

/// Parameter pairs ordered by key, ties broken by value, so the order is
/// total even with repeated keys.
pub open spec fn pair_le(x: (Seq<u8>, Seq<u8>), y: (Seq<u8>, Seq<u8>)) -> bool {
    if x.0 == y.0 {
        lex_le(x.1, y.1)
    } else {
        lex_le(x.0, y.0)
    }
}

pub open spec fn pair_le_fn() -> spec_fn((Seq<u8>, Seq<u8>), (Seq<u8>, Seq<u8>)) -> bool {
    |x: (Seq<u8>, Seq<u8>), y: (Seq<u8>, Seq<u8>)| pair_le(x, y)
}

proof fn lemma_lex_refl(a: Seq<u8>)
    ensures
        lex_le(a, a),
    decreases a.len(),
{
    if a.len() > 0 {
        lemma_lex_refl(a.drop_first());
    }
}

proof fn lemma_lex_total(a: Seq<u8>, b: Seq<u8>)
    ensures
        lex_le(a, b) || lex_le(b, a),
    decreases a.len(),
{
    if a.len() > 0 && b.len() > 0 && a[0] == b[0] {
        lemma_lex_total(a.drop_first(), b.drop_first());
    }
}

proof fn lemma_lex_antisym(a: Seq<u8>, b: Seq<u8>)
    requires
        lex_le(a, b),
        lex_le(b, a),
    ensures
        a == b,
    decreases a.len(),
{
    if a.len() == 0 {
        assert(b.len() == 0);
        assert(a =~= b);
    } else {
        assert(b.len() > 0);
        assert(a[0] == b[0]);
        lemma_lex_antisym(a.drop_first(), b.drop_first());
        assert(a.drop_first() =~= b.drop_first());
        assert(a.len() == b.len());
        assert forall|i: int| 0 <= i < a.len() implies a[i] == b[i] by {
            if i > 0 {
                assert(a[i] == a.drop_first()[i - 1]);
                assert(b[i] == b.drop_first()[i - 1]);
            }
        }
        assert(a =~= b);
    }
}

proof fn lemma_lex_trans(a: Seq<u8>, b: Seq<u8>, c: Seq<u8>)
    requires
        lex_le(a, b),
        lex_le(b, c),
    ensures
        lex_le(a, c),
    decreases a.len(),
{
    if a.len() == 0 {
    } else {
        assert(b.len() > 0);
        if b[0] == a[0] && c.len() > 0 && c[0] == b[0] {
            lemma_lex_trans(a.drop_first(), b.drop_first(), c.drop_first());
        }
    }
}

/// The pair order is a total order, as the uniqueness of sorted sequences
/// requires.
pub proof fn lemma_pair_total_ordering()
    ensures
        total_ordering(pair_le_fn()),
{
    let r = pair_le_fn();
    assert forall|x: (Seq<u8>, Seq<u8>)| #[trigger] r(x, x) by {
        lemma_lex_refl(x.1);
    }
    assert forall|x: (Seq<u8>, Seq<u8>), y: (Seq<u8>, Seq<u8>)| #[trigger] r(x, y) && #[trigger] r(
        y,
        x,
    ) implies x == y by {
        if x.0 == y.0 {
            lemma_lex_antisym(x.1, y.1);
        } else {
            lemma_lex_antisym(x.0, y.0);
        }
    }
    assert forall|x: (Seq<u8>, Seq<u8>), y: (Seq<u8>, Seq<u8>), z: (Seq<u8>, Seq<u8>)|
        #[trigger] r(x, y) && #[trigger] r(y, z) implies r(x, z) by {
        if x.0 == y.0 && y.0 == z.0 {
            lemma_lex_trans(x.1, y.1, z.1);
        } else if x.0 == y.0 {
        } else if y.0 == z.0 {
        } else {
            lemma_lex_trans(x.0, y.0, z.0);
            if x.0 == z.0 {
                lemma_lex_antisym(x.0, y.0);
            }
        }
    }
    assert forall|x: (Seq<u8>, Seq<u8>), y: (Seq<u8>, Seq<u8>)| #[trigger] r(x, y) || #[trigger] r(
        y,
        x,
    ) by {
        if x.0 == y.0 {
            lemma_lex_total(x.1, y.1);
        } else {
            lemma_lex_total(x.0, y.0);
        }
    }
}

/// The unreserved URL characters: letters, digits, `-`, `_`, `.`, `~`.
pub open spec fn is_unreserved(b: u8) -> bool {
    (0x30 <= b && b <= 0x39) || (0x41 <= b && b <= 0x5a) || (0x61 <= b && b <= 0x7a) || b == 0x2d
        || b == 0x5f || b == 0x2e || b == 0x7e
}

/// An uppercase hex digit byte for a value in `0..16`.
pub open spec fn hex_upper_byte(n: int) -> u8 {
    if n < 10 {
        (0x30 + n) as u8
    } else {
        (0x41 + n - 10) as u8
    }
}

/// Percent-encoding: unreserved bytes pass, the rest become `%XX` with
/// uppercase hex.
pub open spec fn percent_encode_spec(s: Seq<u8>) -> Seq<u8>
    decreases s.len(),
{
    if s.len() == 0 {
        Seq::empty()
    } else {
        let head = if is_unreserved(s[0]) {
            seq![s[0]]
        } else {
            seq![0x25u8, hex_upper_byte(s[0] as int / 16), hex_upper_byte(s[0] as int % 16)]
        };
        head + percent_encode_spec(s.drop_first())
    }
}

proof fn lemma_percent_encode_snoc(s: Seq<u8>, i: int)
    requires
        0 <= i < s.len(),
    ensures
        percent_encode_spec(s.take(i + 1)) == percent_encode_spec(s.take(i))
            + percent_encode_spec(seq![s[i]]),
    decreases i,
{
    if i == 0 {
        assert(s.take(0) =~= Seq::<u8>::empty());
        assert(s.take(1) =~= seq![s[0]]);
        assert(percent_encode_spec(s.take(1)) =~= percent_encode_spec(Seq::<u8>::empty())
            + percent_encode_spec(seq![s[0]]));
    } else {
        lemma_percent_encode_snoc(s.drop_first(), i - 1);
        let a = s.take(i + 1);
        let b = s.take(i);
        assert(a.drop_first() =~= s.drop_first().take(i));
        assert(b.drop_first() =~= s.drop_first().take(i - 1));
        assert(seq![s.drop_first()[i - 1]] =~= seq![s[i]]);
        assert(percent_encode_spec(a) =~= percent_encode_spec(b) + percent_encode_spec(
            seq![s[i]],
        ));
    }
}

proof fn lemma_percent_encode_single(b: u8)
    ensures
        percent_encode_spec(seq![b]) == if is_unreserved(b) {
            seq![b]
        } else {
            seq![0x25u8, hex_upper_byte(b as int / 16), hex_upper_byte(b as int % 16)]
        },
{
    assert(seq![b].drop_first() =~= Seq::<u8>::empty());
    let head = if is_unreserved(b) {
        seq![b]
    } else {
        seq![0x25u8, hex_upper_byte(b as int / 16), hex_upper_byte(b as int % 16)]
    };
    assert(percent_encode_spec(seq![b]) =~= head + percent_encode_spec(Seq::<u8>::empty()));
    assert(head + Seq::<u8>::empty() =~= head);
}

fn is_unreserved_exec(b: u8) -> (r: bool)
    ensures
        r == is_unreserved(b),
{
    (0x30 <= b && b <= 0x39) || (0x41 <= b && b <= 0x5a) || (0x61 <= b && b <= 0x7a) || b == 0x2d
        || b == 0x5f || b == 0x2e || b == 0x7e
}

fn hex_upper_exec(n: u8) -> (r: u8)
    requires
        n < 16,
    ensures
        r == hex_upper_byte(n as int),
{
    if n < 10 {
        0x30 + n
    } else {
        0x41 + n - 10
    }
}

/// Append the percent-encoding of `s` to `out`.
pub fn push_percent_encoded(out: &mut Vec<u8>, s: &Vec<u8>)
    ensures
        final(out)@ == old(out)@ + percent_encode_spec(s@),
{
    let mut i: usize = 0;
    while i < s.len()
        invariant
            i <= s@.len(),
            out@ == old(out)@ + percent_encode_spec(s@.take(i as int)),
        decreases s@.len() - i,
    {
        let b = s[i];
        if is_unreserved_exec(b) {
            out.push(b);
        } else {
            out.push(0x25);
            out.push(hex_upper_exec(b / 16));
            out.push(hex_upper_exec(b % 16));
        }
        proof {
            lemma_percent_encode_snoc(s@, i as int);
            lemma_percent_encode_single(s@[i as int]);
            assert(out@ =~= old(out)@ + percent_encode_spec(s@.take(i + 1)));
        }
        i = i + 1;
    }
    proof {
        assert(s@.take(s@.len() as int) =~= s@);
    }
}

/// The query string of a sorted parameter list: `k=v` pairs joined by `&`,
/// keys and values percent-encoded.
pub open spec fn query_bytes_of(s: Seq<(Seq<u8>, Seq<u8>)>) -> Seq<u8>
    decreases s.len(),
{
    if s.len() == 0 {
        Seq::empty()
    } else {
        let head = percent_encode_spec(s[0].0) + seq![0x3du8] + percent_encode_spec(s[0].1);
        if s.len() == 1 {
            head
        } else {
            head + seq![0x26u8] + query_bytes_of(s.drop_first())
        }
    }
}

/// The UTF-8 bytes of a string view.
pub open spec fn str_bytes(s: Seq<char>) -> Seq<u8> {
    vstd::utf8::encode_utf8(s)
}

/// The byte view of a parameter list.
pub open spec fn pairs_view(s: Seq<(String, String)>) -> Seq<(Seq<u8>, Seq<u8>)> {
    s.map_values(|p: (String, String)| (str_bytes(p.0@), str_bytes(p.1@)))
}

/// Relies on std's slice sort (sort_by): it reorders the pairs into a
/// sequence sorted by the comparator — here the verified byte-wise pair
/// order — leaving the multiset of pairs unchanged.
#[verifier::external_body]
fn sort_pairs(v: &mut Vec<(String, String)>)
    ensures
        sorted_by(pairs_view(final(v)@), pair_le_fn()),
        pairs_view(final(v)@).to_multiset() == pairs_view(old(v)@).to_multiset(),
{
    v.sort_by(|a, b| {
        let ka = a.0.as_bytes();
        let kb = b.0.as_bytes();
        if ka == kb {
            a.1.as_bytes().cmp(b.1.as_bytes())
        } else {
            ka.cmp(kb)
        }
    });
}

/// Build the query bytes of a sorted parameter list.
fn build_query(items: &Vec<(String, String)>) -> (r: Vec<u8>)
    ensures
        r@ == query_bytes_of(pairs_view(items@)),
{
    let mut out: Vec<u8> = Vec::new();
    let mut i: usize = 0;
    while i < items.len()
        invariant
            i <= items@.len(),
            out@ == query_bytes_of(pairs_view(items@).take(i as int)) + if i > 0 && i
                < items@.len() {
                seq![0x26u8]
            } else {
                Seq::<u8>::empty()
            },
        decreases items@.len() - i,
    {
        let kb = items[i].0.as_str().as_bytes_vec();
        let vb = items[i].1.as_str().as_bytes_vec();
        push_percent_encoded(&mut out, &kb);
        out.push(0x3d);
        push_percent_encoded(&mut out, &vb);
        if i + 1 < items.len() {
            out.push(0x26);
        }
        proof {
            lemma_query_snoc(pairs_view(items@), i as int);
            assert(pairs_view(items@)[i as int].0 == kb@);
            assert(pairs_view(items@)[i as int].1 == vb@);
            assert(out@ =~= query_bytes_of(pairs_view(items@).take(i + 1)) + if i + 1 > 0 && i + 1
                < items@.len() {
                seq![0x26u8]
            } else {
                Seq::<u8>::empty()
            });
        }
        i = i + 1;
    }
    proof {
        assert(pairs_view(items@).take(items@.len() as int) =~= pairs_view(items@));
        if items@.len() == 0 {
            assert(out@ =~= query_bytes_of(pairs_view(items@)));
        } else {
            assert(out@ =~= query_bytes_of(pairs_view(items@)));
        }
    }
    out
}

proof fn lemma_query_snoc(s: Seq<(Seq<u8>, Seq<u8>)>, i: int)
    requires
        0 <= i < s.len(),
    ensures
        query_bytes_of(s.take(i + 1)) == query_bytes_of(s.take(i)) + if i > 0 {
            seq![0x26u8]
        } else {
            Seq::<u8>::empty()
        } + percent_encode_spec(s[i].0) + seq![0x3du8] + percent_encode_spec(s[i].1),
    decreases i,
{
    if i == 0 {
        assert(s.take(0) =~= Seq::<(Seq<u8>, Seq<u8>)>::empty());
        assert(s.take(1) =~= seq![s[0]]);
        assert(seq![s[0]].len() == 1);
        assert(query_bytes_of(s.take(1)) =~= query_bytes_of(s.take(0)) + Seq::<u8>::empty()
            + percent_encode_spec(s[0].0) + seq![0x3du8] + percent_encode_spec(s[0].1));
    } else {
        lemma_query_snoc(s.drop_first(), i - 1);
        let a = s.take(i + 1);
        let b = s.take(i);
        assert(a.drop_first() =~= s.drop_first().take(i));
        assert(b.drop_first() =~= s.drop_first().take(i - 1));
        assert(a[0] == s[0] && b[0] == s[0]);
        assert(s.drop_first()[i - 1] == s[i]);
        if i == 1 {
            assert(query_bytes_of(a) =~= query_bytes_of(b) + seq![0x26u8] + percent_encode_spec(
                s[i].0,
            ) + seq![0x3du8] + percent_encode_spec(s[i].1));
        } else {
            assert(query_bytes_of(a) =~= query_bytes_of(b) + seq![0x26u8] + percent_encode_spec(
                s[i].0,
            ) + seq![0x3du8] + percent_encode_spec(s[i].1));
        }
    }
}

/// Sign a parameter map: insert `appkey`, sort, URL-encode as a query,
/// append the app secret and take the lowercase-hex MD5. The sorted
/// parameter sequence the signature is computed over is the unique sorted
/// arrangement of the parameters (see the order-independence law), so the
/// result depends only on their multiset.
pub fn app_sign(params: &Vec<(String, String)>, app_key: &String, app_sec: &String) -> (r: String)
    ensures
        exists|t: Seq<(Seq<u8>, Seq<u8>)>|
            #![trigger sorted_by(t, pair_le_fn())]
            {
                &&& sorted_by(t, pair_le_fn())
                &&& t.to_multiset() == pairs_view(params@).push(
                    (str_bytes("appkey"@), str_bytes(app_key@)),
                ).to_multiset()
                &&& r@ == hex_of(md5_of(query_bytes_of(t) + str_bytes(app_sec@)))
            },
{
    let mut items: Vec<(String, String)> = Vec::new();
    let mut i: usize = 0;
    while i < params.len()
        invariant
            i <= params@.len(),
            items@.len() == i,
            pairs_view(items@) == pairs_view(params@).take(i as int),
        decreases params@.len() - i,
    {
        items.push((params[i].0.clone(), params[i].1.clone()));
        proof {
            assert(pairs_view(items@) =~= pairs_view(params@).take(i + 1));
        }
        i = i + 1;
    }
    proof {
        assert(pairs_view(params@).take(params@.len() as int) =~= pairs_view(params@));
    }
    items.push((String::from_str("appkey"), app_key.clone()));
    proof {
        assert(pairs_view(items@) =~= pairs_view(params@).push(
            (str_bytes("appkey"@), str_bytes(app_key@)),
        ));
    }
    sort_pairs(&mut items);
    let mut query = build_query(&items);
    let sec = app_sec.as_str().as_bytes_vec();
    push_all(&mut query, &sec);
    let digest = md5_digest(&query);
    let r = hex_lower(&digest);
    proof {
        let t = pairs_view(items@);
        assert(sorted_by(t, pair_le_fn()));
        assert(query@ =~= query_bytes_of(t) + str_bytes(app_sec@));
    }
    r
}

/// Two parameter lists with the same parameters in any order sign to the
/// same value: the sorted arrangements coincide.
pub proof fn lemma_sign_order_independent(
    t1: Seq<(Seq<u8>, Seq<u8>)>,
    t2: Seq<(Seq<u8>, Seq<u8>)>,
)
    requires
        sorted_by(t1, pair_le_fn()),
        sorted_by(t2, pair_le_fn()),
        t1.to_multiset() == t2.to_multiset(),
    ensures
        t1 == t2,
{
    lemma_pair_total_ordering();
    lemma_sorted_unique(t1, t2, pair_le_fn());
}

} // verus!
