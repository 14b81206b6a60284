//! The fixed order of a corpus: by author, then title, then text, each
//! compared byte by byte over its UTF-8 form.
use vstd::prelude::*;
use vstd::relations::{sorted_by, total_ordering};
use vstd::utf8::encode_utf8;

use crate::poem::{corpus_view, Poem, PoemView};

verus! {

/// Lexicographic order on byte strings; a prefix comes first.
pub open spec fn bytes_leq(x: Seq<u8>, y: Seq<u8>) -> bool
    decreases x.len(),
{
    if x.len() == 0 {
        true
    } else if y.len() == 0 {
        false
    } else if x[0] != y[0] {
        x[0] < y[0]
    } else {
        bytes_leq(x.drop_first(), y.drop_first())
    }
}

/// Order on text: that of its UTF-8 bytes, which is also the order of its
/// code points.
pub open spec fn text_leq(x: Seq<char>, y: Seq<char>) -> bool {
    bytes_leq(encode_utf8(x), encode_utf8(y))
}

/// Order on poems: by author, then title, then text.
pub open spec fn poem_leq(p: PoemView, q: PoemView) -> bool {
    if p.author != q.author {
        text_leq(p.author, q.author)
    } else if p.title != q.title {
        text_leq(p.title, q.title)
    } else {
        text_leq(p.content, q.content)
    }
}

/// `poem_leq` as a relation.
pub open spec fn poem_order() -> spec_fn(PoemView, PoemView) -> bool {
    |p: PoemView, q: PoemView| poem_leq(p, q)
}

/// The corpus in the fixed order. It depends only on which poems the corpus
/// holds, and how often, not on the order they came in.
pub open spec fn ordered(c: Seq<PoemView>) -> Seq<PoemView> {
    c.sort_by(poem_order())
}

proof fn lemma_bytes_leq_reflexive(x: Seq<u8>)
    ensures
        bytes_leq(x, x),
    decreases x.len(),
{
    if x.len() > 0 {
        lemma_bytes_leq_reflexive(x.drop_first());
    }
}

proof fn lemma_bytes_leq_connected(x: Seq<u8>, y: Seq<u8>)
    ensures
        bytes_leq(x, y) || bytes_leq(y, x),
    decreases x.len(),
{
    if x.len() > 0 && y.len() > 0 && x[0] == y[0] {
        lemma_bytes_leq_connected(x.drop_first(), y.drop_first());
    }
}

proof fn lemma_bytes_leq_antisymmetric(x: Seq<u8>, y: Seq<u8>)
    requires
        bytes_leq(x, y),
        bytes_leq(y, x),
    ensures
        x == y,
    decreases x.len(),
{
    if x.len() == 0 {
        assert(x =~= y);
    } else {
        lemma_bytes_leq_antisymmetric(x.drop_first(), y.drop_first());
        assert(x =~= seq![x[0]] + x.drop_first());
        assert(y =~= seq![y[0]] + y.drop_first());
    }
}

proof fn lemma_bytes_leq_transitive(x: Seq<u8>, y: Seq<u8>, z: Seq<u8>)
    requires
        bytes_leq(x, y),
        bytes_leq(y, z),
    ensures
        bytes_leq(x, z),
    decreases x.len(),
{
    if x.len() > 0 && x[0] == y[0] && y[0] == z[0] {
        lemma_bytes_leq_transitive(x.drop_first(), y.drop_first(), z.drop_first());
    }
}

proof fn lemma_text_leq_order()
    ensures
        forall|x: Seq<char>| #[trigger] text_leq(x, x),
        forall|x: Seq<char>, y: Seq<char>| #[trigger] text_leq(x, y) || #[trigger] text_leq(y, x),
        forall|x: Seq<char>, y: Seq<char>|
            #[trigger] text_leq(x, y) && #[trigger] text_leq(y, x) ==> x == y,
        forall|x: Seq<char>, y: Seq<char>, z: Seq<char>|
            #[trigger] text_leq(x, y) && #[trigger] text_leq(y, z) ==> text_leq(x, z),
{
    assert forall|x: Seq<char>| #[trigger] text_leq(x, x) by {
        lemma_bytes_leq_reflexive(encode_utf8(x));
    }
    assert forall|x: Seq<char>, y: Seq<char>| #[trigger] text_leq(x, y) || #[trigger] text_leq(
        y,
        x,
    ) by {
        lemma_bytes_leq_connected(encode_utf8(x), encode_utf8(y));
    }
    assert forall|x: Seq<char>, y: Seq<char>|
        #[trigger] text_leq(x, y) && #[trigger] text_leq(y, x) implies x == y by {
        lemma_bytes_leq_antisymmetric(encode_utf8(x), encode_utf8(y));
        vstd::utf8::encode_utf8_decode_utf8(x);
        vstd::utf8::encode_utf8_decode_utf8(y);
    }
    assert forall|x: Seq<char>, y: Seq<char>, z: Seq<char>|
        #[trigger] text_leq(x, y) && #[trigger] text_leq(y, z) implies text_leq(x, z) by {
        lemma_bytes_leq_transitive(encode_utf8(x), encode_utf8(y), encode_utf8(z));
    }
}

/// `poem_leq` is a total order.
pub proof fn lemma_poem_order_total()
    ensures
        total_ordering(poem_order()),
{
    lemma_text_leq_order();
    assert forall|p: PoemView, q: PoemView|
        poem_leq(p, q) && poem_leq(q, p) implies p == q by {
    }
    assert forall|p: PoemView, q: PoemView, r: PoemView|
        poem_leq(p, q) && poem_leq(q, r) implies poem_leq(p, r) by {
    }
    assert forall|p: PoemView, q: PoemView| poem_leq(p, q) || poem_leq(q, p) by {
    }
}

/// Whether `a` comes before `b` or equals it, as text.
fn text_le(a: &String, b: &String) -> (r: bool)
    ensures
        r == text_leq(a@, b@),
{
    let x = a.as_str().as_bytes();
    let y = b.as_str().as_bytes();
    let mut i: usize = 0;
    assert(x@.subrange(0, x@.len() as int) =~= x@);
    assert(y@.subrange(0, y@.len() as int) =~= y@);
    loop
        invariant
            x@ == encode_utf8(a@),
            y@ == encode_utf8(b@),
            i <= x@.len(),
            i <= y@.len(),
            text_leq(a@, b@) == bytes_leq(
                x@.subrange(i as int, x@.len() as int),
                y@.subrange(i as int, y@.len() as int),
            ),
        decreases x@.len() - i,
    {
        if i == x.len() {
            return true;
        }
        if i == y.len() {
            return false;
        }
        if x[i] != y[i] {
            return x[i] < y[i];
        }
        assert(x@.subrange(i as int, x@.len() as int).drop_first() =~= x@.subrange(
            i + 1,
            x@.len() as int,
        ));
        assert(y@.subrange(i as int, y@.len() as int).drop_first() =~= y@.subrange(
            i + 1,
            y@.len() as int,
        ));
        i += 1;
    }
}

/// Whether `p` comes before `q` or equals it, in the fixed order.
pub fn poem_le(p: &Poem, q: &Poem) -> (r: bool)
    ensures
        r == poem_leq(p@, q@),
{
    if !(p.author == q.author) {
        text_le(&p.author, &q.author)
    } else if !(p.title == q.title) {
        text_le(&p.title, &q.title)
    } else {
        text_le(&p.content, &q.content)
    }
}

/// A copy of the corpus in the fixed order.
pub fn sort_corpus(rows: &Vec<Poem>) -> (r: Vec<Poem>)
    ensures
        corpus_view(r@) == ordered(corpus_view(rows@)),
{
    let ghost c = corpus_view(rows@);
    let ghost leq = poem_order();
    proof {
        lemma_poem_order_total();
    }
    let mut out: Vec<Poem> = Vec::new();
    let mut i: usize = 0;
    assert(corpus_view(out@) =~= c.subrange(0, 0));
    while i < rows.len()
        invariant
            i <= rows@.len(),
            c == corpus_view(rows@),
            leq == poem_order(),
            total_ordering(leq),
            sorted_by(corpus_view(out@), leq),
            corpus_view(out@).to_multiset() == c.subrange(0, i as int).to_multiset(),
        decreases rows@.len() - i,
    {
        let p = rows[i].duplicate();
        let mut pos: usize = 0;
        loop
            invariant
                pos <= out@.len(),
                forall|j: int| 0 <= j < pos ==> poem_leq(#[trigger] out@[j]@, p@),
            ensures
                pos <= out@.len(),
                forall|j: int| 0 <= j < pos ==> poem_leq(#[trigger] out@[j]@, p@),
                pos == out@.len() || !poem_leq(out@[pos as int]@, p@),
            decreases out@.len() - pos,
        {
            if pos == out.len() {
                break;
            }
            if !poem_le(&out[pos], &p) {
                break;
            }
            pos += 1;
        }
        let ghost before = corpus_view(out@);
        proof {
            assert forall|j: int| pos <= j < before.len() implies poem_leq(
                p@,
                #[trigger] before[j],
            ) by {
                assert(leq(before[pos as int], p@) || leq(p@, before[pos as int]));
                if j > pos {
                    assert(leq(before[pos as int], before[j]));
                }
            }
        }
        out.insert(pos, p);
        proof {
            let after = corpus_view(out@);
            assert(after =~= before.insert(pos as int, rows@[i as int]@));
            assert forall|j: int, l: int| 0 <= j < l < after.len() implies #[trigger] leq(
                after[j],
                after[l],
            ) by {
                if l < pos {
                    assert(leq(before[j], before[l]));
                } else if l == pos {
                    assert(after[j] == out@[j]@);
                } else if j > pos {
                    assert(leq(before[j - 1], before[l - 1]));
                } else if j < pos {
                    assert(after[j] == out@[j]@);
                    assert(poem_leq(after[j], p@));
                    assert(poem_leq(p@, after[l]));
                } else {
                }
            }
            vstd::seq_lib::to_multiset_insert(before, pos as int, rows@[i as int]@);
            assert(c.subrange(0, i + 1) =~= c.subrange(0, i as int).push(c[i as int]));
            vstd::seq_lib::to_multiset_build(c.subrange(0, i as int), c[i as int]);
        }
        i += 1;
    }
    proof {
        assert(c.subrange(0, rows@.len() as int) =~= c);
        c.lemma_sort_by_ensures(leq);
        vstd::seq_lib::lemma_sorted_unique(corpus_view(out@), c.sort_by(leq), leq);
    }
    out
}

} // verus!
