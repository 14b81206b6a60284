//! Poems and the corpus they are chosen from.
use vstd::prelude::*;
use vstd::string::StringExecFns;

use crate::codec::{encode, encodes};

verus! {

/// A poem as the store holds it. Its identity is the pair (author, title).
#[derive(Clone, Debug, PartialEq, Eq)]
pub struct Poem {
    pub title: String,
    pub author: String,
    /// The text, line breaks included.
    pub content: String,
}

/// What a poem holds, as character sequences.
pub ghost struct PoemView {
    pub title: Seq<char>,
    pub author: Seq<char>,
    pub content: Seq<char>,
}

impl View for Poem {
    type V = PoemView;

    open spec fn view(&self) -> PoemView {
        PoemView { title: self.title@, author: self.author@, content: self.content@ }
    }
}

/// The poems of a corpus, in the store's order.
pub open spec fn corpus_view(rows: Seq<Poem>) -> Seq<PoemView> {
    rows.map_values(|p: Poem| p@)
}

/// The poems of `author`, in corpus order.
pub open spec fn poems_by(c: Seq<PoemView>, author: Seq<char>) -> Seq<PoemView>
    decreases c.len(),
{
    if c.len() == 0 {
        seq![]
    } else if c.last().author == author {
        poems_by(c.drop_last(), author).push(c.last())
    } else {
        poems_by(c.drop_last(), author)
    }
}

/// The authors of a corpus, each once, in the order of their first poem.
pub open spec fn authors(c: Seq<PoemView>) -> Seq<Seq<char>>
    decreases c.len(),
{
    if c.len() == 0 {
        seq![]
    } else if authors(c.drop_last()).contains(c.last().author) {
        authors(c.drop_last())
    } else {
        authors(c.drop_last()).push(c.last().author)
    }
}

/// The poem with this author and title, if the corpus holds one.
pub open spec fn has_poem(c: Seq<PoemView>, author: Seq<char>, title: Seq<char>) -> bool {
    exists|i: int| 0 <= i < c.len() && c[i].author == author && c[i].title == title
}

impl Poem {
    pub fn new(title: String, author: String, content: String) -> (r: Poem)
        ensures
            r@ == (PoemView { title: title@, author: author@, content: content@ }),
    {
        Poem { title, author, content }
    }

    /// The path of this poem's page: `/poem/`, the encoded author, `/`, and
    /// the encoded title.
    pub fn path(&self) -> (r: String)
        ensures
            exists|a: Seq<char>, t: Seq<char>|
                encodes(a, self.author@) && encodes(t, self.title@) && r@ == seq![
                    '/',
                    'p',
                    'o',
                    'e',
                    'm',
                    '/',
                ] + a + seq!['/'] + t,
    {
        let author = encode(self.author.as_str());
        let title = encode(self.title.as_str());
        let mut r = String::from_str("/poem/");
        r.append(author.as_str());
        r.append("/");
        r.append(title.as_str());
        proof {
            reveal_strlit("/poem/");
            reveal_strlit("/");
            assert(r@ =~= seq!['/', 'p', 'o', 'e', 'm', '/'] + author@ + seq!['/'] + title@);
        }
        r
    }

    /// A copy of this poem.
    pub fn duplicate(&self) -> (r: Poem)
        ensures
            r@ == self@,
    {
        Poem {
            title: self.title.clone(),
            author: self.author.clone(),
            content: self.content.clone(),
        }
    }
}

} // verus!
