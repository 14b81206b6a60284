//! The selection engine: one poem out of a corpus, or the reason there is none.
use vstd::prelude::*;

use crate::draw::{any_below, next_below, seeded};
use crate::errors::{Error, StoreError};
use crate::order::{lemma_poem_order_total, ordered, poem_order, sort_corpus};
use crate::poem::{authors, corpus_view, has_poem, poems_by, Poem, PoemView};

verus! {

/// The names, as character sequences.
pub open spec fn names_view(names: Seq<String>) -> Seq<Seq<char>> {
    names.map_values(|s: String| s@)
}

/// A poem as a view, or none.
pub open spec fn view_of(r: Option<Poem>) -> Option<PoemView> {
    match r {
        Some(p) => Some(p@),
        None => None,
    }
}

/// The authors of a corpus in the fixed order (see `ordered`), each once.
pub open spec fn day_authors(c: Seq<PoemView>) -> Seq<Seq<char>> {
    authors(ordered(c))
}

/// The poem of the day for the draws `a` and `k`: poem `k` of author `a`,
/// authors and each author's poems taken in the fixed order, by author,
/// then title, then text.
///
/// With `a` drawn uniformly below the number of authors, and `k` uniformly
/// below that author's number of poems, every author has the same chance,
/// however many poems each wrote: a poem of an author with `n` poems carries
/// the weight `1/n`. This is the walk over cumulative weights with the
/// boundary `a + (k + 1)/n` for poem `k` of author `a`.
pub open spec fn day_choice(c: Seq<PoemView>, a: int, k: int) -> Option<PoemView> {
    let s = ordered(c);
    if 0 <= a < authors(s).len() && 0 <= k < poems_by(s, authors(s)[a]).len() {
        Some(poems_by(s, authors(s)[a])[k])
    } else {
        None
    }
}

proof fn lemma_ordered_same_poems(c: Seq<PoemView>)
    ensures
        ordered(c).len() == c.len(),
        ordered(c).to_multiset() == c.to_multiset(),
        forall|x: PoemView| ordered(c).contains(x) <==> c.contains(x),
{
    broadcast use vstd::seq_lib::group_to_multiset_ensures;

    lemma_poem_order_total();
    c.lemma_sort_by_ensures(poem_order());
    assert(ordered(c).to_multiset().len() == c.to_multiset().len());
    assert forall|x: PoemView| ordered(c).contains(x) <==> c.contains(x) by {
        assert(ordered(c).to_multiset().count(x) == c.to_multiset().count(x));
    }
}

proof fn lemma_poems_by_author(c: Seq<PoemView>, author: Seq<char>)
    ensures
        forall|j: int|
            0 <= j < poems_by(c, author).len() ==> (#[trigger] poems_by(c, author)[j]).author
                == author,
        forall|j: int|
            0 <= j < poems_by(c, author).len() ==> c.contains(#[trigger] poems_by(c, author)[j]),
        (exists|i: int| 0 <= i < c.len() && c[i].author == author) ==> poems_by(c, author).len()
            > 0,
    decreases c.len(),
{
    if c.len() > 0 {
        let prev = c.drop_last();
        lemma_poems_by_author(prev, author);
        assert forall|j: int| 0 <= j < poems_by(c, author).len() implies c.contains(
            #[trigger] poems_by(c, author)[j],
        ) by {
            if j < poems_by(prev, author).len() {
                let i = choose|i: int| 0 <= i < prev.len() && prev[i] == poems_by(prev, author)[j];
                assert(c[i] == prev[i]);
            } else {
                assert(c[c.len() - 1] == c.last());
            }
        }
        if exists|i: int| 0 <= i < c.len() && c[i].author == author {
            let i = choose|i: int| 0 <= i < c.len() && c[i].author == author;
            if i < c.len() - 1 {
                assert(prev[i] == c[i]);
            }
        }
    }
}

proof fn lemma_authors(c: Seq<PoemView>)
    ensures
        authors(c).no_duplicates(),
        forall|i: int| 0 <= i < c.len() ==> authors(c).contains(#[trigger] c[i].author),
        forall|j: int|
            0 <= j < authors(c).len() ==> exists|i: int|
                0 <= i < c.len() && c[i].author == #[trigger] authors(c)[j],
        c.len() > 0 ==> authors(c).len() > 0,
    decreases c.len(),
{
    if c.len() > 0 {
        let prev = c.drop_last();
        lemma_authors(prev);
        assert forall|i: int| 0 <= i < c.len() implies authors(c).contains(
            #[trigger] c[i].author,
        ) by {
            if i < c.len() - 1 {
                assert(prev[i] == c[i]);
                let j = choose|j: int|
                    0 <= j < authors(prev).len() && authors(prev)[j] == prev[i].author;
                assert(authors(c)[j] == authors(prev)[j]);
            } else if !authors(prev).contains(c.last().author) {
                assert(authors(c)[authors(prev).len() as int] == c.last().author);
            }
        }
        assert forall|j: int| 0 <= j < authors(c).len() implies exists|i: int|
            0 <= i < c.len() && c[i].author == #[trigger] authors(c)[j] by {
            if j < authors(prev).len() {
                let i = choose|i: int| 0 <= i < prev.len() && prev[i].author == authors(prev)[j];
                assert(c[i] == prev[i]);
            } else {
                assert(c[c.len() - 1] == c.last());
            }
        }
        assert(c[c.len() - 1] == c.last());
    }
}

/// Fairness of the poem of the day: each author of the corpus is named by
/// exactly one value of the author draw, and every poem draw below that
/// author's count gives one of that author's poems. So a uniform author draw
/// picks each author with the same chance, one over the number of authors.
pub proof fn lemma_day_choice_fair(c: Seq<PoemView>)
    ensures
        day_authors(c).no_duplicates(),
        forall|i: int| 0 <= i < c.len() ==> day_authors(c).contains(#[trigger] c[i].author),
        forall|a: int, k: int|
            0 <= a < day_authors(c).len() && 0 <= k < poems_by(ordered(c), day_authors(c)[a]).len()
                ==> {
                &&& #[trigger] day_choice(c, a, k) is Some
                &&& day_choice(c, a, k)->0.author == day_authors(c)[a]
                &&& c.contains(day_choice(c, a, k)->0)
            },
        forall|a: int|
            0 <= a < day_authors(c).len() ==> poems_by(ordered(c), #[trigger] day_authors(c)[a]).len()
                > 0,
        c.len() > 0 ==> day_authors(c).len() > 0,
{
    let s = ordered(c);
    lemma_ordered_same_poems(c);
    lemma_authors(s);
    assert forall|i: int| 0 <= i < c.len() implies day_authors(c).contains(
        #[trigger] c[i].author,
    ) by {
        assert(c.contains(c[i]));
        let j = choose|j: int| 0 <= j < s.len() && s[j] == c[i];
        assert(authors(s).contains(s[j].author));
    }
    assert forall|a: int, k: int|
        0 <= a < day_authors(c).len() && 0 <= k < poems_by(s, day_authors(c)[a]).len() implies {
        &&& #[trigger] day_choice(c, a, k) is Some
        &&& day_choice(c, a, k)->0.author == day_authors(c)[a]
        &&& c.contains(day_choice(c, a, k)->0)
    } by {
        lemma_poems_by_author(s, authors(s)[a]);
    }
    assert forall|a: int| 0 <= a < day_authors(c).len() implies poems_by(
        s,
        #[trigger] day_authors(c)[a],
    ).len() > 0 by {
        lemma_poems_by_author(s, authors(s)[a]);
    }
}

/// The poem of the day does not depend on the order in which the store
/// hands over the rows: two corpora that hold the same poems, as many times
/// each, give the same poem for the same draws.
pub proof fn lemma_day_choice_ignores_row_order(
    c1: Seq<PoemView>,
    c2: Seq<PoemView>,
    a: int,
    k: int,
)
    requires
        c1.to_multiset() == c2.to_multiset(),
    ensures
        day_choice(c1, a, k) == day_choice(c2, a, k),
{
    lemma_poem_order_total();
    lemma_ordered_same_poems(c1);
    lemma_ordered_same_poems(c2);
    c1.lemma_sort_by_ensures(poem_order());
    c2.lemma_sort_by_ensures(poem_order());
    vstd::seq_lib::lemma_sorted_unique(ordered(c1), ordered(c2), poem_order());
}

/// The poems of `author`, in corpus order.
fn collect_by_author(rows: &Vec<Poem>, author: &String) -> (r: Vec<Poem>)
    ensures
        corpus_view(r@) == poems_by(corpus_view(rows@), author@),
{
    let ghost c = corpus_view(rows@);
    let mut out: Vec<Poem> = Vec::new();
    let mut i: usize = 0;
    while i < rows.len()
        invariant
            i <= rows@.len(),
            c == corpus_view(rows@),
            corpus_view(out@) == poems_by(c.subrange(0, i as int), author@),
        decreases rows@.len() - i,
    {
        let ghost before = out@;
        if rows[i].author == *author {
            out.push(rows[i].duplicate());
        }
        proof {
            let head = c.subrange(0, i + 1);
            assert(head.drop_last() =~= c.subrange(0, i as int));
            assert(head.last() == rows@[i as int]@);
            assert(corpus_view(out@) =~= poems_by(head, author@));
        }
        i += 1;
    }
    assert(c.subrange(0, rows@.len() as int) =~= c);
    out
}

/// Whether `name` is among `names`.
fn contains_name(names: &Vec<String>, name: &String) -> (r: bool)
    ensures
        r == names_view(names@).contains(name@),
{
    let mut i: usize = 0;
    while i < names.len()
        invariant
            i <= names@.len(),
            forall|j: int| 0 <= j < i ==> names@[j]@ != name@,
        decreases names@.len() - i,
    {
        if names[i] == *name {
            assert(names_view(names@)[i as int] == name@);
            return true;
        }
        i += 1;
    }
    assert forall|j: int| 0 <= j < names_view(names@).len() implies names_view(names@)[j]
        != name@ by {
        assert(names_view(names@)[j] == names@[j]@);
    }
    false
}

/// The authors of the corpus, each once, in the order of their first poem.
fn author_list(rows: &Vec<Poem>) -> (r: Vec<String>)
    ensures
        names_view(r@) == authors(corpus_view(rows@)),
{
    let ghost c = corpus_view(rows@);
    let mut out: Vec<String> = Vec::new();
    let mut i: usize = 0;
    while i < rows.len()
        invariant
            i <= rows@.len(),
            c == corpus_view(rows@),
            names_view(out@) == authors(c.subrange(0, i as int)),
        decreases rows@.len() - i,
    {
        let known = contains_name(&out, &rows[i].author);
        if !known {
            out.push(rows[i].author.clone());
        }
        proof {
            let head = c.subrange(0, i + 1);
            assert(head.drop_last() =~= c.subrange(0, i as int));
            assert(head.last() == rows@[i as int]@);
            assert(names_view(out@) =~= authors(head));
        }
        i += 1;
    }
    assert(c.subrange(0, rows@.len() as int) =~= c);
    out
}

/// The first poem with exactly this author and title.
fn find_exact(rows: &Vec<Poem>, author: &String, title: &String) -> (r: Option<Poem>)
    ensures
        match r {
            Some(p) => p.author@ == author@ && p.title@ == title@ && corpus_view(rows@).contains(
                p@,
            ),
            None => !has_poem(corpus_view(rows@), author@, title@),
        },
{
    let ghost c = corpus_view(rows@);
    let mut i: usize = 0;
    while i < rows.len()
        invariant
            i <= rows@.len(),
            c == corpus_view(rows@),
            forall|j: int| 0 <= j < i ==> !(c[j].author == author@ && c[j].title == title@),
        decreases rows@.len() - i,
    {
        if rows[i].author == *author && rows[i].title == *title {
            assert(c[i as int] == rows@[i as int]@);
            return Some(rows[i].duplicate());
        }
        i += 1;
    }
    None
}

/// Poem `draw` of the corpus, if there is one.
pub fn pick_random(rows: &Vec<Poem>, draw: usize) -> (r: Option<Poem>)
    ensures
        match r {
            Some(p) => draw < rows@.len() && p@ == rows@[draw as int]@,
            None => draw >= rows@.len(),
        },
{
    if draw < rows.len() {
        Some(rows[draw].duplicate())
    } else {
        None
    }
}

/// Poem `draw` of those by `author`, in corpus order, if there is one.
pub fn pick_by_author(rows: &Vec<Poem>, author: &str, draw: usize) -> (r: Option<Poem>)
    ensures
        view_of(r) == (if draw < poems_by(corpus_view(rows@), author@).len() {
            Some(poems_by(corpus_view(rows@), author@)[draw as int])
        } else {
            None
        }),
{
    let mine = collect_by_author(rows, &author.to_owned());
    if draw < mine.len() {
        assert(mine@[draw as int]@ == corpus_view(mine@)[draw as int]);
        Some(mine[draw].duplicate())
    } else {
        None
    }
}

/// The poem of the day for the author draw `author_draw` and the poem draw
/// `poem_draw` (see `day_choice`).
pub fn pick_of_the_day(rows: &Vec<Poem>, author_draw: usize, poem_draw: usize) -> (r: Option<
    Poem,
>)
    ensures
        view_of(r) == day_choice(corpus_view(rows@), author_draw as int, poem_draw as int),
{
    let sorted = sort_corpus(rows);
    let names = author_list(&sorted);
    if author_draw < names.len() {
        assert(names@[author_draw as int]@ == names_view(names@)[author_draw as int]);
        let mine = collect_by_author(&sorted, &names[author_draw]);
        if poem_draw < mine.len() {
            assert(mine@[poem_draw as int]@ == corpus_view(mine@)[poem_draw as int]);
            return Some(mine[poem_draw].duplicate());
        }
    }
    None
}

impl Poem {
    /// Any poem of the corpus, each row with the same chance. Authors with
    /// more poems are chosen more often.
    pub fn random(store: &Result<Vec<Poem>, StoreError>) -> (r: Result<Poem, Error>)
        ensures
            match store {
                Err(_) => r == Err::<Poem, Error>(Error::StorageFailure),
                Ok(rows) => match r {
                    Ok(p) => corpus_view(rows@).contains(p@),
                    Err(e) => e == Error::NotFound && rows@.len() == 0,
                },
            },
    {
        match store {
            Err(_) => Err(Error::StorageFailure),
            Ok(rows) => {
                if rows.len() == 0 {
                    return Err(Error::NotFound);
                }
                let draw = any_below(rows.len());
                match pick_random(rows, draw) {
                    Some(p) => {
                        assert(corpus_view(rows@)[draw as int] == p@);
                        Ok(p)
                    },
                    None => Err(Error::NotFound),
                }
            },
        }
    }

    /// Any poem of `author`, each of theirs with the same chance. The author
    /// must match exactly, case and spaces included.
    pub fn random_by_author(author: &str, store: &Result<Vec<Poem>, StoreError>) -> (r: Result<
        Poem,
        Error,
    >)
        ensures
            match store {
                Err(_) => r == Err::<Poem, Error>(Error::StorageFailure),
                Ok(rows) => match r {
                    Ok(p) => p.author@ == author@ && poems_by(corpus_view(rows@), author@).contains(
                        p@,
                    ),
                    Err(e) => e == Error::NotFound && poems_by(corpus_view(rows@), author@).len()
                        == 0,
                },
            },
    {
        match store {
            Err(_) => Err(Error::StorageFailure),
            Ok(rows) => {
                let mine = collect_by_author(rows, &author.to_owned());
                if mine.len() == 0 {
                    return Err(Error::NotFound);
                }
                let draw = any_below(mine.len());
                proof {
                    lemma_poems_by_author(corpus_view(rows@), author@);
                    assert(mine@[draw as int]@ == corpus_view(mine@)[draw as int]);
                }
                Ok(mine[draw].duplicate())
            },
        }
    }

    /// The poem with exactly this author and title, case and spaces
    /// included. Where the store holds more than one, one of them.
    pub fn from_author_and_title(
        author: &str,
        title: &str,
        store: &Result<Vec<Poem>, StoreError>,
    ) -> (r: Result<Poem, Error>)
        ensures
            match store {
                Err(_) => r == Err::<Poem, Error>(Error::StorageFailure),
                Ok(rows) => match r {
                    Ok(p) => p.author@ == author@ && p.title@ == title@ && corpus_view(
                        rows@,
                    ).contains(p@),
                    Err(e) => e == Error::NotFound && !has_poem(
                        corpus_view(rows@),
                        author@,
                        title@,
                    ),
                },
            },
    {
        match store {
            Err(_) => Err(Error::StorageFailure),
            Ok(rows) => match find_exact(rows, &author.to_owned(), &title.to_owned()) {
                Some(p) => Ok(p),
                None => Err(Error::NotFound),
            },
        }
    }

    /// The poem of the day numbered `day` (days of the common era, for
    /// instance). The day seeds a generator, which draws an author and then
    /// one of that author's poems, so every author has the same chance
    /// whatever their number of poems. The same day and the same corpus give
    /// the same poem.
    pub fn poem_of_the_day(day: u64, store: &Result<Vec<Poem>, StoreError>) -> (r: Result<
        Poem,
        Error,
    >)
        ensures
            match store {
                Err(_) => r == Err::<Poem, Error>(Error::StorageFailure),
                Ok(rows) => match r {
                    Ok(p) => exists|a: int, k: int|
                        day_choice(corpus_view(rows@), a, k) == Some(#[trigger] p@),
                    Err(e) => e == Error::NotFound && rows@.len() == 0,
                },
            },
    {
        match store {
            Err(_) => Err(Error::StorageFailure),
            Ok(rows) => {
                let ghost c = corpus_view(rows@);
                let sorted = sort_corpus(rows);
                let names = author_list(&sorted);
                proof {
                    lemma_day_choice_fair(c);
                }
                if names.len() == 0 {
                    return Err(Error::NotFound);
                }
                let mut rng = seeded(day);
                let a = next_below(&mut rng, names.len());
                assert(names@[a as int]@ == names_view(names@)[a as int]);
                let mine = collect_by_author(&sorted, &names[a]);
                let k = next_below(&mut rng, mine.len());
                assert(mine@[k as int]@ == corpus_view(mine@)[k as int]);
                assert(day_choice(c, a as int, k as int) == Some(mine@[k as int]@));
                Ok(mine[k].duplicate())
            },
        }
    }
}

/// What a caller asks for.
pub enum SelectionRequest {
    /// Any poem.
    Random,
    /// Any poem of this author.
    RandomByAuthor(String),
    /// The poem with this author and this title.
    Exact(String, String),
    /// The poem of this day.
    OfTheDay(u64),
}

/// What `select` may give for `request` on the corpus `c`: a poem that the
/// request admits, or `NotFound` exactly where no poem could be chosen.
pub open spec fn admits(
    request: SelectionRequest,
    c: Seq<PoemView>,
    r: Result<PoemView, Error>,
) -> bool {
    match request {
        SelectionRequest::Random => match r {
            Ok(p) => c.contains(p),
            Err(e) => e == Error::NotFound && c.len() == 0,
        },
        SelectionRequest::RandomByAuthor(a) => match r {
            Ok(p) => p.author == a@ && poems_by(c, a@).contains(p),
            Err(e) => e == Error::NotFound && poems_by(c, a@).len() == 0,
        },
        SelectionRequest::Exact(a, t) => match r {
            Ok(p) => p.author == a@ && p.title == t@ && c.contains(p),
            Err(e) => e == Error::NotFound && !has_poem(c, a@, t@),
        },
        SelectionRequest::OfTheDay(_) => match r {
            Ok(p) => exists|a: int, k: int| day_choice(c, a, k) == Some(p),
            Err(e) => e == Error::NotFound && c.len() == 0,
        },
    }
}

/// A result with its poem as a view.
pub open spec fn result_view(r: Result<Poem, Error>) -> Result<PoemView, Error> {
    match r {
        Ok(p) => Ok(p@),
        Err(e) => Err(e),
    }
}

/// What the store gave, with its poems as views.
pub open spec fn store_view(store: Result<Vec<Poem>, StoreError>) -> Result<
    Seq<PoemView>,
    StoreError,
> {
    match store {
        Ok(rows) => Ok(corpus_view(rows@)),
        Err(e) => Err(e),
    }
}

/// What `select` may give for `request` when the store gave `store`.
pub open spec fn outcome(
    request: SelectionRequest,
    store: Result<Seq<PoemView>, StoreError>,
    r: Result<PoemView, Error>,
) -> bool {
    match store {
        Err(_) => r == Err::<PoemView, Error>(Error::StorageFailure),
        Ok(c) => admits(request, c, r),
    }
}

/// Resolves a request against what the store gave.
pub fn select(request: &SelectionRequest, store: &Result<Vec<Poem>, StoreError>) -> (r: Result<
    Poem,
    Error,
>)
    ensures
        outcome(*request, store_view(*store), result_view(r)),
{
    match request {
        SelectionRequest::Random => Poem::random(store),
        SelectionRequest::RandomByAuthor(author) => Poem::random_by_author(author.as_str(), store),
        SelectionRequest::Exact(author, title) => Poem::from_author_and_title(
            author.as_str(),
            title.as_str(),
            store,
        ),
        SelectionRequest::OfTheDay(day) => Poem::poem_of_the_day(*day, store),
    }
}

/// An outage of the store gives `StorageFailure` for every request: never a
/// poem, never `NotFound`.
pub proof fn lemma_outage_fails_every_request(
    request: SelectionRequest,
    fault: StoreError,
    r: Result<PoemView, Error>,
)
    requires
        outcome(request, Err(fault), r),
    ensures
        r == Err::<PoemView, Error>(Error::StorageFailure),
{
}

/// On an empty corpus every request gives `NotFound`, not `StorageFailure`.
pub proof fn lemma_empty_corpus_not_found(request: SelectionRequest, r: Result<PoemView, Error>)
    requires
        outcome(request, Ok(Seq::<PoemView>::empty()), r),
    ensures
        r == Err::<PoemView, Error>(Error::NotFound),
{
    let c = Seq::<PoemView>::empty();
    lemma_ordered_same_poems(c);
    assert(ordered(c) =~= c);
    assert(authors(c).len() == 0);
    if let SelectionRequest::RandomByAuthor(a) = request {
        assert(poems_by(c, a@).len() == 0);
    }
}

/// Where no two poems share an author and a title, a poem found by its
/// author and title is the one the corpus holds under that key.
pub proof fn lemma_exact_is_unique(
    c: Seq<PoemView>,
    author: String,
    title: String,
    i: int,
    r: Result<PoemView, Error>,
)
    requires
        forall|j: int, l: int|
            0 <= j < c.len() && 0 <= l < c.len() && c[j].author == c[l].author && c[j].title
                == c[l].title ==> j == l,
        0 <= i < c.len(),
        c[i].author == author@,
        c[i].title == title@,
        outcome(SelectionRequest::Exact(author, title), Ok(c), r),
    ensures
        r == Ok::<PoemView, Error>(c[i]),
{
    assert(has_poem(c, author@, title@));
}

} // verus!
