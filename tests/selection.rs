use poem_select::{
    pick_by_author, pick_of_the_day, pick_random, select, Error, Poem, SelectionRequest,
    StoreError,
};

fn poem(author: &str, title: &str) -> Poem {
    Poem::new(title.to_string(), author.to_string(), format!("{title}\nby {author}"))
}

fn sample() -> Result<Vec<Poem>, StoreError> {
    Ok(vec![
        poem("Poe", "The Raven"),
        poem("Poe", "Annabel Lee"),
        poem("Dickinson", "Hope"),
    ])
}

fn empty() -> Result<Vec<Poem>, StoreError> {
    Ok(Vec::new())
}

fn outage() -> Result<Vec<Poem>, StoreError> {
    Err(StoreError)
}

#[test]
fn exact_finds_the_poem() {
    let found = Poem::from_author_and_title("Poe", "The Raven", &sample());
    assert_eq!(found, Ok(poem("Poe", "The Raven")));
}

#[test]
fn exact_unknown_title_is_not_found() {
    assert_eq!(
        Poem::from_author_and_title("Poe", "Nonexistent", &sample()),
        Err(Error::NotFound)
    );
}

#[test]
fn exact_is_case_and_space_sensitive() {
    let store = sample();
    assert_eq!(Poem::from_author_and_title("poe", "The Raven", &store), Err(Error::NotFound));
    assert_eq!(Poem::from_author_and_title("Poe", "the raven", &store), Err(Error::NotFound));
    assert_eq!(Poem::from_author_and_title("Poe ", "The Raven", &store), Err(Error::NotFound));
    assert_eq!(Poem::from_author_and_title("Poe", "The  Raven", &store), Err(Error::NotFound));
    assert_eq!(Poem::from_author_and_title("Dickinson", "The Raven", &store), Err(Error::NotFound));
}

#[test]
fn random_by_author_with_one_poem_gives_it() {
    let store = sample();
    for _ in 0..50 {
        assert_eq!(Poem::random_by_author("Dickinson", &store), Ok(poem("Dickinson", "Hope")));
    }
}

#[test]
fn random_by_author_stays_with_the_author() {
    let store = sample();
    for _ in 0..100 {
        let p = Poem::random_by_author("Poe", &store).unwrap();
        assert_eq!(p.author, "Poe");
        assert!(p.title == "The Raven" || p.title == "Annabel Lee");
    }
}

#[test]
fn random_by_unknown_author_is_not_found() {
    assert_eq!(Poem::random_by_author("Keats", &sample()), Err(Error::NotFound));
    assert_eq!(Poem::random_by_author("poe", &sample()), Err(Error::NotFound));
}

#[test]
fn random_gives_a_poem_of_the_corpus() {
    let store = sample();
    let rows = store.clone().unwrap();
    for _ in 0..100 {
        let p = Poem::random(&store).unwrap();
        assert!(rows.contains(&p));
    }
}

#[test]
fn empty_corpus_is_not_found() {
    let store = empty();
    assert_eq!(Poem::random(&store), Err(Error::NotFound));
    assert_eq!(Poem::random_by_author("Poe", &store), Err(Error::NotFound));
    assert_eq!(Poem::from_author_and_title("Poe", "The Raven", &store), Err(Error::NotFound));
    for day in [0, 1, 738_000, u64::MAX] {
        assert_eq!(Poem::poem_of_the_day(day, &store), Err(Error::NotFound));
    }
}

#[test]
fn outage_is_a_storage_failure() {
    let store = outage();
    assert_eq!(Poem::random(&store), Err(Error::StorageFailure));
    assert_eq!(Poem::random_by_author("Poe", &store), Err(Error::StorageFailure));
    assert_eq!(
        Poem::from_author_and_title("Poe", "The Raven", &store),
        Err(Error::StorageFailure)
    );
    assert_eq!(Poem::poem_of_the_day(738_000, &store), Err(Error::StorageFailure));
}

#[test]
fn select_dispatches_each_request() {
    let store = sample();
    assert_eq!(
        select(&SelectionRequest::Exact("Poe".to_string(), "Annabel Lee".to_string()), &store),
        Ok(poem("Poe", "Annabel Lee"))
    );
    assert_eq!(
        select(&SelectionRequest::RandomByAuthor("Dickinson".to_string()), &store),
        Ok(poem("Dickinson", "Hope"))
    );
    assert!(select(&SelectionRequest::Random, &store).is_ok());
    assert_eq!(
        select(&SelectionRequest::OfTheDay(5), &store),
        Poem::poem_of_the_day(5, &store)
    );
    let requests = [
        SelectionRequest::Random,
        SelectionRequest::RandomByAuthor("Poe".to_string()),
        SelectionRequest::Exact("Poe".to_string(), "The Raven".to_string()),
        SelectionRequest::OfTheDay(5),
    ];
    for request in &requests {
        assert_eq!(select(request, &outage()), Err(Error::StorageFailure));
    }
    for request in &requests {
        assert_eq!(select(request, &empty()), Err(Error::NotFound));
    }
}

#[test]
fn pick_random_takes_the_row() {
    let rows = sample().unwrap();
    assert_eq!(pick_random(&rows, 1), Some(poem("Poe", "Annabel Lee")));
    assert_eq!(pick_random(&rows, 3), None);
    assert_eq!(pick_random(&Vec::new(), 0), None);
}

#[test]
fn pick_by_author_counts_only_the_author() {
    let rows = sample().unwrap();
    assert_eq!(pick_by_author(&rows, "Poe", 0), Some(poem("Poe", "The Raven")));
    assert_eq!(pick_by_author(&rows, "Poe", 1), Some(poem("Poe", "Annabel Lee")));
    assert_eq!(pick_by_author(&rows, "Poe", 2), None);
    assert_eq!(pick_by_author(&rows, "Dickinson", 0), Some(poem("Dickinson", "Hope")));
    assert_eq!(pick_by_author(&rows, "Dickinson", 1), None);
    assert_eq!(pick_by_author(&rows, "Keats", 0), None);
}

#[test]
fn pick_of_the_day_takes_author_then_poem() {
    let rows = vec![
        poem("A", "a1"),
        poem("B", "b1"),
        poem("A", "a2"),
        poem("C", "c1"),
        poem("B", "b2"),
        poem("A", "a3"),
    ];
    assert_eq!(pick_of_the_day(&rows, 0, 0), Some(poem("A", "a1")));
    assert_eq!(pick_of_the_day(&rows, 0, 2), Some(poem("A", "a3")));
    assert_eq!(pick_of_the_day(&rows, 0, 3), None);
    assert_eq!(pick_of_the_day(&rows, 1, 1), Some(poem("B", "b2")));
    assert_eq!(pick_of_the_day(&rows, 2, 0), Some(poem("C", "c1")));
    assert_eq!(pick_of_the_day(&rows, 2, 1), None);
    assert_eq!(pick_of_the_day(&rows, 3, 0), None);
    assert_eq!(pick_of_the_day(&Vec::new(), 0, 0), None);
}

#[test]
fn pick_of_the_day_ignores_row_order() {
    let forward = vec![poem("A", "x"), poem("B", "y")];
    let backward = vec![poem("B", "y"), poem("A", "x")];
    for a in 0..3 {
        for k in 0..2 {
            assert_eq!(pick_of_the_day(&forward, a, k), pick_of_the_day(&backward, a, k));
        }
    }
    assert_eq!(pick_of_the_day(&backward, 0, 0), Some(poem("A", "x")));
    assert_eq!(pick_of_the_day(&backward, 1, 0), Some(poem("B", "y")));
}

#[test]
fn pick_of_the_day_orders_by_author_then_title() {
    let rows = vec![
        poem("Poe", "The Raven"),
        poem("Dickinson", "Hope"),
        poem("Poe", "Annabel Lee"),
        poem("Dickinson", "Because I could not stop for Death"),
        poem("Blake", "The Tyger"),
    ];
    assert_eq!(pick_of_the_day(&rows, 0, 0), Some(poem("Blake", "The Tyger")));
    assert_eq!(
        pick_of_the_day(&rows, 1, 0),
        Some(poem("Dickinson", "Because I could not stop for Death"))
    );
    assert_eq!(pick_of_the_day(&rows, 1, 1), Some(poem("Dickinson", "Hope")));
    assert_eq!(pick_of_the_day(&rows, 2, 0), Some(poem("Poe", "Annabel Lee")));
    assert_eq!(pick_of_the_day(&rows, 2, 1), Some(poem("Poe", "The Raven")));
    assert_eq!(pick_of_the_day(&rows, 3, 0), None);
}

#[test]
fn poem_of_the_day_ignores_row_order() {
    let rows = vec![
        poem("Poe", "The Raven"),
        poem("Poe", "Annabel Lee"),
        poem("Dickinson", "Hope"),
        poem("Blake", "The Tyger"),
        poem("Blake", "London"),
    ];
    let mut reversed = rows.clone();
    reversed.reverse();
    let mut rotated = rows.clone();
    rotated.rotate_left(2);
    for day in 0..200 {
        let expected = Poem::poem_of_the_day(day, &Ok(rows.clone()));
        assert_eq!(Poem::poem_of_the_day(day, &Ok(reversed.clone())), expected);
        assert_eq!(Poem::poem_of_the_day(day, &Ok(rotated.clone())), expected);
    }
}

#[test]
fn poem_of_the_day_is_stable_for_a_day() {
    let store = sample();
    let rows = store.clone().unwrap();
    for day in [0, 1, 2, 738_000, 738_001, u64::MAX] {
        let first = Poem::poem_of_the_day(day, &store).unwrap();
        let second = Poem::poem_of_the_day(day, &store).unwrap();
        assert_eq!(first, second);
        assert!(rows.contains(&first));
    }
}

#[test]
fn poem_of_the_day_is_fair_to_authors() {
    let mut rows = Vec::new();
    for i in 0..50 {
        rows.push(poem("Prolific", &format!("Poem {i}")));
    }
    for a in 0..9 {
        rows.push(poem(&format!("Author {a}"), "Only poem"));
    }
    let store = Ok(rows);
    let days: u64 = 20_000;
    let mut counts = std::collections::HashMap::new();
    for day in 0..days {
        let p = Poem::poem_of_the_day(day, &store).unwrap();
        *counts.entry(p.author).or_insert(0u64) += 1;
    }
    assert_eq!(counts.len(), 10);
    for (author, n) in counts {
        let share = n as f64 / days as f64;
        assert!((share - 0.1).abs() < 0.02, "{author}: {share}");
    }
}

#[test]
fn path_encodes_author_and_title() {
    let p = poem("Edgar Allan Poe", "The Raven");
    assert_eq!(p.path(), "/poem/Edgar%20Allan%20Poe/The%20Raven");
    let q = poem("Anne_Bradstreet", "To My Dear & Loving Husband");
    assert_eq!(q.path(), "/poem/Anne_Bradstreet/To%20My%20Dear%20%26%20Loving%20Husband");
}

#[test]
fn new_and_duplicate_keep_the_fields() {
    let p = Poem::new(
        "Hope".to_string(),
        "Dickinson".to_string(),
        "line one\nline two".to_string(),
    );
    assert_eq!(p.title, "Hope");
    assert_eq!(p.author, "Dickinson");
    assert_eq!(p.content, "line one\nline two");
    assert_eq!(p.duplicate(), p);
}
