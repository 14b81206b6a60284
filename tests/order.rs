use poem_select::order::{poem_le, sort_corpus};
use poem_select::Poem;

fn poem(author: &str, title: &str, content: &str) -> Poem {
    Poem::new(title.to_string(), author.to_string(), content.to_string())
}

#[test]
fn order_is_author_then_title_then_text() {
    assert!(poem_le(&poem("A", "z", "z"), &poem("B", "a", "a")));
    assert!(!poem_le(&poem("B", "a", "a"), &poem("A", "z", "z")));
    assert!(poem_le(&poem("A", "a", "z"), &poem("A", "b", "a")));
    assert!(poem_le(&poem("A", "a", "a"), &poem("A", "a", "b")));
    assert!(!poem_le(&poem("A", "a", "b"), &poem("A", "a", "a")));
    assert!(poem_le(&poem("A", "a", "a"), &poem("A", "a", "a")));
}

#[test]
fn order_compares_bytes() {
    assert!(poem_le(&poem("Zed", "t", "c"), &poem("abe", "t", "c")));
    assert!(!poem_le(&poem("abe", "t", "c"), &poem("Zed", "t", "c")));
    assert!(poem_le(&poem("Poe", "t", "c"), &poem("Poem", "t", "c")));
    assert!(poem_le(&poem("z", "t", "c"), &poem("é", "t", "c")));
}

#[test]
fn sort_corpus_orders_and_keeps_every_row() {
    let rows = vec![
        poem("Poe", "The Raven", "1"),
        poem("Blake", "London", "2"),
        poem("Poe", "Annabel Lee", "3"),
        poem("Blake", "London", "2"),
        poem("Blake", "London", "0"),
    ];
    let sorted = sort_corpus(&rows);
    assert_eq!(
        sorted,
        vec![
            poem("Blake", "London", "0"),
            poem("Blake", "London", "2"),
            poem("Blake", "London", "2"),
            poem("Poe", "Annabel Lee", "3"),
            poem("Poe", "The Raven", "1"),
        ]
    );
    assert_eq!(sort_corpus(&Vec::new()), Vec::new());
}
