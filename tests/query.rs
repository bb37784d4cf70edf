use reservoir::bookmark_bar::{SearchOptions, SortOptions};
use reservoir::query::{bookmark_matches, list};
use reservoir::storage::Bookmark;

fn mark(title: &str, link: &str, note: Option<&str>, tags: &[&str], uuid: &str, timestamp: u64) -> Bookmark {
    Bookmark {
        title: title.to_string(),
        link: link.to_string(),
        note: note.map(|n| n.to_string()),
        tags: tags.iter().map(|t| t.to_string()).collect(),
        uuid: uuid.to_string(),
        timestamp,
    }
}

fn sample() -> Vec<Bookmark> {
    vec![
        mark("Rust Book", "doc.rust-lang.org/book", None, &["Rust", "docs"], "a", 300),
        mark("News", "news.example.com", Some("Morning READ"), &["daily"], "b", 100),
        mark("Example", "example.com", None, &["News", "tech"], "c", 200),
    ]
}

#[test]
fn title_filter_is_case_insensitive() {
    let v = sample();
    let r = list(&v, SearchOptions::Title, SortOptions::Relevant, &Some("RUST".to_string()));
    assert_eq!(r, vec![0]);
}

#[test]
fn link_filter_looks_at_link_only() {
    let v = sample();
    let r = list(&v, SearchOptions::Link, SortOptions::Relevant, &Some("example".to_string()));
    assert_eq!(r, vec![1, 2]);
    let r = list(&v, SearchOptions::Link, SortOptions::Relevant, &Some("book".to_string()));
    assert_eq!(r, vec![0]);
}

#[test]
fn tags_filter_matches_any_tag() {
    let v = sample();
    let r = list(&v, SearchOptions::Tags, SortOptions::Relevant, &Some("news".to_string()));
    assert_eq!(r, vec![2]);
}

#[test]
fn all_filter_includes_note() {
    let v = sample();
    let r = list(&v, SearchOptions::All, SortOptions::Relevant, &Some("read".to_string()));
    assert_eq!(r, vec![1]);
    let r = list(&v, SearchOptions::All, SortOptions::Relevant, &Some("news".to_string()));
    assert_eq!(r, vec![1, 2]);
}

#[test]
fn no_query_lists_everything_in_order() {
    let v = sample();
    let r = list(&v, SearchOptions::Title, SortOptions::Relevant, &None);
    assert_eq!(r, vec![0, 1, 2]);
}

#[test]
fn empty_query_lists_everything() {
    let v = sample();
    let r = list(&v, SearchOptions::All, SortOptions::Relevant, &Some(String::new()));
    assert_eq!(r, vec![0, 1, 2]);
    let mut w = sample();
    w.push(mark("Untagged", "plain.org", None, &[], "d", 50));
    let r = list(&w, SearchOptions::Tags, SortOptions::Relevant, &Some(String::new()));
    assert_eq!(r, vec![0, 1, 2, 3]);
    let r = list(&w, SearchOptions::Tags, SortOptions::Oldest, &Some(String::new()));
    assert_eq!(r, vec![3, 1, 2, 0]);
}

#[test]
fn newest_and_oldest_are_reversed() {
    let v = sample();
    let newest = list(&v, SearchOptions::All, SortOptions::Newest, &None);
    let oldest = list(&v, SearchOptions::All, SortOptions::Oldest, &None);
    assert_eq!(newest, vec![0, 2, 1]);
    assert_eq!(oldest, vec![1, 2, 0]);
    let mut reversed = newest.clone();
    reversed.reverse();
    assert_eq!(reversed, oldest);
}

#[test]
fn equal_times_keep_collection_order() {
    let v = vec![
        mark("x", "x", None, &[], "1", 5),
        mark("y", "y", None, &[], "2", 9),
        mark("z", "z", None, &[], "3", 5),
    ];
    assert_eq!(list(&v, SearchOptions::All, SortOptions::Newest, &None), vec![1, 0, 2]);
    assert_eq!(list(&v, SearchOptions::All, SortOptions::Oldest, &None), vec![0, 2, 1]);
}

#[test]
fn listing_twice_gives_the_same_order() {
    let v = sample();
    let q = Some("e".to_string());
    let first = list(&v, SearchOptions::All, SortOptions::Newest, &q);
    let second = list(&v, SearchOptions::All, SortOptions::Newest, &q);
    assert_eq!(first, second);
}

#[test]
fn empty_collection_lists_nothing() {
    let v: Vec<Bookmark> = Vec::new();
    assert!(list(&v, SearchOptions::All, SortOptions::Oldest, &Some("a".to_string())).is_empty());
}

#[test]
fn matching_lowers_the_bookmark_text() {
    let b = mark("Hello World", "EXAMPLE.com", None, &[], "u", 1);
    assert!(bookmark_matches(&b, SearchOptions::Title, "hello"));
    assert!(bookmark_matches(&b, SearchOptions::Link, "example"));
    assert!(!bookmark_matches(&b, SearchOptions::Tags, "hello"));
}
