use reservoir::bookmark_bar::{BarMessage, BookmarkBar, DisplayEnum, SearchOptions, SortOptions};
use reservoir::storage::{Storage, Stored};

fn empty_store() -> Storage {
    let mut storage = Storage::new();
    storage.stored = Some(Stored::new());
    storage
}

fn set(bar: &mut BookmarkBar, storage: &mut Storage, name: &str, value: &str) {
    bar.update(BarMessage::InputSet(name.to_string(), value.to_string()), storage);
}

fn count(storage: &Storage) -> usize {
    storage.stored.as_ref().unwrap().bookmarks.len()
}

#[test]
fn add_example_then_duplicate_is_rejected() {
    let mut storage = empty_store();
    let mut bar = BookmarkBar::new();
    set(&mut bar, &mut storage, "title", "Example");
    set(&mut bar, &mut storage, "link", "https://example.com");
    set(&mut bar, &mut storage, "tags", "news,tech");
    bar.update(BarMessage::AddBookmark, &mut storage);
    assert_eq!(count(&storage), 1);
    let b = storage.stored.as_ref().unwrap().bookmarks[0].clone();
    assert_eq!(b.title, "Example");
    assert_eq!(b.link, "example.com");
    assert_eq!(b.tags, vec!["news".to_string(), "tech".to_string()]);
    assert_eq!(b.note, None);
    assert_eq!(b.uuid.len(), 36);

    set(&mut bar, &mut storage, "title", "Example again");
    set(&mut bar, &mut storage, "link", "example.com");
    bar.update(BarMessage::AddBookmark, &mut storage);
    assert_eq!(count(&storage), 1);
}

#[test]
fn add_with_empty_title_is_ignored() {
    let mut storage = empty_store();
    let mut bar = BookmarkBar::new();
    set(&mut bar, &mut storage, "link", "example.com");
    bar.update(BarMessage::AddBookmark, &mut storage);
    assert_eq!(count(&storage), 0);
    set(&mut bar, &mut storage, "title", "");
    bar.update(BarMessage::AddBookmark, &mut storage);
    assert_eq!(count(&storage), 0);
    assert_eq!(bar.input_value(&"link".to_string()), Some("example.com".to_string()));
}

#[test]
fn add_with_empty_link_is_ignored() {
    let mut storage = empty_store();
    let mut bar = BookmarkBar::new();
    set(&mut bar, &mut storage, "title", "Title");
    bar.update(BarMessage::AddBookmark, &mut storage);
    assert_eq!(count(&storage), 0);
    set(&mut bar, &mut storage, "link", "https://");
    bar.update(BarMessage::AddBookmark, &mut storage);
    assert_eq!(count(&storage), 0);
}

#[test]
fn add_keeps_note_and_resets_form_but_search() {
    let mut storage = empty_store();
    let mut bar = BookmarkBar::new();
    set(&mut bar, &mut storage, "search", "rust");
    set(&mut bar, &mut storage, "title", "Rust");
    set(&mut bar, &mut storage, "link", "http://rust-lang.org");
    set(&mut bar, &mut storage, "note", "read me");
    bar.update(BarMessage::AddBookmark, &mut storage);
    let b = storage.stored.as_ref().unwrap().bookmarks[0].clone();
    assert_eq!(b.link, "http://rust-lang.org");
    assert_eq!(b.note, Some("read me".to_string()));
    assert!(b.tags.is_empty());
    assert_eq!(bar.input_value(&"title".to_string()), None);
    assert_eq!(bar.input_value(&"note".to_string()), None);
    assert_eq!(bar.input_value(&"search".to_string()), Some("rust".to_string()));
}

#[test]
fn add_with_empty_note_has_no_note() {
    let mut storage = empty_store();
    let mut bar = BookmarkBar::new();
    set(&mut bar, &mut storage, "title", "T");
    set(&mut bar, &mut storage, "link", "l.org");
    set(&mut bar, &mut storage, "note", "");
    bar.update(BarMessage::AddBookmark, &mut storage);
    assert_eq!(storage.stored.as_ref().unwrap().bookmarks[0].note, None);
}

#[test]
fn display_and_choices_follow_messages() {
    let mut storage = empty_store();
    let mut bar = BookmarkBar::new();
    assert_eq!(bar.display, DisplayEnum::Neither);
    bar.update(BarMessage::ShowAdd, &mut storage);
    assert_eq!(bar.display, DisplayEnum::Add);
    bar.update(BarMessage::ShowSearch, &mut storage);
    assert_eq!(bar.display, DisplayEnum::Search);
    bar.update(BarMessage::Hide, &mut storage);
    assert_eq!(bar.display, DisplayEnum::Neither);
    bar.update(BarMessage::SearchOptionChange(SearchOptions::Link), &mut storage);
    bar.update(BarMessage::SortOptionChange(SortOptions::Oldest), &mut storage);
    assert_eq!(bar.bookmark_search.search_option, SearchOptions::Link);
    assert_eq!(bar.bookmark_search.sort_option, SortOptions::Oldest);
    assert!(bar.expand_state);
    bar.update(BarMessage::ExpandAll, &mut storage);
    assert!(!bar.expand_state);
    bar.update(BarMessage::ShrinkAll, &mut storage);
    assert!(bar.expand_state);
}

#[test]
fn reset_keeps_only_search() {
    let mut storage = empty_store();
    let mut bar = BookmarkBar::new();
    set(&mut bar, &mut storage, "tags", "x");
    bar.reset();
    assert_eq!(bar.input_value(&"tags".to_string()), None);
    assert_eq!(bar.input_value(&"search".to_string()), None);
}

#[test]
fn message_kinds() {
    assert!(BarMessage::is_save_after(BarMessage::AddBookmark));
    assert!(!BarMessage::is_save_after(BarMessage::ExportAll));
    assert!(BarMessage::is_search_update(BarMessage::SortOptionChange(SortOptions::Newest)));
    assert!(BarMessage::is_search_update(BarMessage::SearchOptionChange(SearchOptions::Tags)));
    assert!(BarMessage::is_search_update(BarMessage::InputSet("title".to_string(), "x".to_string())));
    assert!(!BarMessage::is_search_update(BarMessage::Hide));
}

#[test]
fn option_lists() {
    assert_eq!(SearchOptions::all(), vec![SearchOptions::All, SearchOptions::Title, SearchOptions::Link, SearchOptions::Tags]);
    assert_eq!(SortOptions::all(), vec![SortOptions::Relevant, SortOptions::Newest, SortOptions::Oldest]);
}

#[test]
fn add_with_uses_given_id_and_time() {
    let mut storage = empty_store();
    let mut bar = BookmarkBar::new();
    set(&mut bar, &mut storage, "title", "A");
    set(&mut bar, &mut storage, "link", "a.org");
    set(&mut bar, &mut storage, "tags", "x, y");
    bar.add_with(&mut storage, "id-a".to_string(), 77);
    let b = storage.stored.as_ref().unwrap().bookmarks[0].clone();
    assert_eq!(b.uuid, "id-a");
    assert_eq!(b.timestamp, 77);
    assert_eq!(b.tags, vec!["x".to_string(), " y".to_string()]);
    set(&mut bar, &mut storage, "title", "B");
    set(&mut bar, &mut storage, "link", "b.org");
    bar.add_with(&mut storage, "id-a".to_string(), 78);
    assert_eq!(count(&storage), 1);
    assert_eq!(storage.stored.as_ref().unwrap().bookmarks[0].link, "a.org");
    assert_eq!(bar.input_value(&"title".to_string()), Some("B".to_string()));
    bar.add_with(&mut storage, "id-b".to_string(), 78);
    assert_eq!(count(&storage), 2);
}
