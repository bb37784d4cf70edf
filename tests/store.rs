use std::collections::hash_map::DefaultHasher;
use std::hash::{Hash, Hasher};

use reservoir::state::{App, AppMessage, Effect, WindowSize};
use reservoir::bookmark_bar::BarMessage;
use reservoir::bookmark_list::ListMessage;
use reservoir::storage::{Bookmark, Storage, StorageError, Stored};
use reservoir::styles::{color_from_hash, TagButton};
use reservoir::utils::{gen_uuid, link_to_open, normalize_link, truncate_with_ellipses};

fn mark(uuid: &str, link: &str) -> Bookmark {
    Bookmark {
        title: "t".to_string(),
        link: link.to_string(),
        note: None,
        tags: Vec::new(),
        uuid: uuid.to_string(),
        timestamp: 1,
    }
}

#[test]
fn normalize_strips_https_only() {
    assert_eq!(normalize_link("https://example.com".to_string()), "example.com");
    assert_eq!(normalize_link("http://example.com".to_string()), "http://example.com");
    assert_eq!(normalize_link("example.com/https://x".to_string()), "example.com/https://x");
    assert_eq!(normalize_link("https://https://a".to_string()), "https://a");
    assert_eq!(normalize_link(String::new()), "");
}

#[test]
fn open_adds_scheme_when_missing() {
    assert_eq!(link_to_open("example.com"), "https://example.com");
    assert_eq!(link_to_open("http://example.com"), "http://example.com");
    assert_eq!(link_to_open("https://example.com"), "https://example.com");
}

#[test]
fn truncate_marks_the_cut() {
    assert_eq!(truncate_with_ellipses("hello world", 5), "hello...");
    assert_eq!(truncate_with_ellipses("hi", 5), "hi");
    assert_eq!(truncate_with_ellipses("hello", 5), "hello");
    assert_eq!(truncate_with_ellipses("héllo", 3), "hé...");
}

#[test]
fn uuids_are_hyphenated_and_fresh() {
    let a = gen_uuid();
    let b = gen_uuid();
    assert_eq!(a.len(), 36);
    assert_eq!(a.matches('-').count(), 4);
    let chars: Vec<char> = a.chars().collect();
    for (i, c) in chars.iter().enumerate() {
        if i == 8 || i == 13 || i == 18 || i == 23 {
            assert_eq!(*c, '-');
        } else {
            assert!(c.is_ascii_hexdigit() && !c.is_ascii_uppercase());
        }
    }
    assert_eq!(chars[14], '4');
    assert!("89ab".contains(chars[19]));
    assert_ne!(a, b);
}

#[test]
fn new_bookmark_keeps_given_time() {
    let b = Bookmark::new("T".to_string(), "l".to_string(), None, vec!["x".to_string()], Some(42));
    assert_eq!(b.timestamp, 42);
    assert_eq!(b.uuid.len(), 36);
    assert_eq!(b.tags, vec!["x".to_string()]);
}

#[test]
fn upsert_replaces_by_id() {
    let mut s = Stored::new();
    s.add_bookmark(mark("a", "one"));
    s.add_bookmark(mark("b", "two"));
    s.add_bookmark(mark("a", "three"));
    assert_eq!(s.bookmarks.len(), 2);
    assert_eq!(s.bookmarks[0].link, "three");
    assert_eq!(s.find(&"b".to_string()), Some(1));
    assert!(s.contains_link(&"two".to_string()));
    assert!(!s.contains_link(&"one".to_string()));
}

#[test]
fn remove_by_id() {
    let mut storage = Storage::new();
    storage.stored = Some(Stored::new());
    storage.add_bookmark(mark("a", "one"));
    storage.add_bookmark(mark("b", "two"));
    storage.remove_bookmark("zzz".to_string());
    assert_eq!(storage.stored.as_ref().unwrap().bookmarks.len(), 2);
    storage.remove_bookmark("a".to_string());
    let s = storage.stored.as_ref().unwrap();
    assert_eq!(s.bookmarks.len(), 1);
    assert_eq!(s.bookmarks[0].uuid, "b");
}

#[test]
fn from_bookmarks_round_trip() {
    let v = vec![mark("a", "1"), mark("b", "2"), mark("c", "3")];
    let s = Stored::from_bookmarks(v.clone());
    let links: Vec<String> = s.bookmarks.iter().map(|b| b.link.clone()).collect();
    assert_eq!(links, vec!["1".to_string(), "2".to_string(), "3".to_string()]);
    let copy = s.snapshot();
    assert_eq!(copy.bookmarks.len(), 3);
    let dup = Stored::from_bookmarks(vec![mark("a", "1"), mark("a", "2")]);
    assert_eq!(dup.bookmarks.len(), 1);
    assert_eq!(dup.bookmarks[0].link, "2");
}

#[test]
fn empty_store_text() {
    assert_eq!(Storage::empty_json(), "{\n  \"bookmarks\": {}\n}");
}

#[test]
fn tag_colors() {
    assert_eq!(color_from_hash(0), [40, 40, 135]);
    assert_eq!(color_from_hash(0x5a5a5a), [90, 90, 90]);
    assert_eq!(color_from_hash(70), [235, 0, 0]);
    assert_eq!(color_from_hash(40), [40, 165, 0]);
    assert_eq!(color_from_hash(0x00c80a0a), [50, 50, 170]);
    let t = TagButton { text: "rust".to_string() };
    assert_eq!(t.text_to_color(), t.text_to_color());
}

fn loaded_app() -> App {
    let mut app = App::new();
    let effect = app.update(AppMessage::Loaded(Ok(Stored::new())));
    assert!(matches!(effect, Effect::Nothing));
    assert!(app.loaded);
    app
}

#[test]
fn app_saves_after_add() {
    let mut app = loaded_app();
    app.update(AppMessage::BarMessage(BarMessage::InputSet("title".to_string(), "T".to_string())));
    app.update(AppMessage::BarMessage(BarMessage::InputSet("link".to_string(), "https://t.org".to_string())));
    match app.update(AppMessage::BarMessage(BarMessage::AddBookmark)) {
        Effect::Save(s) => {
            assert_eq!(s.bookmarks.len(), 1);
            assert_eq!(s.bookmarks[0].link, "t.org");
        },
        other => panic!("expected a save, got {:?}", other),
    }
    assert!(matches!(app.update(AppMessage::BarMessage(BarMessage::ExportAll)), Effect::Export(_)));
}

#[test]
fn app_ignores_bar_until_loaded() {
    let mut app = App::new();
    assert!(matches!(app.update(AppMessage::BarMessage(BarMessage::AddBookmark)), Effect::Nothing));
    assert!(matches!(app.update(AppMessage::Loaded(Err(StorageError::ReadError))), Effect::Nothing));
    assert!(!app.loaded);
}

#[test]
fn app_export_notice_uses_latest_ticket() {
    let mut app = loaded_app();
    assert!(matches!(app.update(AppMessage::ExportDone(Ok(()))), Effect::HideNoticeLater(1)));
    assert!(matches!(app.update(AppMessage::ExportDone(Ok(()))), Effect::HideNoticeLater(2)));
    assert!(app.save_message);
    app.update(AppMessage::HideExportDone(1));
    assert!(app.save_message);
    app.update(AppMessage::HideExportDone(2));
    assert!(!app.save_message);
}

#[test]
fn app_tag_press_searches_tags() {
    let mut app = loaded_app();
    app.update(AppMessage::ListMessage(ListMessage::TagPress("news".to_string())));
    assert_eq!(app.bookmark_bar.input_value(&"search".to_string()), Some("news".to_string()));
    assert_eq!(app.bookmark_bar.bookmark_search.search_option, reservoir::bookmark_bar::SearchOptions::Tags);
}

#[test]
fn app_open_link_and_resize() {
    let mut app = loaded_app();
    match app.update(AppMessage::ListMessage(ListMessage::OpenLink("example.com".to_string()))) {
        Effect::OpenLink(url) => assert_eq!(url, "https://example.com"),
        other => panic!("expected a link, got {:?}", other),
    }
    app.update(AppMessage::SizeChange(800, 500));
    assert_eq!(app.window_size, WindowSize { width: 800, height: 500 });
}

#[test]
fn export_name_holds_the_time() {
    assert_eq!(reservoir::utils::export_file_name(1700000000), "reservoir_info_1700000000.json");
    assert_eq!(reservoir::utils::export_file_name(0), "reservoir_info_0.json");
    assert_eq!(reservoir::utils::export_file_name(u64::MAX), "reservoir_info_18446744073709551615.json");
}

#[test]
fn tag_color_comes_from_text_hash() {
    let text = "rust".to_string();
    let mut hasher = DefaultHasher::new();
    text.hash(&mut hasher);
    let expected = color_from_hash(hasher.finish());
    assert_eq!(TagButton { text }.text_to_color(), expected);
}

#[test]
fn app_failed_export_shows_notice() {
    let mut app = loaded_app();
    assert!(matches!(app.update(AppMessage::ExportDone(Err(StorageError::OpenError))), Effect::HideNoticeLater(1)));
    assert!(app.export_failed);
    assert!(!app.save_message);
    app.update(AppMessage::HideExportDone(1));
    assert!(!app.export_failed);
}

#[test]
fn app_failed_save_keeps_collection() {
    let mut app = loaded_app();
    app.update(AppMessage::BarMessage(BarMessage::InputSet("title".to_string(), "T".to_string())));
    app.update(AppMessage::BarMessage(BarMessage::InputSet("link".to_string(), "t.org".to_string())));
    app.update(AppMessage::BarMessage(BarMessage::AddBookmark));
    assert!(matches!(app.update(AppMessage::SaveDone(Err(StorageError::WriteError))), Effect::Nothing));
    assert_eq!(app.storage.stored.as_ref().unwrap().bookmarks.len(), 1);
}
