use reservoir::bookmark_bar::{SearchOptions, SortOptions};
use reservoir::bookmark_list::{parse_tags, BookmarkList, FieldTag, ListMessage};
use reservoir::storage::{Bookmark, Storage, Stored};

fn example() -> Bookmark {
    Bookmark {
        title: "Example".to_string(),
        link: "example.com".to_string(),
        note: Some("a note".to_string()),
        tags: vec!["news".to_string(), "tech".to_string()],
        uuid: "id-1".to_string(),
        timestamp: 1000,
    }
}

fn loaded_with(b: Bookmark) -> Storage {
    let mut storage = Storage::new();
    let mut stored = Stored::new();
    stored.add_bookmark(b);
    storage.stored = Some(stored);
    storage
}

fn committed_with(field: FieldTag, value: &str) -> Bookmark {
    let mut storage = loaded_with(example());
    let mut list = BookmarkList::new();
    list.begin_edit("id-1".to_string());
    list.set_pending_field("id-1".to_string(), field, value.to_string());
    list.commit_edit("id-1".to_string(), example(), &mut storage);
    let stored = storage.stored.unwrap();
    assert_eq!(stored.bookmarks.len(), 1);
    stored.bookmarks[0].clone()
}

#[test]
fn empty_pending_title_keeps_title() {
    assert_eq!(committed_with(FieldTag::Title, "").title, "Example");
}

#[test]
fn pending_title_replaces_title() {
    assert_eq!(committed_with(FieldTag::Title, "Other").title, "Other");
}

#[test]
fn empty_pending_note_clears_note() {
    assert_eq!(committed_with(FieldTag::Note, "").note, None);
}

#[test]
fn pending_note_sets_note() {
    assert_eq!(committed_with(FieldTag::Note, "later").note, Some("later".to_string()));
}

#[test]
fn pending_tags_split_literally() {
    let b = committed_with(FieldTag::Tags, "a, b,,c");
    assert_eq!(b.tags, vec!["a".to_string(), " b".to_string(), "".to_string(), "c".to_string()]);
}

#[test]
fn blank_pending_tags_give_no_tags() {
    assert!(committed_with(FieldTag::Tags, "   ").tags.is_empty());
}

#[test]
fn pending_link_is_normalized() {
    assert_eq!(committed_with(FieldTag::Link, "https://rust-lang.org").link, "rust-lang.org");
}

#[test]
fn empty_pending_link_keeps_link() {
    assert_eq!(committed_with(FieldTag::Link, "").link, "example.com");
}

#[test]
fn pending_timestamp_is_parsed() {
    assert_eq!(committed_with(FieldTag::Timestamp, "123").timestamp, 123);
    assert_eq!(committed_with(FieldTag::Timestamp, "+7").timestamp, 7);
}

#[test]
fn bad_pending_timestamp_keeps_timestamp() {
    assert_eq!(committed_with(FieldTag::Timestamp, "soon").timestamp, 1000);
    assert_eq!(committed_with(FieldTag::Timestamp, "-5").timestamp, 1000);
    assert_eq!(committed_with(FieldTag::Timestamp, "18446744073709551616").timestamp, 1000);
}

#[test]
fn untouched_fields_stay() {
    let b = committed_with(FieldTag::Title, "New");
    assert_eq!(b.link, "example.com");
    assert_eq!(b.note, Some("a note".to_string()));
    assert_eq!(b.tags, vec!["news".to_string(), "tech".to_string()]);
    assert_eq!(b.uuid, "id-1");
    assert_eq!(b.timestamp, 1000);
}

#[test]
fn edit_then_clear_note_gives_absent_note() {
    let mut storage = loaded_with(example());
    let mut list = BookmarkList::new();
    list.update(ListMessage::EditBookmark("id-1".to_string()), &mut storage);
    list.update(ListMessage::InputSet("id-1".to_string(), FieldTag::Note, String::new()), &mut storage);
    list.update(ListMessage::SaveEditBookmark("id-1".to_string(), example()), &mut storage);
    let stored = storage.stored.unwrap();
    assert_eq!(stored.bookmarks.len(), 1);
    assert_eq!(stored.bookmarks[0].note, None);
    assert!(!list.is_editing(&"id-1".to_string()));
}

#[test]
fn begin_edit_leaves_expanded_form() {
    let mut list = BookmarkList::new();
    let id = "id-1".to_string();
    list.expand(id.clone());
    assert!(list.is_expanded(&id));
    list.begin_edit(id.clone());
    assert!(!list.is_expanded(&id));
    assert!(list.is_editing(&id));
    list.expand(id.clone());
    assert!(!list.is_expanded(&id));
}

#[test]
fn begin_edit_drops_stale_values() {
    let mut list = BookmarkList::new();
    let id = "id-1".to_string();
    list.set_pending_field(id.clone(), FieldTag::Title, "stale".to_string());
    list.set_pending_field("other".to_string(), FieldTag::Title, "kept".to_string());
    list.begin_edit(id.clone());
    assert_eq!(list.pending_value(&id, FieldTag::Title), None);
    assert_eq!(list.pending_value(&"other".to_string(), FieldTag::Title), Some("kept".to_string()));
}

#[test]
fn cancel_edit_drops_values() {
    let mut list = BookmarkList::new();
    let id = "id-1".to_string();
    list.begin_edit(id.clone());
    list.set_pending_field(id.clone(), FieldTag::Link, "x".to_string());
    list.set_pending_field(id.clone(), FieldTag::Link, "y".to_string());
    assert_eq!(list.pending_value(&id, FieldTag::Link), Some("y".to_string()));
    list.cancel_edit(id.clone());
    assert!(!list.is_editing(&id));
    assert_eq!(list.pending_value(&id, FieldTag::Link), None);
}

#[test]
fn unexpand_shows_one_line() {
    let mut list = BookmarkList::new();
    let id = "id-1".to_string();
    list.update(ListMessage::ExpandBookmark(id.clone()), &mut Storage { stored: Some(Stored::new()) });
    list.unexpand(id.clone());
    assert!(!list.is_expanded(&id));
}

#[test]
fn delete_removes_record() {
    let mut storage = loaded_with(example());
    let mut list = BookmarkList::new();
    list.update(ListMessage::DeleteBookmark("missing".to_string()), &mut storage);
    assert_eq!(storage.stored.as_ref().unwrap().bookmarks.len(), 1);
    list.update(ListMessage::DeleteBookmark("id-1".to_string()), &mut storage);
    assert!(storage.stored.as_ref().unwrap().bookmarks.is_empty());
}

#[test]
fn visible_follows_search() {
    let storage = loaded_with(example());
    let stored = storage.stored.as_ref().unwrap();
    let mut list = BookmarkList::new();
    assert_eq!(list.visible(stored), vec![0]);
    list.update_search(SearchOptions::Tags, SortOptions::Oldest, Some("zzz".to_string()));
    assert!(list.visible(stored).is_empty());
}

#[test]
fn save_after_only_for_commit_and_delete() {
    assert!(ListMessage::is_save_after(ListMessage::SaveEditBookmark("a".to_string(), example())));
    assert!(ListMessage::is_save_after(ListMessage::DeleteBookmark("a".to_string())));
    assert!(!ListMessage::is_save_after(ListMessage::EditBookmark("a".to_string())));
    assert!(!ListMessage::is_save_after(ListMessage::OpenLink("a".to_string())));
}

#[test]
fn parse_tags_cases() {
    assert_eq!(parse_tags("news,tech"), vec!["news".to_string(), "tech".to_string()]);
    assert!(parse_tags("").is_empty());
    assert!(parse_tags(" \t ").is_empty());
    assert_eq!(parse_tags("solo"), vec!["solo".to_string()]);
    assert_eq!(parse_tags("a,"), vec!["a".to_string(), "".to_string()]);
}
