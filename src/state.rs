//! The decisions of the application's update loop. The caller performs the
//! returned effect (saving, exporting, a delayed message, opening a link) and
//! hands its outcome back as the next message.

use vstd::prelude::*;

use crate::bookmark_bar::{bar_follows, search_key, BarMessage, BookmarkBar, DisplayEnum, SearchOptions};
use crate::bookmark_list::{records_after, session_after, BookmarkList, ListMessage};
use crate::storage::{ids_distinct, Storage, StorageError, Stored};
use crate::utils::{link_to_open, openable};

verus! {

/// The size of the window, in pixels.
#[derive(Clone, Copy, Debug, PartialEq, Eq, Structural)]
pub struct WindowSize {
    pub width: u32,
    pub height: u32,
}

/// What the application is told.
#[derive(Debug)]
pub enum AppMessage {
    Loaded(Result<Stored, StorageError>),
    BarMessage(BarMessage),
    ListMessage(ListMessage),
    SaveDone(Result<(), StorageError>),
    ExportDone(Result<(), StorageError>),
    HideExportDone(u16),
    SizeChange(u32, u32),
}

/// What the caller does after a message.
#[derive(Clone, Debug)]
pub enum Effect {
    Nothing,
    /// Write this copy of the collection to the store file.
    Save(Stored),
    /// Write this copy of the collection to an export file.
    Export(Stored),
    /// After a pause, send `HideExportDone` with this ticket.
    HideNoticeLater(u16),
    /// Open this address in the system's browser.
    OpenLink(String),
}

/// The application's state.
pub struct App {
    pub storage: Storage,
    pub loaded: bool,
    pub bookmark_list: BookmarkList,
    pub bookmark_bar: BookmarkBar,
    pub window_size: WindowSize,
    pub save_message_count: u16,
    pub save_message: bool,
    pub export_failed: bool,
}

/// The ticket after `count`: the next value, wrapping at the top.
pub open spec fn next_ticket(count: u16) -> u16 {
    if count == u16::MAX {
        0
    } else {
        (count + 1) as u16
    }
}

/// The search query typed into the bar, if any.
pub open spec fn typed_query(m: Map<Seq<char>, Seq<char>>) -> Option<Seq<char>> {
    if m.contains_key(search_key()) {
        Some(m[search_key()])
    } else {
        None
    }
}

/// Nothing in `b` differs from `a`.
pub open spec fn unchanged(a: App, b: App) -> bool {
    &&& b.storage == a.storage
    &&& b.loaded == a.loaded
    &&& b.bookmark_list == a.bookmark_list
    &&& b.bookmark_bar == a.bookmark_bar
    &&& b.window_size == a.window_size
    &&& b.save_message_count == a.save_message_count
    &&& b.save_message == a.save_message
    &&& b.export_failed == a.export_failed
}

/// The collection, the bar, the list and the loading state of `b` are those
/// of `a`.
pub open spec fn same_content(a: App, b: App) -> bool {
    &&& b.storage == a.storage
    &&& b.loaded == a.loaded
    &&& b.bookmark_list == a.bookmark_list
    &&& b.bookmark_bar == a.bookmark_bar
}

impl App {
    /// The parts are well formed, and the store is ready once loaded.
    pub open spec fn wf(&self) -> bool {
        &&& self.bookmark_list.wf()
        &&& self.bookmark_bar.wf()
        &&& self.loaded ==> self.storage.ready()
    }

    /// An application that is still loading.
    pub fn new() -> (r: App)
        ensures
            r.wf(),
            !r.loaded,
            !r.save_message,
            !r.export_failed,
            r.save_message_count == 0,
            r.window_size == (WindowSize { width: 920, height: 600 }),
    {
        App {
            storage: Storage::new(),
            loaded: false,
            bookmark_list: BookmarkList::new(),
            bookmark_bar: BookmarkBar::new(),
            window_size: WindowSize { width: 920, height: 600 },
            save_message_count: 0,
            save_message: false,
            export_failed: false,
        }
    }

    /// Tells the list the bar's search choices and query.
    fn sync_search(&mut self)
        requires
            old(self).wf(),
        ensures
            final(self).wf(),
            final(self).storage == old(self).storage,
            final(self).loaded == old(self).loaded,
            final(self).bookmark_bar == old(self).bookmark_bar,
            final(self).save_message == old(self).save_message,
            final(self).export_failed == old(self).export_failed,
            final(self).save_message_count == old(self).save_message_count,
            final(self).window_size == old(self).window_size,
            final(self).bookmark_list@ == old(self).bookmark_list@.with_search(
                old(self).bookmark_bar.bookmark_search.search_option,
                old(self).bookmark_bar.bookmark_search.sort_option,
                typed_query(old(self).bookmark_bar.input_values@),
            ),
    {
        let search_name = "search".to_owned();
        proof {
            reveal_strlit("search");
        }
        assert(search_name@ == search_key());
        let query = self.bookmark_bar.input_value(&search_name);
        self.bookmark_list.update_search(
            self.bookmark_bar.bookmark_search.search_option,
            self.bookmark_bar.bookmark_search.sort_option,
            query,
        );
    }

    /// Acts on `message` and says what the caller must do next. Messages for
    /// the bar and the list are ignored until the store is loaded.
    pub fn update(&mut self, message: AppMessage) -> (effect: Effect)
        requires
            old(self).wf(),
        ensures
            final(self).wf(),
            old(self).loaded ==> final(self).loaded,
            effect matches Effect::Save(s) ==> final(self).loaded && s@
                == final(self).storage.records(),
            effect matches Effect::Export(s) ==> final(self).loaded && s@
                == final(self).storage.records(),
            (effect is Save) <==> (old(self).loaded && match message {
                AppMessage::BarMessage(m) => m is AddBookmark,
                AppMessage::ListMessage(m) => m is SaveEditBookmark || m is DeleteBookmark,
                _ => false,
            }),
            (effect is Export) <==> (old(self).loaded && message matches AppMessage::BarMessage(
                BarMessage::ExportAll,
            )),
            message matches AppMessage::Loaded(Ok(s)) ==> final(self).loaded && (ids_distinct(s@)
                ==> final(self).storage.records() == s@),
            message matches AppMessage::BarMessage(m) ==> (old(self).loaded ==> (bar_follows(
                old(self).bookmark_bar,
                final(self).bookmark_bar,
                m,
                old(self).storage.records(),
                final(self).storage.records(),
            ) && final(self).bookmark_list@ == (if m is SearchOptionChange || m is SortOptionChange
                || m is InputSet {
                old(self).bookmark_list@.with_search(
                    final(self).bookmark_bar.bookmark_search.search_option,
                    final(self).bookmark_bar.bookmark_search.sort_option,
                    typed_query(final(self).bookmark_bar.input_values@),
                )
            } else {
                old(self).bookmark_list@
            }))),
            (message is SaveDone || message matches AppMessage::Loaded(Err(_)) || (!old(self).loaded && (
            message is BarMessage || message is ListMessage))) ==> unchanged(*old(self), *final(self))
                && effect is Nothing,
            (message is ExportDone || message is HideExportDone || message is SizeChange) ==> same_content(
                *old(self),
                *final(self),
            ),
            message matches AppMessage::ListMessage(m) ==> (old(self).loaded && !(m is TagPress) ==> (
            final(self).bookmark_list@ == session_after(old(self).bookmark_list@, m)
                && final(self).storage.records() == records_after(
                old(self).storage.records(),
                old(self).bookmark_list@,
                m,
            ))),
            message matches AppMessage::ListMessage(ListMessage::OpenLink(link)) ==> (old(self).loaded
                ==> (effect matches Effect::OpenLink(url) && url@ == openable(link@))),
            message matches AppMessage::ListMessage(ListMessage::TagPress(tag)) ==> (old(self).loaded
                ==> (final(self).bookmark_bar.display == DisplayEnum::Search
                && final(self).bookmark_bar.bookmark_search.search_option == SearchOptions::Tags
                && final(self).bookmark_bar.input_values@ == old(self).bookmark_bar.input_values@.insert(
                search_key(),
                tag@,
            ) && final(self).bookmark_list@.filter == SearchOptions::Tags
                && final(self).bookmark_list@.query == Some(tag@))),
            message matches AppMessage::ExportDone(Ok(_)) ==> (final(self).save_message
                && !final(self).export_failed && final(self).save_message_count == next_ticket(
                old(self).save_message_count,
            ) && (effect matches Effect::HideNoticeLater(t) && t == final(self).save_message_count)),
            message matches AppMessage::ExportDone(Err(_)) ==> (final(self).export_failed
                && !final(self).save_message && final(self).save_message_count == next_ticket(
                old(self).save_message_count,
            ) && (effect matches Effect::HideNoticeLater(t) && t == final(self).save_message_count)),
            message matches AppMessage::HideExportDone(t) ==> (final(self).save_message == (old(
                self,
            ).save_message && t != old(self).save_message_count) && final(self).export_failed == (old(
                self,
            ).export_failed && t != old(self).save_message_count) && final(self).save_message_count
                == old(self).save_message_count && effect is Nothing),
            message matches AppMessage::SizeChange(w, h) ==> final(self).window_size == (WindowSize {
                width: w,
                height: h,
            }),
    {
        match message {
            AppMessage::Loaded(Ok(stored)) => {
                self.storage.stored = Some(Stored::from_bookmarks(stored.bookmarks));
                self.loaded = true;
                Effect::Nothing
            },
            AppMessage::Loaded(Err(_)) => Effect::Nothing,
            AppMessage::BarMessage(m) => {
                if !self.loaded {
                    return Effect::Nothing;
                }
                let save = match &m {
                    BarMessage::AddBookmark => true,
                    _ => false,
                };
                let search = match &m {
                    BarMessage::SearchOptionChange(_) => true,
                    BarMessage::SortOptionChange(_) => true,
                    BarMessage::InputSet(_, _) => true,
                    _ => false,
                };
                let export = match &m {
                    BarMessage::ExportAll => true,
                    _ => false,
                };
                self.bookmark_bar.update(m, &mut self.storage);
                if save {
                    match &self.storage.stored {
                        Some(s) => Effect::Save(s.snapshot()),
                        None => Effect::Nothing,
                    }
                } else if export {
                    match &self.storage.stored {
                        Some(s) => Effect::Export(s.snapshot()),
                        None => Effect::Nothing,
                    }
                } else {
                    if search {
                        self.sync_search();
                    }
                    Effect::Nothing
                }
            },
            AppMessage::ListMessage(m) => {
                if !self.loaded {
                    return Effect::Nothing;
                }
                let save = match &m {
                    ListMessage::SaveEditBookmark(_, _) => true,
                    ListMessage::DeleteBookmark(_) => true,
                    _ => false,
                };
                let tag = match &m {
                    ListMessage::TagPress(t) => Some(t.clone()),
                    _ => None,
                };
                let link = match &m {
                    ListMessage::OpenLink(l) => Some(link_to_open(l.as_str())),
                    _ => None,
                };
                self.bookmark_list.update(m, &mut self.storage);
                if save {
                    match &self.storage.stored {
                        Some(s) => Effect::Save(s.snapshot()),
                        None => Effect::Nothing,
                    }
                } else {
                    match tag {
                        Some(t) => {
                            let search_name = "search".to_owned();
                            proof {
                                reveal_strlit("search");
                            }
                            assert(search_name@ == search_key());
                            self.bookmark_bar.update(BarMessage::ShowSearch, &mut self.storage);
                            self.bookmark_bar.update(
                                BarMessage::SearchOptionChange(SearchOptions::Tags),
                                &mut self.storage,
                            );
                            self.bookmark_bar.update(BarMessage::InputSet(search_name, t), &mut self.storage);
                            self.sync_search();
                        },
                        None => {},
                    }
                    match link {
                        Some(url) => Effect::OpenLink(url),
                        None => Effect::Nothing,
                    }
                }
            },
            AppMessage::SaveDone(_) => Effect::Nothing,
            AppMessage::ExportDone(Ok(_)) => {
                self.save_message = true;
                self.export_failed = false;
                self.save_message_count = self.save_message_count.wrapping_add(1);
                Effect::HideNoticeLater(self.save_message_count)
            },
            AppMessage::ExportDone(Err(_)) => {
                self.export_failed = true;
                self.save_message = false;
                self.save_message_count = self.save_message_count.wrapping_add(1);
                Effect::HideNoticeLater(self.save_message_count)
            },
            AppMessage::HideExportDone(ticket) => {
                if ticket == self.save_message_count {
                    self.save_message = false;
                    self.export_failed = false;
                }
                Effect::Nothing
            },
            AppMessage::SizeChange(width, height) => {
                self.window_size = WindowSize { width, height };
                Effect::Nothing
            },
        }
    }
}

} // verus!
