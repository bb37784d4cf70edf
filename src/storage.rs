//! The bookmark record, the collection that owns the records, and the store
//! that holds the collection once it is loaded.

use vstd::prelude::*;

use crate::text::opt_string;
use crate::utils::{gen_uuid, get_timestamp, is_uuid_v4_text};

verus! {

/// Why the store could not be loaded, saved or exported.
#[derive(Clone, Copy, Debug, PartialEq, Eq, Structural)]
pub enum StorageError {
    CreateError,
    ReadError,
    OpenError,
    WriteError,
}

/// One saved link with its title, optional note, tags, identifier and the
/// second (since the Unix epoch) it was created at.
#[derive(Clone, Debug)]
pub struct Bookmark {
    pub title: String,
    pub link: String,
    pub note: Option<String>,
    pub tags: Vec<String>,
    pub uuid: String,
    pub timestamp: u64,
}

/// A bookmark as plain values.
pub struct BookmarkView {
    pub title: Seq<char>,
    pub link: Seq<char>,
    pub note: Option<Seq<char>>,
    pub tags: Seq<Seq<char>>,
    pub uuid: Seq<char>,
    pub timestamp: u64,
}

impl View for Bookmark {
    type V = BookmarkView;

    open spec fn view(&self) -> BookmarkView {
        BookmarkView {
            title: self.title@,
            link: self.link@,
            note: opt_string(self.note),
            tags: self.tags.deep_view(),
            uuid: self.uuid@,
            timestamp: self.timestamp,
        }
    }
}

impl Bookmark {
    /// A new bookmark with a fresh identifier; its time is `timestamp` when
    /// given, the present second otherwise.
    pub fn new(
        title: String,
        link: String,
        note: Option<String>,
        tags: Vec<String>,
        timestamp: Option<u64>,
    ) -> (r: Bookmark)
        ensures
            r.title@ == title@,
            r.link@ == link@,
            opt_string(r.note) == opt_string(note),
            r.tags.deep_view() == tags.deep_view(),
            is_uuid_v4_text(r.uuid@),
            timestamp matches Some(t) ==> r.timestamp == t,
    {
        let uuid = gen_uuid();
        let timestamp = match timestamp {
            Some(t) => t,
            None => get_timestamp(),
        };
        Bookmark { title, link, note, tags, uuid, timestamp }
    }

    /// A copy of this bookmark, field for field.
    pub fn duplicate(&self) -> (r: Bookmark)
        ensures
            r@ == self@,
    {
        let note = match &self.note {
            Some(n) => Some(n.clone()),
            None => None,
        };
        let tags = self.tags.clone();
        assert(tags.deep_view() =~= self.tags.deep_view());
        Bookmark {
            title: self.title.clone(),
            link: self.link.clone(),
            note,
            tags,
            uuid: self.uuid.clone(),
            timestamp: self.timestamp,
        }
    }
}

/// No two records of `s` share an identifier.
pub open spec fn ids_distinct(s: Seq<BookmarkView>) -> bool {
    forall|i: int, j: int|
        0 <= i < s.len() && 0 <= j < s.len() && i != j ==> #[trigger] s[i].uuid != #[trigger] s[j].uuid
}

/// Some record of `s` has identifier `id`.
pub open spec fn has_id(s: Seq<BookmarkView>, id: Seq<char>) -> bool {
    exists|i: int| 0 <= i < s.len() && #[trigger] s[i].uuid == id
}

/// The position of the record with identifier `id`, where there is one.
pub open spec fn position_of_id(s: Seq<BookmarkView>, id: Seq<char>) -> int {
    choose|i: int| 0 <= i < s.len() && #[trigger] s[i].uuid == id
}

/// `s` with `b` put in place of the record that shares its identifier, or
/// added at the end when none does.
pub open spec fn upserted(s: Seq<BookmarkView>, b: BookmarkView) -> Seq<BookmarkView> {
    if has_id(s, b.uuid) {
        s.update(position_of_id(s, b.uuid), b)
    } else {
        s.push(b)
    }
}

/// `s` without the record with identifier `id`.
pub open spec fn removed(s: Seq<BookmarkView>, id: Seq<char>) -> Seq<BookmarkView> {
    if has_id(s, id) {
        s.remove(position_of_id(s, id))
    } else {
        s
    }
}

/// The records `s` put in one after another, each replacing an earlier one
/// with its identifier.
pub open spec fn upserted_all(s: Seq<BookmarkView>) -> Seq<BookmarkView>
    decreases s.len(),
{
    if s.len() == 0 {
        Seq::empty()
    } else {
        upserted(upserted_all(s.drop_last()), s.last())
    }
}

/// Records with distinct identifiers are put in as they are.
pub proof fn lemma_upserted_all_distinct(s: Seq<BookmarkView>)
    requires
        ids_distinct(s),
    ensures
        upserted_all(s) == s,
    decreases s.len(),
{
    if s.len() > 0 {
        let init = s.drop_last();
        assert(ids_distinct(init));
        lemma_upserted_all_distinct(init);
        assert(!has_id(init, s.last().uuid)) by {
            if has_id(init, s.last().uuid) {
                let k = choose|k: int| 0 <= k < init.len() && #[trigger] init[k].uuid == s.last().uuid;
                assert(s[k].uuid == s[s.len() - 1].uuid);
            }
        }
        assert(init.push(s.last()) =~= s);
    }
}

/// Some record of `s` has link `link`.
pub open spec fn has_link(s: Seq<BookmarkView>, link: Seq<char>) -> bool {
    exists|i: int| 0 <= i < s.len() && #[trigger] s[i].link == link
}

/// The whole collection, in the order the records came in.
#[derive(Clone, Debug)]
pub struct Stored {
    pub bookmarks: Vec<Bookmark>,
}

impl View for Stored {
    type V = Seq<BookmarkView>;

    open spec fn view(&self) -> Seq<BookmarkView> {
        self.bookmarks@.map_values(|b: Bookmark| b@)
    }
}

impl Stored {
    /// Identifiers are unique across the collection.
    pub open spec fn wf(&self) -> bool {
        ids_distinct(self@)
    }

    /// The empty collection.
    pub fn new() -> (r: Stored)
        ensures
            r@ == Seq::<BookmarkView>::empty(),
            r.wf(),
    {
        Stored { bookmarks: Vec::new() }
    }

    /// The position of the record with identifier `uuid`.
    pub fn find(&self, uuid: &String) -> (r: Option<usize>)
        ensures
            r matches Some(i) ==> i < self@.len() && self@[i as int].uuid == uuid@,
            r is None <==> !has_id(self@, uuid@),
    {
        let mut i: usize = 0;
        while i < self.bookmarks.len()
            invariant
                i <= self.bookmarks.len(),
                forall|j: int| 0 <= j < i ==> self@[j].uuid != uuid@,
            decreases self.bookmarks.len() - i,
        {
            if self.bookmarks[i].uuid == *uuid {
                assert(self@[i as int].uuid == uuid@);
                return Some(i);
            }
            i = i + 1;
        }
        None
    }

    /// Whether some record already has the link `link`.
    pub fn contains_link(&self, link: &String) -> (r: bool)
        ensures
            r == has_link(self@, link@),
    {
        let mut i: usize = 0;
        while i < self.bookmarks.len()
            invariant
                i <= self.bookmarks.len(),
                forall|j: int| 0 <= j < i ==> self@[j].link != link@,
            decreases self.bookmarks.len() - i,
        {
            if self.bookmarks[i].link == *link {
                assert(self@[i as int].link == link@);
                return true;
            }
            i = i + 1;
        }
        false
    }

    /// Puts `bookmark` in place of the record with its identifier, or adds it
    /// at the end.
    pub fn add_bookmark(&mut self, bookmark: Bookmark)
        requires
            old(self).wf(),
        ensures
            final(self).wf(),
            final(self)@ == upserted(old(self)@, bookmark@),
    {
        let ghost b = bookmark@;
        match self.find(&bookmark.uuid) {
            Some(i) => {
                proof {
                    let k = position_of_id(old(self)@, b.uuid);
                    assert(old(self)@[k].uuid == b.uuid);
                    assert(k == i);
                }
                self.bookmarks.set(i, bookmark);
                assert(self@ =~= old(self)@.update(i as int, b));
            },
            None => {
                self.bookmarks.push(bookmark);
                assert(self@ =~= old(self)@.push(b));
            },
        }
    }

    /// Removes the record with identifier `uuid`; nothing happens when there
    /// is none.
    pub fn remove_bookmark(&mut self, uuid: String)
        requires
            old(self).wf(),
        ensures
            final(self).wf(),
            final(self)@ == removed(old(self)@, uuid@),
    {
        match self.find(&uuid) {
            Some(i) => {
                proof {
                    let k = position_of_id(old(self)@, uuid@);
                    assert(old(self)@[k].uuid == uuid@);
                    assert(k == i);
                }
                self.bookmarks.remove(i);
                assert(self@ =~= old(self)@.remove(i as int));
            },
            None => {},
        }
    }

    /// The collection of the given records; a later record replaces an
    /// earlier one with the same identifier.
    pub fn from_bookmarks(bookmarks: Vec<Bookmark>) -> (r: Stored)
        ensures
            r.wf(),
            r@ == upserted_all(bookmarks@.map_values(|b: Bookmark| b@)),
            ids_distinct(bookmarks@.map_values(|b: Bookmark| b@)) ==> r@ == bookmarks@.map_values(
                |b: Bookmark| b@,
            ),
    {
        let ghost given = bookmarks@.map_values(|b: Bookmark| b@);
        let mut r = Stored::new();
        let mut rest = bookmarks;
        while rest.len() > 0
            invariant
                r.wf(),
                rest@.len() <= given.len(),
                r@ == upserted_all(given.subrange(0, given.len() - rest@.len())),
                rest@.map_values(|b: Bookmark| b@) == given.subrange(
                    given.len() - rest@.len(),
                    given.len() as int,
                ),
            decreases rest.len(),
        {
            let ghost before = rest@;
            let ghost n = given.len() - before.len();
            assert(before.map_values(|b: Bookmark| b@)[0] == given[n]);
            let b = rest.remove(0);
            assert(b@ == given[n]);
            assert(rest@.map_values(|b: Bookmark| b@) =~= given.subrange(n + 1, given.len() as int))
                by {
                assert(rest@ =~= before.subrange(1, before.len() as int));
                assert forall|k: int| 0 <= k < rest@.len() implies #[trigger] rest@[k]@ == given[n
                    + 1 + k] by {
                    assert(before.map_values(|b: Bookmark| b@)[k + 1] == given[n + 1 + k]);
                }
            }
            r.add_bookmark(b);
            assert(given.subrange(0, n + 1).drop_last() =~= given.subrange(0, n));
        }
        assert(given.subrange(0, given.len() as int) =~= given);
        proof {
            if ids_distinct(given) {
                lemma_upserted_all_distinct(given);
            }
        }
        r
    }
}

impl Stored {
    /// A copy of the collection, record for record.
    pub fn snapshot(&self) -> (r: Stored)
        ensures
            r@ == self@,
    {
        let mut bookmarks: Vec<Bookmark> = Vec::new();
        let mut i: usize = 0;
        while i < self.bookmarks.len()
            invariant
                i <= self.bookmarks.len(),
                bookmarks@.len() == i,
                forall|k: int| 0 <= k < i ==> (#[trigger] bookmarks@[k])@ == self.bookmarks@[k]@,
            decreases self.bookmarks.len() - i,
        {
            bookmarks.push(self.bookmarks[i].duplicate());
            i = i + 1;
        }
        let r = Stored { bookmarks };
        assert(r@ =~= self@);
        r
    }
}

/// Holds the collection once it has been loaded.
pub struct Storage {
    pub stored: Option<Stored>,
}

impl Storage {
    /// A store that has loaded nothing yet.
    pub fn new() -> (r: Storage)
        ensures
            r.stored is None,
    {
        Storage { stored: None }
    }

    /// The store is loaded and its collection is well formed.
    pub open spec fn ready(&self) -> bool {
        self.stored matches Some(s) && s.wf()
    }

    /// The records of the loaded collection.
    pub open spec fn records(&self) -> Seq<BookmarkView> {
        match self.stored {
            Some(s) => s@,
            None => Seq::empty(),
        }
    }

    /// Whether a record of the loaded collection has identifier `uuid`.
    pub fn holds_id(&self, uuid: &String) -> (r: bool)
        ensures
            r == has_id(self.records(), uuid@),
    {
        match &self.stored {
            Some(s) => s.find(uuid).is_some(),
            None => false,
        }
    }

    /// Puts `bookmark` in place of the record with its identifier, or adds it.
    pub fn add_bookmark(&mut self, bookmark: Bookmark)
        requires
            old(self).ready(),
        ensures
            final(self).ready(),
            final(self).records() == upserted(old(self).records(), bookmark@),
    {
        match &mut self.stored {
            Some(s) => s.add_bookmark(bookmark),
            None => {},
        }
    }

    /// Removes the record with identifier `uuid`, if there is one.
    pub fn remove_bookmark(&mut self, uuid: String)
        requires
            old(self).ready(),
        ensures
            final(self).ready(),
            final(self).records() == removed(old(self).records(), uuid@),
    {
        match &mut self.stored {
            Some(s) => s.remove_bookmark(uuid),
            None => {},
        }
    }

    /// The text of a store file that holds no bookmarks.
    pub fn empty_json() -> (r: String)
        ensures
            r@ == "{\n  \"bookmarks\": {}\n}"@,
    {
        "{\n  \"bookmarks\": {}\n}".to_owned()
    }
}

} // verus!
