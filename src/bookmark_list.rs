//! The list view's session: which bookmarks are expanded or being edited, the
//! field values typed into an edit, and how an edit is committed.

use vstd::prelude::*;

use crate::bookmark_bar::{SearchOptions, SortOptions};
use crate::query::{is_listing, list};
use crate::storage::{removed, upserted, Bookmark, BookmarkView, Storage, Stored};
use crate::text::{all_white, lemma_trimmed_empty, opt_string, parse_u64, parse_u64_of, split_at_char, split_on, trim};
use crate::utils::{normalize_link, normalized};

verus! {

/// The fields of a bookmark that an edit can change.
#[derive(Clone, Copy, Debug, PartialEq, Eq, Structural)]
pub enum FieldTag {
    Title,
    Link,
    Tags,
    Note,
    Timestamp,
}

/// The tags that a comma-separated text gives: none for a blank text, else
/// the pieces between the commas, untrimmed.
pub open spec fn tags_of(s: Seq<char>) -> Seq<Seq<char>> {
    if all_white(s) {
        Seq::empty()
    } else {
        split_on(s, ',')
    }
}

/// Reads a comma-separated list of tags.
pub fn parse_tags(s: &str) -> (r: Vec<String>)
    ensures
        r.deep_view() == tags_of(s@),
{
    let t = trim(s);
    proof {
        lemma_trimmed_empty(s@);
    }
    if t.is_empty() {
        let r: Vec<String> = Vec::new();
        assert(r.deep_view() =~= Seq::<Seq<char>>::empty());
        r
    } else {
        split_at_char(s, ',')
    }
}

/// The texts of a vector of strings.
pub open spec fn id_seq(v: Seq<String>) -> Seq<Seq<char>> {
    v.map_values(|s: String| s@)
}

/// The identifiers held in a vector.
pub open spec fn ids(v: Seq<String>) -> Set<Seq<char>> {
    id_seq(v).to_set()
}

/// Pending values, by identifier and field.
pub type Pending = Map<(Seq<char>, FieldTag), Seq<char>>;

/// `p` without the values pending for `id`.
pub open spec fn cleared(p: Pending, id: Seq<char>) -> Pending {
    Map::new(|k: (Seq<char>, FieldTag)| p.contains_key(k) && k.0 != id, |k: (Seq<char>, FieldTag)| p[k])
}

/// The pending value of `field` for `id`, where one was typed.
pub open spec fn pending_of(p: Pending, id: Seq<char>, field: FieldTag) -> Option<Seq<char>> {
    if p.contains_key((id, field)) {
        Some(p[(id, field)])
    } else {
        None
    }
}

/// What committing the edit of `id` makes of `b`: each field with a pending
/// value takes it as its rule says; the others keep theirs.
pub open spec fn committed(b: BookmarkView, id: Seq<char>, p: Pending) -> BookmarkView {
    BookmarkView {
        title: match pending_of(p, id, FieldTag::Title) {
            Some(t) if t.len() > 0 => t,
            _ => b.title,
        },
        link: match pending_of(p, id, FieldTag::Link) {
            Some(l) if l.len() > 0 => normalized(l),
            _ => b.link,
        },
        note: match pending_of(p, id, FieldTag::Note) {
            Some(n) => if n.len() == 0 {
                None
            } else {
                Some(n)
            },
            None => b.note,
        },
        tags: match pending_of(p, id, FieldTag::Tags) {
            Some(t) => tags_of(t),
            None => b.tags,
        },
        uuid: b.uuid,
        timestamp: match pending_of(p, id, FieldTag::Timestamp) {
            Some(t) => match parse_u64_of(t) {
                Some(v) => v,
                None => b.timestamp,
            },
            None => b.timestamp,
        },
    }
}

/// A value typed into the edit form of one bookmark.
pub struct PendingEdit {
    pub id: String,
    pub field: FieldTag,
    pub value: String,
}

/// What the list view shows, as plain values.
#[verifier::ext_equal]
pub struct SessionView {
    pub filter: SearchOptions,
    pub sort: SortOptions,
    pub query: Option<Seq<char>>,
    pub expanded: Set<Seq<char>>,
    pub editing: Set<Seq<char>>,
    pub pending: Pending,
}

/// The list view's state.
pub struct BookmarkList {
    filter: SearchOptions,
    sort: SortOptions,
    query: Option<String>,
    expand_uuids: Vec<String>,
    edit_uuids: Vec<String>,
    input_values: Vec<PendingEdit>,
    pending: Ghost<Pending>,
}

impl View for BookmarkList {
    type V = SessionView;

    closed spec fn view(&self) -> SessionView {
        SessionView {
            filter: self.filter,
            sort: self.sort,
            query: opt_string(self.query),
            expanded: ids(self.expand_uuids@),
            editing: ids(self.edit_uuids@),
            pending: self.pending@,
        }
    }
}

/// Whether `v` holds `id`.
fn holds_id(v: &Vec<String>, id: &String) -> (r: bool)
    ensures
        r == ids(v@).contains(id@),
{
    let mut i: usize = 0;
    while i < v.len()
        invariant
            i <= v.len(),
            forall|j: int| 0 <= j < i ==> v@[j]@ != id@,
        decreases v.len() - i,
    {
        if v[i] == *id {
            assert(id_seq(v@)[i as int] == id@);
            return true;
        }
        i = i + 1;
    }
    assert(!id_seq(v@).contains(id@)) by {
        if id_seq(v@).contains(id@) {
            let k = choose|k: int|
                0 <= k < v@.len() && #[trigger] id_seq(v@)[k] == id@;
            assert(v@[k]@ == id@);
        }
    }
    false
}

/// `v` without `id`.
fn drop_id(v: Vec<String>, id: &String) -> (r: Vec<String>)
    ensures
        ids(r@) == ids(v@).remove(id@),
{
    let mut r: Vec<String> = Vec::new();
    let mut i: usize = 0;
    while i < v.len()
        invariant
            i <= v.len(),
            forall|k: int| 0 <= k < r@.len() ==> (#[trigger] r@[k])@ != id@,
            forall|k: int| 0 <= k < r@.len() ==> ids(v@).contains((#[trigger] r@[k])@),
            forall|j: int| 0 <= j < i && v@[j]@ != id@ ==> ids(r@).contains((#[trigger] v@[j])@),
        decreases v.len() - i,
    {
        assert(id_seq(v@)[i as int] == v@[i as int]@);
        if !(v[i] == *id) {
            let ghost before = r@;
            r.push(v[i].clone());
            assert(r@ == before.push(v@[i as int]));
            assert forall|j: int| 0 <= j <= i && v@[j]@ != id@ implies ids(r@).contains(
                (#[trigger] v@[j])@,
            ) by {
                if j < i {
                    assert(ids(before).contains(v@[j]@));
                    let k = choose|k: int|
                        0 <= k < before.len() && #[trigger] id_seq(before)[k]
                            == v@[j]@;
                    assert(id_seq(r@)[k] == v@[j]@);
                } else {
                    assert(id_seq(r@)[before.len() as int] == v@[j]@);
                }
            }
        }
        i = i + 1;
    }
    assert(ids(r@) =~= ids(v@).remove(id@)) by {
        assert forall|x: Seq<char>| ids(r@).contains(x) implies ids(v@).remove(id@).contains(x) by {
            let k = choose|k: int|
                0 <= k < r@.len() && #[trigger] id_seq(r@)[k] == x;
            assert(r@[k]@ == x);
        }
        assert forall|x: Seq<char>| ids(v@).remove(id@).contains(x) implies ids(r@).contains(x) by {
            let j = choose|j: int|
                0 <= j < v@.len() && #[trigger] id_seq(v@)[j] == x;
            assert(v@[j]@ == x);
        }
    }
    r
}


/// The key of a pending value.
pub open spec fn key_of(e: PendingEdit) -> (Seq<char>, FieldTag) {
    (e.id@, e.field)
}

/// The pending entries `v` hold exactly the values of `m`, one entry per key.
pub open spec fn pending_matches(v: Seq<PendingEdit>, m: Pending) -> bool {
    &&& forall|i: int|
        0 <= i < v.len() ==> m.contains_key(#[trigger] key_of(v[i])) && m[key_of(v[i])] == v[i].value@
    &&& forall|k: (Seq<char>, FieldTag)|
        #[trigger] m.contains_key(k) ==> exists|i: int| 0 <= i < v.len() && key_of(v[i]) == k
    &&& forall|i: int, j: int|
        0 <= i < v.len() && 0 <= j < v.len() && i != j ==> key_of(v[i]) != key_of(v[j])
}

impl SessionView {
    /// Expanding `id` shows it in full, unless it is being edited.
    pub open spec fn with_expanded(self, id: Seq<char>) -> SessionView {
        if self.editing.contains(id) {
            self
        } else {
            SessionView { expanded: self.expanded.insert(id), ..self }
        }
    }

    /// `id` goes back to its one-line form.
    pub open spec fn with_unexpanded(self, id: Seq<char>) -> SessionView {
        SessionView { expanded: self.expanded.remove(id), ..self }
    }

    /// `id` leaves the expanded form for the edit form, with nothing typed.
    pub open spec fn with_edit_begun(self, id: Seq<char>) -> SessionView {
        SessionView {
            expanded: self.expanded.remove(id),
            editing: self.editing.insert(id),
            pending: cleared(self.pending, id),
            ..self
        }
    }

    /// `id` leaves the edit form, and what was typed for it is dropped.
    pub open spec fn with_edit_left(self, id: Seq<char>) -> SessionView {
        SessionView { editing: self.editing.remove(id), pending: cleared(self.pending, id), ..self }
    }

    /// `value` is typed into `field` of the edit of `id`.
    pub open spec fn with_pending(self, id: Seq<char>, field: FieldTag, value: Seq<char>) -> SessionView {
        SessionView { pending: self.pending.insert((id, field), value), ..self }
    }

    /// The search and the order of the list change.
    pub open spec fn with_search(
        self,
        filter: SearchOptions,
        sort: SortOptions,
        query: Option<Seq<char>>,
    ) -> SessionView {
        SessionView { filter, sort, query, ..self }
    }

    /// No identifier is both expanded and being edited.
    pub open spec fn separated(self) -> bool {
        self.expanded.disjoint(self.editing)
    }
}

impl BookmarkList {
    /// The session's own invariant: no identifier is both expanded and being
    /// edited, and the pending entries hold one value per key.
    pub closed spec fn wf(&self) -> bool {
        &&& self@.separated()
        &&& pending_matches(self.input_values@, self.pending@)
    }

    /// A well-formed session never has an identifier both expanded and being
    /// edited.
    pub proof fn lemma_separated(&self)
        requires
            self.wf(),
        ensures
            self@.separated(),
    {
    }

    /// A list showing everything in the order it came, with nothing expanded
    /// or being edited.
    pub fn new() -> (r: BookmarkList)
        ensures
            r.wf(),
            r@.filter == SearchOptions::All,
            r@.sort == SortOptions::Relevant,
            r@.query is None,
            r@.expanded == Set::<Seq<char>>::empty(),
            r@.editing == Set::<Seq<char>>::empty(),
            r@.pending == Map::<(Seq<char>, FieldTag), Seq<char>>::empty(),
    {
        let r = BookmarkList {
            filter: SearchOptions::All,
            sort: SortOptions::Relevant,
            query: None,
            expand_uuids: Vec::new(),
            edit_uuids: Vec::new(),
            input_values: Vec::new(),
            pending: Ghost(Map::empty()),
        };
        assert(r@.expanded =~= Set::<Seq<char>>::empty());
        assert(r@.editing =~= Set::<Seq<char>>::empty());
        r
    }

    /// Where the pending value of `field` for `id` is kept.
    fn find_pending(&self, id: &String, field: FieldTag) -> (r: Option<usize>)
        requires
            self.wf(),
        ensures
            r matches Some(i) ==> i < self.input_values@.len() && key_of(self.input_values@[i as int])
                == (id@, field),
            r is None ==> !self@.pending.contains_key((id@, field)),
    {
        let mut i: usize = 0;
        while i < self.input_values.len()
            invariant
                i <= self.input_values.len(),
                forall|j: int| 0 <= j < i ==> key_of(#[trigger] self.input_values@[j]) != (id@, field),
            decreases self.input_values.len() - i,
        {
            let e = &self.input_values[i];
            if e.field == field && e.id == *id {
                return Some(i);
            }
            i = i + 1;
        }
        proof {
            if self.pending@.contains_key((id@, field)) {
                let j = choose|j: int|
                    0 <= j < self.input_values@.len() && key_of(self.input_values@[j]) == (id@, field);
            }
        }
        None
    }

    /// The value typed into `field` of the edit of `id`, if any.
    pub fn pending_value(&self, id: &String, field: FieldTag) -> (r: Option<String>)
        requires
            self.wf(),
        ensures
            opt_string(r) == pending_of(self@.pending, id@, field),
    {
        match self.find_pending(id, field) {
            Some(i) => {
                assert(key_of(self.input_values@[i as int]) == (id@, field));
                Some(self.input_values[i].value.clone())
            },
            None => None,
        }
    }

    /// Types `value` into `field` of the edit of `id`.
    pub fn set_pending_field(&mut self, id: String, field: FieldTag, value: String)
        requires
            old(self).wf(),
        ensures
            final(self).wf(),
            final(self)@ == old(self)@.with_pending(id@, field, value@),
    {
        let ghost key = (id@, field);
        let ghost v = value@;
        match self.find_pending(&id, field) {
            Some(i) => {
                let ghost before = self.input_values@;
                self.input_values.set(i, PendingEdit { id, field, value });
                self.pending = Ghost(self.pending@.insert(key, v));
                assert forall|k: (Seq<char>, FieldTag)| #[trigger] self.pending@.contains_key(k) implies exists|j: int|
                    0 <= j < self.input_values@.len() && key_of(self.input_values@[j]) == k by {
                    if k != key {
                        let j = choose|j: int| 0 <= j < before.len() && key_of(before[j]) == k;
                        assert(key_of(self.input_values@[j]) == k);
                    } else {
                        assert(key_of(self.input_values@[i as int]) == k);
                    }
                }
            },
            None => {
                let ghost before = self.input_values@;
                self.input_values.push(PendingEdit { id, field, value });
                self.pending = Ghost(self.pending@.insert(key, v));
                assert forall|k: (Seq<char>, FieldTag)| #[trigger] self.pending@.contains_key(k) implies exists|j: int|
                    0 <= j < self.input_values@.len() && key_of(self.input_values@[j]) == k by {
                    if k != key {
                        let j = choose|j: int| 0 <= j < before.len() && key_of(before[j]) == k;
                        assert(key_of(self.input_values@[j]) == k);
                    } else {
                        assert(key_of(self.input_values@[before.len() as int]) == k);
                    }
                }
            },
        }
        assert(self@ =~= old(self)@.with_pending(id@, field, value@));
    }

    /// Drops every value typed for `id`.
    fn clear_pending(&mut self, id: &String)
        requires
            old(self).wf(),
        ensures
            final(self).wf(),
            final(self)@ == (SessionView { pending: cleared(old(self)@.pending, id@), ..old(self)@ }),
    {
        let ghost m = self.pending@;
        let ghost target = cleared(m, id@);
        let mut kept: Vec<PendingEdit> = Vec::new();
        let mut old_values: Vec<PendingEdit> = Vec::new();
        std::mem::swap(&mut old_values, &mut self.input_values);
        let ghost all = old_values@;
        let ghost mut origin: Seq<int> = Seq::empty();
        assert(pending_matches(all, m));
        let mut i: usize = 0;
        while i < old_values.len()
            invariant
                i <= old_values.len(),
                old_values@ == all,
                pending_matches(all, m),
                origin.len() == kept@.len(),
                forall|k: int|
                    0 <= k < kept@.len() ==> 0 <= #[trigger] origin[k] < i && kept@[k] == all[origin[k]]
                        && all[origin[k]].id@ != id@,
                forall|k1: int, k2: int| 0 <= k1 < k2 < kept@.len() ==> #[trigger] origin[k1] < #[trigger] origin[k2],
                forall|j: int|
                    0 <= j < i && all[j].id@ != id@ ==> exists|k: int|
                        0 <= k < kept@.len() && #[trigger] origin[k] == j,
            decreases old_values.len() - i,
        {
            let e = &old_values[i];
            if !(e.id == *id) {
                let ghost before = kept@;
                let ghost before_origin = origin;
                kept.push(PendingEdit { id: e.id.clone(), field: e.field, value: e.value.clone() });
                proof {
                    origin = origin.push(i as int);
                }
                let ghost n = before.len() as int;
                assert(kept@[n] == all[i as int]);
                assert forall|k: int| 0 <= k < n implies kept@[k] == before[k] && origin[k] == before_origin[k] by {}
                assert forall|j: int|
                    0 <= j < i + 1 && all[j].id@ != id@ implies exists|k: int|
                        0 <= k < kept@.len() && #[trigger] origin[k] == j by {
                    if j < i {
                        let k = choose|k: int| 0 <= k < before.len() && #[trigger] before_origin[k] == j;
                        assert(origin[k] == j);
                    } else {
                        assert(origin[n] == j);
                    }
                }
            }
            i = i + 1;
        }
        assert forall|a: int, b: int|
            0 <= a < kept@.len() && 0 <= b < kept@.len() && a != b implies key_of(kept@[a]) != key_of(kept@[b]) by {
            if a < b {
                assert(origin[a] < origin[b]);
            } else {
                assert(origin[b] < origin[a]);
            }
        }
        self.input_values = kept;
        self.pending = Ghost(target);
        assert forall|k: (Seq<char>, FieldTag)| #[trigger] target.contains_key(k) implies exists|j: int|
            0 <= j < self.input_values@.len() && key_of(self.input_values@[j]) == k by {
            let j = choose|j: int| 0 <= j < all.len() && key_of(all[j]) == k;
            let q = choose|q: int| 0 <= q < kept@.len() && #[trigger] origin[q] == j;
            assert(key_of(self.input_values@[q]) == k);
        }
        assert forall|q: int| 0 <= q < self.input_values@.len() implies target.contains_key(
            #[trigger] key_of(self.input_values@[q])) && target[key_of(self.input_values@[q])]
                == self.input_values@[q].value@ by {
            assert(key_of(all[origin[q]]) == key_of(self.input_values@[q]));
        }
        assert(self@ =~= (SessionView { pending: cleared(old(self)@.pending, id@), ..old(self)@ }));
    }
}

/// `v` with `id` added at the end.
fn push_id(v: &mut Vec<String>, id: String)
    ensures
        ids(final(v)@) == ids(old(v)@).insert(id@),
{
    let ghost before = v@;
    v.push(id);
    assert(ids(v@) =~= ids(before).insert(id@)) by {
        assert(id_seq(v@) == id_seq(before).push(id@));
        assert(id_seq(v@)[before.len() as int] == id@);
        assert forall|x: Seq<char>| ids(before).contains(x) implies ids(v@).contains(x) by {
            let k = choose|k: int| 0 <= k < before.len() && #[trigger] id_seq(before)[k] == x;
            assert(id_seq(v@)[k] == x);
        }
        assert forall|x: Seq<char>| ids(v@).contains(x) implies ids(before).insert(id@).contains(x) by {
            let k = choose|k: int| 0 <= k < v@.len() && #[trigger] id_seq(v@)[k] == x;
            if k < before.len() {
                assert(id_seq(before)[k] == x);
            }
        }
    }
}

/// What the list view is asked to do.
#[derive(Clone, Debug)]
pub enum ListMessage {
    ExpandBookmark(String),
    UnexpandBookmark(String),
    EditBookmark(String),
    IgnoreEditBookmark(String),
    SaveEditBookmark(String, Bookmark),
    DeleteBookmark(String),
    OpenLink(String),
    InputSet(String, FieldTag, String),
    UpdateSearch(SearchOptions, SortOptions, Option<String>),
    TagPress(String),
}

impl ListMessage {
    /// Whether the collection must be saved after this message: after an
    /// edit is committed and after a deletion.
    pub fn is_save_after(message: ListMessage) -> (r: bool)
        ensures
            r == (message is SaveEditBookmark || message is DeleteBookmark),
    {
        match message {
            ListMessage::SaveEditBookmark(_, _) => true,
            ListMessage::DeleteBookmark(_) => true,
            _ => false,
        }
    }
}

/// The session after `message`.
pub open spec fn session_after(v: SessionView, message: ListMessage) -> SessionView {
    match message {
        ListMessage::ExpandBookmark(id) => v.with_expanded(id@),
        ListMessage::UnexpandBookmark(id) => v.with_unexpanded(id@),
        ListMessage::EditBookmark(id) => v.with_edit_begun(id@),
        ListMessage::IgnoreEditBookmark(id) => v.with_edit_left(id@),
        ListMessage::SaveEditBookmark(id, _) => v.with_edit_left(id@),
        ListMessage::InputSet(id, field, value) => v.with_pending(id@, field, value@),
        ListMessage::UpdateSearch(filter, sort, query) => v.with_search(filter, sort, opt_string(query)),
        _ => v,
    }
}

/// The collection after `message`, given the session before it.
pub open spec fn records_after(
    s: Seq<BookmarkView>,
    v: SessionView,
    message: ListMessage,
) -> Seq<BookmarkView> {
    match message {
        ListMessage::SaveEditBookmark(id, b) => upserted(s, committed(b@, id@, v.pending)),
        ListMessage::DeleteBookmark(id) => removed(s, id@),
        _ => s,
    }
}

impl BookmarkList {
    /// Whether `id` is shown in full.
    pub fn is_expanded(&self, id: &String) -> (r: bool)
        ensures
            r == self@.expanded.contains(id@),
    {
        holds_id(&self.expand_uuids, id)
    }

    /// Whether `id` is shown in its edit form.
    pub fn is_editing(&self, id: &String) -> (r: bool)
        ensures
            r == self@.editing.contains(id@),
    {
        holds_id(&self.edit_uuids, id)
    }

    /// Shows `id` in full, unless it is being edited.
    pub fn expand(&mut self, id: String)
        requires
            old(self).wf(),
        ensures
            final(self).wf(),
            final(self)@ == old(self)@.with_expanded(id@),
    {
        if !holds_id(&self.edit_uuids, &id) && !holds_id(&self.expand_uuids, &id) {
            push_id(&mut self.expand_uuids, id);
        } else {
            assert(old(self)@.editing.contains(id@) || old(self)@.expanded.insert(id@) =~= old(self)@.expanded);
        }
        assert(self@ =~= old(self)@.with_expanded(id@));
    }

    /// Shows `id` on one line again.
    pub fn unexpand(&mut self, id: String)
        requires
            old(self).wf(),
        ensures
            final(self).wf(),
            final(self)@ == old(self)@.with_unexpanded(id@),
    {
        let mut v: Vec<String> = Vec::new();
        std::mem::swap(&mut v, &mut self.expand_uuids);
        self.expand_uuids = drop_id(v, &id);
        assert(self@ =~= old(self)@.with_unexpanded(id@));
    }

    /// Opens the edit form of `id`: it leaves the expanded form, and values
    /// typed for it before are dropped.
    pub fn begin_edit(&mut self, id: String)
        requires
            old(self).wf(),
        ensures
            final(self).wf(),
            final(self)@ == old(self)@.with_edit_begun(id@),
    {
        let mut v: Vec<String> = Vec::new();
        std::mem::swap(&mut v, &mut self.expand_uuids);
        self.expand_uuids = drop_id(v, &id);
        if !holds_id(&self.edit_uuids, &id) {
            push_id(&mut self.edit_uuids, id.clone());
        } else {
            assert(old(self)@.editing.insert(id@) =~= old(self)@.editing);
        }
        self.clear_pending(&id);
        assert(self@ =~= old(self)@.with_edit_begun(id@));
    }

    /// Closes the edit form of `id` and drops what was typed for it.
    pub fn cancel_edit(&mut self, id: String)
        requires
            old(self).wf(),
        ensures
            final(self).wf(),
            final(self)@ == old(self)@.with_edit_left(id@),
    {
        let mut v: Vec<String> = Vec::new();
        std::mem::swap(&mut v, &mut self.edit_uuids);
        self.edit_uuids = drop_id(v, &id);
        self.clear_pending(&id);
        assert(self@ =~= old(self)@.with_edit_left(id@));
    }

    /// `bookmark` with the values typed for `id` applied by each field's rule.
    pub fn edited(&self, id: &String, bookmark: Bookmark) -> (r: Bookmark)
        requires
            self.wf(),
        ensures
            r@ == committed(bookmark@, id@, self@.pending),
    {
        let mut b = bookmark;
        match self.pending_value(id, FieldTag::Title) {
            Some(t) => {
                if !t.as_str().is_empty() {
                    b.title = t;
                }
            },
            None => {},
        }
        match self.pending_value(id, FieldTag::Link) {
            Some(l) => {
                if !l.as_str().is_empty() {
                    b.link = normalize_link(l);
                }
            },
            None => {},
        }
        match self.pending_value(id, FieldTag::Tags) {
            Some(t) => {
                b.tags = parse_tags(t.as_str());
            },
            None => {},
        }
        match self.pending_value(id, FieldTag::Note) {
            Some(n) => {
                if n.as_str().is_empty() {
                    b.note = None;
                } else {
                    b.note = Some(n);
                }
            },
            None => {},
        }
        match self.pending_value(id, FieldTag::Timestamp) {
            Some(t) => {
                match parse_u64(t.as_str()) {
                    Some(v) => {
                        b.timestamp = v;
                    },
                    None => {},
                }
            },
            None => {},
        }
        b
    }

    /// Commits the edit of `id`: the edited bookmark replaces the record with
    /// its identifier, and the edit form of `id` closes.
    pub fn commit_edit(&mut self, id: String, bookmark: Bookmark, storage: &mut Storage)
        requires
            old(self).wf(),
            old(storage).ready(),
        ensures
            final(self).wf(),
            final(self)@ == old(self)@.with_edit_left(id@),
            final(storage).ready(),
            final(storage).records() == upserted(
                old(storage).records(),
                committed(bookmark@, id@, old(self)@.pending),
            ),
    {
        let b = self.edited(&id, bookmark);
        storage.add_bookmark(b);
        self.cancel_edit(id);
    }

    /// Deletes the record with identifier `id`.
    pub fn delete(&mut self, id: String, storage: &mut Storage)
        requires
            old(self).wf(),
            old(storage).ready(),
        ensures
            final(self).wf(),
            final(self)@ == old(self)@,
            final(storage).ready(),
            final(storage).records() == removed(old(storage).records(), id@),
    {
        storage.remove_bookmark(id);
    }

    /// Changes the search and the order of the list.
    pub fn update_search(&mut self, filter: SearchOptions, sort: SortOptions, query: Option<String>)
        requires
            old(self).wf(),
        ensures
            final(self).wf(),
            final(self)@ == old(self)@.with_search(filter, sort, opt_string(query)),
    {
        self.filter = filter;
        self.sort = sort;
        self.query = query;
        assert(self@ =~= old(self)@.with_search(filter, sort, opt_string(query)));
    }

    /// The positions in `stored` of the bookmarks to show, in order.
    pub fn visible(&self, stored: &Stored) -> (r: Vec<usize>)
        ensures
            is_listing(stored@, self@.filter, self@.sort, self@.query, r@),
    {
        list(&stored.bookmarks, self.filter, self.sort, &self.query)
    }

    /// Acts on `message`. Opening a link is left to the caller, which hands
    /// the browser the address that `link_to_open` gives.
    pub fn update(&mut self, message: ListMessage, storage: &mut Storage)
        requires
            old(self).wf(),
            old(storage).ready(),
        ensures
            final(self).wf(),
            final(storage).ready(),
            final(self)@ == session_after(old(self)@, message),
            final(storage).records() == records_after(old(storage).records(), old(self)@, message),
    {
        match message {
            ListMessage::ExpandBookmark(id) => self.expand(id),
            ListMessage::UnexpandBookmark(id) => self.unexpand(id),
            ListMessage::EditBookmark(id) => self.begin_edit(id),
            ListMessage::IgnoreEditBookmark(id) => self.cancel_edit(id),
            ListMessage::SaveEditBookmark(id, bookmark) => self.commit_edit(id, bookmark, storage),
            ListMessage::DeleteBookmark(id) => self.delete(id, storage),
            ListMessage::InputSet(id, field, value) => self.set_pending_field(id, field, value),
            ListMessage::UpdateSearch(filter, sort, query) => self.update_search(filter, sort, query),
            ListMessage::OpenLink(_) => {},
            ListMessage::TagPress(_) => {},
        }
    }
}

/// Committing an edit keeps the title when the typed title is empty, clears
/// the note when the typed note is empty, and leaves every field for which
/// nothing was typed as it was.
pub proof fn lemma_commit_field_rules(b: BookmarkView, id: Seq<char>, p: Pending)
    ensures
        pending_of(p, id, FieldTag::Title) == Some(Seq::<char>::empty()) ==> committed(b, id, p).title
            == b.title,
        pending_of(p, id, FieldTag::Note) == Some(Seq::<char>::empty()) ==> committed(b, id, p).note
            is None,
        pending_of(p, id, FieldTag::Title) is None ==> committed(b, id, p).title == b.title,
        pending_of(p, id, FieldTag::Link) is None ==> committed(b, id, p).link == b.link,
        pending_of(p, id, FieldTag::Tags) is None ==> committed(b, id, p).tags == b.tags,
        pending_of(p, id, FieldTag::Note) is None ==> committed(b, id, p).note == b.note,
        pending_of(p, id, FieldTag::Timestamp) is None ==> committed(b, id, p).timestamp
            == b.timestamp,
        committed(b, id, p).uuid == b.uuid,
{
}

} // verus!
