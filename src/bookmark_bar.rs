//! The bar above the list: search and sort choices, and the form that adds a
//! bookmark.

use vstd::prelude::*;

use crate::bookmark_list::{parse_tags, tags_of};
use crate::storage::{has_id, has_link, Bookmark, BookmarkView, Storage};
use crate::text::opt_string;
use crate::utils::{gen_uuid, get_timestamp, is_uuid_v4_text, normalize_link, normalized};

verus! {

/// Which part of a bookmark a search query is matched against.
#[derive(Clone, Copy, Debug, PartialEq, Eq, Structural)]
pub enum SearchOptions {
    All,
    Title,
    Link,
    Tags,
}

impl SearchOptions {
    /// Every choice, in the order the picker shows them.
    pub fn all() -> (r: Vec<SearchOptions>)
        ensures
            r@ == seq![SearchOptions::All, SearchOptions::Title, SearchOptions::Link, SearchOptions::Tags],
    {
        vec![SearchOptions::All, SearchOptions::Title, SearchOptions::Link, SearchOptions::Tags]
    }
}

/// The order the list is shown in.
#[derive(Clone, Copy, Debug, PartialEq, Eq, Structural)]
pub enum SortOptions {
    Relevant,
    Newest,
    Oldest,
}

impl SortOptions {
    /// Every choice, in the order the picker shows them.
    pub fn all() -> (r: Vec<SortOptions>)
        ensures
            r@ == seq![SortOptions::Relevant, SortOptions::Newest, SortOptions::Oldest],
    {
        vec![SortOptions::Relevant, SortOptions::Newest, SortOptions::Oldest]
    }
}

/// Names of the bar's text inputs.
pub open spec fn title_key() -> Seq<char> {
    seq!['t', 'i', 't', 'l', 'e']
}

pub open spec fn link_key() -> Seq<char> {
    seq!['l', 'i', 'n', 'k']
}

pub open spec fn note_key() -> Seq<char> {
    seq!['n', 'o', 't', 'e']
}

pub open spec fn tags_key() -> Seq<char> {
    seq!['t', 'a', 'g', 's']
}

pub open spec fn search_key() -> Seq<char> {
    seq!['s', 'e', 'a', 'r', 'c', 'h']
}

/// The texts typed into the bar's inputs, by input name.
pub struct InputValues {
    entries: Vec<(String, String)>,
    values: Ghost<Map<Seq<char>, Seq<char>>>,
}

impl View for InputValues {
    type V = Map<Seq<char>, Seq<char>>;

    closed spec fn view(&self) -> Map<Seq<char>, Seq<char>> {
        self.values@
    }
}

impl InputValues {
    /// The entries hold exactly the typed values, one entry per name.
    pub closed spec fn wf(&self) -> bool {
        &&& forall|i: int|
            0 <= i < self.entries@.len() ==> self.values@.contains_key(#[trigger] self.entries@[i].0@)
                && self.values@[self.entries@[i].0@] == self.entries@[i].1@
        &&& forall|k: Seq<char>|
            #[trigger] self.values@.contains_key(k) ==> exists|i: int|
                0 <= i < self.entries@.len() && self.entries@[i].0@ == k
        &&& forall|i: int, j: int|
            0 <= i < self.entries@.len() && 0 <= j < self.entries@.len() && i != j
                ==> self.entries@[i].0@ != self.entries@[j].0@
    }

    /// Nothing typed.
    pub fn new() -> (r: InputValues)
        ensures
            r.wf(),
            r@ == Map::<Seq<char>, Seq<char>>::empty(),
    {
        InputValues { entries: Vec::new(), values: Ghost(Map::empty()) }
    }

    fn find(&self, name: &String) -> (r: Option<usize>)
        requires
            self.wf(),
        ensures
            r matches Some(i) ==> i < self.entries@.len() && self.entries@[i as int].0@ == name@,
            r is None ==> !self@.contains_key(name@),
    {
        let mut i: usize = 0;
        while i < self.entries.len()
            invariant
                i <= self.entries.len(),
                forall|j: int| 0 <= j < i ==> (#[trigger] self.entries@[j]).0@ != name@,
            decreases self.entries.len() - i,
        {
            if self.entries[i].0 == *name {
                return Some(i);
            }
            i = i + 1;
        }
        proof {
            if self.values@.contains_key(name@) {
                let j = choose|j: int| 0 <= j < self.entries@.len() && self.entries@[j].0@ == name@;
            }
        }
        None
    }

    /// The text typed into the input `name`, if any.
    pub fn get(&self, name: &String) -> (r: Option<String>)
        requires
            self.wf(),
        ensures
            opt_string(r) == (if self@.contains_key(name@) {
                Some(self@[name@])
            } else {
                None
            }),
    {
        match self.find(name) {
            Some(i) => Some(self.entries[i].1.clone()),
            None => None,
        }
    }

    /// Records `value` as the text of the input `name`.
    pub fn insert(&mut self, name: String, value: String)
        requires
            old(self).wf(),
        ensures
            final(self).wf(),
            final(self)@ == old(self)@.insert(name@, value@),
    {
        let ghost key = name@;
        let ghost v = value@;
        let ghost before = self.entries@;
        match self.find(&name) {
            Some(i) => {
                self.entries.set(i, (name, value));
                self.values = Ghost(self.values@.insert(key, v));
                assert forall|k: Seq<char>| #[trigger] self.values@.contains_key(k) implies exists|j: int|
                    0 <= j < self.entries@.len() && self.entries@[j].0@ == k by {
                    if k != key {
                        let j = choose|j: int| 0 <= j < before.len() && before[j].0@ == k;
                        assert(self.entries@[j].0@ == k);
                    } else {
                        assert(self.entries@[i as int].0@ == k);
                    }
                }
            },
            None => {
                self.entries.push((name, value));
                self.values = Ghost(self.values@.insert(key, v));
                assert forall|k: Seq<char>| #[trigger] self.values@.contains_key(k) implies exists|j: int|
                    0 <= j < self.entries@.len() && self.entries@[j].0@ == k by {
                    if k != key {
                        let j = choose|j: int| 0 <= j < before.len() && before[j].0@ == k;
                        assert(self.entries@[j].0@ == k);
                    } else {
                        assert(self.entries@[before.len() as int].0@ == k);
                    }
                }
            },
        }
    }
}

/// The text of input `name`, or the empty text when nothing was typed.
pub open spec fn typed(m: Map<Seq<char>, Seq<char>>, name: Seq<char>) -> Seq<char> {
    if m.contains_key(name) {
        m[name]
    } else {
        Seq::empty()
    }
}

/// The inputs after the add form is reset: only the search query stays.
pub open spec fn reset_inputs(m: Map<Seq<char>, Seq<char>>) -> Map<Seq<char>, Seq<char>> {
    if m.contains_key(search_key()) {
        Map::empty().insert(search_key(), m[search_key()])
    } else {
        Map::empty()
    }
}

/// The add form holds a bookmark that may be added to `s`: a title and a
/// link that no record has yet.
pub open spec fn add_accepted(s: Seq<BookmarkView>, m: Map<Seq<char>, Seq<char>>) -> bool {
    let link = normalized(typed(m, link_key()));
    &&& typed(m, title_key()).len() > 0
    &&& link.len() > 0
    &&& !has_link(s, link)
}

/// The bookmark that the add form `m` makes with identifier `uuid` and time
/// `timestamp`: its title, its link without `https://`, its note unless
/// empty, and the tags of the comma-separated text.
pub open spec fn form_bookmark(m: Map<Seq<char>, Seq<char>>, uuid: Seq<char>, timestamp: u64) -> BookmarkView {
    BookmarkView {
        title: typed(m, title_key()),
        link: normalized(typed(m, link_key())),
        note: if m.contains_key(note_key()) && m[note_key()].len() > 0 {
            Some(m[note_key()])
        } else {
            None
        },
        tags: tags_of(typed(m, tags_key())),
        uuid,
        timestamp,
    }
}

/// Adding from the form `m` to the records `s`, with the drawn identifier
/// `uuid` and time `timestamp`, gives the records `s2` and leaves the form
/// `m2`: an accepted bookmark whose identifier is unused goes in at the end
/// and the form is reset; otherwise nothing changes.
pub open spec fn add_outcome(
    s: Seq<BookmarkView>,
    m: Map<Seq<char>, Seq<char>>,
    uuid: Seq<char>,
    timestamp: u64,
    s2: Seq<BookmarkView>,
    m2: Map<Seq<char>, Seq<char>>,
) -> bool {
    if add_accepted(s, m) && !has_id(s, uuid) {
        &&& s2 == s.push(form_bookmark(m, uuid, timestamp))
        &&& m2 == reset_inputs(m)
    } else {
        s2 == s && m2 == m
    }
}

/// What adding from the form leaves, whatever identifier and time were drawn:
/// the outcome for some random UUID text and some time.
pub open spec fn add_drawn(
    s: Seq<BookmarkView>,
    m: Map<Seq<char>, Seq<char>>,
    s2: Seq<BookmarkView>,
    m2: Map<Seq<char>, Seq<char>>,
) -> bool {
    exists|uuid: Seq<char>, timestamp: u64|
        is_uuid_v4_text(uuid) && #[trigger] add_outcome(s, m, uuid, timestamp, s2, m2)
}

/// Adding a bookmark whose link, without `https://`, is already in the
/// collection changes nothing: the collection keeps its records and size.
pub proof fn lemma_duplicate_link_is_noop(
    s: Seq<BookmarkView>,
    m: Map<Seq<char>, Seq<char>>,
    s2: Seq<BookmarkView>,
    m2: Map<Seq<char>, Seq<char>>,
)
    requires
        add_drawn(s, m, s2, m2),
        has_link(s, normalized(typed(m, link_key()))),
    ensures
        s2 == s,
        s2.len() == s.len(),
{
}

/// Adding a bookmark with an empty title or an empty link changes nothing.
pub proof fn lemma_empty_field_is_noop(
    s: Seq<BookmarkView>,
    m: Map<Seq<char>, Seq<char>>,
    s2: Seq<BookmarkView>,
    m2: Map<Seq<char>, Seq<char>>,
)
    requires
        add_drawn(s, m, s2, m2),
        typed(m, title_key()).len() == 0 || normalized(typed(m, link_key())).len() == 0,
    ensures
        s2 == s,
        s2.len() == s.len(),
{
}

/// The bar `b1` and the records `s1` are what `message` makes of the bar `b0`
/// and the records `s0`: each choice follows its message, typed texts are
/// recorded, and only adding touches the records.
pub open spec fn bar_follows(
    b0: BookmarkBar,
    b1: BookmarkBar,
    message: BarMessage,
    s0: Seq<BookmarkView>,
    s1: Seq<BookmarkView>,
) -> bool {
    &&& b1.display == match message {
        BarMessage::ShowSearch => DisplayEnum::Search,
        BarMessage::ShowAdd => DisplayEnum::Add,
        BarMessage::Hide => DisplayEnum::Neither,
        _ => b0.display,
    }
    &&& b1.bookmark_search.search_option == match message {
        BarMessage::SearchOptionChange(o) => o,
        _ => b0.bookmark_search.search_option,
    }
    &&& b1.bookmark_search.sort_option == match message {
        BarMessage::SortOptionChange(o) => o,
        _ => b0.bookmark_search.sort_option,
    }
    &&& b1.expand_state == match message {
        BarMessage::ExpandAll => false,
        BarMessage::ShrinkAll => true,
        _ => b0.expand_state,
    }
    &&& match message {
        BarMessage::InputSet(name, value) => b1.input_values@ == b0.input_values@.insert(name@, value@)
            && s1 == s0,
        BarMessage::AddBookmark => add_drawn(s0, b0.input_values@, s1, b1.input_values@),
        _ => b1.input_values@ == b0.input_values@ && s1 == s0,
    }
}

/// Which part of the bar is open.
#[derive(Clone, Copy, Debug, PartialEq, Eq, Structural)]
pub enum DisplayEnum {
    Search,
    Add,
    Neither,
}

/// What the bar is asked to do.
#[derive(Clone, Debug, PartialEq, Eq)]
pub enum BarMessage {
    ShowSearch,
    ShowAdd,
    Hide,
    SearchOptionChange(SearchOptions),
    SortOptionChange(SortOptions),
    InputSet(String, String),
    AddBookmark,
    ExpandAll,
    ShrinkAll,
    ExportAll,
}

impl BarMessage {
    /// Whether the collection must be saved after this message: after a
    /// bookmark is added.
    pub fn is_save_after(message: BarMessage) -> (r: bool)
        ensures
            r == (message is AddBookmark),
    {
        match message {
            BarMessage::AddBookmark => true,
            _ => false,
        }
    }

    /// Whether the list's search must follow this message: after the search
    /// or sort choice changes, and after any input changes.
    pub fn is_search_update(message: BarMessage) -> (r: bool)
        ensures
            r == (message is SearchOptionChange || message is SortOptionChange || message is InputSet),
    {
        match message {
            BarMessage::SearchOptionChange(_) => true,
            BarMessage::SortOptionChange(_) => true,
            BarMessage::InputSet(_, _) => true,
            _ => false,
        }
    }
}

/// The search and sort choices.
pub struct BookmarkSearch {
    pub search_option: SearchOptions,
    pub sort_option: SortOptions,
}

impl BookmarkSearch {
    /// Searching everything, in the order the records came.
    pub fn new() -> (r: BookmarkSearch)
        ensures
            r.search_option == SearchOptions::All,
            r.sort_option == SortOptions::Relevant,
    {
        BookmarkSearch { search_option: SearchOptions::All, sort_option: SortOptions::Relevant }
    }
}

/// The form that adds a bookmark; its texts are kept by the bar.
pub struct BookmarkAdd;

impl BookmarkAdd {
    pub fn new() -> (r: BookmarkAdd) {
        BookmarkAdd
    }
}

/// The bar: which part is open, the search choices, the typed texts, and
/// whether the next list-wide action expands (`true`) or shrinks.
pub struct BookmarkBar {
    pub display: DisplayEnum,
    pub bookmark_add: BookmarkAdd,
    pub bookmark_search: BookmarkSearch,
    pub input_values: InputValues,
    pub expand_state: bool,
}

impl BookmarkBar {
    /// The typed texts are well formed.
    pub open spec fn wf(&self) -> bool {
        self.input_values.wf()
    }

    /// A closed bar with nothing typed, searching everything.
    pub fn new() -> (r: BookmarkBar)
        ensures
            r.wf(),
            r.display == DisplayEnum::Neither,
            r.bookmark_search.search_option == SearchOptions::All,
            r.bookmark_search.sort_option == SortOptions::Relevant,
            r.input_values@ == Map::<Seq<char>, Seq<char>>::empty(),
            r.expand_state,
    {
        BookmarkBar {
            display: DisplayEnum::Neither,
            bookmark_add: BookmarkAdd::new(),
            bookmark_search: BookmarkSearch::new(),
            input_values: InputValues::new(),
            expand_state: true,
        }
    }

    /// The text typed into input `name`, if any.
    pub fn input_value(&self, name: &String) -> (r: Option<String>)
        requires
            self.wf(),
        ensures
            opt_string(r) == (if self.input_values@.contains_key(name@) {
                Some(self.input_values@[name@])
            } else {
                None
            }),
    {
        self.input_values.get(name)
    }

    /// Clears every input but the search query.
    pub fn reset(&mut self)
        requires
            old(self).wf(),
        ensures
            final(self).wf(),
            final(self).input_values@ == reset_inputs(old(self).input_values@),
            final(self).display == old(self).display,
            final(self).bookmark_search == old(self).bookmark_search,
            final(self).expand_state == old(self).expand_state,
    {
        let search_name = "search".to_owned();
        proof {
            reveal_strlit("search");
        }
        assert(search_name@ == search_key());
        let search = self.input_values.get(&search_name);
        let mut fresh = InputValues::new();
        match search {
            Some(v) => fresh.insert(search_name, v),
            None => {},
        }
        self.input_values = fresh;
        assert(self.input_values@ =~= reset_inputs(old(self).input_values@));
    }

    /// Adds the bookmark in the add form with identifier `uuid` and time
    /// `timestamp`, unless its title or its link is empty, a record already
    /// has its link, or `uuid` is taken; on success the form is reset.
    pub fn add_with(&mut self, storage: &mut Storage, uuid: String, timestamp: u64)
        requires
            old(self).wf(),
            old(storage).ready(),
        ensures
            final(self).wf(),
            final(storage).ready(),
            final(self).display == old(self).display,
            final(self).bookmark_search == old(self).bookmark_search,
            final(self).expand_state == old(self).expand_state,
            add_outcome(
                old(storage).records(),
                old(self).input_values@,
                uuid@,
                timestamp,
                final(storage).records(),
                final(self).input_values@,
            ),
    {
        let ghost m = self.input_values@;
        let title_name = "title".to_owned();
        let link_name = "link".to_owned();
        let note_name = "note".to_owned();
        let tags_name = "tags".to_owned();
        proof {
            reveal_strlit("title");
            reveal_strlit("link");
            reveal_strlit("note");
            reveal_strlit("tags");
            reveal_strlit("");
        }
        assert(title_name@ == title_key());
        assert(link_name@ == link_key());
        assert(note_name@ == note_key());
        assert(tags_name@ == tags_key());
        assert(""@ =~= Seq::<char>::empty());
        let title = match self.input_values.get(&title_name) {
            Some(t) => t,
            None => "".to_owned(),
        };
        let raw_link = match self.input_values.get(&link_name) {
            Some(l) => l,
            None => "".to_owned(),
        };
        let link = normalize_link(raw_link);
        let (already_exists, id_taken) = match &storage.stored {
            Some(s) => (s.contains_link(&link), s.find(&uuid).is_some()),
            None => (false, false),
        };
        if already_exists || title.as_str().is_empty() || link.as_str().is_empty() || id_taken {
            return;
        }
        let note = match self.input_values.get(&note_name) {
            Some(n) => if n.as_str().is_empty() {
                None
            } else {
                Some(n)
            },
            None => None,
        };
        let tags_text = match self.input_values.get(&tags_name) {
            Some(t) => t,
            None => "".to_owned(),
        };
        let tags = parse_tags(tags_text.as_str());
        let bookmark = Bookmark { title, link, note, tags, uuid, timestamp };
        assert(bookmark@ == form_bookmark(m, uuid@, timestamp));
        storage.add_bookmark(bookmark);
        self.reset();
    }

    /// Adds the bookmark in the add form with a freshly drawn identifier and
    /// the present time. A drawn identifier that is already in use is drawn
    /// again, a few times at most.
    pub fn add_bookmark(&mut self, storage: &mut Storage)
        requires
            old(self).wf(),
            old(storage).ready(),
        ensures
            final(self).wf(),
            final(storage).ready(),
            final(self).display == old(self).display,
            final(self).bookmark_search == old(self).bookmark_search,
            final(self).expand_state == old(self).expand_state,
            add_drawn(
                old(storage).records(),
                old(self).input_values@,
                final(storage).records(),
                final(self).input_values@,
            ),
    {
        let ghost s = storage.records();
        let ghost m = self.input_values@;
        let mut uuid = gen_uuid();
        let mut tries: u8 = 0;
        while tries < 4 && storage.holds_id(&uuid)
            invariant
                is_uuid_v4_text(uuid@),
            decreases 4 - tries,
        {
            uuid = gen_uuid();
            tries = tries + 1;
        }
        let timestamp = get_timestamp();
        let ghost id = uuid@;
        self.add_with(storage, uuid, timestamp);
        assert(add_outcome(s, m, id, timestamp, storage.records(), self.input_values@));
    }

    /// Acts on `message`; adding uses and changes `storage`.
    pub fn update(&mut self, message: BarMessage, storage: &mut Storage)
        requires
            old(self).wf(),
            old(storage).ready(),
        ensures
            final(self).wf(),
            final(storage).ready(),
            bar_follows(
                *old(self),
                *final(self),
                message,
                old(storage).records(),
                final(storage).records(),
            ),
    {
        match message {
            BarMessage::ShowSearch => {
                self.display = DisplayEnum::Search;
            },
            BarMessage::ShowAdd => {
                self.display = DisplayEnum::Add;
            },
            BarMessage::Hide => {
                self.display = DisplayEnum::Neither;
            },
            BarMessage::InputSet(name, value) => {
                self.input_values.insert(name, value);
            },
            BarMessage::AddBookmark => {
                self.add_bookmark(storage);
            },
            BarMessage::SearchOptionChange(option) => {
                self.bookmark_search.search_option = option;
            },
            BarMessage::SortOptionChange(option) => {
                self.bookmark_search.sort_option = option;
            },
            BarMessage::ExpandAll => {
                self.expand_state = false;
            },
            BarMessage::ShrinkAll => {
                self.expand_state = true;
            },
            BarMessage::ExportAll => {},
        }
    }
}

} // verus!
