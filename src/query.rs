//! The query engine: which bookmarks a search selects, and the order they are
//! listed in. Listing never changes the collection.

use vstd::prelude::*;

use crate::bookmark_bar::{SearchOptions, SortOptions};
use crate::storage::{Bookmark, BookmarkView};
use crate::text::{contains_text, is_infix, lower_of, lowercase, opt_string};

verus! {

/// The note as searched text: an absent note reads as the empty text.
pub open spec fn note_text(note: Option<Seq<char>>) -> Seq<char> {
    match note {
        Some(n) => n,
        None => Seq::empty(),
    }
}

/// Some tag, in lower case, holds `q`.
pub open spec fn some_tag_holds(tags: Seq<Seq<char>>, q: Seq<char>) -> bool {
    exists|i: int| 0 <= i < tags.len() && is_infix(q, #[trigger] lower_of(tags[i]))
}

/// Bookmark `b` matches the lower-case query `q` on the searched part.
pub open spec fn matches_query(b: BookmarkView, filter: SearchOptions, q: Seq<char>) -> bool {
    match filter {
        SearchOptions::All => is_infix(q, lower_of(b.link)) || is_infix(q, lower_of(b.title))
            || some_tag_holds(b.tags, q) || is_infix(q, lower_of(note_text(b.note))),
        SearchOptions::Title => is_infix(q, lower_of(b.title)),
        SearchOptions::Link => is_infix(q, lower_of(b.link)),
        SearchOptions::Tags => some_tag_holds(b.tags, q),
    }
}

/// Position `i` of `s` is selected: without a query or with an empty one every
/// record is; with a query text, those that match it, compared in lower case.
pub open spec fn selected(
    s: Seq<BookmarkView>,
    filter: SearchOptions,
    query: Option<Seq<char>>,
    i: int,
) -> bool {
    0 <= i < s.len() && match query {
        None => true,
        Some(q) => q.len() == 0 || matches_query(s[i], filter, lower_of(q)),
    }
}

/// The record at position `a` is listed before the one at `b`: newest or
/// oldest first by time, and by position among equal times; by position alone
/// where no order is chosen.
pub open spec fn comes_before(s: Seq<BookmarkView>, sort: SortOptions, a: int, b: int) -> bool {
    match sort {
        SortOptions::Relevant => a < b,
        SortOptions::Newest => s[a].timestamp > s[b].timestamp || (s[a].timestamp
            == s[b].timestamp && a < b),
        SortOptions::Oldest => s[a].timestamp < s[b].timestamp || (s[a].timestamp
            == s[b].timestamp && a < b),
    }
}

/// `r` lists positions of `s` strictly in the order `sort`.
pub open spec fn in_order(s: Seq<BookmarkView>, sort: SortOptions, r: Seq<usize>) -> bool {
    forall|j: int, k: int|
        0 <= j < k < r.len() ==> comes_before(s, sort, #[trigger] r[j] as int, #[trigger] r[k] as int)
}

/// `r` is the listing of `s` for the search and the order: each selected
/// position once, nothing else, in the order `sort`.
pub open spec fn is_listing(
    s: Seq<BookmarkView>,
    filter: SearchOptions,
    sort: SortOptions,
    query: Option<Seq<char>>,
    r: Seq<usize>,
) -> bool {
    &&& forall|i: int| selected(s, filter, query, i) ==> #[trigger] r.contains(i as usize)
    &&& forall|k: int| 0 <= k < r.len() ==> selected(s, filter, query, #[trigger] r[k] as int)
    &&& in_order(s, sort, r)
}

/// The records of a vector of bookmarks.
pub open spec fn records(v: Seq<Bookmark>) -> Seq<BookmarkView> {
    v.map_values(|b: Bookmark| b@)
}

/// Whether some tag of `tags`, in lower case, holds the lower-case `query`.
fn tags_hold(tags: &Vec<String>, query: &str) -> (r: bool)
    ensures
        r == some_tag_holds(tags.deep_view(), query@),
{
    let mut i: usize = 0;
    while i < tags.len()
        invariant
            i <= tags.len(),
            forall|j: int| 0 <= j < i ==> !is_infix(query@, #[trigger] lower_of(tags.deep_view()[j])),
        decreases tags.len() - i,
    {
        let low = lowercase(tags[i].as_str());
        assert(tags.deep_view()[i as int] == tags@[i as int]@);
        if contains_text(low.as_str(), query) {
            return true;
        }
        i = i + 1;
    }
    false
}

/// Whether `bookmark` matches the lower-case `query` on the searched part.
pub fn bookmark_matches(bookmark: &Bookmark, filter: SearchOptions, query: &str) -> (r: bool)
    ensures
        r == matches_query(bookmark@, filter, query@),
{
    match filter {
        SearchOptions::All => {
            let link = lowercase(bookmark.link.as_str());
            let title = lowercase(bookmark.title.as_str());
            proof {
                reveal_strlit("");
            }
            assert(""@ =~= Seq::<char>::empty());
            let note = match &bookmark.note {
                Some(n) => lowercase(n.as_str()),
                None => lowercase(""),
            };
            contains_text(link.as_str(), query) || contains_text(title.as_str(), query)
                || tags_hold(&bookmark.tags, query) || contains_text(note.as_str(), query)
        },
        SearchOptions::Title => {
            let title = lowercase(bookmark.title.as_str());
            contains_text(title.as_str(), query)
        },
        SearchOptions::Link => {
            let link = lowercase(bookmark.link.as_str());
            contains_text(link.as_str(), query)
        },
        SearchOptions::Tags => tags_hold(&bookmark.tags, query),
    }
}

/// Whether position `a` is listed before position `b`.
fn listed_before(bookmarks: &Vec<Bookmark>, sort: SortOptions, a: usize, b: usize) -> (r: bool)
    requires
        a < bookmarks.len(),
        b < bookmarks.len(),
    ensures
        r == comes_before(records(bookmarks@), sort, a as int, b as int),
{
    let ta = bookmarks[a].timestamp;
    let tb = bookmarks[b].timestamp;
    match sort {
        SortOptions::Relevant => a < b,
        SortOptions::Newest => ta > tb || (ta == tb && a < b),
        SortOptions::Oldest => ta < tb || (ta == tb && a < b),
    }
}

/// The selected positions, in increasing order.
fn select(bookmarks: &Vec<Bookmark>, filter: SearchOptions, query: &Option<String>) -> (r: Vec<
    usize,
>)
    ensures
        is_listing(records(bookmarks@), filter, SortOptions::Relevant, opt_string(*query), r@),
{
    let ghost s = records(bookmarks@);
    let ghost q = opt_string(*query);
    let low = match query {
        Some(text) => {
            if text.as_str().is_empty() {
                None
            } else {
                Some(lowercase(text.as_str()))
            }
        },
        None => None,
    };
    let mut r: Vec<usize> = Vec::new();
    let mut i: usize = 0;
    while i < bookmarks.len()
        invariant
            i <= bookmarks.len(),
            s == records(bookmarks@),
            q == opt_string(*query),
            low matches Some(l) ==> q matches Some(t) && t.len() > 0 && l@ == lower_of(t),
            low is None ==> (q is None || (q matches Some(t) && t.len() == 0)),
            forall|j: int| 0 <= j < i && selected(s, filter, q, j) ==> #[trigger] r@.contains(
                j as usize,
            ),
            forall|k: int|
                0 <= k < r@.len() ==> selected(s, filter, q, #[trigger] r@[k] as int) && r@[k] < i,
            in_order(s, SortOptions::Relevant, r@),
        decreases bookmarks.len() - i,
    {
        let keep = match &low {
            Some(l) => bookmark_matches(&bookmarks[i], filter, l.as_str()),
            None => true,
        };
        assert(s[i as int] == bookmarks@[i as int]@);
        if keep {
            let ghost before = r@;
            r.push(i);
            assert(r@ == before.push(i));
            assert(r@[before.len() as int] == i);
            assert forall|j: int| 0 <= j < i && selected(s, filter, q, j) implies #[trigger] r@.contains(
                j as usize,
            ) by {
                assert(before.contains(j as usize));
                let k = choose|k: int| 0 <= k < before.len() && before[k] == j as usize;
                assert(r@[k] == j as usize);
            }
        }
        i = i + 1;
    }
    r
}

/// Where `x` goes in `r`, which is in the order `sort`: after every entry
/// listed before it, in front of the rest.
fn insertion_point(bookmarks: &Vec<Bookmark>, sort: SortOptions, r: &Vec<usize>, x: usize) -> (p:
    usize)
    requires
        x < bookmarks@.len(),
        forall|k: int| 0 <= k < r@.len() ==> #[trigger] r@[k] < bookmarks@.len(),
        forall|k: int| 0 <= k < r@.len() ==> #[trigger] r@[k] != x,
        in_order(records(bookmarks@), sort, r@),
    ensures
        p <= r@.len(),
        forall|k: int| 0 <= k < p ==> comes_before(records(bookmarks@), sort, #[trigger] r@[k] as int, x as int),
        p < r@.len() ==> comes_before(records(bookmarks@), sort, x as int, r@[p as int] as int),
{
    let ghost s = records(bookmarks@);
    let mut p: usize = 0;
    while p < r.len() && !listed_before(bookmarks, sort, x, r[p])
        invariant
            p <= r@.len(),
            x < bookmarks@.len(),
            s == records(bookmarks@),
            forall|k: int| 0 <= k < r@.len() ==> #[trigger] r@[k] < bookmarks@.len(),
            forall|k: int| 0 <= k < r@.len() ==> #[trigger] r@[k] != x,
            forall|k: int| 0 <= k < p ==> comes_before(s, sort, #[trigger] r@[k] as int, x as int),
        decreases r@.len() - p,
    {
        assert(r@[p as int] != x);
        p = p + 1;
    }
    p
}

/// Reorders the strictly increasing positions `positions` into the order
/// `sort`, by inserting each in its place.
fn sort_positions(bookmarks: &Vec<Bookmark>, sort: SortOptions, positions: Vec<usize>) -> (r: Vec<
    usize,
>)
    requires
        forall|k: int| 0 <= k < positions@.len() ==> #[trigger] positions@[k] < bookmarks@.len(),
        in_order(records(bookmarks@), SortOptions::Relevant, positions@),
    ensures
        forall|x: usize| #[trigger] r@.contains(x) <==> positions@.contains(x),
        in_order(records(bookmarks@), sort, r@),
{
    let ghost s = records(bookmarks@);
    let mut r: Vec<usize> = Vec::new();
    let mut i: usize = 0;
    while i < positions.len()
        invariant
            i <= positions.len(),
            s == records(bookmarks@),
            forall|k: int| 0 <= k < positions@.len() ==> #[trigger] positions@[k] < bookmarks@.len(),
            in_order(s, SortOptions::Relevant, positions@),
            forall|j: int| 0 <= j < i ==> #[trigger] r@.contains(positions@[j]),
            forall|k: int|
                0 <= k < r@.len() ==> exists|j: int| 0 <= j < i && positions@[j] == #[trigger] r@[k],
            in_order(s, sort, r@),
        decreases positions.len() - i,
    {
        let x = positions[i];
        assert forall|k: int| 0 <= k < r@.len() implies #[trigger] r@[k] < x by {
            let j = choose|j: int| 0 <= j < i && positions@[j] == r@[k];
            assert(comes_before(s, SortOptions::Relevant, positions@[j] as int, positions@[i as int] as int));
        }
        assert forall|k: int| 0 <= k < r@.len() implies #[trigger] r@[k] < bookmarks@.len() by {
            let j = choose|j: int| 0 <= j < i && positions@[j] == r@[k];
        }
        let p = insertion_point(bookmarks, sort, &r, x);
        let ghost before = r@;
        r.insert(p, x);
        assert(r@ == before.insert(p as int, x));
        assert forall|j: int, k: int| 0 <= j < k < r@.len() implies comes_before(
            s,
            sort,
            #[trigger] r@[j] as int,
            #[trigger] r@[k] as int,
        ) by {
            if k < p {
                assert(r@[j] == before[j] && r@[k] == before[k]);
            } else if k == p {
                assert(r@[j] == before[j]);
            } else if j == p {
                assert(r@[k] == before[k - 1]);
                if p < before.len() {
                    assert(comes_before(s, sort, x as int, before[p as int] as int));
                    if k - 1 > p {
                        assert(comes_before(s, sort, before[p as int] as int, before[k - 1] as int));
                    }
                }
            } else if j < p {
                assert(r@[j] == before[j] && r@[k] == before[k - 1]);
            } else {
                assert(r@[j] == before[j - 1] && r@[k] == before[k - 1]);
            }
        }
        assert forall|j: int| 0 <= j <= i implies #[trigger] r@.contains(positions@[j]) by {
            if j < i {
                assert(before.contains(positions@[j]));
                let k = choose|k: int| 0 <= k < before.len() && before[k] == positions@[j];
                if k < p {
                    assert(r@[k] == positions@[j]);
                } else {
                    assert(r@[k + 1] == positions@[j]);
                }
            } else {
                assert(r@[p as int] == x);
            }
        }
        assert forall|k: int| 0 <= k < r@.len() implies exists|j: int|
            0 <= j < i + 1 && positions@[j] == #[trigger] r@[k] by {
            if k < p {
                assert(r@[k] == before[k]);
            } else if k == p {
                assert(positions@[i as int] == r@[k]);
            } else {
                assert(r@[k] == before[k - 1]);
            }
        }
        i = i + 1;
    }
    assert forall|x: usize| #[trigger] r@.contains(x) <==> positions@.contains(x) by {
        if r@.contains(x) {
            let k = choose|k: int| 0 <= k < r@.len() && r@[k] == x;
            let j = choose|j: int| 0 <= j < i && positions@[j] == r@[k];
        }
        if positions@.contains(x) {
            let j = choose|j: int| 0 <= j < positions@.len() && positions@[j] == x;
        }
    }
    r
}

/// The positions of the bookmarks that the search selects, in the order
/// `sort`: every bookmark when `query` is absent, otherwise those whose
/// searched part holds the query, compared in lower case.
pub fn list(
    bookmarks: &Vec<Bookmark>,
    filter: SearchOptions,
    sort: SortOptions,
    query: &Option<String>,
) -> (r: Vec<usize>)
    ensures
        is_listing(records(bookmarks@), filter, sort, opt_string(*query), r@),
{
    let positions = select(bookmarks, filter, query);
    let ghost s = records(bookmarks@);
    match sort {
        SortOptions::Relevant => positions,
        _ => {
            assert forall|k: int| 0 <= k < positions@.len() implies #[trigger] positions@[k]
                < bookmarks@.len() by {
                assert(selected(s, filter, opt_string(*query), positions@[k] as int));
            }
            let r = sort_positions(bookmarks, sort, positions);
            assert forall|i: int| selected(s, filter, opt_string(*query), i) implies #[trigger] r@.contains(
                i as usize,
            ) by {
                assert(positions@.contains(i as usize));
            }
            assert forall|k: int| 0 <= k < r@.len() implies selected(
                s,
                filter,
                opt_string(*query),
                #[trigger] r@[k] as int,
            ) by {
                assert(r@.contains(r@[k]));
                let j = choose|j: int| 0 <= j < positions@.len() && positions@[j] == r@[k];
            }
            r
        },
    }
}

/// Two sequences in the same strict order `sort` that hold the same
/// positions are the same sequence.
pub proof fn lemma_ordered_unique(s: Seq<BookmarkView>, sort: SortOptions, r1: Seq<usize>, r2: Seq<usize>)
    requires
        in_order(s, sort, r1),
        in_order(s, sort, r2),
        forall|x: usize| #[trigger] r1.contains(x) <==> r2.contains(x),
    ensures
        r1 == r2,
    decreases r1.len(),
{
    if r1.len() == 0 {
        if r2.len() > 0 {
            assert(r2.contains(r2[0]));
            assert(r1.contains(r2[0]));
        }
        assert(r1 =~= r2);
    } else {
        assert(r1.contains(r1[0]));
        assert(r2.len() > 0);
        assert(r2.contains(r2[0]));
        assert(r2.contains(r1[0]));
        assert(r1.contains(r2[0]));
        let j = choose|j: int| 0 <= j < r2.len() && r2[j] == r1[0];
        let k = choose|k: int| 0 <= k < r1.len() && r1[k] == r2[0];
        if j > 0 {
            assert(comes_before(s, sort, r2[0] as int, r2[j] as int));
            if k > 0 {
                assert(comes_before(s, sort, r1[0] as int, r1[k] as int));
            }
        }
        assert(r1[0] == r2[0]);
        let t1 = r1.drop_first();
        let t2 = r2.drop_first();
        assert forall|a: int, b: int| 0 <= a < b < t1.len() implies comes_before(
            s,
            sort,
            #[trigger] t1[a] as int,
            #[trigger] t1[b] as int,
        ) by {
            assert(t1[a] == r1[a + 1] && t1[b] == r1[b + 1]);
        }
        assert forall|a: int, b: int| 0 <= a < b < t2.len() implies comes_before(
            s,
            sort,
            #[trigger] t2[a] as int,
            #[trigger] t2[b] as int,
        ) by {
            assert(t2[a] == r2[a + 1] && t2[b] == r2[b + 1]);
        }
        assert forall|x: usize| #[trigger] t1.contains(x) <==> t2.contains(x) by {
            if t1.contains(x) {
                let m = choose|m: int| 0 <= m < t1.len() && t1[m] == x;
                assert(r1[m + 1] == x);
                assert(r1.contains(x));
                let n = choose|n: int| 0 <= n < r2.len() && r2[n] == x;
                if n == 0 {
                    assert(comes_before(s, sort, r1[0] as int, r1[m + 1] as int));
                }
                assert(t2[n - 1] == x);
            }
            if t2.contains(x) {
                let m = choose|m: int| 0 <= m < t2.len() && t2[m] == x;
                assert(r2[m + 1] == x);
                assert(r2.contains(x));
                assert(r1.contains(x));
                let n = choose|n: int| 0 <= n < r1.len() && r1[n] == x;
                if n == 0 {
                    assert(comes_before(s, sort, r2[0] as int, r2[m + 1] as int));
                }
                assert(t1[n - 1] == x);
            }
        }
        lemma_ordered_unique(s, sort, t1, t2);
        assert(r1 =~= r2) by {
            assert forall|a: int| 0 <= a < r1.len() implies r1[a] == r2[a] by {
                if a > 0 {
                    assert(r1[a] == t1[a - 1] && r2[a] == t2[a - 1]);
                }
            }
        }
    }
}

/// A listing holds exactly the selected positions: every one for an absent or
/// empty query; otherwise those matching on the title, the link or the tags
/// alone, or on any of them and the note, compared in lower case.
pub proof fn lemma_listing_members(
    s: Seq<BookmarkView>,
    filter: SearchOptions,
    sort: SortOptions,
    query: Option<Seq<char>>,
    r: Seq<usize>,
)
    requires
        is_listing(s, filter, sort, query, r),
        s.len() <= usize::MAX,
    ensures
        forall|i: int| 0 <= i < s.len() ==> (#[trigger] r.contains(i as usize) <==> match query {
            None => true,
            Some(q) => q.len() == 0 || matches_query(s[i], filter, lower_of(q)),
        }),
{
    assert forall|i: int| 0 <= i < s.len() implies (#[trigger] r.contains(i as usize) <==> match query {
        None => true,
        Some(q) => q.len() == 0 || matches_query(s[i], filter, lower_of(q)),
    }) by {
        if r.contains(i as usize) {
            let k = choose|k: int| 0 <= k < r.len() && r[k] == i as usize;
            assert(selected(s, filter, query, r[k] as int));
        }
    }
}

/// Listing is idempotent: with the same collection and the same arguments,
/// any two listings are the same sequence.
pub proof fn lemma_list_idempotent(
    s: Seq<BookmarkView>,
    filter: SearchOptions,
    sort: SortOptions,
    query: Option<Seq<char>>,
    r1: Seq<usize>,
    r2: Seq<usize>,
)
    requires
        is_listing(s, filter, sort, query, r1),
        is_listing(s, filter, sort, query, r2),
    ensures
        r1 == r2,
{
    assert forall|x: usize| #[trigger] r1.contains(x) <==> r2.contains(x) by {
        if r1.contains(x) {
            let k = choose|k: int| 0 <= k < r1.len() && r1[k] == x;
            assert(selected(s, filter, query, r1[k] as int));
            assert(r2.contains((x as int) as usize));
        }
        if r2.contains(x) {
            let k = choose|k: int| 0 <= k < r2.len() && r2[k] == x;
            assert(selected(s, filter, query, r2[k] as int));
            assert(r1.contains((x as int) as usize));
        }
    }
    lemma_ordered_unique(s, sort, r1, r2);
}

/// When the selected bookmarks have distinct times, the newest-first listing
/// is the oldest-first listing reversed.
pub proof fn lemma_newest_reverses_oldest(
    s: Seq<BookmarkView>,
    filter: SearchOptions,
    query: Option<Seq<char>>,
    newest: Seq<usize>,
    oldest: Seq<usize>,
)
    requires
        is_listing(s, filter, SortOptions::Newest, query, newest),
        is_listing(s, filter, SortOptions::Oldest, query, oldest),
        forall|i: int, j: int|
            selected(s, filter, query, i) && selected(s, filter, query, j) && i != j
                ==> #[trigger] s[i].timestamp != #[trigger] s[j].timestamp,
    ensures
        newest.reverse() == oldest,
{
    let rev = newest.reverse();
    let n = newest.len();
    assert forall|a: int, b: int| 0 <= a < b < rev.len() implies comes_before(
        s,
        SortOptions::Oldest,
        #[trigger] rev[a] as int,
        #[trigger] rev[b] as int,
    ) by {
        assert(rev[a] == newest[n - 1 - a] && rev[b] == newest[n - 1 - b]);
        assert(comes_before(s, SortOptions::Newest, newest[n - 1 - b] as int, newest[n - 1 - a] as int));
        assert(selected(s, filter, query, newest[n - 1 - a] as int));
        assert(selected(s, filter, query, newest[n - 1 - b] as int));
    }
    assert forall|x: usize| #[trigger] rev.contains(x) <==> oldest.contains(x) by {
        if rev.contains(x) {
            let k = choose|k: int| 0 <= k < rev.len() && rev[k] == x;
            assert(newest[n - 1 - k] == x);
            assert(selected(s, filter, query, x as int));
            assert(oldest.contains((x as int) as usize));
        }
        if oldest.contains(x) {
            let k = choose|k: int| 0 <= k < oldest.len() && oldest[k] == x;
            assert(selected(s, filter, query, oldest[k] as int));
            assert(newest.contains((x as int) as usize));
            let m = choose|m: int| 0 <= m < n && newest[m] == x;
            assert(rev[n - 1 - m] == x);
        }
    }
    lemma_ordered_unique(s, SortOptions::Oldest, rev, oldest);
}

} // verus!
