use std::cmp::Ordering;
use std::marker::PhantomData;
use vstd::prelude::*;

use crate::order::{bytes_precede, lex_order, ordering_value, text_order};
use crate::text::str_eq;
use crate::constants::{priorities_view, spec_type_priorities, type_priorities, CATALOG_PAGE_SIZE};
use crate::models::common::compare_with_priorities::{
    compare_with_priorities, law_compare_with_priorities_antisymmetric,
    spec_compare_with_priorities,
};
use crate::runtime::Effects;
use crate::sorted::{insertion_sort, sort_with, ItemOrder};
use crate::types::library::{
    items_view, same_items, same_text, spec_in_continue_watching, text_view, spec_watched, LibraryItem,
    NotificationItem, NotificationsBucket,
};

verus! {

/// Which library items a library view shows.
pub trait LibraryFilter {
    spec fn spec_predicate(library_item: LibraryItem, notifications: NotificationsBucket) -> bool;

    fn predicate(library_item: &LibraryItem, notifications: &NotificationsBucket) -> (r: bool)
        ensures
            r == Self::spec_predicate(*library_item, *notifications),
    ;
}

/// The new videos the user was notified of for `id`: the last entry for
/// the id, as a map collected from the entries would hold it.
pub open spec fn notified_videos(
    id: Seq<char>,
    items: Seq<(String, Vec<NotificationItem>)>,
) -> Option<Seq<NotificationItem>>
    decreases items.len(),
{
    if items.len() == 0 {
        None
    } else if items.last().0@ == id {
        Some(items.last().1@)
    } else {
        notified_videos(id, items.drop_last())
    }
}

/// The number of new videos the user was notified of for `id`.
pub open spec fn notification_count(id: Seq<char>, items: Seq<(String, Vec<NotificationItem>)>) -> nat {
    match notified_videos(id, items) {
        Some(videos) => videos.len(),
        None => 0,
    }
}

/// Finds the new videos of `id`, as [`notified_videos`] gives them.
pub fn find_notified<'a>(id: &str, notifications: &'a NotificationsBucket) -> (r: Option<
    &'a Vec<NotificationItem>,
>)
    ensures
        match r {
            Some(videos) => notified_videos(id@, notifications.items@) == Some(videos@),
            None => notified_videos(id@, notifications.items@) is None,
        },
{
    let items = &notifications.items;
    let mut i: usize = items.len();
    assert(items@.take(items@.len() as int) =~= items@);
    while i > 0
        invariant
            i <= items.len(),
            items == notifications.items,
            notified_videos(id@, items@) == notified_videos(id@, items@.take(i as int)),
        decreases i,
    {
        assert(items@.take(i as int).drop_last() =~= items@.take(i - 1));
        assert(items@.take(i as int).last() == items@[i - 1]);
        if str_eq(items[i - 1].0.as_str(), id) {
            return Some(&items[i - 1].1);
        }
        i = i - 1;
    }
    None
}

/// Items in "continue watching", and items with new videos.
#[derive(Clone, Debug)]
pub struct ContinueWatchingFilter;

impl LibraryFilter for ContinueWatchingFilter {
    open spec fn spec_predicate(library_item: LibraryItem, notifications: NotificationsBucket) -> bool {
        spec_in_continue_watching(library_item) || notification_count(
            library_item.id@,
            notifications.items@,
        ) > 0
    }

    fn predicate(library_item: &LibraryItem, notifications: &NotificationsBucket) -> (r: bool) {
        if library_item.is_in_continue_watching() {
            return true;
        }
        match find_notified(library_item.id.as_str(), notifications) {
            Some(videos) => videos.len() > 0,
            None => false,
        }
    }
}

/// Items that are not removed.
#[derive(Clone, Debug)]
pub struct NotRemovedFilter;

impl LibraryFilter for NotRemovedFilter {
    open spec fn spec_predicate(library_item: LibraryItem, notifications: NotificationsBucket) -> bool {
        !library_item.removed
    }

    fn predicate(library_item: &LibraryItem, _notifications: &NotificationsBucket) -> (r: bool) {
        !library_item.removed
    }
}

/// The orders in which the library can be listed.
#[derive(Clone, Copy, PartialEq, Eq, Debug, Structural)]
pub enum Sort {
    LastWatched,
    Name,
    NameReverse,
    TimesWatched,
    Watched,
    NotWatched,
}

impl Default for Sort {
    fn default() -> (r: Self)
        ensures
            r == Sort::LastWatched,
    {
        Sort::LastWatched
    }
}

/// Names what `str::to_lowercase` gives for a string: the Unicode lower
/// case of every character. It is a function of its argument alone.
pub uninterp spec fn lowercase(s: Seq<char>) -> Seq<char>;

/// Calls `str::to_lowercase`; the result is named by [`lowercase`].
#[verifier::external_body]
fn to_lowercase(s: &str) -> (r: String)
    ensures
        r@ == lowercase(s@),
{
    s.to_lowercase()
}

/// Optional times: none before any time, times by their value.
pub open spec fn optional_time_order(a: Option<i64>, b: Option<i64>) -> int {
    match (a, b) {
        (None, None) => 0,
        (None, Some(_)) => -1,
        (Some(_), None) => 1,
        (Some(x), Some(y)) => if x < y {
            -1
        } else if x == y {
            0
        } else {
            1
        },
    }
}

pub open spec fn count_order(a: u32, b: u32) -> int {
    if a < b {
        -1
    } else if a == b {
        0
    } else {
        1
    }
}

pub open spec fn bool_order(a: bool, b: bool) -> int {
    if a == b {
        0
    } else if !a {
        -1
    } else {
        1
    }
}

pub open spec fn name_order(a: LibraryItem, b: LibraryItem) -> int {
    lex_order(
        vstd::utf8::encode_utf8(lowercase(a.name@)),
        vstd::utf8::encode_utf8(lowercase(b.name@)),
    )
}

/// The order of two library items in a listing sorted by `sort`.
pub open spec fn spec_sort_items(sort: Sort, a: LibraryItem, b: LibraryItem) -> int {
    match sort {
        Sort::LastWatched => optional_time_order(b.state.last_watched, a.state.last_watched),
        Sort::TimesWatched => count_order(b.state.times_watched, a.state.times_watched),
        Sort::Watched => {
            let w = bool_order(spec_watched(b), spec_watched(a));
            if w != 0 {
                w
            } else {
                let l = optional_time_order(b.state.last_watched, a.state.last_watched);
                if l != 0 {
                    l
                } else {
                    optional_time_order(b.ctime, a.ctime)
                }
            }
        },
        Sort::NotWatched => {
            let w = bool_order(spec_watched(a), spec_watched(b));
            if w != 0 {
                w
            } else {
                let l = optional_time_order(a.state.last_watched, b.state.last_watched);
                if l != 0 {
                    l
                } else {
                    optional_time_order(a.ctime, b.ctime)
                }
            }
        },
        Sort::Name => name_order(a, b),
        Sort::NameReverse => name_order(b, a),
    }
}

fn optional_time_cmp(a: Option<i64>, b: Option<i64>) -> (r: Ordering)
    ensures
        ordering_value(r) == optional_time_order(a, b),
{
    match (a, b) {
        (None, None) => Ordering::Equal,
        (None, Some(_)) => Ordering::Less,
        (Some(_), None) => Ordering::Greater,
        (Some(x), Some(y)) => if x < y {
            Ordering::Less
        } else if x == y {
            Ordering::Equal
        } else {
            Ordering::Greater
        },
    }
}

fn bool_cmp(a: bool, b: bool) -> (r: Ordering)
    ensures
        ordering_value(r) == bool_order(a, b),
{
    if a == b {
        Ordering::Equal
    } else if !a {
        Ordering::Less
    } else {
        Ordering::Greater
    }
}

impl Sort {
    /// Orders two library items for a listing sorted by this order.
    pub fn sort_items(&self, a: &LibraryItem, b: &LibraryItem) -> (r: Ordering)
        ensures
            ordering_value(r) == spec_sort_items(*self, *a, *b),
    {
        match self {
            Sort::LastWatched => optional_time_cmp(b.state.last_watched, a.state.last_watched),
            Sort::TimesWatched => {
                let x = b.state.times_watched;
                let y = a.state.times_watched;
                if x < y {
                    Ordering::Less
                } else if x == y {
                    Ordering::Equal
                } else {
                    Ordering::Greater
                }
            },
            Sort::Watched => {
                let w = bool_cmp(b.watched(), a.watched());
                if !matches!(w, Ordering::Equal) {
                    return w;
                }
                let l = optional_time_cmp(b.state.last_watched, a.state.last_watched);
                if !matches!(l, Ordering::Equal) {
                    return l;
                }
                optional_time_cmp(b.ctime, a.ctime)
            },
            Sort::NotWatched => {
                let w = bool_cmp(a.watched(), b.watched());
                if !matches!(w, Ordering::Equal) {
                    return w;
                }
                let l = optional_time_cmp(a.state.last_watched, b.state.last_watched);
                if !matches!(l, Ordering::Equal) {
                    return l;
                }
                optional_time_cmp(a.ctime, b.ctime)
            },
            Sort::Name => {
                let x = to_lowercase(a.name.as_str());
                let y = to_lowercase(b.name.as_str());
                text_order(x.as_str(), y.as_str())
            },
            Sort::NameReverse => {
                let x = to_lowercase(b.name.as_str());
                let y = to_lowercase(a.name.as_str());
                text_order(x.as_str(), y.as_str())
            },
        }
    }
}

/// Every listing order is antisymmetric: swapping the two items reverses
/// their order.
pub proof fn law_sort_items_antisymmetric(sort: Sort, a: LibraryItem, b: LibraryItem)
    ensures
        spec_sort_items(sort, a, b) == -spec_sort_items(sort, b, a),
{
    crate::order::law_lex_order_antisymmetric(
        vstd::utf8::encode_utf8(lowercase(a.name@)),
        vstd::utf8::encode_utf8(lowercase(b.name@)),
    );
}

/// Sorting by name in reverse is sorting by name with the items swapped,
/// and "not watched" lists the items in the reverse order of "watched".
pub proof fn law_reverse_orders(a: LibraryItem, b: LibraryItem)
    ensures
        spec_sort_items(Sort::NameReverse, a, b) == spec_sort_items(Sort::Name, b, a),
        spec_sort_items(Sort::NotWatched, a, b) == spec_sort_items(Sort::Watched, b, a),
{
}

/// A listing request: the content type shown (all types when none), the
/// order, and how many pages are shown.
#[derive(Clone, PartialEq, Eq, Debug)]
pub struct LibraryRequest {
    pub content_type: Option<String>,
    pub sort: Sort,
    pub page: LibraryRequestPage,
}

/// A page number; pages count from one.
#[derive(Clone, Copy, PartialEq, Eq, Debug, Structural)]
pub struct LibraryRequestPage(pub usize);

impl LibraryRequestPage {
    /// A page number, where it is not zero.
    pub fn new(page: usize) -> (r: Option<LibraryRequestPage>)
        ensures
            r == (if page == 0 {
                None
            } else {
                Some(LibraryRequestPage(page))
            }),
    {
        if page == 0 {
            None
        } else {
            Some(LibraryRequestPage(page))
        }
    }

    /// The page number.
    pub fn get(&self) -> (r: usize)
        ensures
            r == self.0,
    {
        self.0
    }
}

impl Default for LibraryRequestPage {
    fn default() -> (r: Self)
        ensures
            r.0 == 1,
    {
        LibraryRequestPage(1)
    }
}

#[derive(Clone, PartialEq, Eq, Debug)]
pub struct Selected {
    pub request: LibraryRequest,
}

#[derive(Clone, PartialEq, Eq, Debug)]
pub struct SelectableType {
    pub content_type: Option<String>,
    pub selected: bool,
    pub request: LibraryRequest,
}

#[derive(Clone, PartialEq, Eq, Debug)]
pub struct SelectableSort {
    pub sort: Sort,
    pub selected: bool,
    pub request: LibraryRequest,
}

#[derive(Clone, PartialEq, Eq, Debug)]
pub struct SelectablePage {
    pub request: LibraryRequest,
}

#[derive(Clone, PartialEq, Eq, Debug)]
pub struct Selectable {
    pub types: Vec<SelectableType>,
    pub sorts: Vec<SelectableSort>,
    pub next_page: Option<SelectablePage>,
}

} // verus!

verus! {

impl ItemOrder<LibraryItem> for Sort {
    open spec fn order(&self, a: LibraryItem, b: LibraryItem) -> int {
        spec_sort_items(*self, a, b)
    }

    fn compare(&self, a: &LibraryItem, b: &LibraryItem) -> (r: Ordering) {
        self.sort_items(a, b)
    }

    proof fn order_antisymmetric(&self, a: LibraryItem, b: LibraryItem) {
        law_sort_items_antisymmetric(*self, a, b);
    }
}

/// Whether the item is of the requested type (any type when none is).
pub open spec fn type_matches(content_type: Option<String>, item: LibraryItem) -> bool {
    match content_type {
        Some(t) => item.content_type@ == t@,
        None => true,
    }
}

/// The library items that the filter shows, of the requested type, in
/// library order.
pub open spec fn shown_items<F: LibraryFilter>(
    library: Seq<LibraryItem>,
    notifications: NotificationsBucket,
    content_type: Option<String>,
) -> Seq<LibraryItem>
    decreases library.len(),
{
    if library.len() == 0 {
        Seq::empty()
    } else {
        let rest = shown_items::<F>(library.drop_last(), notifications, content_type);
        let last = library.last();
        if F::spec_predicate(last, notifications) && type_matches(content_type, last) {
            rest.push(last)
        } else {
            rest
        }
    }
}

fn matches_type(content_type: &Option<String>, item: &LibraryItem) -> (r: bool)
    ensures
        r == type_matches(*content_type, *item),
{
    match content_type {
        Some(t) => str_eq(item.content_type.as_str(), t.as_str()),
        None => true,
    }
}

pub(crate) fn shown<F: LibraryFilter>(
    library: &[LibraryItem],
    notifications: &NotificationsBucket,
    content_type: &Option<String>,
) -> (r: Vec<LibraryItem>)
    ensures
        r@ == shown_items::<F>(library@, *notifications, *content_type),
{
    let mut out: Vec<LibraryItem> = Vec::new();
    let mut i: usize = 0;
    while i < library.len()
        invariant
            i <= library.len(),
            out@ == shown_items::<F>(library@.take(i as int), *notifications, *content_type),
        decreases library.len() - i,
    {
        assert(library@.take(i + 1).drop_last() =~= library@.take(i as int));
        let item = &library[i];
        if F::predicate(item, notifications) && matches_type(content_type, item) {
            out.push(item.clone());
        }
        i = i + 1;
    }
    assert(library@.take(library.len() as int) =~= library@);
    out
}

/// The number of items shown for a page: all the pages up to it.
pub open spec fn page_limit(page: LibraryRequestPage) -> int {
    page.0 * CATALOG_PAGE_SIZE
}

/// `listing` is `shown` sorted by `sort` (items that are ordered alike keep
/// their order) and cut to at most `limit` items.
pub open spec fn is_listing(
    shown: Seq<LibraryItem>,
    sort: Sort,
    limit: int,
    listing: Seq<LibraryItem>,
) -> bool {
    let sorted = insertion_sort(sort, shown);
    listing == sorted.take(
        if limit < sorted.len() {
            limit
        } else {
            sorted.len() as int
        },
    )
}

/// The catalog of a selection: the shown items of the requested type,
/// sorted as requested, up to the requested page; nothing without a
/// selection.
pub open spec fn spec_catalog<F: LibraryFilter>(
    selected: Option<Selected>,
    library: Seq<LibraryItem>,
    notifications: NotificationsBucket,
    catalog: Seq<LibraryItem>,
) -> bool {
    match selected {
        Some(s) => is_listing(
            shown_items::<F>(library, notifications, s.request.content_type),
            s.request.sort,
            page_limit(s.request.page),
            catalog,
        ),
        None => catalog.len() == 0,
    }
}

pub(crate) fn sorted_listing(items: Vec<LibraryItem>, sort: &Sort, limit: usize) -> (r: Vec<LibraryItem>)
    ensures
        is_listing(items@, *sort, limit as int, r@),
{
    let mut sorted = sort_with(sort, items);
    let ghost full = sorted@;
    sorted.truncate(limit);
    assert(sorted@ =~= full.take(
        if limit < full.len() {
            limit as int
        } else {
            full.len() as int
        },
    ));
    sorted
}

/// Replaces the items by `next`, reporting a change when they differ.
fn items_update<A>(items: &mut Vec<LibraryItem>, next: Vec<LibraryItem>) -> (r: Effects<A>)
    ensures
        final(items)@ == next@,
        r.effect_list().len() == 0,
        r.has_changed == (items_view(old(items)@) != items_view(next@)),
{
    if same_items(items.as_slice(), next.as_slice()) {
        *items = next;
        Effects::none().unchanged()
    } else {
        *items = next;
        Effects::none()
    }
}

/// The reducer of the catalog of a library view.
pub fn catalog_update<F: LibraryFilter, A>(
    catalog: &mut Vec<LibraryItem>,
    selected: &Option<Selected>,
    library: &[LibraryItem],
    notifications: &NotificationsBucket,
) -> (r: Effects<A>)
    requires
        selected matches Some(s) ==> page_limit(s.request.page) <= usize::MAX,
    ensures
        spec_catalog::<F>(*selected, library@, *notifications, final(catalog)@),
        r.effect_list().len() == 0,
        r.has_changed == (items_view(old(catalog)@) != items_view(final(catalog)@)),
{
    let next: Vec<LibraryItem> = match selected {
        Some(s) => {
            let items = shown::<F>(library, notifications, &s.request.content_type);
            sorted_listing(items, &s.request.sort, s.request.page.get() * CATALOG_PAGE_SIZE)
        },
        None => Vec::new(),
    };
    items_update(catalog, next)
}

} // verus!

verus! {

/// Whether an item of `items` is of content type `t`.
pub open spec fn has_type(items: Seq<LibraryItem>, t: Seq<char>) -> bool {
    exists|k: int| 0 <= k < items.len() && (#[trigger] items[k]).content_type@ == t
}

pub open spec fn strings_view(s: Seq<String>) -> Seq<Seq<char>> {
    s.map_values(|x: String| x@)
}

/// Each type ranks at or above the next one by the priorities.
pub open spec fn types_ranked(ts: Seq<Seq<char>>, priorities: Seq<(Seq<char>, i32)>) -> bool {
    forall|i: int, j: int|
        0 <= i && j == i + 1 && j < ts.len() ==> spec_compare_with_priorities(
            #[trigger] ts[j],
            #[trigger] ts[i],
            priorities,
        ) <= 0
}

fn ranks_above(a: &str, b: &str, priorities: &[(String, i32)]) -> (r: bool)
    ensures
        r == (spec_compare_with_priorities(a@, b@, priorities_view(priorities@)) > 0),
{
    matches!(compare_with_priorities(a, b, priorities), Ordering::Greater)
}

fn holds_text(ts: &Vec<String>, t: &str) -> (r: bool)
    ensures
        r == strings_view(ts@).contains(t@),
{
    let mut i: usize = 0;
    while i < ts.len()
        invariant
            i <= ts.len(),
            forall|j: int| 0 <= j < i ==> ts@[j]@ != t@,
        decreases ts.len() - i,
    {
        if str_eq(ts[i].as_str(), t) {
            assert(strings_view(ts@)[i as int] == t@);
            return true;
        }
        i = i + 1;
    }
    assert(!strings_view(ts@).contains(t@)) by {
        if strings_view(ts@).contains(t@) {
            let j = choose|j: int| 0 <= j < strings_view(ts@).len() && strings_view(ts@)[j] == t@;
            assert(ts@[j]@ == t@);
        }
    }
    false
}

proof fn lemma_has_type_step(items: Seq<LibraryItem>, i: int)
    requires
        0 <= i < items.len(),
    ensures
        forall|u: Seq<char>|
            has_type(items.take(i + 1), u) <==> (has_type(items.take(i), u) || u
                == items[i].content_type@),
{
    let prefix = items.take(i);
    let next_prefix = items.take(i + 1);
    assert forall|u: Seq<char>|
        has_type(next_prefix, u) <==> (has_type(prefix, u) || u == items[i].content_type@) by {
        if has_type(next_prefix, u) {
            let k = choose|k: int|
                0 <= k < next_prefix.len() && (#[trigger] next_prefix[k]).content_type@ == u;
            if k < i {
                assert(prefix[k] == next_prefix[k]);
            }
        }
        if has_type(prefix, u) {
            let k = choose|k: int| 0 <= k < prefix.len() && (#[trigger] prefix[k]).content_type@ == u;
            assert(next_prefix[k] == prefix[k]);
        }
        if u == items[i].content_type@ {
            assert(next_prefix[i] == items[i]);
        }
    }
}

/// Inserting a new type where it ranks keeps the types ranked.
proof fn lemma_insert_keeps_ranked(
    old_view: Seq<Seq<char>>,
    k: int,
    t: Seq<char>,
    pv: Seq<(Seq<char>, i32)>,
)
    requires
        0 <= k <= old_view.len(),
        types_ranked(old_view, pv),
        k > 0 ==> spec_compare_with_priorities(t, old_view[k - 1], pv) <= 0,
        k < old_view.len() ==> spec_compare_with_priorities(t, old_view[k], pv) > 0,
    ensures
        types_ranked(old_view.insert(k, t), pv),
{
    let new_view = old_view.insert(k, t);
    if k < old_view.len() {
        law_compare_with_priorities_antisymmetric(t, old_view[k], pv);
    }
    assert forall|a: int, b: int|
        0 <= a && b == a + 1 && b < new_view.len() implies spec_compare_with_priorities(
        #[trigger] new_view[b],
        #[trigger] new_view[a],
        pv,
    ) <= 0 by {
        if b < k {
            assert(new_view[a] == old_view[a] && new_view[b] == old_view[b]);
        } else if b == k {
        } else if a == k {
        } else {
            assert(new_view[a] == old_view[a - 1] && new_view[b] == old_view[b - 1]);
        }
    }
}

/// Inserting a type that is not there keeps the types distinct.
proof fn lemma_insert_keeps_distinct(old_view: Seq<Seq<char>>, k: int, t: Seq<char>)
    requires
        0 <= k <= old_view.len(),
        old_view.no_duplicates(),
        !old_view.contains(t),
    ensures
        old_view.insert(k, t).no_duplicates(),
        forall|u: Seq<char>| old_view.insert(k, t).contains(u) <==> (old_view.contains(u) || u == t),
{
    let new_view = old_view.insert(k, t);
    assert forall|a: int, b: int|
        0 <= a < new_view.len() && 0 <= b < new_view.len() && a != b implies new_view[a]
        != new_view[b] by {
        if a == k {
            if b < k {
                assert(new_view[b] == old_view[b]);
            } else {
                assert(new_view[b] == old_view[b - 1]);
            }
        } else if b == k {
            if a < k {
                assert(new_view[a] == old_view[a]);
            } else {
                assert(new_view[a] == old_view[a - 1]);
            }
        } else {
            let a0 = if a < k {
                a
            } else {
                a - 1
            };
            let b0 = if b < k {
                b
            } else {
                b - 1
            };
            assert(new_view[a] == old_view[a0] && new_view[b] == old_view[b0]);
        }
    }
    assert forall|u: Seq<char>| new_view.contains(u) <==> (old_view.contains(u) || u == t) by {
        if new_view.contains(u) {
            let a = choose|a: int| 0 <= a < new_view.len() && new_view[a] == u;
            if a < k {
                assert(old_view[a] == u);
            } else if a > k {
                assert(old_view[a - 1] == u);
            }
        }
        if old_view.contains(u) {
            let a = choose|a: int| 0 <= a < old_view.len() && old_view[a] == u;
            if a < k {
                assert(new_view[a] == u);
            } else {
                assert(new_view[a + 1] == u);
            }
        }
        if u == t {
            assert(new_view[k] == u);
        }
    }
}

/// The position at which `t` ranks among `ts`: after every type that it
/// does not rank above, before the first one that it ranks above.
fn rank_position(ts: &Vec<String>, t: &str, priorities: &[(String, i32)]) -> (k: usize)
    ensures
        k <= ts.len(),
        k > 0 ==> spec_compare_with_priorities(t@, ts@[k - 1]@, priorities_view(priorities@)) <= 0,
        k < ts.len() ==> spec_compare_with_priorities(t@, ts@[k as int]@, priorities_view(priorities@)) > 0,
{
    let mut k: usize = 0;
    while k < ts.len()
        invariant
            k <= ts.len(),
            k > 0 ==> spec_compare_with_priorities(t@, ts@[k - 1]@, priorities_view(priorities@)) <= 0,
        ensures
            k <= ts.len(),
            k > 0 ==> spec_compare_with_priorities(t@, ts@[k - 1]@, priorities_view(priorities@)) <= 0,
            k < ts.len() ==> spec_compare_with_priorities(t@, ts@[k as int]@, priorities_view(priorities@)) > 0,
        decreases ts.len() - k,
    {
        if ranks_above(t, ts[k].as_str(), priorities) {
            break;
        }
        k = k + 1;
    }
    k
}

/// The distinct texts among `values`, highest priority first.
pub fn ranked_texts(values: &[String], priorities: &[(String, i32)]) -> (r: Vec<String>)
    ensures
        strings_view(r@).no_duplicates(),
        types_ranked(strings_view(r@), priorities_view(priorities@)),
        forall|t: Seq<char>| strings_view(r@).contains(t) <==> strings_view(values@).contains(t),
{
    let ghost pv = priorities_view(priorities@);
    let mut out: Vec<String> = Vec::new();
    let mut i: usize = 0;
    while i < values.len()
        invariant
            i <= values.len(),
            pv == priorities_view(priorities@),
            strings_view(out@).no_duplicates(),
            types_ranked(strings_view(out@), pv),
            forall|t: Seq<char>|
                strings_view(out@).contains(t) <==> strings_view(values@.take(i as int)).contains(t),
        decreases values.len() - i,
    {
        let t = &values[i];
        let ghost before = strings_view(out@);
        let ghost prefix = strings_view(values@.take(i as int));
        let ghost next_prefix = strings_view(values@.take(i + 1));
        assert(next_prefix =~= prefix.push(t@));
        let held = holds_text(&out, t.as_str());
        if !held {
            let k = rank_position(&out, t.as_str(), priorities);
            let ghost old_view = strings_view(out@);
            proof {
                lemma_insert_keeps_ranked(old_view, k as int, t@, pv);
                lemma_insert_keeps_distinct(old_view, k as int, t@);
            }
            out.insert(k, t.clone());
            assert(strings_view(out@) =~= old_view.insert(k as int, t@));
        }
        assert forall|u: Seq<char>|
            strings_view(out@).contains(u) <==> next_prefix.contains(u) by {
            assert(before.contains(u) <==> prefix.contains(u));
            if next_prefix.contains(u) {
                let j = choose|j: int| 0 <= j < next_prefix.len() && next_prefix[j] == u;
                if j < prefix.len() {
                    assert(prefix[j] == u);
                }
            }
            if prefix.contains(u) {
                let j = choose|j: int| 0 <= j < prefix.len() && prefix[j] == u;
                assert(next_prefix[j] == u);
            }
            if u == t@ {
                assert(next_prefix[prefix.len() as int] == u);
            }
            if held {
                assert(strings_view(out@) == before);
            }
        }
        i = i + 1;
    }
    assert(values@.take(values.len() as int) =~= values@);
    out
}

/// The distinct content types of the items, highest priority first.
pub(crate) fn ranked_types(items: &[LibraryItem], priorities: &[(String, i32)]) -> (r: Vec<String>)
    ensures
        strings_view(r@).no_duplicates(),
        types_ranked(strings_view(r@), priorities_view(priorities@)),
        forall|t: Seq<char>| strings_view(r@).contains(t) <==> has_type(items@, t),
{
    let ghost pv = priorities_view(priorities@);
    let mut out: Vec<String> = Vec::new();
    let mut i: usize = 0;
    while i < items.len()
        invariant
            i <= items.len(),
            pv == priorities_view(priorities@),
            strings_view(out@).no_duplicates(),
            types_ranked(strings_view(out@), pv),
            forall|t: Seq<char>|
                strings_view(out@).contains(t) <==> has_type(items@.take(i as int), t),
        decreases items.len() - i,
    {
        proof {
            lemma_has_type_step(items@, i as int);
        }
        let t = &items[i].content_type;
        let ghost before = strings_view(out@);
        let held = holds_text(&out, t.as_str());
        if !held {
            let k = rank_position(&out, t.as_str(), priorities);
            let ghost old_view = strings_view(out@);
            proof {
                lemma_insert_keeps_ranked(old_view, k as int, t@, pv);
                lemma_insert_keeps_distinct(old_view, k as int, t@);
            }
            out.insert(k, t.clone());
            assert(strings_view(out@) =~= old_view.insert(k as int, t@));
        }
        assert forall|u: Seq<char>|
            strings_view(out@).contains(u) <==> has_type(items@.take(i + 1), u) by {
            assert(before.contains(u) <==> has_type(items@.take(i as int), u));
            assert(has_type(items@.take(i + 1), u) <==> (has_type(items@.take(i as int), u) || u
                == items@[i as int].content_type@));
            if held {
                assert(strings_view(out@) == before);
            }
        }
        i = i + 1;
    }
    assert(items@.take(items.len() as int) =~= items@);
    out
}

} // verus!

verus! {

/// A listing request as plain values: the type, the order and the page.
pub open spec fn request_view(request: LibraryRequest) -> (Option<Seq<char>>, Sort, usize) {
    (text_view(request.content_type), request.sort, request.page.0)
}

/// The sorts in the order in which they are offered.
pub open spec fn all_sorts() -> Seq<Sort> {
    seq![
        Sort::LastWatched,
        Sort::Name,
        Sort::NameReverse,
        Sort::TimesWatched,
        Sort::Watched,
        Sort::NotWatched,
    ]
}

/// The order of the selection, the default one without a selection.
pub open spec fn selected_sort(selected: Option<Selected>) -> Sort {
    match selected {
        Some(s) => s.request.sort,
        None => Sort::LastWatched,
    }
}

/// The type of the selection, none without a selection.
pub open spec fn selected_type(selected: Option<Selected>) -> Option<Seq<char>> {
    match selected {
        Some(s) => text_view(s.request.content_type),
        None => None,
    }
}

/// The types offered: first all types, then each type of the items that
/// the filter shows, distinct and highest priority first; each with a
/// request for its first page in the selected order.
pub open spec fn spec_selectable_types<F: LibraryFilter>(
    selected: Option<Selected>,
    library: Seq<LibraryItem>,
    notifications: NotificationsBucket,
    types: Seq<SelectableType>,
) -> bool {
    let ts = types.drop_first().map_values(|t: SelectableType| text_view(t.content_type)->0);
    &&& types.len() >= 1
    &&& types[0].content_type is None
    &&& request_view(types[0].request) == (None::<Seq<char>>, selected_sort(selected), 1usize)
    &&& types[0].selected == (selected is Some && selected_type(selected) is None)
    &&& forall|i: int|
        1 <= i < types.len() ==> {
            &&& (#[trigger] types[i]).content_type is Some
            &&& request_view(types[i].request) == (text_view(types[i].content_type), selected_sort(
                selected,
            ), 1usize)
            &&& types[i].selected == (selected is Some && selected_type(selected) == text_view(
                types[i].content_type,
            ))
        }
    &&& ts.no_duplicates()
    &&& types_ranked(ts, spec_type_priorities())
    &&& forall|t: Seq<char>|
        ts.contains(t) <==> has_type(shown_items::<F>(library, notifications, None), t)
}

/// The sorts offered: every sort, each with a request for the first page of
/// the selected type.
pub open spec fn spec_selectable_sorts(selected: Option<Selected>, sorts: Seq<SelectableSort>) -> bool {
    &&& sorts.len() == all_sorts().len()
    &&& forall|i: int|
        0 <= i < sorts.len() ==> {
            &&& (#[trigger] sorts[i]).sort == all_sorts()[i]
            &&& request_view(sorts[i].request) == (selected_type(selected), all_sorts()[i], 1usize)
            &&& sorts[i].selected == (selected is Some && selected_sort(selected) == all_sorts()[i])
        }
}

/// The next page is offered where the selection shows more items than its
/// pages hold.
pub open spec fn spec_next_page<F: LibraryFilter>(
    selected: Option<Selected>,
    library: Seq<LibraryItem>,
    notifications: NotificationsBucket,
    next_page: Option<SelectablePage>,
) -> bool {
    match selected {
        Some(s) => if shown_items::<F>(library, notifications, s.request.content_type).len()
            > page_limit(s.request.page) {
            next_page matches Some(p) && request_view(p.request) == (
                text_view(s.request.content_type),
                s.request.sort,
                (s.request.page.0 + 1) as usize,
            )
        } else {
            next_page is None
        },
        None => next_page is None,
    }
}

pub open spec fn spec_selectable<F: LibraryFilter>(
    selected: Option<Selected>,
    library: Seq<LibraryItem>,
    notifications: NotificationsBucket,
    selectable: Selectable,
) -> bool {
    &&& spec_selectable_types::<F>(selected, library, notifications, selectable.types@)
    &&& spec_selectable_sorts(selected, selectable.sorts@)
    &&& spec_next_page::<F>(selected, library, notifications, selectable.next_page)
}

/// The choices as plain values.
pub open spec fn selectable_view(selectable: Selectable) -> (
    Seq<(Option<Seq<char>>, bool, (Option<Seq<char>>, Sort, usize))>,
    Seq<(Sort, bool, (Option<Seq<char>>, Sort, usize))>,
    Option<(Option<Seq<char>>, Sort, usize)>,
) {
    (
        selectable.types@.map_values(
            |t: SelectableType| (text_view(t.content_type), t.selected, request_view(t.request)),
        ),
        selectable.sorts@.map_values(
            |s: SelectableSort| (s.sort, s.selected, request_view(s.request)),
        ),
        match selectable.next_page {
            Some(p) => Some(request_view(p.request)),
            None => None,
        },
    )
}

fn copy_text(value: &Option<String>) -> (r: Option<String>)
    ensures
        text_view(r) == text_view(*value),
{
    match value {
        Some(s) => Some(s.clone()),
        None => None,
    }
}

fn same_request(a: &LibraryRequest, b: &LibraryRequest) -> (r: bool)
    ensures
        r == (request_view(*a) == request_view(*b)),
{
    same_text(&a.content_type, &b.content_type) && a.sort == b.sort && a.page == b.page
}

fn same_selectable(a: &Selectable, b: &Selectable) -> (r: bool)
    ensures
        r == (selectable_view(*a) == selectable_view(*b)),
{
    let ghost va = selectable_view(*a);
    let ghost vb = selectable_view(*b);
    if a.types.len() != b.types.len() || a.sorts.len() != b.sorts.len() {
        assert(va.0.len() != vb.0.len() || va.1.len() != vb.1.len());
        return false;
    }
    let mut i: usize = 0;
    while i < a.types.len()
        invariant
            i <= a.types.len(),
            a.types.len() == b.types.len(),
            va == selectable_view(*a),
            vb == selectable_view(*b),
            forall|j: int| 0 <= j < i ==> va.0[j] == #[trigger] vb.0[j],
        decreases a.types.len() - i,
    {
        let x = &a.types[i];
        let y = &b.types[i];
        if !(same_text(&x.content_type, &y.content_type) && x.selected == y.selected
            && same_request(&x.request, &y.request)) {
            assert(va.0[i as int] != vb.0[i as int]);
            return false;
        }
        i = i + 1;
    }
    assert(va.0 =~= vb.0);
    let mut i: usize = 0;
    while i < a.sorts.len()
        invariant
            i <= a.sorts.len(),
            a.sorts.len() == b.sorts.len(),
            va == selectable_view(*a),
            vb == selectable_view(*b),
            forall|j: int| 0 <= j < i ==> va.1[j] == #[trigger] vb.1[j],
        decreases a.sorts.len() - i,
    {
        let x = &a.sorts[i];
        let y = &b.sorts[i];
        if !(x.sort == y.sort && x.selected == y.selected && same_request(&x.request, &y.request)) {
            assert(va.1[i as int] != vb.1[i as int]);
            return false;
        }
        i = i + 1;
    }
    assert(va.1 =~= vb.1);
    match (&a.next_page, &b.next_page) {
        (Some(x), Some(y)) => same_request(&x.request, &y.request),
        (None, None) => true,
        _ => false,
    }
}

fn first_page_request(content_type: &Option<String>, sort: Sort) -> (r: LibraryRequest)
    ensures
        request_view(r) == (text_view(*content_type), sort, 1usize),
{
    LibraryRequest { content_type: copy_text(content_type), sort, page: LibraryRequestPage::default() }
}

fn selectable_types<F: LibraryFilter>(
    selected: &Option<Selected>,
    library: &[LibraryItem],
    notifications: &NotificationsBucket,
) -> (r: Vec<SelectableType>)
    ensures
        spec_selectable_types::<F>(*selected, library@, *notifications, r@),
{
    let sort = match selected {
        Some(s) => s.request.sort,
        None => Sort::LastWatched,
    };
    let none: Option<String> = None;
    let mut types: Vec<SelectableType> = Vec::new();
    types.push(
        SelectableType {
            content_type: None,
            selected: match selected {
                Some(s) => s.request.content_type.is_none(),
                None => false,
            },
            request: first_page_request(&none, sort),
        },
    );
    let shown_any = shown::<F>(library, notifications, &none);
    let priorities = type_priorities();
    let ranked = ranked_types(shown_any.as_slice(), priorities.as_slice());
    let ghost rv = strings_view(ranked@);
    let mut i: usize = 0;
    while i < ranked.len()
        invariant
            i <= ranked.len(),
            rv == strings_view(ranked@),
            types@.len() == i + 1,
            sort == selected_sort(*selected),
            types@[0].content_type is None,
            request_view(types@[0].request) == (None::<Seq<char>>, selected_sort(*selected), 1usize),
            types@[0].selected == (selected is Some && selected_type(*selected) is None),
            forall|j: int|
                1 <= j < types@.len() ==> {
                    &&& (#[trigger] types@[j]).content_type is Some
                    &&& text_view(types@[j].content_type)->0 == rv[j - 1]
                    &&& request_view(types@[j].request) == (text_view(types@[j].content_type), selected_sort(
                        *selected,
                    ), 1usize)
                    &&& types@[j].selected == (selected is Some && selected_type(*selected)
                        == text_view(types@[j].content_type))
                },
        decreases ranked.len() - i,
    {
        let t = Some(ranked[i].clone());
        let is_selected = match selected {
            Some(s) => same_text(&s.request.content_type, &t),
            None => false,
        };
        let request = first_page_request(&t, sort);
        types.push(SelectableType { content_type: t, selected: is_selected, request });
        i = i + 1;
    }
    let ghost ts = types@.drop_first().map_values(
        |t: SelectableType| text_view(t.content_type)->0,
    );
    assert(ts =~= rv);
    assert(priorities_view(priorities@) == spec_type_priorities());
    types
}

fn selectable_sorts(selected: &Option<Selected>) -> (r: Vec<SelectableSort>)
    ensures
        spec_selectable_sorts(*selected, r@),
{
    let none: Option<String> = None;
    let content_type = match selected {
        Some(s) => &s.request.content_type,
        None => &none,
    };
    let sorts = vec![
        Sort::LastWatched,
        Sort::Name,
        Sort::NameReverse,
        Sort::TimesWatched,
        Sort::Watched,
        Sort::NotWatched,
    ];
    assert(sorts@ =~= all_sorts());
    let mut out: Vec<SelectableSort> = Vec::new();
    let mut i: usize = 0;
    while i < sorts.len()
        invariant
            i <= sorts.len(),
            sorts@ == all_sorts(),
            text_view(*content_type) == selected_type(*selected),
            out@.len() == i,
            forall|j: int|
                0 <= j < i ==> {
                    &&& (#[trigger] out@[j]).sort == all_sorts()[j]
                    &&& request_view(out@[j].request) == (selected_type(*selected), all_sorts()[j], 1usize)
                    &&& out@[j].selected == (selected is Some && selected_sort(*selected)
                        == all_sorts()[j])
                },
        decreases sorts.len() - i,
    {
        let sort = sorts[i];
        let is_selected = match selected {
            Some(s) => s.request.sort == sort,
            None => false,
        };
        out.push(
            SelectableSort {
                sort,
                selected: is_selected,
                request: first_page_request(content_type, sort),
            },
        );
        i = i + 1;
    }
    out
}

fn next_page<F: LibraryFilter>(
    selected: &Option<Selected>,
    library: &[LibraryItem],
    notifications: &NotificationsBucket,
) -> (r: Option<SelectablePage>)
    requires
        selected matches Some(s) ==> page_limit(s.request.page) <= usize::MAX,
    ensures
        spec_next_page::<F>(*selected, library@, *notifications, r),
{
    match selected {
        Some(s) => {
            let items = shown::<F>(library, notifications, &s.request.content_type);
            let page = s.request.page.get();
            if items.len() > page * CATALOG_PAGE_SIZE {
                Some(
                    SelectablePage {
                        request: LibraryRequest {
                            content_type: copy_text(&s.request.content_type),
                            sort: s.request.sort,
                            page: LibraryRequestPage(page + 1),
                        },
                    },
                )
            } else {
                None
            }
        },
        None => None,
    }
}

/// The reducer of the choices of a library view.
pub fn selectable_update<F: LibraryFilter, A>(
    selectable: &mut Selectable,
    selected: &Option<Selected>,
    library: &[LibraryItem],
    notifications: &NotificationsBucket,
) -> (r: Effects<A>)
    requires
        selected matches Some(s) ==> page_limit(s.request.page) <= usize::MAX,
    ensures
        spec_selectable::<F>(*selected, library@, *notifications, *final(selectable)),
        r.effect_list().len() == 0,
        r.has_changed == (selectable_view(*old(selectable)) != selectable_view(*final(selectable))),
{
    let next = Selectable {
        types: selectable_types::<F>(selected, library, notifications),
        sorts: selectable_sorts(selected),
        next_page: next_page::<F>(selected, library, notifications),
    };
    if same_selectable(selectable, &next) {
        *selectable = next;
        Effects::none().unchanged()
    } else {
        *selectable = next;
        Effects::none()
    }
}

} // verus!

verus! {

/// A library view: the selected listing request, the choices it offers and
/// the items it lists, for the items that the filter `F` shows.
pub struct LibraryWithFilters<F> {
    pub selected: Option<Selected>,
    pub selectable: Selectable,
    pub catalog: Vec<LibraryItem>,
    pub filter: PhantomData<F>,
}

/// What a library view reacts to.
pub enum LibraryWithFiltersMsg {
    /// A listing request is selected.
    Load(Selected),
    /// The view is left.
    Unload,
    /// One more page of the selected listing is asked for.
    LoadNextPage,
    /// The library or the notifications changed.
    LibraryChanged,
}

/// The selection as plain values.
pub open spec fn selected_view(selected: Option<Selected>) -> Option<(Option<Seq<char>>, Sort, usize)> {
    match selected {
        Some(s) => Some(request_view(s.request)),
        None => None,
    }
}

/// The selection's pages fit in memory sizes.
pub open spec fn pages_fit(selected: Option<Selected>) -> bool {
    selected matches Some(s) ==> page_limit(s.request.page) <= usize::MAX
}

/// The choices and the catalog follow from the selection.
pub open spec fn consistent<F: LibraryFilter>(
    model: LibraryWithFilters<F>,
    library: Seq<LibraryItem>,
    notifications: NotificationsBucket,
) -> bool {
    &&& spec_selectable::<F>(model.selected, library, notifications, model.selectable)
    &&& spec_catalog::<F>(model.selected, library, notifications, model.catalog@)
}

fn copy_request(request: &LibraryRequest) -> (r: LibraryRequest)
    ensures
        request_view(r) == request_view(*request),
{
    LibraryRequest {
        content_type: copy_text(&request.content_type),
        sort: request.sort,
        page: request.page,
    }
}

fn selected_update<A>(selected: &mut Option<Selected>, next: Option<Selected>) -> (r: Effects<A>)
    ensures
        selected_view(*final(selected)) == selected_view(next),
        pages_fit(next) ==> pages_fit(*final(selected)),
        r.effect_list().len() == 0,
        r.has_changed == (selected_view(*old(selected)) != selected_view(next)),
{
    let same = match (&*selected, &next) {
        (Some(a), Some(b)) => same_request(&a.request, &b.request),
        (None, None) => true,
        _ => false,
    };
    *selected = next;
    if same {
        Effects::none().unchanged()
    } else {
        Effects::none()
    }
}

impl<F: LibraryFilter> LibraryWithFilters<F> {
    /// A view with nothing selected, offering the choices of the library.
    pub fn new(library: &[LibraryItem], notifications: &NotificationsBucket) -> (r: (
        Self,
        Effects<()>,
    ))
        ensures
            r.0.selected is None,
            r.0.catalog@.len() == 0,
            consistent(r.0, library@, *notifications),
            !r.1.has_changed,
            r.1.effect_list().len() == 0,
    {
        let selected: Option<Selected> = None;
        let mut selectable = Selectable { types: Vec::new(), sorts: Vec::new(), next_page: None };
        let effects = selectable_update::<F, ()>(&mut selectable, &selected, library, notifications);
        (
            LibraryWithFilters { selected, selectable, catalog: Vec::new(), filter: PhantomData },
            effects.unchanged(),
        )
    }

    /// The reducer of the view. After a selection, leaving, a change of the
    /// library, or a next page that was offered, the choices and the
    /// catalog are those of the (new) selection; a next page that was not
    /// offered changes nothing.
    pub fn update<A>(
        &mut self,
        msg: LibraryWithFiltersMsg,
        library: &[LibraryItem],
        notifications: &NotificationsBucket,
    ) -> (r: Effects<A>)
        requires
            match msg {
                LibraryWithFiltersMsg::Load(s) => pages_fit(Some(s)),
                LibraryWithFiltersMsg::Unload => true,
                LibraryWithFiltersMsg::LoadNextPage => old(self).selectable.next_page matches Some(p)
                    ==> page_limit(p.request.page) <= usize::MAX,
                LibraryWithFiltersMsg::LibraryChanged => pages_fit(old(self).selected),
            },
        ensures
            r.effect_list().len() == 0,
            match msg {
                LibraryWithFiltersMsg::Load(s) => selected_view(final(self).selected) == Some(
                    request_view(s.request),
                ),
                LibraryWithFiltersMsg::Unload => final(self).selected is None,
                LibraryWithFiltersMsg::LoadNextPage => match old(self).selectable.next_page {
                    Some(p) => selected_view(final(self).selected) == Some(request_view(p.request)),
                    None => selected_view(final(self).selected) == selected_view(old(self).selected),
                },
                LibraryWithFiltersMsg::LibraryChanged => selected_view(final(self).selected)
                    == selected_view(old(self).selected),
            },
            (msg is LoadNextPage && old(self).selectable.next_page is None) ==> {
                &&& !r.has_changed
                &&& selectable_view(final(self).selectable) == selectable_view(old(self).selectable)
                &&& items_view(final(self).catalog@) == items_view(old(self).catalog@)
            },
            !(msg is LoadNextPage && old(self).selectable.next_page is None) ==> {
                &&& consistent(*final(self), library@, *notifications)
                &&& r.has_changed == (selected_view(old(self).selected) != selected_view(
                    final(self).selected,
                ) || selectable_view(old(self).selectable) != selectable_view(
                    final(self).selectable,
                ) || items_view(old(self).catalog@) != items_view(final(self).catalog@))
            },
    {
        let selected_effects: Effects<A> = match msg {
            LibraryWithFiltersMsg::Load(s) => selected_update(&mut self.selected, Some(s)),
            LibraryWithFiltersMsg::Unload => selected_update(&mut self.selected, None),
            LibraryWithFiltersMsg::LoadNextPage => match &self.selectable.next_page {
                Some(p) => {
                    let next = Selected { request: copy_request(&p.request) };
                    selected_update(&mut self.selected, Some(next))
                },
                None => {
                    return Effects::none().unchanged();
                },
            },
            LibraryWithFiltersMsg::LibraryChanged => Effects::none().unchanged(),
        };
        let selectable_effects: Effects<A> = selectable_update::<F, A>(
            &mut self.selectable,
            &self.selected,
            library,
            notifications,
        );
        let catalog_effects: Effects<A> = catalog_update::<F, A>(
            &mut self.catalog,
            &self.selected,
            library,
            notifications,
        );
        selected_effects.join(selectable_effects).join(catalog_effects)
    }
}


/// Whether time `x` is more recent than time `y`: a time is more recent than
/// none, and a later time than an earlier one.
pub open spec fn more_recent(x: Option<i64>, y: Option<i64>) -> bool {
    match (x, y) {
        (Some(_), None) => true,
        (Some(p), Some(q)) => p > q,
        _ => false,
    }
}

/// Sorting by times watched puts the item watched more often first: `a`
/// comes before `b` exactly when it was watched more times, after it
/// exactly when fewer, and they rank alike exactly when the counts are
/// equal.
pub proof fn law_times_watched_order(a: LibraryItem, b: LibraryItem)
    ensures
        spec_sort_items(Sort::TimesWatched, a, b) < 0 <==> a.state.times_watched > b.state.times_watched,
        spec_sort_items(Sort::TimesWatched, a, b) > 0 <==> a.state.times_watched < b.state.times_watched,
        spec_sort_items(Sort::TimesWatched, a, b) == 0 <==> a.state.times_watched == b.state.times_watched,
{
}

/// Sorting by last watched puts the most recently watched item first, items
/// never watched last; items watched at the same time rank alike.
pub proof fn law_last_watched_order(a: LibraryItem, b: LibraryItem)
    ensures
        spec_sort_items(Sort::LastWatched, a, b) < 0 <==> more_recent(a.state.last_watched, b.state.last_watched),
        spec_sort_items(Sort::LastWatched, a, b) > 0 <==> more_recent(b.state.last_watched, a.state.last_watched),
        spec_sort_items(Sort::LastWatched, a, b) == 0 <==> a.state.last_watched == b.state.last_watched,
{
}

/// Sorting by watched puts watched items first; among items alike in that,
/// the most recently watched first, then the most recently added first.
/// Sorting by not watched puts items not watched first; among items alike
/// in that, the least recently watched first, then the least recently
/// added first.
pub proof fn law_watched_orders(a: LibraryItem, b: LibraryItem)
    ensures
        spec_watched(a) && !spec_watched(b) ==> spec_sort_items(Sort::Watched, a, b) < 0
            && spec_sort_items(Sort::NotWatched, a, b) > 0,
        spec_watched(a) == spec_watched(b) ==> {
            &&& spec_sort_items(Sort::Watched, a, b) < 0 <==> (more_recent(a.state.last_watched, b.state.last_watched)
                || (a.state.last_watched == b.state.last_watched && more_recent(a.ctime, b.ctime)))
            &&& spec_sort_items(Sort::Watched, a, b) == 0 <==> (a.state.last_watched == b.state.last_watched && a.ctime
                == b.ctime)
            &&& spec_sort_items(Sort::NotWatched, a, b) < 0 <==> (more_recent(b.state.last_watched, a.state.last_watched)
                || (a.state.last_watched == b.state.last_watched && more_recent(b.ctime, a.ctime)))
            &&& spec_sort_items(Sort::NotWatched, a, b) == 0 <==> (a.state.last_watched == b.state.last_watched
                && a.ctime == b.ctime)
        },
        spec_watched(a) == (a.state.times_watched > 0),
{
}


/// Sorting by name orders the lowercased names by their bytes: `a` comes
/// first exactly when its lowercased name precedes `b`'s, and they rank
/// alike exactly when the lowercased names are the same; sorting by name in
/// reverse is the other way round.
pub proof fn law_name_orders(a: LibraryItem, b: LibraryItem)
    ensures
        spec_sort_items(Sort::Name, a, b) < 0 <==> bytes_precede(
            vstd::utf8::encode_utf8(lowercase(a.name@)),
            vstd::utf8::encode_utf8(lowercase(b.name@)),
        ),
        spec_sort_items(Sort::Name, a, b) == 0 <==> vstd::utf8::encode_utf8(lowercase(a.name@))
            == vstd::utf8::encode_utf8(lowercase(b.name@)),
        spec_sort_items(Sort::Name, a, b) > 0 <==> bytes_precede(
            vstd::utf8::encode_utf8(lowercase(b.name@)),
            vstd::utf8::encode_utf8(lowercase(a.name@)),
        ),
        spec_sort_items(Sort::NameReverse, a, b) < 0 <==> bytes_precede(
            vstd::utf8::encode_utf8(lowercase(b.name@)),
            vstd::utf8::encode_utf8(lowercase(a.name@)),
        ),
{
    crate::order::law_lex_order_is_byte_order(
        vstd::utf8::encode_utf8(lowercase(a.name@)),
        vstd::utf8::encode_utf8(lowercase(b.name@)),
    );
    crate::order::law_lex_order_is_byte_order(
        vstd::utf8::encode_utf8(lowercase(b.name@)),
        vstd::utf8::encode_utf8(lowercase(a.name@)),
    );
}


/// The items shown are exactly the library items that the filter keeps and
/// that are of the requested type (all, when none is requested), in library
/// order.
pub proof fn law_shown_items_are_the_kept_items_of_the_type<F: LibraryFilter>(
    library: Seq<LibraryItem>,
    notifications: NotificationsBucket,
    content_type: Option<String>,
)
    ensures
        shown_items::<F>(library, notifications, content_type) == library.filter(
            |item: LibraryItem|
                F::spec_predicate(item, notifications) && match content_type {
                    Some(t) => item.content_type@ == t@,
                    None => true,
                },
        ),
    decreases library.len(),
{
    reveal(Seq::filter);
    if library.len() > 0 {
        law_shown_items_are_the_kept_items_of_the_type::<F>(library.drop_last(), notifications, content_type);
    }
}

/// The library keeps the items not removed; "continue watching" keeps the
/// items in progress and those with new videos notified.
pub proof fn law_library_filters(item: LibraryItem, notifications: NotificationsBucket)
    ensures
        NotRemovedFilter::spec_predicate(item, notifications) == !item.removed,
        ContinueWatchingFilter::spec_predicate(item, notifications) == (spec_in_continue_watching(item) || match notified_videos(
            item.id@,
            notifications.items@,
        ) {
            Some(videos) => videos.len() > 0,
            None => false,
        }),
        spec_in_continue_watching(item) == (item.content_type@ != "other"@ && (!item.removed || item.temp)
            && item.state.time_offset > 0),
{
}

} // verus!
