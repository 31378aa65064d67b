//! The library split by content type: for each type shown, a catalog of
//! pages of its items in the selected order.

use std::marker::PhantomData;
use vstd::prelude::*;

use crate::constants::{priorities_view, spec_type_priorities, type_priorities, CATALOG_PAGE_SIZE};
use crate::models::library_with_filters::{
    all_sorts, has_type, is_listing, ranked_types, shown, shown_items, sorted_listing, strings_view,
    types_ranked, LibraryFilter, Sort,
};
use crate::runtime::Effects;
use crate::sorted::{insertion_sort, lemma_insertion_sort_multiset, sort_with};
use crate::types::library::{items_view, same_items, LibraryItem, LibraryItemView, NotificationsBucket};

verus! {

/// The selected order.
#[derive(Clone, Copy, PartialEq, Eq, Debug, Structural)]
pub struct Selected {
    pub sort: Sort,
}

/// An order that can be selected.
#[derive(Clone, Copy, PartialEq, Eq, Debug, Structural)]
pub struct SelectableSort {
    pub sort: Sort,
    pub selected: bool,
}

/// The choices of the view.
#[derive(PartialEq, Eq, Debug)]
pub struct Selectable {
    pub sorts: Vec<SelectableSort>,
}

/// The library by type: for each type, its pages.
pub struct LibraryByType<F> {
    pub selected: Option<Selected>,
    pub selectable: Selectable,
    pub catalogs: Vec<Vec<Vec<LibraryItem>>>,
    pub filter: PhantomData<F>,
}

/// What the view reacts to.
pub enum LibraryByTypeMsg {
    /// An order is selected.
    Load(Selected),
    /// The view is left.
    Unload,
    /// One more page of the catalog at the index is asked for.
    LoadNextPage(usize),
    /// The library or the notifications changed.
    LibraryChanged,
}

/// Every order, the selected one marked.
pub open spec fn spec_selectable(selected: Option<Selected>, sorts: Seq<SelectableSort>) -> bool {
    &&& sorts.len() == all_sorts().len()
    &&& forall|i: int|
        0 <= i < sorts.len() ==> #[trigger] sorts[i] == (SelectableSort {
            sort: all_sorts()[i],
            selected: selected matches Some(s) && s.sort == all_sorts()[i],
        })
}

/// The reducer of the choices.
pub fn selectable_update<A>(selectable: &mut Selectable, selected: &Option<Selected>) -> (r: Effects<A>)
    ensures
        spec_selectable(*selected, final(selectable).sorts@),
        r.effect_list().len() == 0,
        r.has_changed == (old(selectable).sorts@ != final(selectable).sorts@),
{
    let sorts = vec![
        Sort::LastWatched,
        Sort::Name,
        Sort::NameReverse,
        Sort::TimesWatched,
        Sort::Watched,
        Sort::NotWatched,
    ];
    assert(sorts@ =~= all_sorts());
    let mut next: Vec<SelectableSort> = Vec::new();
    let mut i: usize = 0;
    while i < sorts.len()
        invariant
            i <= sorts.len(),
            sorts@ == all_sorts(),
            next@.len() == i,
            forall|j: int|
                0 <= j < i ==> #[trigger] next@[j] == (SelectableSort {
                    sort: all_sorts()[j],
                    selected: selected matches Some(s) && s.sort == all_sorts()[j],
                }),
        decreases sorts.len() - i,
    {
        let sort = sorts[i];
        let is_selected = match selected {
            Some(s) => s.sort == sort,
            None => false,
        };
        next.push(SelectableSort { sort, selected: is_selected });
        i = i + 1;
    }
    let mut same = selectable.sorts.len() == next.len();
    let mut k: usize = 0;
    while same && k < next.len()
        invariant
            k <= next.len(),
            same ==> selectable.sorts.len() == next.len(),
            same ==> forall|j: int| 0 <= j < k ==> selectable.sorts@[j] == #[trigger] next@[j],
            !same ==> selectable.sorts@ != next@,
        decreases next.len() - k,
    {
        if selectable.sorts[k] != next[k] {
            same = false;
        }
        k = k + 1;
    }
    if same {
        assert(selectable.sorts@ =~= next@);
    }
    selectable.sorts = next;
    if same {
        Effects::none().unchanged()
    } else {
        Effects::none()
    }
}

/// The catalogs of a selection: for each type of the shown items, highest
/// priority first, one page of its items in the selected order; nothing
/// without a selection.
pub open spec fn spec_catalogs<F: LibraryFilter>(
    selected: Option<Selected>,
    library: Seq<LibraryItem>,
    notifications: NotificationsBucket,
    catalogs: Seq<Vec<Vec<LibraryItem>>>,
) -> bool {
    match selected {
        Some(s) => {
            let shown_all = shown_items::<F>(library, notifications, None);
            &&& forall|i: int|
                0 <= i < catalogs.len() ==> (#[trigger] catalogs[i])@.len() == 1 && catalogs[i]@[0]@.len() > 0
            &&& forall|i: int|
                0 <= i < catalogs.len() ==> is_listing(
                    shown_items::<F>(library, notifications, Some(catalogs[i]@[0]@[0].content_type)),
                    s.sort,
                    CATALOG_PAGE_SIZE as int,
                    #[trigger] catalogs[i]@[0]@,
                )
            &&& catalog_types(catalogs).no_duplicates()
            &&& types_ranked(catalog_types(catalogs), spec_type_priorities())
            &&& forall|t: Seq<char>| catalog_types(catalogs).contains(t) <==> has_type(shown_all, t)
        },
        None => catalogs.len() == 0,
    }
}

/// The type of each catalog: the type of the first item of its first page.
pub open spec fn catalog_types(catalogs: Seq<Vec<Vec<LibraryItem>>>) -> Seq<Seq<char>> {
    catalogs.map_values(|c: Vec<Vec<LibraryItem>>| c@[0]@[0].content_type@)
}

pub open spec fn catalogs_view(catalogs: Seq<Vec<Vec<LibraryItem>>>) -> Seq<Seq<Seq<LibraryItemView>>> {
    catalogs.map_values(
        |c: Vec<Vec<LibraryItem>>| c@.map_values(|p: Vec<LibraryItem>| items_view(p@)),
    )
}

fn same_catalogs(a: &Vec<Vec<Vec<LibraryItem>>>, b: &Vec<Vec<Vec<LibraryItem>>>) -> (r: bool)
    ensures
        r == (catalogs_view(a@) == catalogs_view(b@)),
{
    if a.len() != b.len() {
        assert(catalogs_view(a@).len() != catalogs_view(b@).len());
        return false;
    }
    let mut i: usize = 0;
    while i < a.len()
        invariant
            i <= a.len(),
            a.len() == b.len(),
            forall|j: int| 0 <= j < i ==> catalogs_view(a@)[j] == #[trigger] catalogs_view(b@)[j],
        decreases a.len() - i,
    {
        let x = &a[i];
        let y = &b[i];
        let ghost vx = x@.map_values(|p: Vec<LibraryItem>| items_view(p@));
        let ghost vy = y@.map_values(|p: Vec<LibraryItem>| items_view(p@));
        assert(catalogs_view(a@)[i as int] == vx);
        assert(catalogs_view(b@)[i as int] == vy);
        if x.len() != y.len() {
            assert(vx.len() != vy.len());
            return false;
        }
        let mut k: usize = 0;
        while k < x.len()
            invariant
                k <= x.len(),
                x.len() == y.len(),
                vx == x@.map_values(|p: Vec<LibraryItem>| items_view(p@)),
                vy == y@.map_values(|p: Vec<LibraryItem>| items_view(p@)),
                catalogs_view(a@)[i as int] == vx,
                catalogs_view(b@)[i as int] == vy,
                forall|j: int| 0 <= j < k ==> vx[j] == #[trigger] vy[j],
            decreases x.len() - k,
        {
            if !same_items(x[k].as_slice(), y[k].as_slice()) {
                assert(vx[k as int] != vy[k as int]);
                return false;
            }
            k = k + 1;
        }
        assert(vx =~= vy);
        i = i + 1;
    }
    assert(catalogs_view(a@) =~= catalogs_view(b@));
    true
}


proof fn lemma_shown_type_nonempty<F: LibraryFilter>(
    library: Seq<LibraryItem>,
    notifications: NotificationsBucket,
    t: String,
)
    requires
        has_type(shown_items::<F>(library, notifications, None), t@),
    ensures
        shown_items::<F>(library, notifications, Some(t)).len() > 0,
    decreases library.len(),
{
    if library.len() > 0 {
        let rest = shown_items::<F>(library.drop_last(), notifications, None);
        let all = shown_items::<F>(library, notifications, None);
        let k = choose|k: int| 0 <= k < all.len() && (#[trigger] all[k]).content_type@ == t@;
        if k < rest.len() {
            assert(all[k] == rest[k]);
            lemma_shown_type_nonempty::<F>(library.drop_last(), notifications, t);
        }
    }
}

proof fn lemma_shown_all_of_type<F: LibraryFilter>(
    library: Seq<LibraryItem>,
    notifications: NotificationsBucket,
    t: String,
)
    ensures
        forall|k: int|
            0 <= k < shown_items::<F>(library, notifications, Some(t)).len() ==> (#[trigger] shown_items::<
                F,
            >(library, notifications, Some(t))[k]).content_type@ == t@,
    decreases library.len(),
{
    if library.len() > 0 {
        lemma_shown_all_of_type::<F>(library.drop_last(), notifications, t);
    }
}

proof fn lemma_shown_items_view<F: LibraryFilter>(
    library: Seq<LibraryItem>,
    notifications: NotificationsBucket,
    a: String,
    b: String,
)
    requires
        a@ == b@,
    ensures
        shown_items::<F>(library, notifications, Some(a)) == shown_items::<F>(
            library,
            notifications,
            Some(b),
        ),
    decreases library.len(),
{
    if library.len() > 0 {
        lemma_shown_items_view::<F>(library.drop_last(), notifications, a, b);
    }
}

proof fn lemma_listing_first(shown: Seq<LibraryItem>, t: Seq<char>, sort: Sort, page: Seq<LibraryItem>)
    requires
        shown.len() > 0,
        forall|k: int| 0 <= k < shown.len() ==> (#[trigger] shown[k]).content_type@ == t,
        is_listing(shown, sort, CATALOG_PAGE_SIZE as int, page),
    ensures
        page.len() > 0,
        page[0].content_type@ == t,
{
    broadcast use vstd::seq_lib::group_to_multiset_ensures;

    let sorted = insertion_sort(sort, shown);
    lemma_insertion_sort_multiset(sort, shown);
    assert(sorted.to_multiset().len() == shown.to_multiset().len());
    assert(sorted.len() == shown.len());
    assert(sorted.contains(sorted[0]));
    assert(shown.to_multiset().count(sorted[0]) > 0);
    assert(shown.contains(sorted[0]));
    assert(page[0] == sorted[0]);
}

/// The reducer of the catalogs.
pub fn catalogs_update<F: LibraryFilter, A>(
    catalogs: &mut Vec<Vec<Vec<LibraryItem>>>,
    selected: &Option<Selected>,
    library: &[LibraryItem],
    notifications: &NotificationsBucket,
) -> (r: Effects<A>)
    ensures
        spec_catalogs::<F>(*selected, library@, *notifications, final(catalogs)@),
        r.effect_list().len() == 0,
        r.has_changed == (catalogs_view(old(catalogs)@) != catalogs_view(final(catalogs)@)),
{
    let mut next: Vec<Vec<Vec<LibraryItem>>> = Vec::new();
    match selected {
        Some(s) => {
            let none: Option<String> = None;
            let items = shown::<F>(library, notifications, &none);
            let priorities = type_priorities();
            let types = ranked_types(items.as_slice(), priorities.as_slice());
            let ghost tv = strings_view(types@);
            let mut i: usize = 0;
            while i < types.len()
                invariant
                    i <= types.len(),
                    tv == strings_view(types@),
                    items@ == shown_items::<F>(library@, *notifications, None),
                    forall|t: Seq<char>| tv.contains(t) <==> has_type(items@, t),
                    next@.len() == i,
                    catalog_types(next@) == tv.take(i as int),
                    forall|j: int|
                        0 <= j < next@.len() ==> (#[trigger] next@[j])@.len() == 1 && next@[j]@[0]@.len() > 0,
                    forall|j: int|
                        0 <= j < next@.len() ==> is_listing(
                            shown_items::<F>(library@, *notifications, Some(next@[j]@[0]@[0].content_type)),
                            s.sort,
                            CATALOG_PAGE_SIZE as int,
                            #[trigger] next@[j]@[0]@,
                        ),
                decreases types.len() - i,
            {
                let t = Some(types[i].clone());
                assert(tv.contains(tv[i as int]));
                let of_type = shown::<F>(library, notifications, &t);
                proof {
                    lemma_shown_type_nonempty::<F>(library@, *notifications, types@[i as int]);
                    lemma_shown_all_of_type::<F>(library@, *notifications, types@[i as int]);
                }
                let page = sorted_listing(of_type, &s.sort, CATALOG_PAGE_SIZE);
                proof {
                    lemma_listing_first(
                        shown_items::<F>(library@, *notifications, t),
                        types@[i as int]@,
                        s.sort,
                        page@,
                    );
                    lemma_shown_items_view::<F>(
                        library@,
                        *notifications,
                        page@[0].content_type,
                        types@[i as int],
                    );
                }
                let ghost before = next@;
                next.push(vec![page]);
                assert(catalog_types(next@) =~= tv.take(i + 1)) by {
                    assert(catalog_types(next@) =~= catalog_types(before).push(tv[i as int]));
                }
                i = i + 1;
            }
            assert(tv.take(types.len() as int) =~= tv);
            assert(priorities_view(priorities@) == spec_type_priorities());
        },
        None => {},
    }
    let same = same_catalogs(catalogs, &next);
    *catalogs = next;
    if same {
        Effects::none().unchanged()
    } else {
        Effects::none()
    }
}


/// `page` is the part of `shown`, sorted by `sort` (items that are ordered
/// alike keep their order), that follows the first `skip` items, at most a
/// page of it.
pub open spec fn is_page(shown: Seq<LibraryItem>, sort: Sort, skip: int, page: Seq<LibraryItem>) -> bool {
    let sorted = insertion_sort(sort, shown);
    page == sorted.subrange(
        if skip < sorted.len() {
            skip
        } else {
            sorted.len() as int
        },
        if skip + CATALOG_PAGE_SIZE < sorted.len() {
            skip + CATALOG_PAGE_SIZE
        } else {
            sorted.len() as int
        },
    )
}

/// The page after the first `skip` items of type `content_type`, in the
/// selected order; nothing without a selection.
pub fn next_page<F: LibraryFilter>(
    content_type: &String,
    skip: usize,
    selected: &Option<Selected>,
    library: &[LibraryItem],
    notifications: &NotificationsBucket,
) -> (r: Vec<LibraryItem>)
    ensures
        match *selected {
            Some(s) => is_page(
                shown_items::<F>(library@, *notifications, Some(*content_type)),
                s.sort,
                skip as int,
                r@,
            ),
            None => r@.len() == 0,
        },
{
    match selected {
        Some(s) => {
            let t = Some(content_type.clone());
            let items = shown::<F>(library, notifications, &t);
            let sorted = sort_with(&s.sort, items);
            let start = if skip < sorted.len() {
                skip
            } else {
                sorted.len()
            };
            let end = if sorted.len() - start > CATALOG_PAGE_SIZE {
                start + CATALOG_PAGE_SIZE
            } else {
                sorted.len()
            };
            let mut page: Vec<LibraryItem> = Vec::new();
            let mut i: usize = start;
            while i < end
                invariant
                    start <= i <= end,
                    end <= sorted.len(),
                    page@ == sorted@.subrange(start as int, i as int),
                decreases end - i,
            {
                page.push(sorted[i].clone());
                assert(page@ =~= sorted@.subrange(start as int, i + 1));
                i = i + 1;
            }
            page
        },
        None => Vec::new(),
    }
}

fn total_items(catalog: &Vec<Vec<LibraryItem>>) -> (r: usize)
    ensures
        r == total_len(catalog@) || (total_len(catalog@) > usize::MAX && r == usize::MAX),
{
    let mut total: usize = 0;
    let mut i: usize = 0;
    while i < catalog.len()
        invariant
            i <= catalog.len(),
            total == total_len(catalog@.take(i as int)) || (total_len(catalog@.take(i as int))
                > usize::MAX && total == usize::MAX),
        decreases catalog.len() - i,
    {
        assert(catalog@.take(i + 1).drop_last() =~= catalog@.take(i as int));
        total = total.saturating_add(catalog[i].len());
        i = i + 1;
    }
    assert(catalog@.take(catalog.len() as int) =~= catalog@);
    total
}

/// The number of items in the pages.
pub open spec fn total_len(pages: Seq<Vec<LibraryItem>>) -> int
    decreases pages.len(),
{
    if pages.len() == 0 {
        0
    } else {
        total_len(pages.drop_last()) + pages.last()@.len()
    }
}

/// Whether the catalog can grow: its first page has items and its last
/// page is full.
pub open spec fn can_grow(catalog: Seq<Vec<LibraryItem>>) -> bool {
    &&& catalog.len() > 0
    &&& catalog[0]@.len() > 0
    &&& catalog.last()@.len() == CATALOG_PAGE_SIZE
}

impl<F: LibraryFilter> LibraryByType<F> {
    /// A view with nothing selected; nothing is reported as changed.
    pub fn new() -> (r: (Self, Effects<()>))
        ensures
            r.0.selected is None,
            r.0.catalogs@.len() == 0,
            spec_selectable(None, r.0.selectable.sorts@),
            !r.1.has_changed,
            r.1.effect_list().len() == 0,
    {
        let selected: Option<Selected> = None;
        let mut selectable = Selectable { sorts: Vec::new() };
        let effects = selectable_update::<()>(&mut selectable, &selected);
        (
            LibraryByType { selected, selectable, catalogs: Vec::new(), filter: PhantomData },
            effects.unchanged(),
        )
    }

    /// The reducer of the view. A selection, leaving or a change of the
    /// library sets the choices and the catalogs of the (new) selection
    /// (none after leaving); a next page of a catalog that can grow is
    /// appended to it, and for any other catalog nothing changes.
    pub fn update<A>(
        &mut self,
        msg: LibraryByTypeMsg,
        library: &[LibraryItem],
        notifications: &NotificationsBucket,
    ) -> (r: Effects<A>)
        ensures
            r.effect_list().len() == 0,
            match msg {
                LibraryByTypeMsg::Load(s) => {
                    &&& final(self).selected == Some(s)
                    &&& spec_selectable(final(self).selected, final(self).selectable.sorts@)
                    &&& spec_catalogs::<F>(final(self).selected, library@, *notifications, final(self).catalogs@)
                    &&& r.has_changed == (old(self).selected != final(self).selected
                        || old(self).selectable.sorts@ != final(self).selectable.sorts@
                        || catalogs_view(old(self).catalogs@) != catalogs_view(final(self).catalogs@))
                },
                LibraryByTypeMsg::Unload => {
                    &&& final(self).selected is None
                    &&& spec_selectable(None, final(self).selectable.sorts@)
                    &&& final(self).catalogs@.len() == 0
                    &&& r.has_changed == (old(self).selected != final(self).selected
                        || old(self).selectable.sorts@ != final(self).selectable.sorts@
                        || old(self).catalogs@.len() != 0)
                },
                LibraryByTypeMsg::LoadNextPage(index) => {
                    &&& final(self).selected == old(self).selected
                    &&& final(self).selectable.sorts@ == old(self).selectable.sorts@
                    &&& if index < old(self).catalogs@.len() && can_grow(old(self).catalogs@[index as int]@) {
                        let old_catalog = old(self).catalogs@[index as int]@;
                        let new_catalog = final(self).catalogs@[index as int]@;
                        &&& final(self).catalogs@.len() == old(self).catalogs@.len()
                        &&& forall|j: int| 0 <= j < old(self).catalogs@.len() && j != index ==>
                            #[trigger] final(self).catalogs@[j] == old(self).catalogs@[j]
                        &&& new_catalog.drop_last() == old_catalog
                        &&& (old(self).selected is None ==> new_catalog.last()@.len() == 0)
                        &&& (old(self).selected matches Some(s) ==> total_len(old_catalog) <= usize::MAX
                            ==> is_page(
                                shown_items::<F>(library@, *notifications, Some(old_catalog[0]@[0].content_type)),
                                s.sort,
                                total_len(old_catalog),
                                new_catalog.last()@,
                            ))
                        &&& r.has_changed
                    } else {
                        &&& final(self).catalogs@ == old(self).catalogs@
                        &&& !r.has_changed
                    }
                },
                LibraryByTypeMsg::LibraryChanged => {
                    &&& final(self).selected == old(self).selected
                    &&& final(self).selectable.sorts@ == old(self).selectable.sorts@
                    &&& spec_catalogs::<F>(final(self).selected, library@, *notifications, final(self).catalogs@)
                    &&& r.has_changed == (catalogs_view(old(self).catalogs@) != catalogs_view(final(self).catalogs@))
                },
            },
    {
        match msg {
            LibraryByTypeMsg::Load(s) => {
                let same = match self.selected {
                    Some(current) => current == s,
                    None => false,
                };
                self.selected = Some(s);
                let selected_effects: Effects<A> = if same {
                    Effects::none().unchanged()
                } else {
                    Effects::none()
                };
                let selectable_effects: Effects<A> = selectable_update(&mut self.selectable, &self.selected);
                let catalogs_effects: Effects<A> = catalogs_update::<F, A>(
                    &mut self.catalogs,
                    &self.selected,
                    library,
                    notifications,
                );
                selected_effects.join(selectable_effects).join(catalogs_effects)
            },
            LibraryByTypeMsg::Unload => {
                let same = self.selected.is_none();
                self.selected = None;
                let selected_effects: Effects<A> = if same {
                    Effects::none().unchanged()
                } else {
                    Effects::none()
                };
                let selectable_effects: Effects<A> = selectable_update(&mut self.selectable, &self.selected);
                let had_catalogs = self.catalogs.len() != 0;
                self.catalogs = Vec::new();
                let catalogs_effects: Effects<A> = if had_catalogs {
                    Effects::none()
                } else {
                    Effects::none().unchanged()
                };
                selected_effects.join(selectable_effects).join(catalogs_effects)
            },
            LibraryByTypeMsg::LoadNextPage(index) => {
                if index < self.catalogs.len() {
                    let grows = {
                        let catalog = &self.catalogs[index];
                        catalog.len() > 0 && catalog[0].len() > 0 && catalog[catalog.len() - 1].len()
                            == CATALOG_PAGE_SIZE
                    };
                    if grows {
                        let ghost before = self.catalogs@;
                        let mut catalog = self.catalogs.remove(index);
                        let content_type = catalog[0][0].content_type.clone();
                        let skip = total_items(&catalog);
                        let page = next_page::<F>(&content_type, skip, &self.selected, library, notifications);
                        catalog.push(page);
                        self.catalogs.insert(index, catalog);
                        assert forall|j: int| 0 <= j < before.len() && j != index implies
                            #[trigger] self.catalogs@[j] == before[j] by {
                            if j < index {
                            } else {
                            }
                        }
                        return Effects::none();
                    }
                }
                Effects::none().unchanged()
            },
            LibraryByTypeMsg::LibraryChanged => catalogs_update::<F, A>(
                &mut self.catalogs,
                &self.selected,
                library,
                notifications,
            ),
        }
    }
}

} // verus!
