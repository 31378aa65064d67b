//! The catalogs of all addons for a content type and extra properties (such
//! as a search), each loaded page by page.

use vstd::prelude::*;

use crate::models::catalog_with_filters::{remove_extra, skip_name, without_extra};
use crate::models::common::resource_loadable::{
    accepts_result, clone_resource, content_cloned, requests_of, resource_update_with_vector_content,
    vector_content_of_result, ResourceAction, ResourceError, ResourceLoadable,
};
use crate::models::common::Loadable;
use crate::runtime::env::env_error_message;
use crate::runtime::{Effects, EnvError};
use crate::text::str_eq;
use crate::types::addon::{extra_view, ExtraValue, ResourceRequest, ResourceRequestView};
use crate::types::library::{same_text, text_view};
use crate::types::resource::{preview_view, same_preview, MetaItemPreview, PreviewView};

verus! {

/// The selected content type (all types when none) and extra properties.
#[derive(PartialEq, Eq, Debug)]
pub struct Selected {
    pub content_type: Option<String>,
    pub extra: Vec<ExtraValue>,
}

/// A catalog: its pages, the first one first.
pub type Catalog = Vec<ResourceLoadable<Vec<MetaItemPreview>>>;

/// The catalogs of the selection, one per planned request.
pub struct CatalogsWithExtra {
    pub selected: Option<Selected>,
    pub catalogs: Vec<Catalog>,
}

/// What the view asks for: a page to fetch, or a search to record.
#[derive(PartialEq, Debug)]
pub enum CatalogsEffect {
    Fetch(ResourceRequest),
    Search(String),
}

/// What the view reacts to. The requests that the selection plans over the
/// installed addons come with the messages that need them.
pub enum CatalogsWithExtraMsg<'a> {
    /// A selection, and the requests it plans.
    Load(Selected, &'a [ResourceRequest]),
    /// The view is left.
    Unload,
    /// The catalogs at the indexes from `start` to `end` (both included)
    /// are to be loaded.
    LoadRange(usize, usize, &'a [ResourceRequest]),
    /// The answer to a request.
    ResourceRequestResult(&'a ResourceRequest, Result<Result<Vec<MetaItemPreview>, String>, EnvError>),
    /// The installed addons changed, and the requests now planned.
    ProfileChanged(&'a [ResourceRequest]),
    /// The library changed.
    LibraryChanged,
}

pub open spec fn selected_view(selected: Option<Selected>) -> Option<(Option<Seq<char>>, Seq<(Seq<char>, Seq<char>)>)> {
    match selected {
        Some(s) => Some((text_view(s.content_type), extra_view(s.extra@))),
        None => None,
    }
}

/// The selection of a request: its type and extra properties without paging.
pub open spec fn spec_selected(next: Selected) -> (Option<Seq<char>>, Seq<(Seq<char>, Seq<char>)>) {
    (text_view(next.content_type), without_extra(extra_view(next.extra@), skip_name()))
}

fn same_extra(a: &Vec<ExtraValue>, b: &Vec<ExtraValue>) -> (r: bool)
    ensures
        r == (extra_view(a@) == extra_view(b@)),
{
    if a.len() != b.len() {
        assert(extra_view(a@).len() != extra_view(b@).len());
        return false;
    }
    let mut i: usize = 0;
    while i < a.len()
        invariant
            i <= a.len(),
            a.len() == b.len(),
            forall|j: int| 0 <= j < i ==> extra_view(a@)[j] == #[trigger] extra_view(b@)[j],
        decreases a.len() - i,
    {
        if !(str_eq(a[i].name.as_str(), b[i].name.as_str()) && str_eq(a[i].value.as_str(), b[i].value.as_str())) {
            assert(extra_view(a@)[i as int] != extra_view(b@)[i as int]);
            return false;
        }
        i = i + 1;
    }
    assert(extra_view(a@) =~= extra_view(b@));
    true
}

fn copy_text(value: &Option<String>) -> (r: Option<String>)
    ensures
        text_view(r) == text_view(*value),
{
    match value {
        Some(s) => Some(s.clone()),
        None => None,
    }
}

/// The reducer of the selection: the request without paging.
pub fn selected_update<A>(selected: &mut Option<Selected>, next_selected: &Selected) -> (r: Effects<A>)
    ensures
        selected_view(*final(selected)) == Some(spec_selected(*next_selected)),
        r.effect_list().len() == 0,
        r.has_changed == (selected_view(*old(selected)) != selected_view(*final(selected))),
{
    let skip = "skip";
    proof {
        reveal_strlit("skip");
    }
    let next = Selected {
        content_type: copy_text(&next_selected.content_type),
        extra: remove_extra(&next_selected.extra, skip),
    };
    let same = match &*selected {
        Some(current) => same_text(&current.content_type, &next.content_type) && same_extra(&current.extra, &next.extra),
        None => false,
    };
    *selected = Some(next);
    if same {
        Effects::none().unchanged()
    } else {
        Effects::none()
    }
}

/// The first catalog whose first page holds `request` with some content.
pub open spec fn first_loaded_catalog(catalogs: Seq<Catalog>, request: ResourceRequestView) -> Option<int>
    decreases catalogs.len(),
{
    if catalogs.len() == 0 {
        None
    } else {
        match first_loaded_catalog(catalogs.drop_last(), request) {
            Some(i) => Some(i),
            None => {
                let pages = catalogs.last()@;
                if pages.len() > 0 && pages[0].request@ == request && pages[0].content is Some {
                    Some(catalogs.len() - 1)
                } else {
                    None
                }
            },
        }
    }
}

/// Whether the index is in the range to load.
pub open spec fn in_range(range: Option<(usize, usize)>, index: int) -> bool {
    range matches Some((start, end)) && start <= index && index <= end
}

/// The requests fetched: the planned requests in the range that no loaded
/// catalog serves, in order.
pub open spec fn range_fetches(
    catalogs: Seq<Catalog>,
    planned: Seq<ResourceRequest>,
    range: Option<(usize, usize)>,
) -> Seq<ResourceRequestView>
    decreases planned.len(),
{
    if planned.len() == 0 {
        Seq::empty()
    } else {
        let k = planned.len() - 1;
        range_fetches(catalogs, planned.drop_last(), range) + if first_loaded_catalog(catalogs, planned[k]@) is None
            && in_range(range, k) {
            seq![planned[k]@]
        } else {
            Seq::empty()
        }
    }
}

/// `b` is a copy of the catalog `a`.
pub open spec fn catalog_copied(a: Catalog, b: Catalog) -> bool {
    &&& b@.len() == a@.len()
    &&& forall|p: int|
        0 <= p < a@.len() ==> (#[trigger] b@[p]).request@ == a@[p].request@ && content_cloned(
            a@[p].content,
            b@[p].content,
        )
}

/// The catalogs for the planned requests, in order: a copy of the catalog
/// that already loaded a request, else a single page, loading where its
/// index is in the range and not requested otherwise.
pub open spec fn planned_catalogs(
    catalogs: Seq<Catalog>,
    planned: Seq<ResourceRequest>,
    range: Option<(usize, usize)>,
    next: Seq<Catalog>,
) -> bool {
    &&& next.len() == planned.len()
    &&& forall|k: int|
        0 <= k < planned.len() ==> match first_loaded_catalog(catalogs, planned[k]@) {
            Some(j) => catalog_copied(catalogs[j], #[trigger] next[k]),
            None => {
                &&& next[k]@.len() == 1
                &&& next[k]@[0].request@ == planned[k]@
                &&& next[k]@[0].content == if in_range(range, k) {
                    Some(Loadable::<Vec<MetaItemPreview>, ResourceError>::Loading)
                } else {
                    None
                }
            },
        }
}

proof fn lemma_first_loaded_bounds(catalogs: Seq<Catalog>, request: ResourceRequestView)
    ensures
        first_loaded_catalog(catalogs, request) matches Some(j) ==> 0 <= j < catalogs.len(),
    decreases catalogs.len(),
{
    if catalogs.len() > 0 {
        lemma_first_loaded_bounds(catalogs.drop_last(), request);
    }
}

fn find_loaded(catalogs: &Vec<Catalog>, request: &ResourceRequest) -> (r: Option<usize>)
    ensures
        match r {
            Some(j) => first_loaded_catalog(catalogs@, request@) == Some(j as int) && j < catalogs.len(),
            None => first_loaded_catalog(catalogs@, request@) is None,
        },
{
    let mut i: usize = 0;
    while i < catalogs.len()
        invariant
            i <= catalogs.len(),
            first_loaded_catalog(catalogs@.take(i as int), request@) is None,
        decreases catalogs.len() - i,
    {
        assert(catalogs@.take(i + 1).drop_last() =~= catalogs@.take(i as int));
        let pages = &catalogs[i];
        if pages.len() > 0 && pages[0].request.same_as(request) && pages[0].content.is_some() {
            proof {
                lemma_first_loaded_prefix(catalogs@, request@, (i + 1) as int);
            }
            return Some(i);
        }
        i = i + 1;
    }
    assert(catalogs@.take(catalogs.len() as int) =~= catalogs@);
    None
}

proof fn lemma_first_loaded_prefix(catalogs: Seq<Catalog>, request: ResourceRequestView, n: int)
    requires
        0 < n <= catalogs.len(),
        first_loaded_catalog(catalogs.take(n), request) == Some(n - 1),
    ensures
        first_loaded_catalog(catalogs, request) == Some(n - 1),
    decreases catalogs.len(),
{
    if catalogs.len() > n {
        assert(catalogs.drop_last().take(n) =~= catalogs.take(n));
        lemma_first_loaded_prefix(catalogs.drop_last(), request, n);
    } else {
        assert(catalogs.take(n) =~= catalogs);
    }
}

fn copy_catalog(catalog: &Catalog) -> (r: Catalog)
    ensures
        catalog_copied(*catalog, r),
{
    let mut out: Catalog = Vec::new();
    let mut p: usize = 0;
    while p < catalog.len()
        invariant
            p <= catalog.len(),
            out@.len() == p,
            forall|q: int|
                0 <= q < p ==> (#[trigger] out@[q]).request@ == catalog@[q].request@ && content_cloned(
                    catalog@[q].content,
                    out@[q].content,
                ),
        decreases catalog.len() - p,
    {
        out.push(clone_resource(&catalog[p]));
        p = p + 1;
    }
    out
}

/// An error of a resource as plain values: its kind and its message.
pub open spec fn resource_error_view(error: ResourceError) -> (int, Seq<char>) {
    match error {
        ResourceError::EmptyContent => (0, Seq::empty()),
        ResourceError::UnexpectedResponse(message) => (1, message@),
        ResourceError::Env(error) => (2, env_error_message(error)),
    }
}

/// The content of a page as plain values.
pub type PageContentView = Option<Loadable<Seq<PreviewView>, (int, Seq<char>)>>;

pub open spec fn previews_view(previews: Seq<MetaItemPreview>) -> Seq<PreviewView> {
    previews.map_values(|p: MetaItemPreview| preview_view(p))
}

pub open spec fn page_content_view(content: Option<Loadable<Vec<MetaItemPreview>, ResourceError>>) -> PageContentView {
    match content {
        None => None,
        Some(Loadable::Loading) => Some(Loadable::Loading),
        Some(Loadable::Ready(previews)) => Some(Loadable::Ready(previews_view(previews@))),
        Some(Loadable::Error(error)) => Some(Loadable::Error(resource_error_view(error))),
    }
}

/// A page as plain values: its request and its content.
pub open spec fn page_view(page: ResourceLoadable<Vec<MetaItemPreview>>) -> (ResourceRequestView, PageContentView) {
    (page.request@, page_content_view(page.content))
}

pub open spec fn catalog_view(catalog: Catalog) -> Seq<(ResourceRequestView, PageContentView)> {
    catalog@.map_values(|page: ResourceLoadable<Vec<MetaItemPreview>>| page_view(page))
}

/// The catalogs as plain values.
pub open spec fn catalogs_view(catalogs: Seq<Catalog>) -> Seq<Seq<(ResourceRequestView, PageContentView)>> {
    catalogs.map_values(|catalog: Catalog| catalog_view(catalog))
}

fn same_resource_error(a: &ResourceError, b: &ResourceError) -> (r: bool)
    ensures
        r == (resource_error_view(*a) == resource_error_view(*b)),
{
    match (a, b) {
        (ResourceError::EmptyContent, ResourceError::EmptyContent) => true,
        (ResourceError::UnexpectedResponse(x), ResourceError::UnexpectedResponse(y)) => str_eq(
            x.as_str(),
            y.as_str(),
        ),
        (ResourceError::Env(x), ResourceError::Env(y)) => {
            let mx = x.message();
            let my = y.message();
            str_eq(mx.as_str(), my.as_str())
        },
        _ => false,
    }
}

fn same_previews(a: &Vec<MetaItemPreview>, b: &Vec<MetaItemPreview>) -> (r: bool)
    ensures
        r == (previews_view(a@) == previews_view(b@)),
{
    if a.len() != b.len() {
        proof {
            if previews_view(a@) == previews_view(b@) {
                assert(previews_view(a@).len() == a@.len());
            }
        }
        return false;
    }
    let mut i: usize = 0;
    while i < a.len()
        invariant
            i <= a.len(),
            a.len() == b.len(),
            forall|q: int| 0 <= q < i ==> preview_view(a@[q]) == #[trigger] preview_view(b@[q]),
        decreases a.len() - i,
    {
        if !same_preview(&a[i], &b[i]) {
            proof {
                assert(previews_view(a@)[i as int] != previews_view(b@)[i as int]);
            }
            return false;
        }
        i = i + 1;
    }
    assert(previews_view(a@) =~= previews_view(b@));
    true
}

fn same_page(a: &ResourceLoadable<Vec<MetaItemPreview>>, b: &ResourceLoadable<Vec<MetaItemPreview>>) -> (r: bool)
    ensures
        r == (page_view(*a) == page_view(*b)),
{
    if !a.request.same_as(&b.request) {
        return false;
    }
    match (&a.content, &b.content) {
        (None, None) => true,
        (Some(Loadable::Loading), Some(Loadable::Loading)) => true,
        (Some(Loadable::Ready(x)), Some(Loadable::Ready(y))) => same_previews(x, y),
        (Some(Loadable::Error(x)), Some(Loadable::Error(y))) => same_resource_error(x, y),
        _ => false,
    }
}

fn same_catalog(a: &Catalog, b: &Catalog) -> (r: bool)
    ensures
        r == (catalog_view(*a) == catalog_view(*b)),
{
    if a.len() != b.len() {
        proof {
            if catalog_view(*a) == catalog_view(*b) {
                assert(catalog_view(*a).len() == a@.len());
            }
        }
        return false;
    }
    let mut i: usize = 0;
    while i < a.len()
        invariant
            i <= a.len(),
            a.len() == b.len(),
            forall|q: int| 0 <= q < i ==> page_view(a@[q]) == #[trigger] page_view(b@[q]),
        decreases a.len() - i,
    {
        if !same_page(&a[i], &b[i]) {
            proof {
                assert(catalog_view(*a)[i as int] != catalog_view(*b)[i as int]);
            }
            return false;
        }
        i = i + 1;
    }
    assert(catalog_view(*a) =~= catalog_view(*b));
    true
}

fn same_catalogs(a: &Vec<Catalog>, b: &Vec<Catalog>) -> (r: bool)
    ensures
        r == (catalogs_view(a@) == catalogs_view(b@)),
{
    if a.len() != b.len() {
        proof {
            if catalogs_view(a@) == catalogs_view(b@) {
                assert(catalogs_view(a@).len() == a@.len());
            }
        }
        return false;
    }
    let mut i: usize = 0;
    while i < a.len()
        invariant
            i <= a.len(),
            a.len() == b.len(),
            forall|q: int| 0 <= q < i ==> catalog_view(a@[q]) == #[trigger] catalog_view(b@[q]),
        decreases a.len() - i,
    {
        if !same_catalog(&a[i], &b[i]) {
            proof {
                assert(catalogs_view(a@)[i as int] != catalogs_view(b@)[i as int]);
            }
            return false;
        }
        i = i + 1;
    }
    assert(catalogs_view(a@) =~= catalogs_view(b@));
    true
}

/// The reducer of the catalogs for the planned requests: the catalogs are
/// those that [`planned_catalogs`] gives, and the pages newly loading are
/// fetched (none without a selection).
pub fn catalogs_update(
    catalogs: &mut Vec<Catalog>,
    selected: &Option<Selected>,
    range: Option<(usize, usize)>,
    planned: &[ResourceRequest],
) -> (r: Effects<CatalogsEffect>)
    ensures
        selected is None ==> final(catalogs)@.len() == 0 && r.effect_list().len() == 0,
        selected is Some ==> {
            &&& planned_catalogs(old(catalogs)@, planned@, range, final(catalogs)@)
            &&& fetched_requests(r.effect_list()) == range_fetches(old(catalogs)@, planned@, range)
        },
        forall|i: int| 0 <= i < r.effect_list().len() ==> (#[trigger] r.effect_list()[i]) is Fetch,
        r.has_changed == (catalogs_view(old(catalogs)@) != catalogs_view(final(catalogs)@)),
{
    let mut next: Vec<Catalog> = Vec::new();
    let mut fetches: Vec<CatalogsEffect> = Vec::new();
    if selected.is_some() {
        let mut k: usize = 0;
        while k < planned.len()
            invariant
                k <= planned.len(),
                next@.len() == k,
                fetched_requests(fetches@) == range_fetches(catalogs@, planned@.take(k as int), range),
                forall|i: int| 0 <= i < fetches@.len() ==> (#[trigger] fetches@[i]) is Fetch,
                forall|q: int|
                    0 <= q < k ==> match first_loaded_catalog(catalogs@, planned@[q]@) {
                        Some(j) => catalog_copied(catalogs@[j], #[trigger] next@[q]),
                        None => {
                            &&& next@[q]@.len() == 1
                            &&& next@[q]@[0].request@ == planned@[q]@
                            &&& next@[q]@[0].content == if in_range(range, q) {
                                Some(Loadable::<Vec<MetaItemPreview>, ResourceError>::Loading)
                            } else {
                                None
                            }
                        },
                    },
            decreases planned.len() - k,
        {
            let request = &planned[k];
            assert(planned@.take(k + 1).drop_last() =~= planned@.take(k as int));
            assert(planned@.take(k + 1)[k as int] == planned@[k as int]);
            proof {
                lemma_first_loaded_bounds(catalogs@, request@);
            }
            let ghost before = fetches@;
            match find_loaded(catalogs, request) {
                Some(j) => {
                    next.push(copy_catalog(&catalogs[j]));
                    assert(fetched_requests(fetches@) =~= fetched_requests(before) + Seq::<ResourceRequestView>::empty());
                },
                None => {
                    let loading = match range {
                        Some((start, end)) => start <= k && k <= end,
                        None => false,
                    };
                    if loading {
                        next.push(vec![ResourceLoadable { request: request.duplicate(), content: Some(Loadable::Loading) }]);
                        fetches.push(CatalogsEffect::Fetch(request.duplicate()));
                        assert(fetches@.drop_last() =~= before);
                        assert(fetched_requests(fetches@) =~= fetched_requests(before) + seq![request@]);
                    } else {
                        next.push(vec![ResourceLoadable { request: request.duplicate(), content: None }]);
                        assert(fetched_requests(fetches@) =~= fetched_requests(before) + Seq::<ResourceRequestView>::empty());
                    }
                },
            }
            k = k + 1;
        }
        assert(planned@.take(planned.len() as int) =~= planned@);
    }
    let changed = !same_catalogs(catalogs, &next);
    *catalogs = next;
    let effects = Effects::many(fetches).unchanged();
    if changed {
        effects.join(Effects::none())
    } else {
        effects
    }
}

/// The requests that the effects fetch, in order.
pub open spec fn fetched_requests(effects: Seq<CatalogsEffect>) -> Seq<ResourceRequestView>
    decreases effects.len(),
{
    if effects.len() == 0 {
        Seq::empty()
    } else {
        fetched_requests(effects.drop_last()) + match effects.last() {
            CatalogsEffect::Fetch(request) => seq![request@],
            CatalogsEffect::Search(_) => Seq::empty(),
        }
    }
}

/// The first catalog whose last page holds `request`.
pub open spec fn answering_catalog(catalogs: Seq<Catalog>, request: ResourceRequestView) -> Option<int>
    decreases catalogs.len(),
{
    if catalogs.len() == 0 {
        None
    } else {
        match answering_catalog(catalogs.drop_last(), request) {
            Some(i) => Some(i),
            None => {
                let pages = catalogs.last()@;
                if pages.len() > 0 && pages.last().request@ == request {
                    Some(catalogs.len() - 1)
                } else {
                    None
                }
            },
        }
    }
}

proof fn lemma_answering_prefix(catalogs: Seq<Catalog>, request: ResourceRequestView, n: int)
    requires
        0 < n <= catalogs.len(),
        answering_catalog(catalogs.take(n), request) == Some(n - 1),
    ensures
        answering_catalog(catalogs, request) == Some(n - 1),
    decreases catalogs.len(),
{
    if catalogs.len() > n {
        assert(catalogs.drop_last().take(n) =~= catalogs.take(n));
        lemma_answering_prefix(catalogs.drop_last(), request, n);
    } else {
        assert(catalogs.take(n) =~= catalogs);
    }
}

fn find_answering(catalogs: &Vec<Catalog>, request: &ResourceRequest) -> (r: Option<usize>)
    ensures
        match r {
            Some(j) => answering_catalog(catalogs@, request@) == Some(j as int) && j < catalogs.len()
                && catalogs@[j as int]@.len() > 0,
            None => answering_catalog(catalogs@, request@) is None,
        },
{
    let mut i: usize = 0;
    while i < catalogs.len()
        invariant
            i <= catalogs.len(),
            answering_catalog(catalogs@.take(i as int), request@) is None,
        decreases catalogs.len() - i,
    {
        assert(catalogs@.take(i + 1).drop_last() =~= catalogs@.take(i as int));
        let pages = &catalogs[i];
        if pages.len() > 0 && pages[pages.len() - 1].request.same_as(request) {
            proof {
                lemma_answering_prefix(catalogs@, request@, (i + 1) as int);
            }
            return Some(i);
        }
        i = i + 1;
    }
    assert(catalogs@.take(catalogs.len() as int) =~= catalogs@);
    None
}

/// The value of the first extra property named `search`.
pub open spec fn search_query(extra: Seq<ExtraValue>) -> Option<Seq<char>>
    decreases extra.len(),
{
    if extra.len() == 0 {
        None
    } else if extra[0].name@ == "search"@ {
        Some(extra[0].value@)
    } else {
        search_query(extra.drop_first())
    }
}

fn find_search(extra: &Vec<ExtraValue>) -> (r: Option<String>)
    ensures
        match r {
            Some(q) => search_query(extra@) == Some(q@),
            None => search_query(extra@) is None,
        },
{
    let search = "search";
    proof {
        reveal_strlit("search");
    }
    let mut i: usize = 0;
    assert(extra@.skip(0) =~= extra@);
    while i < extra.len()
        invariant
            i <= extra.len(),
            search@ == "search"@,
            search_query(extra@) == search_query(extra@.skip(i as int)),
        decreases extra.len() - i,
    {
        assert(extra@.skip(i as int)[0] == extra@[i as int]);
        assert(extra@.skip(i as int).drop_first() =~= extra@.skip(i + 1));
        if str_eq(extra[i].name.as_str(), search) {
            return Some(extra[i].value.clone());
        }
        i = i + 1;
    }
    None
}

impl CatalogsWithExtra {
    /// The reducer of the view.
    ///
    /// A selection (without paging) sets the catalogs of the requests it
    /// plans, none loading yet, and records the search among its extra
    /// properties. Leaving forgets both. A range loads the catalogs at its
    /// indexes. An answer goes to the last page of the first catalog that
    /// holds its request, while that page is loading. A change of the
    /// addons sets the catalogs of the new plan; a change of the library
    /// is reported as a change.
    pub fn update(&mut self, msg: CatalogsWithExtraMsg) -> (r: Effects<CatalogsEffect>)
        ensures
            match msg {
                CatalogsWithExtraMsg::Load(next, planned) => {
                    &&& selected_view(final(self).selected) == Some(spec_selected(next))
                    &&& planned_catalogs(old(self).catalogs@, planned@, None, final(self).catalogs@)
                    &&& search_query(final(self).selected->0.extra@) is None ==> r.effect_list().len() == 0
                    &&& (search_query(final(self).selected->0.extra@) matches Some(q) ==> r.effect_list().len()
                        == 1 && (r.effect_list()[0] matches CatalogsEffect::Search(text) && text@ == q))
                    &&& r.has_changed == (selected_view(old(self).selected) != selected_view(final(self).selected)
                        || catalogs_view(old(self).catalogs@) != catalogs_view(final(self).catalogs@))
                },
                CatalogsWithExtraMsg::Unload => {
                    &&& final(self).selected is None
                    &&& final(self).catalogs@.len() == 0
                    &&& r.effect_list().len() == 0
                    &&& r.has_changed == (old(self).selected is Some || old(self).catalogs@.len() != 0)
                },
                CatalogsWithExtraMsg::LoadRange(start, end, planned) => {
                    &&& selected_view(final(self).selected) == selected_view(old(self).selected)
                    &&& old(self).selected is None ==> final(self).catalogs@.len() == 0 && r.effect_list().len() == 0
                    &&& old(self).selected is Some ==> {
                        &&& planned_catalogs(old(self).catalogs@, planned@, Some((start, end)), final(self).catalogs@)
                        &&& fetched_requests(r.effect_list()) == range_fetches(old(self).catalogs@, planned@, Some((start, end)))
                    }
                    &&& r.has_changed == (catalogs_view(old(self).catalogs@) != catalogs_view(final(self).catalogs@))
                },
                CatalogsWithExtraMsg::ResourceRequestResult(request, result) => {
                    &&& selected_view(final(self).selected) == selected_view(old(self).selected)
                    &&& r.effect_list().len() == 0
                    &&& match answering_catalog(old(self).catalogs@, request@) {
                        Some(i) => {
                            let page = old(self).catalogs@[i]@.last();
                            if accepts_result(page, request@) {
                                &&& final(self).catalogs@.len() == old(self).catalogs@.len()
                                &&& forall|j: int| 0 <= j < old(self).catalogs@.len() && j != i ==>
                                    #[trigger] final(self).catalogs@[j] == old(self).catalogs@[j]
                                &&& final(self).catalogs@[i]@.drop_last() == old(self).catalogs@[i]@.drop_last()
                                &&& final(self).catalogs@[i]@.len() == old(self).catalogs@[i]@.len()
                                &&& final(self).catalogs@[i]@.last().request == page.request
                                &&& final(self).catalogs@[i]@.last().content == Some(vector_content_of_result(result))
                                &&& r.has_changed
                            } else {
                                final(self).catalogs@ == old(self).catalogs@ && !r.has_changed
                            }
                        },
                        None => final(self).catalogs@ == old(self).catalogs@ && !r.has_changed,
                    }
                },
                CatalogsWithExtraMsg::ProfileChanged(planned) => {
                    &&& selected_view(final(self).selected) == selected_view(old(self).selected)
                    &&& old(self).selected is None ==> final(self).catalogs@.len() == 0
                    &&& old(self).selected is Some ==> planned_catalogs(old(self).catalogs@, planned@, None, final(self).catalogs@)
                    &&& r.effect_list().len() == 0
                    &&& r.has_changed == (catalogs_view(old(self).catalogs@) != catalogs_view(final(self).catalogs@))
                },
                CatalogsWithExtraMsg::LibraryChanged => {
                    &&& final(self).catalogs@ == old(self).catalogs@
                    &&& selected_view(final(self).selected) == selected_view(old(self).selected)
                    &&& r.effect_list().len() == 0
                    &&& r.has_changed
                },
            },
    {
        match msg {
            CatalogsWithExtraMsg::Load(next, planned) => {
                let selected_effects = selected_update::<CatalogsEffect>(&mut self.selected, &next);
                let catalogs_effects = catalogs_update(&mut self.catalogs, &self.selected, None, planned);
                let search_effects = match &self.selected {
                    Some(s) => match find_search(&s.extra) {
                        Some(query) => Effects::one(CatalogsEffect::Search(query)).unchanged(),
                        None => Effects::none().unchanged(),
                    },
                    None => Effects::none().unchanged(),
                };
                proof {
                    assert(range_fetches(old(self).catalogs@, planned@, None) =~= Seq::<ResourceRequestView>::empty()) by {
                        lemma_no_range_no_fetches(old(self).catalogs@, planned@);
                    }
                    lemma_no_fetch_effects(catalogs_effects.effect_list());
                }
                selected_effects.join(catalogs_effects).join(search_effects)
            },
            CatalogsWithExtraMsg::Unload => {
                let changed = self.selected.is_some() || self.catalogs.len() != 0;
                self.selected = None;
                self.catalogs = Vec::new();
                if changed {
                    Effects::none()
                } else {
                    Effects::none().unchanged()
                }
            },
            CatalogsWithExtraMsg::LoadRange(start, end, planned) => catalogs_update(
                &mut self.catalogs,
                &self.selected,
                Some((start, end)),
                planned,
            ),
            CatalogsWithExtraMsg::ResourceRequestResult(request, result) => {
                match find_answering(&self.catalogs, request) {
                    Some(i) => {
                        let accepted = {
                            let catalog = &self.catalogs[i];
                            let page = &catalog[catalog.len() - 1];
                            page.request.same_as(request) && matches!(page.content, Some(Loadable::Loading))
                        };
                        if !accepted {
                            return Effects::none().unchanged();
                        }
                        let ghost before = self.catalogs@;
                        let mut catalog = self.catalogs.remove(i);
                        let last = catalog.len() - 1;
                        let mut page = catalog.remove(last);
                        let _answered = resource_update_with_vector_content(
                            &mut page,
                            ResourceAction::ResourceRequestResult { request, result },
                        );
                        catalog.push(page);
                        self.catalogs.insert(i, catalog);
                        assert forall|j: int| 0 <= j < before.len() && j != i implies
                            #[trigger] self.catalogs@[j] == before[j] by {
                        }
                        assert(self.catalogs@[i as int]@.drop_last() =~= before[i as int]@.drop_last());
                        Effects::none()
                    },
                    None => Effects::none().unchanged(),
                }
            },
            CatalogsWithExtraMsg::ProfileChanged(planned) => {
                let effects = catalogs_update(&mut self.catalogs, &self.selected, None, planned);
                proof {
                    assert(range_fetches(old(self).catalogs@, planned@, None) =~= Seq::<ResourceRequestView>::empty()) by {
                        lemma_no_range_no_fetches(old(self).catalogs@, planned@);
                    }
                    lemma_no_fetch_effects(effects.effect_list());
                }
                effects
            },
            CatalogsWithExtraMsg::LibraryChanged => Effects::none(),
        }
    }
}

proof fn lemma_no_range_no_fetches(catalogs: Seq<Catalog>, planned: Seq<ResourceRequest>)
    ensures
        range_fetches(catalogs, planned, None) == Seq::<ResourceRequestView>::empty(),
    decreases planned.len(),
{
    if planned.len() > 0 {
        lemma_no_range_no_fetches(catalogs, planned.drop_last());
        assert(range_fetches(catalogs, planned, None) =~= Seq::<ResourceRequestView>::empty());
    }
}

/// Effects that all fetch are as many as the requests they fetch.
proof fn lemma_no_fetch_effects(effects: Seq<CatalogsEffect>)
    requires
        forall|i: int| 0 <= i < effects.len() ==> (#[trigger] effects[i]) is Fetch,
    ensures
        fetched_requests(effects).len() == effects.len(),
    decreases effects.len(),
{
    if effects.len() > 0 {
        lemma_no_fetch_effects(effects.drop_last());
    }
}

} // verus!
