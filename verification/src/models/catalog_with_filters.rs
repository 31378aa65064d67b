//! A catalog of an addon with its filters: which catalog, type and extra
//! properties are selected, and the pages loaded so far.

use vstd::prelude::*;

use crate::models::common::resource_loadable::{
    accepts_result, requests_of, resource_update_with_vector_content, takes_request, vector_content_of_result,
    ResourceAction, ResourceError, ResourceLoadable,
};
use crate::runtime::EnvError;
use crate::models::common::Loadable;
use crate::constants::{spec_type_priorities, type_priorities, priorities_view};
use crate::models::common::compare_with_priorities::{compare_with_priorities, spec_compare_with_priorities};
use crate::runtime::Effects;
use crate::text::{decimal, decimal_string};
use crate::text::str_eq;
use crate::types::addon::{
    extra_prop_view, extra_props_view, extra_view, optional_text, Descriptor, ExtraProp, ExtraPropView,
    ExtraValue, Manifest, ManifestCatalog, ResourcePath, ResourceRequest, ResourceRequestView,
};
use crate::types::resource::{DescriptorPreview, MetaItemPreview};

verus! {

/// Which choice a catalog view falls back to when nothing is selected.
#[derive(Clone, Copy, PartialEq, Eq, Debug, Structural)]
pub enum SelectablePriority {
    Type,
    Catalog,
}

/// What a kind of catalog item tells the catalog view: the resource its
/// catalogs are requested as, and which choice comes first.
pub trait CatalogResourceAdapter {
    spec fn spec_resource() -> Seq<char>;

    spec fn spec_selectable_priority() -> SelectablePriority;

    fn resource() -> (r: &'static str)
        ensures
            r@ == Self::spec_resource(),
    ;

    fn selectable_priority() -> (r: SelectablePriority)
        ensures
            r == Self::spec_selectable_priority(),
    ;

    spec fn spec_catalogs(manifest: Manifest) -> Seq<ManifestCatalog>;

    fn catalogs(manifest: &Manifest) -> (r: &Vec<ManifestCatalog>)
        ensures
            r@ == Self::spec_catalogs(*manifest),
    ;
}

impl CatalogResourceAdapter for MetaItemPreview {
    open spec fn spec_resource() -> Seq<char> {
        "catalog"@
    }

    open spec fn spec_selectable_priority() -> SelectablePriority {
        SelectablePriority::Type
    }

    fn resource() -> (r: &'static str) {
        let r = "catalog";
        proof {
            reveal_strlit("catalog");
        }
        r
    }

    fn selectable_priority() -> (r: SelectablePriority) {
        SelectablePriority::Type
    }

    open spec fn spec_catalogs(manifest: Manifest) -> Seq<ManifestCatalog> {
        manifest.catalogs@
    }

    fn catalogs(manifest: &Manifest) -> (r: &Vec<ManifestCatalog>) {
        &manifest.catalogs
    }
}

impl CatalogResourceAdapter for DescriptorPreview {
    open spec fn spec_resource() -> Seq<char> {
        "addon_catalog"@
    }

    open spec fn spec_selectable_priority() -> SelectablePriority {
        SelectablePriority::Catalog
    }

    fn resource() -> (r: &'static str) {
        let r = "addon_catalog";
        proof {
            reveal_strlit("addon_catalog");
        }
        r
    }

    fn selectable_priority() -> (r: SelectablePriority) {
        SelectablePriority::Catalog
    }

    open spec fn spec_catalogs(manifest: Manifest) -> Seq<ManifestCatalog> {
        manifest.addon_catalogs@
    }

    fn catalogs(manifest: &Manifest) -> (r: &Vec<ManifestCatalog>) {
        &manifest.addon_catalogs
    }
}

impl CatalogResourceAdapter for Descriptor {
    open spec fn spec_resource() -> Seq<char> {
        "addon_catalog"@
    }

    open spec fn spec_selectable_priority() -> SelectablePriority {
        SelectablePriority::Catalog
    }

    fn resource() -> (r: &'static str) {
        let r = "addon_catalog";
        proof {
            reveal_strlit("addon_catalog");
        }
        r
    }

    fn selectable_priority() -> (r: SelectablePriority) {
        SelectablePriority::Catalog
    }

    open spec fn spec_catalogs(manifest: Manifest) -> Seq<ManifestCatalog> {
        manifest.addon_catalogs@
    }

    fn catalogs(manifest: &Manifest) -> (r: &Vec<ManifestCatalog>) {
        &manifest.addon_catalogs
    }
}

/// The selected request.
pub struct Selected {
    pub request: ResourceRequest,
}

/// A catalog that can be selected, with the request that selects it.
pub struct SelectableCatalog {
    pub catalog: String,
    pub selected: bool,
    pub request: ResourceRequest,
}

/// A content type that can be selected, with the request that selects it.
pub struct SelectableType {
    pub content_type: String,
    pub selected: bool,
    pub request: ResourceRequest,
}

/// A value of an extra property (none for leaving it out), with the request
/// that selects it.
pub struct SelectableExtraOption {
    pub value: Option<String>,
    pub selected: bool,
    pub request: ResourceRequest,
}

/// An extra property and its options.
pub struct SelectableExtra {
    pub name: String,
    pub is_required: bool,
    pub options: Vec<SelectableExtraOption>,
}

/// The request of the next page.
pub struct SelectablePage {
    pub request: ResourceRequest,
}

/// The choices of a catalog view.
pub struct Selectable {
    pub types: Vec<SelectableType>,
    pub catalogs: Vec<SelectableCatalog>,
    pub extra: Vec<SelectableExtra>,
    pub next_page: Option<SelectablePage>,
}

/// Whether a catalog is loaded anew or extended by a page.
#[derive(Clone, Copy, PartialEq, Eq, Debug, Structural)]
pub enum CatalogPageRequest {
    First,
    Next,
}

/// The extra property that pages a catalog.
pub open spec fn skip_name() -> Seq<char> {
    "skip"@
}

/// The extra values without those named `name`.
pub open spec fn without_extra(extra: Seq<(Seq<char>, Seq<char>)>, name: Seq<char>) -> Seq<
    (Seq<char>, Seq<char>),
>
    decreases extra.len(),
{
    if extra.len() == 0 {
        Seq::empty()
    } else {
        let rest = without_extra(extra.drop_last(), name);
        if extra.last().0 == name {
            rest
        } else {
            rest.push(extra.last())
        }
    }
}

pub(crate) fn remove_extra(extra: &Vec<ExtraValue>, name: &str) -> (r: Vec<ExtraValue>)
    ensures
        extra_view(r@) == without_extra(extra_view(extra@), name@),
{
    let mut out: Vec<ExtraValue> = Vec::new();
    let mut i: usize = 0;
    while i < extra.len()
        invariant
            i <= extra.len(),
            extra_view(out@) == without_extra(extra_view(extra@.take(i as int)), name@),
        decreases extra.len() - i,
    {
        assert(extra_view(extra@.take(i + 1)).drop_last() =~= extra_view(extra@.take(i as int)));
        let e = &extra[i];
        if !str_eq(e.name.as_str(), name) {
            out.push(ExtraValue { name: e.name.clone(), value: e.value.clone() });
            assert(extra_view(out@) =~= without_extra(extra_view(extra@.take(i + 1)), name@));
        }
        i = i + 1;
    }
    assert(extra@.take(extra.len() as int) =~= extra@);
    out
}

/// The values of the extra property `name`, in order.
pub open spec fn named_extra(extra: Seq<(Seq<char>, Seq<char>)>, name: Seq<char>) -> Seq<(Seq<char>, Seq<char>)>
    decreases extra.len(),
{
    if extra.len() == 0 {
        Seq::empty()
    } else {
        let rest = named_extra(extra.drop_last(), name);
        if extra.last().0 == name {
            rest.push(extra.last())
        } else {
            rest
        }
    }
}

/// The extra values without those whose value is `value`.
pub open spec fn without_value(extra: Seq<(Seq<char>, Seq<char>)>, value: Seq<char>) -> Seq<(Seq<char>, Seq<char>)>
    decreases extra.len(),
{
    if extra.len() == 0 {
        Seq::empty()
    } else {
        let rest = without_value(extra.drop_last(), value);
        if extra.last().1 == value {
            rest
        } else {
            rest.push(extra.last())
        }
    }
}

/// The values of extra values.
pub open spec fn values_of(extra: Seq<(Seq<char>, Seq<char>)>) -> Seq<Seq<char>> {
    extra.map_values(|e: (Seq<char>, Seq<char>)| e.1)
}

/// The values of `prop` after choosing `value` (none for leaving the
/// property out), given its current values `mine`. A property that takes
/// one value takes the chosen one. One that takes several drops a chosen
/// value it already has, and otherwise puts it first, keeping at most its
/// limit. A property that takes none keeps its values. Leaving a property
/// out drops its values unless it is required.
pub open spec fn chosen_values(
    mine: Seq<(Seq<char>, Seq<char>)>,
    prop: ExtraPropView,
    value: Option<Seq<char>>,
) -> Seq<(Seq<char>, Seq<char>)> {
    match value {
        Some(v) => if prop.3 == 1 {
            seq![(prop.0, v)]
        } else if prop.3 > 1 {
            if values_of(mine).contains(v) {
                without_value(mine, v)
            } else {
                let longer = seq![(prop.0, v)] + mine;
                longer.take(
                    if (prop.3 as int) < longer.len() {
                        prop.3 as int
                    } else {
                        longer.len() as int
                    },
                )
            }
        } else {
            mine
        },
        None => if !prop.1 {
            Seq::empty()
        } else {
            mine
        },
    }
}

/// The extra values after choosing `value` for `prop`: the values of the
/// property first, then the other properties' values in their order.
pub open spec fn spec_extend_one(
    extra: Seq<(Seq<char>, Seq<char>)>,
    prop: ExtraPropView,
    value: Option<Seq<char>>,
) -> Seq<(Seq<char>, Seq<char>)> {
    chosen_values(named_extra(extra, prop.0), prop, value) + without_extra(extra, prop.0)
}

fn copy_extra_value(e: &ExtraValue) -> (r: ExtraValue)
    ensures
        (r.name@, r.value@) == (e.name@, e.value@),
{
    ExtraValue { name: e.name.clone(), value: e.value.clone() }
}

fn keep_named(extra: &Vec<ExtraValue>, name: &str) -> (r: Vec<ExtraValue>)
    ensures
        extra_view(r@) == named_extra(extra_view(extra@), name@),
{
    let mut out: Vec<ExtraValue> = Vec::new();
    let mut i: usize = 0;
    while i < extra.len()
        invariant
            i <= extra.len(),
            extra_view(out@) == named_extra(extra_view(extra@.take(i as int)), name@),
        decreases extra.len() - i,
    {
        assert(extra_view(extra@.take(i + 1)).drop_last() =~= extra_view(extra@.take(i as int)));
        let ghost before = extra_view(out@);
        if str_eq(extra[i].name.as_str(), name) {
            out.push(copy_extra_value(&extra[i]));
            assert(extra_view(out@) =~= before.push((extra@[i as int].name@, extra@[i as int].value@)));
        }
        assert(extra_view(out@) =~= named_extra(extra_view(extra@.take(i + 1)), name@));
        i = i + 1;
    }
    assert(extra@.take(extra.len() as int) =~= extra@);
    out
}

fn drop_value(extra: &Vec<ExtraValue>, value: &String) -> (r: Vec<ExtraValue>)
    ensures
        extra_view(r@) == without_value(extra_view(extra@), value@),
{
    let mut out: Vec<ExtraValue> = Vec::new();
    let mut i: usize = 0;
    while i < extra.len()
        invariant
            i <= extra.len(),
            extra_view(out@) == without_value(extra_view(extra@.take(i as int)), value@),
        decreases extra.len() - i,
    {
        assert(extra_view(extra@.take(i + 1)).drop_last() =~= extra_view(extra@.take(i as int)));
        let ghost before = extra_view(out@);
        if !str_eq(extra[i].value.as_str(), value.as_str()) {
            out.push(copy_extra_value(&extra[i]));
            assert(extra_view(out@) =~= before.push((extra@[i as int].name@, extra@[i as int].value@)));
        }
        assert(extra_view(out@) =~= without_value(extra_view(extra@.take(i + 1)), value@));
        i = i + 1;
    }
    assert(extra@.take(extra.len() as int) =~= extra@);
    out
}

fn holds_value(extra: &Vec<ExtraValue>, value: &String) -> (r: bool)
    ensures
        r == values_of(extra_view(extra@)).contains(value@),
{
    let ghost vs = values_of(extra_view(extra@));
    let mut i: usize = 0;
    while i < extra.len()
        invariant
            i <= extra.len(),
            vs == values_of(extra_view(extra@)),
            forall|j: int| 0 <= j < i ==> vs[j] != value@,
        decreases extra.len() - i,
    {
        if str_eq(extra[i].value.as_str(), value.as_str()) {
            assert(vs[i as int] == value@);
            return true;
        }
        i = i + 1;
    }
    false
}

/// Appends copies of `more` to `out`.
fn push_all(out: &mut Vec<ExtraValue>, more: &Vec<ExtraValue>)
    ensures
        extra_view(final(out)@) == extra_view(old(out)@) + extra_view(more@),
{
    let ghost start = extra_view(out@);
    let mut i: usize = 0;
    while i < more.len()
        invariant
            i <= more.len(),
            extra_view(out@) == start + extra_view(more@.take(i as int)),
        decreases more.len() - i,
    {
        let ghost before = extra_view(out@);
        out.push(copy_extra_value(&more[i]));
        assert(extra_view(out@) =~= before.push((more@[i as int].name@, more@[i as int].value@)));
        assert(extra_view(more@.take(i + 1)) =~= extra_view(more@.take(i as int)).push(
            (more@[i as int].name@, more@[i as int].value@),
        ));
        i = i + 1;
    }
    assert(more@.take(more.len() as int) =~= more@);
}

/// The extra values after choosing `value` for `prop`, as
/// [`spec_extend_one`] gives them.
pub fn extend_one(extra: &Vec<ExtraValue>, prop: &ExtraProp, value: Option<String>) -> (r: Vec<ExtraValue>)
    ensures
        extra_view(r@) == spec_extend_one(extra_view(extra@), extra_prop_view(*prop), optional_text(value)),
{
    let mine = keep_named(extra, prop.name.as_str());
    let others = remove_extra(extra, prop.name.as_str());
    let ghost p = extra_prop_view(*prop);
    let mut chosen: Vec<ExtraValue> = Vec::new();
    match value {
        Some(v) => {
            if prop.options_limit == 1 {
                chosen.push(ExtraValue { name: prop.name.clone(), value: v });
                assert(extra_view(chosen@) =~= chosen_values(extra_view(mine@), p, optional_text(value)));
            } else if prop.options_limit > 1 {
                if holds_value(&mine, &v) {
                    chosen = drop_value(&mine, &v);
                } else {
                    let ghost longer = seq![(prop.name@, v@)] + extra_view(mine@);
                    let ghost n: int = if (prop.options_limit as int) < longer.len() {
                        prop.options_limit as int
                    } else {
                        longer.len() as int
                    };
                    chosen.push(ExtraValue { name: prop.name.clone(), value: v });
                    let mut i: usize = 0;
                    while i < mine.len() && chosen.len() < prop.options_limit
                        invariant
                            i <= mine.len(),
                            chosen@.len() == i + 1,
                            longer == seq![(prop.name@, v@)] + extra_view(mine@),
                            n == (if (prop.options_limit as int) < longer.len() {
                                prop.options_limit as int
                            } else {
                                longer.len() as int
                            }),
                            i + 1 <= n,
                            extra_view(chosen@) == longer.take(i + 1),
                        decreases mine.len() - i,
                    {
                        let ghost before = extra_view(chosen@);
                        chosen.push(copy_extra_value(&mine[i]));
                        assert(extra_view(chosen@) =~= longer.take(i + 2));
                        i = i + 1;
                    }
                    assert(extra_view(chosen@) =~= longer.take(n));
                }
            } else {
                chosen = mine;
            }
        },
        None => {
            if prop.is_required {
                chosen = mine;
            } else {
                assert(extra_view(chosen@) =~= Seq::<(Seq<char>, Seq<char>)>::empty());
            }
        },
    }
    push_all(&mut chosen, &others);
    chosen
}

/// The default values of a catalog's required extra properties: the first
/// option of each, in order; none where a required property offers no
/// option.
pub open spec fn spec_default_required_extra(props: Seq<ExtraPropView>) -> Option<Seq<(Seq<char>, Seq<char>)>>
    decreases props.len(),
{
    if props.len() == 0 {
        Some(Seq::empty())
    } else {
        match spec_default_required_extra(props.drop_last()) {
            Some(earlier) => {
                let p = props.last();
                if !p.1 {
                    Some(earlier)
                } else if p.2.len() > 0 {
                    Some(earlier.push((p.0, p.2[0])))
                } else {
                    None
                }
            },
            None => None,
        }
    }
}

/// The default values of the required extra properties, as
/// [`spec_default_required_extra`] gives them.
pub fn default_required_extra(props: &Vec<ExtraProp>) -> (r: Option<Vec<ExtraValue>>)
    ensures
        match r {
            Some(extra) => spec_default_required_extra(extra_props_view(props@)) == Some(extra_view(extra@)),
            None => spec_default_required_extra(extra_props_view(props@)) is None,
        },
{
    let mut out: Vec<ExtraValue> = Vec::new();
    let mut i: usize = 0;
    while i < props.len()
        invariant
            i <= props.len(),
            spec_default_required_extra(extra_props_view(props@.take(i as int))) == Some(extra_view(out@)),
        decreases props.len() - i,
    {
        assert(extra_props_view(props@.take(i + 1)).drop_last() =~= extra_props_view(props@.take(i as int)));
        assert(extra_props_view(props@.take(i + 1)).last() == extra_prop_view(props@[i as int]));
        let p = &props[i];
        if p.is_required {
            if p.options.len() == 0 {
                proof {
                    lemma_default_stays_none(extra_props_view(props@), i + 1);
                }
                assert(extra_props_view(props@.take(i + 1)) =~= extra_props_view(props@).take(i + 1));
                return None;
            }
            let ghost before = extra_view(out@);
            out.push(ExtraValue { name: p.name.clone(), value: p.options[0].clone() });
            assert(extra_view(out@) =~= before.push((p.name@, p.options@[0]@)));
        }
        i = i + 1;
    }
    assert(props@.take(props.len() as int) =~= props@);
    Some(out)
}

proof fn lemma_default_stays_none(props: Seq<ExtraPropView>, k: int)
    requires
        0 <= k <= props.len(),
        spec_default_required_extra(props.take(k)) is None,
    ensures
        spec_default_required_extra(props) is None,
    decreases props.len() - k,
{
    if k < props.len() {
        assert(props.take(k + 1).drop_last() =~= props.take(k));
        lemma_default_stays_none(props, k + 1);
    } else {
        assert(props.take(k) =~= props);
    }
}

pub open spec fn selected_view(selected: Option<Selected>) -> Option<ResourceRequestView> {
    match selected {
        Some(s) => Some(s.request@),
        None => None,
    }
}

/// The selection after a request: the requested one without paging, or,
/// without a request, the first type or the first catalog offered (as the
/// kind of item prefers).
pub open spec fn spec_selected<T: CatalogResourceAdapter>(
    selectable: Selectable,
    next_selected: Option<Selected>,
) -> Option<ResourceRequestView> {
    match next_selected {
        Some(s) => Some(
            ResourceRequestView { extra: without_extra(s.request@.extra, skip_name()), ..s.request@ },
        ),
        None => match T::spec_selectable_priority() {
            SelectablePriority::Type => if selectable.types@.len() > 0 {
                Some(selectable.types@[0].request@)
            } else {
                None
            },
            SelectablePriority::Catalog => if selectable.catalogs@.len() > 0 {
                Some(selectable.catalogs@[0].request@)
            } else {
                None
            },
        },
    }
}

/// The reducer of the selection.
pub fn selected_update<T: CatalogResourceAdapter, A>(
    selected: &mut Option<Selected>,
    selectable: &Selectable,
    next_selected: &Option<Selected>,
) -> (r: Effects<A>)
    ensures
        selected_view(*final(selected)) == spec_selected::<T>(*selectable, *next_selected),
        r.effect_list().len() == 0,
        r.has_changed == (selected_view(*old(selected)) != selected_view(*final(selected))),
{
    let next: Option<Selected> = match next_selected {
        Some(s) => {
            let mut request = s.request.duplicate();
            let skip = "skip";
            proof {
                reveal_strlit("skip");
            }
            request.path.extra = remove_extra(&s.request.path.extra, skip);
            assert(request@ =~= ResourceRequestView {
                extra: without_extra(s.request@.extra, skip_name()),
                ..s.request@
            });
            Some(Selected { request })
        },
        None => match T::selectable_priority() {
            SelectablePriority::Type => if selectable.types.len() > 0 {
                Some(Selected { request: selectable.types[0].request.duplicate() })
            } else {
                None
            },
            SelectablePriority::Catalog => if selectable.catalogs.len() > 0 {
                Some(Selected { request: selectable.catalogs[0].request.duplicate() })
            } else {
                None
            },
        },
    };
    let same = match (&*selected, &next) {
        (Some(a), Some(b)) => a.request.same_as(&b.request),
        (None, None) => true,
        _ => false,
    };
    *selected = next;
    if same {
        Effects::none().unchanged()
    } else {
        Effects::none()
    }
}

/// The reducer of the loaded pages: a page for `request` starts loading and
/// is fetched; it replaces the pages for a first page, and follows them for
/// a next page.
pub fn catalog_update<T>(
    catalog: &mut Vec<ResourceLoadable<Vec<T>>>,
    page_request: CatalogPageRequest,
    request: &ResourceRequest,
) -> (r: Effects<ResourceRequest>)
    ensures
        final(catalog)@.len() == match page_request {
            CatalogPageRequest::First => 1,
            CatalogPageRequest::Next => old(catalog)@.len() + 1,
        },
        page_request is Next ==> forall|i: int|
            0 <= i < old(catalog)@.len() ==> #[trigger] final(catalog)@[i] == old(catalog)@[i],
        final(catalog)@.last().request@ == request@,
        final(catalog)@.last().content == Some(Loadable::<Vec<T>, ResourceError>::Loading),
        requests_of(r.effect_list()) == seq![request@],
        r.has_changed,
{
    let mut page = ResourceLoadable { request: request.duplicate(), content: None };
    assert(takes_request(page, request@));
    let effects = resource_update_with_vector_content(
        &mut page,
        ResourceAction::ResourceRequested { request },
    );
    match page_request {
        CatalogPageRequest::First => {
            *catalog = vec![page];
        },
        CatalogPageRequest::Next => {
            catalog.push(page);
        },
    }
    effects
}

/// A catalog offered for selection as plain values: its display name and
/// the request for its first page.
pub type CatalogEntry = (Seq<char>, ResourceRequestView);

/// The entry of catalog `c` of `addon`: the catalog's name (or its id),
/// with the request of the catalog at the addon with the default values of
/// its required extra properties; none where a required property offers no
/// value.
pub open spec fn catalog_entry<T: CatalogResourceAdapter>(addon: Descriptor, c: ManifestCatalog) -> Option<CatalogEntry> {
    match spec_default_required_extra(extra_props_view(c.extra@)) {
        Some(extra) => Some(
            (
                match c.name {
                    Some(n) => n@,
                    None => c.id@,
                },
                ResourceRequestView {
                    base: addon.transport_url@,
                    resource: T::spec_resource(),
                    content_type: c.content_type@,
                    id: c.id@,
                    extra,
                },
            ),
        ),
        None => None,
    }
}

pub open spec fn addon_entries<T: CatalogResourceAdapter>(addon: Descriptor, cs: Seq<ManifestCatalog>) -> Seq<CatalogEntry>
    decreases cs.len(),
{
    if cs.len() == 0 {
        Seq::empty()
    } else {
        addon_entries::<T>(addon, cs.drop_last()) + match catalog_entry::<T>(addon, cs.last()) {
            Some(e) => seq![e],
            None => Seq::empty(),
        }
    }
}

/// The catalogs of the addons that can be requested, addon by addon, each
/// addon's in its order.
pub open spec fn catalog_entries<T: CatalogResourceAdapter>(addons: Seq<Descriptor>) -> Seq<CatalogEntry>
    decreases addons.len(),
{
    if addons.len() == 0 {
        Seq::empty()
    } else {
        catalog_entries::<T>(addons.drop_last()) + addon_entries::<T>(
            addons.last(),
            T::spec_catalogs(addons.last().manifest),
        )
    }
}

/// Whether `r` is the selected catalog: same addon, catalog and resource.
pub open spec fn selects(selected: Option<ResourceRequestView>, r: ResourceRequestView) -> bool {
    selected matches Some(s) && s.base == r.base && s.id == r.id && s.resource == r.resource
}

/// The requests the types are taken from: all of them, or where catalogs
/// come first and one is selected, those of the selected catalog.
pub open spec fn type_requests<T: CatalogResourceAdapter>(
    selected: Option<ResourceRequestView>,
    entries: Seq<CatalogEntry>,
) -> Seq<ResourceRequestView>
    decreases entries.len(),
{
    if entries.len() == 0 {
        Seq::empty()
    } else {
        let rest = type_requests::<T>(selected, entries.drop_last());
        let r = entries.last().1;
        if T::spec_selectable_priority() is Catalog && selected is Some && !selects(selected, r) {
            rest
        } else {
            rest.push(r)
        }
    }
}

pub open spec fn types_of(rs: Seq<ResourceRequestView>) -> Seq<Seq<char>> {
    rs.map_values(|r: ResourceRequestView| r.content_type)
}

/// The first request of each type, in order.
pub open spec fn first_of_each_type(rs: Seq<ResourceRequestView>) -> Seq<ResourceRequestView>
    decreases rs.len(),
{
    if rs.len() == 0 {
        Seq::empty()
    } else {
        let rest = first_of_each_type(rs.drop_last());
        if types_of(rest).contains(rs.last().content_type) {
            rest
        } else {
            rest.push(rs.last())
        }
    }
}

/// A type offered for selection as plain values: the type, whether it is
/// selected, and its request.
pub type SelectableTypeView = (Seq<char>, bool, ResourceRequestView);

pub open spec fn type_choice(selected: Option<ResourceRequestView>, r: ResourceRequestView) -> SelectableTypeView {
    (
        r.content_type,
        selected matches Some(s) && s.content_type == r.content_type && s.resource == r.resource,
        r,
    )
}

pub open spec fn type_choices(selected: Option<ResourceRequestView>, rs: Seq<ResourceRequestView>) -> Seq<
    SelectableTypeView,
> {
    rs.map_values(|r: ResourceRequestView| type_choice(selected, r))
}

/// Where a type goes among types ranked from the lowest priority up:
/// before the first one it ranks below.
pub open spec fn type_rank_position(ranked: Seq<SelectableTypeView>, x: SelectableTypeView) -> int
    decreases ranked.len(),
{
    if ranked.len() == 0 {
        0
    } else if spec_compare_with_priorities(x.0, ranked[0].0, spec_type_priorities()) < 0 {
        0
    } else {
        1 + type_rank_position(ranked.drop_first(), x)
    }
}

/// The types ranked from the lowest priority up, types of equal rank in
/// their order.
pub open spec fn rank_types(ts: Seq<SelectableTypeView>) -> Seq<SelectableTypeView>
    decreases ts.len(),
{
    if ts.len() == 0 {
        Seq::empty()
    } else {
        let ranked = rank_types(ts.drop_last());
        ranked.insert(type_rank_position(ranked, ts.last()), ts.last())
    }
}

/// A catalog offered for selection as plain values: its name, whether it
/// is selected, and its request.
pub type SelectableCatalogView = (Seq<char>, bool, ResourceRequestView);

/// The catalogs offered where types come first: those of the selected
/// type, if any.
pub open spec fn entries_of_type(selected: Option<ResourceRequestView>, entries: Seq<CatalogEntry>) -> Seq<
    CatalogEntry,
>
    decreases entries.len(),
{
    if entries.len() == 0 {
        Seq::empty()
    } else {
        let rest = entries_of_type(selected, entries.drop_last());
        if selected matches Some(s) && s.content_type != entries.last().1.content_type {
            rest
        } else {
            rest.push(entries.last())
        }
    }
}

pub open spec fn catalog_keys(entries: Seq<CatalogEntry>) -> Seq<(Seq<char>, Seq<char>)> {
    entries.map_values(|e: CatalogEntry| (e.1.base, e.1.id))
}

/// The catalogs offered where catalogs come first: the first of each
/// catalog of an addon.
pub open spec fn first_of_each_catalog(entries: Seq<CatalogEntry>) -> Seq<CatalogEntry>
    decreases entries.len(),
{
    if entries.len() == 0 {
        Seq::empty()
    } else {
        let rest = first_of_each_catalog(entries.drop_last());
        if catalog_keys(rest).contains((entries.last().1.base, entries.last().1.id)) {
            rest
        } else {
            rest.push(entries.last())
        }
    }
}

pub open spec fn catalog_choices(selected: Option<ResourceRequestView>, entries: Seq<CatalogEntry>) -> Seq<
    SelectableCatalogView,
> {
    entries.map_values(|e: CatalogEntry| (e.0, selects(selected, e.1), e.1))
}

/// The first addon at the transport URL.
pub open spec fn addon_at(addons: Seq<Descriptor>, base: Seq<char>) -> Option<Descriptor>
    decreases addons.len(),
{
    if addons.len() == 0 {
        None
    } else if addons[0].transport_url@ == base {
        Some(addons[0])
    } else {
        addon_at(addons.drop_first(), base)
    }
}

/// The first catalog with the id and type.
pub open spec fn catalog_with(cs: Seq<ManifestCatalog>, id: Seq<char>, content_type: Seq<char>) -> Option<ManifestCatalog>
    decreases cs.len(),
{
    if cs.len() == 0 {
        None
    } else if cs[0].id@ == id && cs[0].content_type@ == content_type {
        Some(cs[0])
    } else {
        catalog_with(cs.drop_first(), id, content_type)
    }
}

/// The catalog of the selection, where it is a catalog of this kind of an
/// installed addon.
pub open spec fn selected_catalog<T: CatalogResourceAdapter>(
    selected: Option<ResourceRequestView>,
    addons: Seq<Descriptor>,
) -> Option<ManifestCatalog> {
    match selected {
        Some(s) => if s.resource == T::spec_resource() {
            match addon_at(addons, s.base) {
                Some(a) => catalog_with(T::spec_catalogs(a.manifest), s.id, s.content_type),
                None => None,
            }
        } else {
            None
        },
        None => None,
    }
}

/// The selected request moved to catalog `c` with the extra values.
pub open spec fn option_request(
    s: ResourceRequestView,
    c: ManifestCatalog,
    extra: Seq<(Seq<char>, Seq<char>)>,
) -> ResourceRequestView {
    ResourceRequestView { base: s.base, resource: s.resource, content_type: c.content_type@, id: c.id@, extra }
}

/// An option of an extra property as plain values: its value (none for
/// leaving the property out), whether it is selected, and its request.
pub type SelectableExtraOptionView = (Option<Seq<char>>, bool, ResourceRequestView);

pub open spec fn names_of(extra: Seq<(Seq<char>, Seq<char>)>) -> Seq<Seq<char>> {
    extra.map_values(|e: (Seq<char>, Seq<char>)| e.0)
}

pub open spec fn value_option(s: ResourceRequestView, c: ManifestCatalog, p: ExtraPropView, v: Seq<char>) -> SelectableExtraOptionView {
    (Some(v), s.extra.contains((p.0, v)), option_request(s, c, spec_extend_one(s.extra, p, Some(v))))
}

/// The options of an extra property: leaving it out first where it is not
/// required, then each of its values.
pub open spec fn extra_options(s: ResourceRequestView, c: ManifestCatalog, p: ExtraPropView) -> Seq<SelectableExtraOptionView> {
    (if !p.1 {
        seq![(None, !names_of(s.extra).contains(p.0), option_request(s, c, spec_extend_one(s.extra, p, None)))]
    } else {
        Seq::empty()
    }) + p.2.map_values(|v: Seq<char>| value_option(s, c, p, v))
}

/// An extra property offered for selection as plain values: its name,
/// whether it is required, and its options.
pub type SelectableExtraView = (Seq<char>, bool, Seq<SelectableExtraOptionView>);

/// The extra properties offered: those other than paging that offer
/// values, in order.
pub open spec fn extra_choices(s: ResourceRequestView, c: ManifestCatalog, props: Seq<ExtraPropView>) -> Seq<
    SelectableExtraView,
>
    decreases props.len(),
{
    if props.len() == 0 {
        Seq::empty()
    } else {
        let rest = extra_choices(s, c, props.drop_last());
        let p = props.last();
        if p.0 != skip_name() && p.2.len() > 0 {
            rest.push((p.0, p.1, extra_options(s, c, p)))
        } else {
            rest
        }
    }
}

/// The number of items loaded: the sum of the pages' sizes, where every
/// page is loaded and not empty.
pub open spec fn pages_skip<T>(pages: Seq<ResourceLoadable<Vec<T>>>) -> Option<int>
    decreases pages.len(),
{
    if pages.len() == 0 {
        Some(0)
    } else {
        match pages_skip(pages.drop_last()) {
            Some(n) => match pages.last().content {
                Some(Loadable::Ready(items)) => if items@.len() > 0 {
                    Some(n + items@.len())
                } else {
                    None
                },
                _ => None,
            },
            None => None,
        }
    }
}

/// The paging property: one value, not required.
pub open spec fn skip_prop() -> ExtraPropView {
    (skip_name(), false, Seq::empty(), 1usize)
}

pub open spec fn prop_names(props: Seq<ExtraPropView>) -> Seq<Seq<char>> {
    props.map_values(|p: ExtraPropView| p.0)
}

/// The request of the next page: where the catalog pages and every page so
/// far is loaded, the selected request skipping the items loaded.
pub open spec fn next_page_request<T>(
    s: ResourceRequestView,
    c: ManifestCatalog,
    pages: Seq<ResourceLoadable<Vec<T>>>,
) -> Option<ResourceRequestView> {
    if prop_names(extra_props_view(c.extra@)).contains(skip_name()) {
        match pages_skip(pages) {
            Some(n) => Some(option_request(s, c, spec_extend_one(s.extra, skip_prop(), Some(decimal(n as nat))))),
            None => None,
        }
    } else {
        None
    }
}

/// The choices of a catalog view as plain values: types, catalogs, extra
/// properties and the next page.
pub type SelectableView = (
    Seq<SelectableTypeView>,
    Seq<SelectableCatalogView>,
    Seq<SelectableExtraView>,
    Option<ResourceRequestView>,
);

/// The choices offered for the selection, the loaded pages and the
/// installed addons. The types are the first request of each type among
/// the catalogs (those of the selected catalog where catalogs come first),
/// highest priority first. The catalogs are those of the selected type
/// where types come first, and the first of each catalog where catalogs
/// come first. For a selected catalog of an installed addon, the extra
/// properties with their options and the next page.
pub open spec fn spec_catalog_selectable<T: CatalogResourceAdapter>(
    selected: Option<Selected>,
    catalog: Seq<ResourceLoadable<Vec<T>>>,
    addons: Seq<Descriptor>,
) -> SelectableView {
    let sel = selected_view(selected);
    let entries = catalog_entries::<T>(addons);
    let types = rank_types(type_choices(sel, first_of_each_type(type_requests::<T>(sel, entries)))).reverse();
    let catalogs = catalog_choices(
        sel,
        match T::spec_selectable_priority() {
            SelectablePriority::Type => entries_of_type(sel, entries),
            SelectablePriority::Catalog => first_of_each_catalog(entries),
        },
    );
    match (sel, selected_catalog::<T>(sel, addons)) {
        (Some(s), Some(c)) => (
            types,
            catalogs,
            extra_choices(s, c, extra_props_view(c.extra@)),
            next_page_request(s, c, catalog),
        ),
        _ => (types, catalogs, Seq::empty(), None),
    }
}

pub open spec fn entries_view(es: Seq<(String, ResourceRequest)>) -> Seq<CatalogEntry> {
    es.map_values(|e: (String, ResourceRequest)| (e.0@, e.1@))
}

fn push_addon_entries<T: CatalogResourceAdapter>(out: &mut Vec<(String, ResourceRequest)>, addon: &Descriptor)
    ensures
        entries_view(final(out)@) == entries_view(old(out)@) + addon_entries::<T>(
            *addon,
            T::spec_catalogs(addon.manifest),
        ),
{
    let cs = T::catalogs(&addon.manifest);
    let ghost start = entries_view(out@);
    let mut j: usize = 0;
    while j < cs.len()
        invariant
            j <= cs.len(),
            cs@ == T::spec_catalogs(addon.manifest),
            entries_view(out@) == start + addon_entries::<T>(*addon, cs@.take(j as int)),
        decreases cs.len() - j,
    {
        assert(cs@.take(j + 1).drop_last() =~= cs@.take(j as int));
        assert(cs@.take(j + 1).last() == cs@[j as int]);
        let c = &cs[j];
        let ghost before = entries_view(out@);
        match default_required_extra(&c.extra) {
            Some(extra) => {
                let name = match &c.name {
                    Some(n) => n.clone(),
                    None => c.id.clone(),
                };
                let request = ResourceRequest {
                    base: addon.transport_url.clone(),
                    path: ResourcePath {
                        resource: T::resource().to_string(),
                        content_type: c.content_type.clone(),
                        id: c.id.clone(),
                        extra,
                    },
                };
                out.push((name, request));
                assert(entries_view(out@) =~= before + seq![(name@, request@)]);
            },
            None => {},
        }
        assert(entries_view(out@) =~= start + addon_entries::<T>(*addon, cs@.take(j + 1)));
        j = j + 1;
    }
    assert(cs@.take(cs.len() as int) =~= cs@);
}

/// The catalogs of the addons that can be requested, as
/// [`catalog_entries`] gives them.
fn collect_entries<T: CatalogResourceAdapter>(addons: &[Descriptor]) -> (r: Vec<(String, ResourceRequest)>)
    ensures
        entries_view(r@) == catalog_entries::<T>(addons@),
{
    let mut out: Vec<(String, ResourceRequest)> = Vec::new();
    let mut i: usize = 0;
    assert(entries_view(out@) =~= catalog_entries::<T>(addons@.take(0)));
    while i < addons.len()
        invariant
            i <= addons.len(),
            entries_view(out@) == catalog_entries::<T>(addons@.take(i as int)),
        decreases addons.len() - i,
    {
        assert(addons@.take(i + 1).drop_last() =~= addons@.take(i as int));
        assert(addons@.take(i + 1).last() == addons@[i as int]);
        push_addon_entries::<T>(&mut out, &addons[i]);
        i = i + 1;
    }
    assert(addons@.take(addons.len() as int) =~= addons@);
    out
}

fn selects_request(selected: &Option<Selected>, r: &ResourceRequest) -> (b: bool)
    ensures
        b == selects(selected_view(*selected), r@),
{
    match selected {
        Some(s) => str_eq(s.request.base.as_str(), r.base.as_str()) && str_eq(
            s.request.path.id.as_str(),
            r.path.id.as_str(),
        ) && str_eq(s.request.path.resource.as_str(), r.path.resource.as_str()),
        None => false,
    }
}

pub open spec fn type_view(t: SelectableType) -> SelectableTypeView {
    (t.content_type@, t.selected, t.request@)
}

pub open spec fn types_view(ts: Seq<SelectableType>) -> Seq<SelectableTypeView> {
    ts.map_values(|t: SelectableType| type_view(t))
}

pub open spec fn choice_types(vs: Seq<SelectableTypeView>) -> Seq<Seq<char>> {
    vs.map_values(|v: SelectableTypeView| v.0)
}

fn has_type(ts: &Vec<SelectableType>, t: &String) -> (r: bool)
    ensures
        r == choice_types(types_view(ts@)).contains(t@),
{
    let ghost names = choice_types(types_view(ts@));
    let mut i: usize = 0;
    while i < ts.len()
        invariant
            i <= ts.len(),
            names == choice_types(types_view(ts@)),
            forall|j: int| 0 <= j < i ==> names[j] != t@,
        decreases ts.len() - i,
    {
        if str_eq(ts[i].content_type.as_str(), t.as_str()) {
            assert(names[i as int] == t@);
            return true;
        }
        i = i + 1;
    }
    false
}

/// The first request of each type among the requests the types are taken
/// from, each as a type choice, in order.
fn offered_types<T: CatalogResourceAdapter>(
    selected: &Option<Selected>,
    entries: &Vec<(String, ResourceRequest)>,
) -> (r: Vec<SelectableType>)
    ensures
        types_view(r@) == type_choices(
            selected_view(*selected),
            first_of_each_type(type_requests::<T>(selected_view(*selected), entries_view(entries@))),
        ),
{
    let ghost sel = selected_view(*selected);
    let ghost ev = entries_view(entries@);
    let catalogs_first = match T::selectable_priority() {
        SelectablePriority::Catalog => true,
        SelectablePriority::Type => false,
    };
    let mut out: Vec<SelectableType> = Vec::new();
    let mut i: usize = 0;
    assert(ev.take(0) =~= Seq::<CatalogEntry>::empty());
    assert(types_view(out@) =~= type_choices(sel, first_of_each_type(type_requests::<T>(sel, ev.take(0)))));
    while i < entries.len()
        invariant
            i <= entries.len(),
            sel == selected_view(*selected),
            ev == entries_view(entries@),
            catalogs_first == (T::spec_selectable_priority() is Catalog),
            types_view(out@) == type_choices(sel, first_of_each_type(type_requests::<T>(sel, ev.take(i as int)))),
        decreases entries.len() - i,
    {
        assert(ev.take(i + 1).drop_last() =~= ev.take(i as int));
        assert(ev.take(i + 1).last() == ev[i as int]);
        let r = &entries[i].1;
        let ghost firsts = first_of_each_type(type_requests::<T>(sel, ev.take(i as int)));
        assert(choice_types(type_choices(sel, firsts)) =~= types_of(firsts));
        let keep = !(catalogs_first && selected.is_some() && !selects_request(selected, r));
        proof {
            let reqs = type_requests::<T>(sel, ev.take(i as int));
            assert(ev[i as int].1 == r@);
            assert(reqs.push(r@).drop_last() =~= reqs);
            if keep {
                assert(type_requests::<T>(sel, ev.take(i + 1)) == reqs.push(r@));
            } else {
                assert(type_requests::<T>(sel, ev.take(i + 1)) == reqs);
            }
        }
        if keep && !has_type(&out, &r.path.content_type) {
            let chosen = match selected {
                Some(s) => str_eq(s.request.path.content_type.as_str(), r.path.content_type.as_str()) && str_eq(
                    s.request.path.resource.as_str(),
                    r.path.resource.as_str(),
                ),
                None => false,
            };
            let ghost before = types_view(out@);
            out.push(
                SelectableType { content_type: r.path.content_type.clone(), selected: chosen, request: r.duplicate() },
            );
            assert(types_view(out@) =~= before.push(type_choice(sel, r@)));
            assert(type_choices(sel, firsts.push(r@)) =~= type_choices(sel, firsts).push(type_choice(sel, r@)));
        }
        i = i + 1;
    }
    assert(ev.take(entries.len() as int) =~= ev);
    out
}

fn copy_type(t: &SelectableType) -> (r: SelectableType)
    ensures
        type_view(r) == type_view(*t),
{
    SelectableType { content_type: t.content_type.clone(), selected: t.selected, request: t.request.duplicate() }
}

/// Whether type `a` ranks below type `b`.
fn ranks_below(a: &str, b: &str, priorities: &[(String, i32)]) -> (r: bool)
    ensures
        r == (spec_compare_with_priorities(a@, b@, priorities_view(priorities@)) < 0),
{
    matches!(compare_with_priorities(a, b, priorities), std::cmp::Ordering::Less)
}

fn rank_position(ranked: &Vec<SelectableType>, x: &SelectableType, priorities: &Vec<(String, i32)>) -> (r: usize)
    requires
        priorities_view(priorities@) == spec_type_priorities(),
    ensures
        r <= ranked@.len(),
        r == type_rank_position(types_view(ranked@), type_view(*x)),
{
    let ghost v = types_view(ranked@);
    let mut k: usize = 0;
    assert(v.skip(0) =~= v);
    while k < ranked.len()
        invariant
            k <= ranked.len(),
            v == types_view(ranked@),
            priorities_view(priorities@) == spec_type_priorities(),
            type_rank_position(v, type_view(*x)) == k + type_rank_position(v.skip(k as int), type_view(*x)),
        decreases ranked.len() - k,
    {
        assert(v.skip(k as int)[0] == v[k as int]);
        assert(v.skip(k as int).drop_first() =~= v.skip(k + 1));
        if ranks_below(x.content_type.as_str(), ranked[k].content_type.as_str(), priorities.as_slice()) {
            return k;
        }
        k = k + 1;
    }
    assert(v.skip(k as int) =~= Seq::<SelectableTypeView>::empty());
    k
}

/// The types ranked from the lowest priority up, as [`rank_types`] gives
/// them.
fn ranked_types(items: &Vec<SelectableType>) -> (r: Vec<SelectableType>)
    ensures
        types_view(r@) == rank_types(types_view(items@)),
{
    let priorities = type_priorities();
    let ghost all = types_view(items@);
    let mut out: Vec<SelectableType> = Vec::new();
    let mut i: usize = 0;
    assert(all.take(0) =~= Seq::<SelectableTypeView>::empty());
    while i < items.len()
        invariant
            i <= items.len(),
            all == types_view(items@),
            priorities_view(priorities@) == spec_type_priorities(),
            types_view(out@) == rank_types(all.take(i as int)),
        decreases items.len() - i,
    {
        assert(all.take(i + 1).drop_last() =~= all.take(i as int));
        assert(all.take(i + 1).last() == type_view(items@[i as int]));
        let x = copy_type(&items[i]);
        let k = rank_position(&out, &x, &priorities);
        let ghost before = types_view(out@);
        out.insert(k, x);
        assert(types_view(out@) =~= before.insert(k as int, type_view(x)));
        i = i + 1;
    }
    assert(all.take(items.len() as int) =~= all);
    out
}

fn reversed_types(items: Vec<SelectableType>) -> (r: Vec<SelectableType>)
    ensures
        types_view(r@) == types_view(items@).reverse(),
{
    let ghost all = items@;
    let mut rest = items;
    let mut out: Vec<SelectableType> = Vec::new();
    while rest.len() > 0
        invariant
            rest@.len() + out@.len() == all.len(),
            rest@ == all.take(rest@.len() as int),
            forall|j: int| 0 <= j < out@.len() ==> out@[j] == all[all.len() - 1 - j],
        decreases rest.len(),
    {
        let ghost n = rest@.len();
        let t = rest.pop().unwrap();
        out.push(t);
        assert(rest@ =~= all.take(n - 1));
    }
    assert(types_view(out@) =~= types_view(all).reverse());
    out
}

pub open spec fn catalog_choice_view(c: SelectableCatalog) -> SelectableCatalogView {
    (c.catalog@, c.selected, c.request@)
}

pub open spec fn catalog_choices_view(cs: Seq<SelectableCatalog>) -> Seq<SelectableCatalogView> {
    cs.map_values(|c: SelectableCatalog| catalog_choice_view(c))
}

pub open spec fn choice_keys(vs: Seq<SelectableCatalogView>) -> Seq<(Seq<char>, Seq<char>)> {
    vs.map_values(|v: SelectableCatalogView| (v.2.base, v.2.id))
}

fn catalog_choice(selected: &Option<Selected>, e: &(String, ResourceRequest)) -> (r: SelectableCatalog)
    ensures
        catalog_choice_view(r) == (e.0@, selects(selected_view(*selected), e.1@), e.1@),
{
    SelectableCatalog { catalog: e.0.clone(), selected: selects_request(selected, &e.1), request: e.1.duplicate() }
}

/// The catalogs of the selected type, as choices.
fn catalogs_of_type(selected: &Option<Selected>, entries: &Vec<(String, ResourceRequest)>) -> (r: Vec<
    SelectableCatalog,
>)
    ensures
        catalog_choices_view(r@) == catalog_choices(
            selected_view(*selected),
            entries_of_type(selected_view(*selected), entries_view(entries@)),
        ),
{
    let ghost sel = selected_view(*selected);
    let ghost ev = entries_view(entries@);
    let mut out: Vec<SelectableCatalog> = Vec::new();
    let mut i: usize = 0;
    assert(ev.take(0) =~= Seq::<CatalogEntry>::empty());
    assert(catalog_choices_view(out@) =~= catalog_choices(sel, entries_of_type(sel, ev.take(0))));
    while i < entries.len()
        invariant
            i <= entries.len(),
            sel == selected_view(*selected),
            ev == entries_view(entries@),
            catalog_choices_view(out@) == catalog_choices(sel, entries_of_type(sel, ev.take(i as int))),
        decreases entries.len() - i,
    {
        assert(ev.take(i + 1).drop_last() =~= ev.take(i as int));
        assert(ev.take(i + 1).last() == ev[i as int]);
        let e = &entries[i];
        let ghost kept = entries_of_type(sel, ev.take(i as int));
        let other_type = match selected {
            Some(s) => !str_eq(s.request.path.content_type.as_str(), e.1.path.content_type.as_str()),
            None => false,
        };
        if !other_type {
            let ghost before = catalog_choices_view(out@);
            out.push(catalog_choice(selected, e));
            assert(catalog_choices_view(out@) =~= before.push((e.0@, selects(sel, e.1@), e.1@)));
            assert(catalog_choices(sel, kept.push(ev[i as int])) =~= catalog_choices(sel, kept).push(
                (e.0@, selects(sel, e.1@), e.1@),
            ));
        }
        i = i + 1;
    }
    assert(ev.take(entries.len() as int) =~= ev);
    out
}

fn has_catalog_key(cs: &Vec<SelectableCatalog>, base: &String, id: &String) -> (r: bool)
    ensures
        r == choice_keys(catalog_choices_view(cs@)).contains((base@, id@)),
{
    let ghost keys = choice_keys(catalog_choices_view(cs@));
    let mut i: usize = 0;
    while i < cs.len()
        invariant
            i <= cs.len(),
            keys == choice_keys(catalog_choices_view(cs@)),
            forall|j: int| 0 <= j < i ==> keys[j] != (base@, id@),
        decreases cs.len() - i,
    {
        if str_eq(cs[i].request.base.as_str(), base.as_str()) && str_eq(cs[i].request.path.id.as_str(), id.as_str()) {
            assert(keys[i as int] == (base@, id@));
            return true;
        }
        i = i + 1;
    }
    false
}

/// The first of each catalog of an addon, as choices.
fn first_catalogs(selected: &Option<Selected>, entries: &Vec<(String, ResourceRequest)>) -> (r: Vec<
    SelectableCatalog,
>)
    ensures
        catalog_choices_view(r@) == catalog_choices(selected_view(*selected), first_of_each_catalog(entries_view(entries@))),
{
    let ghost sel = selected_view(*selected);
    let ghost ev = entries_view(entries@);
    let mut out: Vec<SelectableCatalog> = Vec::new();
    let mut i: usize = 0;
    assert(ev.take(0) =~= Seq::<CatalogEntry>::empty());
    assert(catalog_choices_view(out@) =~= catalog_choices(sel, first_of_each_catalog(ev.take(0))));
    while i < entries.len()
        invariant
            i <= entries.len(),
            sel == selected_view(*selected),
            ev == entries_view(entries@),
            catalog_choices_view(out@) == catalog_choices(sel, first_of_each_catalog(ev.take(i as int))),
        decreases entries.len() - i,
    {
        assert(ev.take(i + 1).drop_last() =~= ev.take(i as int));
        assert(ev.take(i + 1).last() == ev[i as int]);
        let e = &entries[i];
        let ghost kept = first_of_each_catalog(ev.take(i as int));
        assert(choice_keys(catalog_choices(sel, kept)) =~= catalog_keys(kept));
        if !has_catalog_key(&out, &e.1.base, &e.1.path.id) {
            let ghost before = catalog_choices_view(out@);
            out.push(catalog_choice(selected, e));
            assert(catalog_choices_view(out@) =~= before.push((e.0@, selects(sel, e.1@), e.1@)));
            assert(catalog_choices(sel, kept.push(ev[i as int])) =~= catalog_choices(sel, kept).push(
                (e.0@, selects(sel, e.1@), e.1@),
            ));
        }
        i = i + 1;
    }
    assert(ev.take(entries.len() as int) =~= ev);
    out
}

fn find_addon<'a>(addons: &'a [Descriptor], base: &str) -> (r: Option<&'a Descriptor>)
    ensures
        match r {
            Some(a) => addon_at(addons@, base@) == Some(*a),
            None => addon_at(addons@, base@) is None,
        },
{
    let mut i: usize = 0;
    assert(addons@.skip(0) =~= addons@);
    while i < addons.len()
        invariant
            i <= addons.len(),
            addon_at(addons@, base@) == addon_at(addons@.skip(i as int), base@),
        decreases addons.len() - i,
    {
        assert(addons@.skip(i as int)[0] == addons@[i as int]);
        assert(addons@.skip(i as int).drop_first() =~= addons@.skip(i + 1));
        if str_eq(addons[i].transport_url.as_str(), base) {
            return Some(&addons[i]);
        }
        i = i + 1;
    }
    None
}

fn find_catalog<'a>(cs: &'a Vec<ManifestCatalog>, id: &str, content_type: &str) -> (r: Option<&'a ManifestCatalog>)
    ensures
        match r {
            Some(c) => catalog_with(cs@, id@, content_type@) == Some(*c),
            None => catalog_with(cs@, id@, content_type@) is None,
        },
{
    let mut i: usize = 0;
    assert(cs@.skip(0) =~= cs@);
    while i < cs.len()
        invariant
            i <= cs.len(),
            catalog_with(cs@, id@, content_type@) == catalog_with(cs@.skip(i as int), id@, content_type@),
        decreases cs.len() - i,
    {
        assert(cs@.skip(i as int)[0] == cs@[i as int]);
        assert(cs@.skip(i as int).drop_first() =~= cs@.skip(i + 1));
        if str_eq(cs[i].id.as_str(), id) && str_eq(cs[i].content_type.as_str(), content_type) {
            return Some(&cs[i]);
        }
        i = i + 1;
    }
    None
}

/// The catalog of the selection, as [`selected_catalog`] gives it.
fn find_selected_catalog<'a, T: CatalogResourceAdapter>(selected: &Option<Selected>, addons: &'a [Descriptor]) -> (r: Option<
    &'a ManifestCatalog,
>)
    ensures
        match r {
            Some(c) => selected_catalog::<T>(selected_view(*selected), addons@) == Some(*c),
            None => selected_catalog::<T>(selected_view(*selected), addons@) is None,
        },
{
    match selected {
        Some(s) => {
            if !str_eq(s.request.path.resource.as_str(), T::resource()) {
                return None;
            }
            match find_addon(addons, s.request.base.as_str()) {
                Some(a) => find_catalog(T::catalogs(&a.manifest), s.request.path.id.as_str(), s.request.path.content_type.as_str()),
                None => None,
            }
        },
        None => None,
    }
}

pub open spec fn option_view(o: SelectableExtraOption) -> SelectableExtraOptionView {
    (optional_text(o.value), o.selected, o.request@)
}

pub open spec fn options_view(os: Seq<SelectableExtraOption>) -> Seq<SelectableExtraOptionView> {
    os.map_values(|o: SelectableExtraOption| option_view(o))
}

pub open spec fn extra_choice_view(e: SelectableExtra) -> SelectableExtraView {
    (e.name@, e.is_required, options_view(e.options@))
}

pub open spec fn extra_choices_view(es: Seq<SelectableExtra>) -> Seq<SelectableExtraView> {
    es.map_values(|e: SelectableExtra| extra_choice_view(e))
}

fn has_name(extra: &Vec<ExtraValue>, name: &String) -> (r: bool)
    ensures
        r == names_of(extra_view(extra@)).contains(name@),
{
    let ghost names = names_of(extra_view(extra@));
    let mut i: usize = 0;
    while i < extra.len()
        invariant
            i <= extra.len(),
            names == names_of(extra_view(extra@)),
            forall|j: int| 0 <= j < i ==> names[j] != name@,
        decreases extra.len() - i,
    {
        if str_eq(extra[i].name.as_str(), name.as_str()) {
            assert(names[i as int] == name@);
            return true;
        }
        i = i + 1;
    }
    false
}

fn has_pair(extra: &Vec<ExtraValue>, name: &String, value: &String) -> (r: bool)
    ensures
        r == extra_view(extra@).contains((name@, value@)),
{
    let ghost ev = extra_view(extra@);
    let mut i: usize = 0;
    while i < extra.len()
        invariant
            i <= extra.len(),
            ev == extra_view(extra@),
            forall|j: int| 0 <= j < i ==> ev[j] != (name@, value@),
        decreases extra.len() - i,
    {
        if str_eq(extra[i].name.as_str(), name.as_str()) && str_eq(extra[i].value.as_str(), value.as_str()) {
            assert(ev[i as int] == (name@, value@));
            return true;
        }
        i = i + 1;
    }
    false
}

fn moved_request(s: &ResourceRequest, c: &ManifestCatalog, extra: Vec<ExtraValue>) -> (r: ResourceRequest)
    ensures
        r@ == option_request(s@, *c, extra_view(extra@)),
{
    ResourceRequest {
        base: s.base.clone(),
        path: ResourcePath {
            resource: s.path.resource.clone(),
            content_type: c.content_type.clone(),
            id: c.id.clone(),
            extra,
        },
    }
}

/// The options of an extra property, as [`extra_options`] gives them.
fn prop_options(s: &ResourceRequest, c: &ManifestCatalog, p: &ExtraProp) -> (r: Vec<SelectableExtraOption>)
    ensures
        options_view(r@) == extra_options(s@, *c, extra_prop_view(*p)),
{
    let ghost pv = extra_prop_view(*p);
    let mut out: Vec<SelectableExtraOption> = Vec::new();
    if !p.is_required {
        let selected = !has_name(&s.path.extra, &p.name);
        let request = moved_request(s, c, extend_one(&s.path.extra, p, None));
        out.push(SelectableExtraOption { value: None, selected, request });
    }
    let ghost first = options_view(out@);
    assert(first =~= (if !pv.1 {
        seq![(None, !names_of(s@.extra).contains(pv.0), option_request(s@, *c, spec_extend_one(s@.extra, pv, None)))]
    } else {
        Seq::<SelectableExtraOptionView>::empty()
    }));
    let mut i: usize = 0;
    while i < p.options.len()
        invariant
            i <= p.options.len(),
            pv == extra_prop_view(*p),
            out@.len() == first.len() + i,
            forall|j: int| 0 <= j < first.len() ==> option_view(#[trigger] out@[j]) == first[j],
            forall|j: int|
                0 <= j < i ==> option_view(#[trigger] out@[first.len() + j]) == value_option(s@, *c, pv, pv.2[j]),
        decreases p.options.len() - i,
    {
        let v = &p.options[i];
        let selected = has_pair(&s.path.extra, &p.name, v);
        let request = moved_request(s, c, extend_one(&s.path.extra, p, Some(v.clone())));
        out.push(SelectableExtraOption { value: Some(v.clone()), selected, request });
        i = i + 1;
    }
    let ghost expected = extra_options(s@, *c, pv);
    assert(expected.len() == out@.len());
    assert forall|j: int| 0 <= j < out@.len() implies options_view(out@)[j] == expected[j] by {
        if j >= first.len() {
            let k = j - first.len();
            assert(out@[first.len() + k] == out@[j]);
        }
    }
    assert(options_view(out@) =~= expected);
    out
}

/// The extra properties offered, as [`extra_choices`] gives them.
fn offered_extra(s: &ResourceRequest, c: &ManifestCatalog) -> (r: Vec<SelectableExtra>)
    ensures
        extra_choices_view(r@) == extra_choices(s@, *c, extra_props_view(c.extra@)),
{
    let ghost props = extra_props_view(c.extra@);
    let skip = "skip";
    proof {
        reveal_strlit("skip");
    }
    let mut out: Vec<SelectableExtra> = Vec::new();
    let mut i: usize = 0;
    assert(props.take(0) =~= Seq::<ExtraPropView>::empty());
    while i < c.extra.len()
        invariant
            i <= c.extra.len(),
            props == extra_props_view(c.extra@),
            skip@ == skip_name(),
            extra_choices_view(out@) == extra_choices(s@, *c, props.take(i as int)),
        decreases c.extra.len() - i,
    {
        assert(props.take(i + 1).drop_last() =~= props.take(i as int));
        assert(props.take(i + 1).last() == extra_prop_view(c.extra@[i as int]));
        let p = &c.extra[i];
        if !str_eq(p.name.as_str(), skip) && p.options.len() > 0 {
            let ghost before = extra_choices_view(out@);
            let options = prop_options(s, c, p);
            out.push(SelectableExtra { name: p.name.clone(), is_required: p.is_required, options });
            assert(extra_choices_view(out@) =~= before.push(
                (p.name@, p.is_required, extra_options(s@, *c, extra_prop_view(*p))),
            ));
        }
        i = i + 1;
    }
    assert(props.take(c.extra.len() as int) =~= props);
    out
}

proof fn lemma_skip_prefix<T>(pages: Seq<ResourceLoadable<Vec<T>>>, k: int)
    requires
        0 <= k <= pages.len(),
    ensures
        pages_skip(pages.take(k)) is None ==> pages_skip(pages) is None,
        pages_skip(pages.take(k)) is Some && pages_skip(pages) is Some ==> pages_skip(pages.take(k))->Some_0
            <= pages_skip(pages)->Some_0,
    decreases pages.len() - k,
{
    if k < pages.len() {
        lemma_skip_prefix(pages, k + 1);
        assert(pages.take(k + 1).drop_last() =~= pages.take(k));
    } else {
        assert(pages.take(k) =~= pages);
    }
}

/// The number of items loaded, as [`pages_skip`] gives it.
fn loaded_count<T>(pages: &[ResourceLoadable<Vec<T>>]) -> (r: Option<usize>)
    requires
        pages_skip(pages@) matches Some(n) ==> n <= usize::MAX,
    ensures
        match r {
            Some(n) => pages_skip(pages@) == Some(n as int),
            None => pages_skip(pages@) is None,
        },
{
    let mut total: usize = 0;
    let mut i: usize = 0;
    assert(pages@.take(0) =~= Seq::<ResourceLoadable<Vec<T>>>::empty());
    while i < pages.len()
        invariant
            i <= pages.len(),
            pages_skip(pages@) matches Some(n) ==> n <= usize::MAX,
            pages_skip(pages@.take(i as int)) == Some(total as int),
        decreases pages.len() - i,
    {
        assert(pages@.take(i + 1).drop_last() =~= pages@.take(i as int));
        assert(pages@.take(i + 1).last() == pages@[i as int]);
        let size = match &pages[i].content {
            Some(Loadable::Ready(items)) => if items.len() > 0 {
                Some(items.len())
            } else {
                None
            },
            _ => None,
        };
        match size {
            Some(n) => match total.checked_add(n) {
                Some(t) => {
                    total = t;
                },
                None => {
                    proof {
                        lemma_skip_prefix(pages@, i + 1);
                    }
                    return None;
                },
            },
            None => {
                proof {
                    lemma_skip_prefix(pages@, i + 1);
                }
                return None;
            },
        }
        i = i + 1;
    }
    assert(pages@.take(pages.len() as int) =~= pages@);
    Some(total)
}

fn has_prop(props: &Vec<ExtraProp>, name: &str) -> (r: bool)
    ensures
        r == prop_names(extra_props_view(props@)).contains(name@),
{
    let ghost names = prop_names(extra_props_view(props@));
    let mut i: usize = 0;
    while i < props.len()
        invariant
            i <= props.len(),
            names == prop_names(extra_props_view(props@)),
            forall|j: int| 0 <= j < i ==> names[j] != name@,
        decreases props.len() - i,
    {
        if str_eq(props[i].name.as_str(), name) {
            assert(names[i as int] == name@);
            return true;
        }
        i = i + 1;
    }
    false
}

/// The request of the next page, as [`next_page_request`] gives it.
fn next_page_of<T>(s: &ResourceRequest, c: &ManifestCatalog, pages: &[ResourceLoadable<Vec<T>>]) -> (r: Option<
    SelectablePage,
>)
    requires
        pages_skip(pages@) matches Some(n) ==> n <= usize::MAX,
    ensures
        match r {
            Some(p) => next_page_request(s@, *c, pages@) == Some(p.request@),
            None => next_page_request(s@, *c, pages@) is None,
        },
{
    let skip = "skip";
    proof {
        reveal_strlit("skip");
    }
    if !has_prop(&c.extra, skip) {
        return None;
    }
    match loaded_count(pages) {
        Some(n) => {
            let prop = ExtraProp { name: skip.to_string(), is_required: false, options: Vec::new(), options_limit: 1 };
            assert(extra_prop_view(prop) =~= skip_prop());
            let value = decimal_string(n as u64);
            let request = moved_request(s, c, extend_one(&s.path.extra, &prop, Some(value)));
            Some(SelectablePage { request })
        },
        None => None,
    }
}

/// The choices as plain values.
pub open spec fn selectable_view(s: Selectable) -> SelectableView {
    (
        types_view(s.types@),
        catalog_choices_view(s.catalogs@),
        extra_choices_view(s.extra@),
        match s.next_page {
            Some(p) => Some(p.request@),
            None => None,
        },
    )
}

fn same_type_list(a: &Vec<SelectableType>, b: &Vec<SelectableType>) -> (r: bool)
    ensures
        r == (types_view(a@) == types_view(b@)),
{
    if a.len() != b.len() {
        assert(types_view(a@).len() != types_view(b@).len());
        return false;
    }
    let mut i: usize = 0;
    while i < a.len()
        invariant
            i <= a.len(),
            a.len() == b.len(),
            forall|j: int| 0 <= j < i ==> type_view(a@[j]) == #[trigger] type_view(b@[j]),
        decreases a.len() - i,
    {
        if !(str_eq(a[i].content_type.as_str(), b[i].content_type.as_str()) && a[i].selected == b[i].selected
            && a[i].request.same_as(&b[i].request)) {
            assert(types_view(a@)[i as int] != types_view(b@)[i as int]);
            return false;
        }
        i = i + 1;
    }
    assert(types_view(a@) =~= types_view(b@));
    true
}

fn same_catalog_list(a: &Vec<SelectableCatalog>, b: &Vec<SelectableCatalog>) -> (r: bool)
    ensures
        r == (catalog_choices_view(a@) == catalog_choices_view(b@)),
{
    if a.len() != b.len() {
        assert(catalog_choices_view(a@).len() != catalog_choices_view(b@).len());
        return false;
    }
    let mut i: usize = 0;
    while i < a.len()
        invariant
            i <= a.len(),
            a.len() == b.len(),
            forall|j: int| 0 <= j < i ==> catalog_choice_view(a@[j]) == #[trigger] catalog_choice_view(b@[j]),
        decreases a.len() - i,
    {
        if !(str_eq(a[i].catalog.as_str(), b[i].catalog.as_str()) && a[i].selected == b[i].selected
            && a[i].request.same_as(&b[i].request)) {
            assert(catalog_choices_view(a@)[i as int] != catalog_choices_view(b@)[i as int]);
            return false;
        }
        i = i + 1;
    }
    assert(catalog_choices_view(a@) =~= catalog_choices_view(b@));
    true
}

fn same_value(a: &Option<String>, b: &Option<String>) -> (r: bool)
    ensures
        r == (optional_text(*a) == optional_text(*b)),
{
    match (a, b) {
        (Some(x), Some(y)) => str_eq(x.as_str(), y.as_str()),
        (None, None) => true,
        _ => false,
    }
}

fn same_option_list(a: &Vec<SelectableExtraOption>, b: &Vec<SelectableExtraOption>) -> (r: bool)
    ensures
        r == (options_view(a@) == options_view(b@)),
{
    if a.len() != b.len() {
        assert(options_view(a@).len() != options_view(b@).len());
        return false;
    }
    let mut i: usize = 0;
    while i < a.len()
        invariant
            i <= a.len(),
            a.len() == b.len(),
            forall|j: int| 0 <= j < i ==> option_view(a@[j]) == #[trigger] option_view(b@[j]),
        decreases a.len() - i,
    {
        if !(same_value(&a[i].value, &b[i].value) && a[i].selected == b[i].selected && a[i].request.same_as(
            &b[i].request,
        )) {
            assert(options_view(a@)[i as int] != options_view(b@)[i as int]);
            return false;
        }
        i = i + 1;
    }
    assert(options_view(a@) =~= options_view(b@));
    true
}

fn same_extra_list(a: &Vec<SelectableExtra>, b: &Vec<SelectableExtra>) -> (r: bool)
    ensures
        r == (extra_choices_view(a@) == extra_choices_view(b@)),
{
    if a.len() != b.len() {
        assert(extra_choices_view(a@).len() != extra_choices_view(b@).len());
        return false;
    }
    let mut i: usize = 0;
    while i < a.len()
        invariant
            i <= a.len(),
            a.len() == b.len(),
            forall|j: int| 0 <= j < i ==> extra_choice_view(a@[j]) == #[trigger] extra_choice_view(b@[j]),
        decreases a.len() - i,
    {
        if !(str_eq(a[i].name.as_str(), b[i].name.as_str()) && a[i].is_required == b[i].is_required
            && same_option_list(&a[i].options, &b[i].options)) {
            assert(extra_choices_view(a@)[i as int] != extra_choices_view(b@)[i as int]);
            return false;
        }
        i = i + 1;
    }
    assert(extra_choices_view(a@) =~= extra_choices_view(b@));
    true
}

fn same_selectable(a: &Selectable, b: &Selectable) -> (r: bool)
    ensures
        r == (selectable_view(*a) == selectable_view(*b)),
{
    let same_page = match (&a.next_page, &b.next_page) {
        (Some(x), Some(y)) => x.request.same_as(&y.request),
        (None, None) => true,
        _ => false,
    };
    same_type_list(&a.types, &b.types) && same_catalog_list(&a.catalogs, &b.catalogs) && same_extra_list(
        &a.extra,
        &b.extra,
    ) && same_page
}

/// The reducer of the choices of a catalog view of items of kind `T`, for
/// the selection, the loaded pages and the installed addons (see
/// [`spec_catalog_selectable`]). No effects; the model has changed exactly
/// when the choices differ from the current ones.
pub fn catalog_selectable_update<T: CatalogResourceAdapter, A>(
    selectable: &mut Selectable,
    selected: &Option<Selected>,
    catalog: &[ResourceLoadable<Vec<T>>],
    addons: &[Descriptor],
) -> (r: Effects<A>)
    requires
        pages_skip(catalog@) matches Some(n) ==> n <= usize::MAX,
    ensures
        selectable_view(*final(selectable)) == spec_catalog_selectable::<T>(*selected, catalog@, addons@),
        r.effect_list().len() == 0,
        r.has_changed == (selectable_view(*old(selectable)) != selectable_view(*final(selectable))),
{
    let entries = collect_entries::<T>(addons);
    let offered = offered_types::<T>(selected, &entries);
    let ranked = ranked_types(&offered);
    let types = reversed_types(ranked);
    let catalogs = match T::selectable_priority() {
        SelectablePriority::Type => catalogs_of_type(selected, &entries),
        SelectablePriority::Catalog => first_catalogs(selected, &entries),
    };
    let (extra, next_page) = match selected {
        Some(s) => match find_selected_catalog::<T>(selected, addons) {
            Some(c) => (offered_extra(&s.request, c), next_page_of(&s.request, c, catalog)),
            None => (Vec::new(), None),
        },
        None => (Vec::new(), None),
    };
    let next = Selectable { types, catalogs, extra, next_page };
    proof {
        assert(extra_choices_view(Seq::<SelectableExtra>::empty()) =~= Seq::<SelectableExtraView>::empty());
    }
    let same = same_selectable(selectable, &next);
    *selectable = next;
    if same {
        Effects::none().unchanged()
    } else {
        Effects::none()
    }
}

/// A catalog view for items of kind `T`.
pub struct CatalogWithFilters<T> {
    pub selected: Option<Selected>,
    pub selectable: Selectable,
    pub catalog: Vec<ResourceLoadable<Vec<T>>>,
}

/// The number of items in the loaded pages, counting every loaded page.
pub open spec fn ready_total<T>(pages: Seq<ResourceLoadable<Vec<T>>>) -> int
    decreases pages.len(),
{
    if pages.len() == 0 {
        0
    } else {
        ready_total(pages.drop_last()) + page_size(pages.last())
    }
}

pub open spec fn page_size<T>(page: ResourceLoadable<Vec<T>>) -> int {
    match page.content {
        Some(Loadable::Ready(items)) => items@.len() as int,
        _ => 0,
    }
}

proof fn lemma_skip_within_total<T>(pages: Seq<ResourceLoadable<Vec<T>>>)
    ensures
        ready_total(pages) >= 0,
        pages_skip(pages) matches Some(n) ==> n == ready_total(pages),
    decreases pages.len(),
{
    if pages.len() > 0 {
        lemma_skip_within_total(pages.drop_last());
    }
}

proof fn lemma_total_of_update<T>(pages: Seq<ResourceLoadable<Vec<T>>>, k: int, page: ResourceLoadable<Vec<T>>)
    requires
        0 <= k < pages.len(),
    ensures
        ready_total(pages.update(k, page)) == ready_total(pages) - page_size(pages[k]) + page_size(page),
    decreases pages.len(),
{
    let updated = pages.update(k, page);
    if k == pages.len() - 1 {
        assert(updated.drop_last() =~= pages.drop_last());
    } else {
        lemma_total_of_update(pages.drop_last(), k, page);
        assert(updated.drop_last() =~= pages.drop_last().update(k, page));
    }
}

proof fn lemma_total_of_push<T>(pages: Seq<ResourceLoadable<Vec<T>>>, page: ResourceLoadable<Vec<T>>)
    ensures
        ready_total(pages.push(page)) == ready_total(pages) + page_size(page),
{
    assert(pages.push(page).drop_last() =~= pages);
}

/// The position of the first page for the request.
pub open spec fn page_position<T>(pages: Seq<ResourceLoadable<Vec<T>>>, request: ResourceRequestView) -> Option<int>
    decreases pages.len(),
{
    if pages.len() == 0 {
        None
    } else if pages[0].request@ == request {
        Some(0)
    } else {
        match page_position(pages.drop_first(), request) {
            Some(k) => Some(k + 1),
            None => None,
        }
    }
}

fn find_page<T>(pages: &Vec<ResourceLoadable<Vec<T>>>, request: &ResourceRequest) -> (r: Option<usize>)
    ensures
        match r {
            Some(k) => page_position(pages@, request@) == Some(k as int) && k < pages@.len(),
            None => page_position(pages@, request@) is None,
        },
{
    let mut k: usize = 0;
    assert(pages@.skip(0) =~= pages@);
    while k < pages.len()
        invariant
            k <= pages.len(),
            page_position(pages@, request@) == match page_position(pages@.skip(k as int), request@) {
                Some(j) => Some(j + k),
                None => None,
            },
        decreases pages.len() - k,
    {
        assert(pages@.skip(k as int)[0] == pages@[k as int]);
        assert(pages@.skip(k as int).drop_first() =~= pages@.skip(k + 1));
        if pages[k].request.same_as(request) {
            return Some(k);
        }
        k = k + 1;
    }
    None
}

/// The items an answer brings, where it brings a list.
pub open spec fn incoming<T>(result: Result<Result<Vec<T>, String>, EnvError>) -> int {
    match result {
        Ok(Ok(items)) => items@.len() as int,
        _ => 0,
    }
}

/// What a catalog view reacts to: a selection (or none, for the first one
/// offered); leaving the view; asking for the next page; the answer to a
/// request; a change of the profile; a change of the library.
pub enum CatalogWithFiltersMsg<'a, T> {
    Load(&'a Option<Selected>),
    Unload,
    LoadNextPage,
    ResourceRequestResult { request: &'a ResourceRequest, result: Result<Result<Vec<T>, String>, EnvError> },
    ProfileChanged,
    LibraryChanged,
}

impl<T: CatalogResourceAdapter> CatalogWithFilters<T> {
    /// The reducer of a catalog view, with the installed addons.
    ///
    /// A selection (without paging, or the first choice offered) loads its
    /// first page anew. Leaving the view drops the selection and the pages.
    /// The next page, where one is offered, is loaded after the others. An
    /// answer goes to the first page for its request, which takes it while
    /// loading. Each of these, and a change of the profile, recomputes the
    /// choices (see [`spec_catalog_selectable`]). A change of the library
    /// counts as a change and does nothing.
    pub fn update(&mut self, msg: CatalogWithFiltersMsg<T>, addons: &[Descriptor]) -> (r: Effects<ResourceRequest>)
        requires
            ready_total(old(self).catalog@) + match msg {
                CatalogWithFiltersMsg::ResourceRequestResult { request, result } => incoming(result),
                _ => 0,
            } <= usize::MAX,
        ensures
            !(msg is LibraryChanged) && !(msg is LoadNextPage && old(self).selectable.next_page is None)
                && !(msg matches CatalogWithFiltersMsg::ResourceRequestResult { request, result } && page_position(
                old(self).catalog@,
                request@,
            ) is None) ==> selectable_view(final(self).selectable) == spec_catalog_selectable::<T>(
                final(self).selected,
                final(self).catalog@,
                addons@,
            ),
            match msg {
                CatalogWithFiltersMsg::Load(next) => {
                    &&& selected_view(final(self).selected) == spec_selected::<T>(old(self).selectable, *next)
                    &&& match final(self).selected {
                        Some(s) => {
                            &&& final(self).catalog@.len() == 1
                            &&& final(self).catalog@[0].request@ == s.request@
                            &&& final(self).catalog@[0].content == Some(Loadable::<Vec<T>, ResourceError>::Loading)
                            &&& requests_of(r.effect_list()) == seq![s.request@]
                            &&& r.has_changed
                        },
                        None => {
                            &&& final(self).catalog == old(self).catalog
                            &&& r.effect_list().len() == 0
                            &&& r.has_changed == (old(self).selected is Some || selectable_view(old(self).selectable)
                                != selectable_view(final(self).selectable))
                        },
                    }
                },
                CatalogWithFiltersMsg::Unload => {
                    &&& final(self).selected is None
                    &&& final(self).catalog@.len() == 0
                    &&& r.effect_list().len() == 0
                    &&& r.has_changed == (old(self).selected is Some || old(self).catalog@.len() > 0
                        || selectable_view(old(self).selectable) != selectable_view(final(self).selectable))
                },
                CatalogWithFiltersMsg::LoadNextPage => match old(self).selectable.next_page {
                    Some(p) => {
                        &&& final(self).selected == old(self).selected
                        &&& final(self).catalog@.len() == old(self).catalog@.len() + 1
                        &&& final(self).catalog@.drop_last() == old(self).catalog@
                        &&& final(self).catalog@.last().request@ == p.request@
                        &&& final(self).catalog@.last().content == Some(Loadable::<Vec<T>, ResourceError>::Loading)
                        &&& requests_of(r.effect_list()) == seq![p.request@]
                        &&& r.has_changed
                    },
                    None => {
                        &&& final(self).selected == old(self).selected
                        &&& final(self).catalog == old(self).catalog
                        &&& final(self).selectable == old(self).selectable
                        &&& r.effect_list().len() == 0
                        &&& !r.has_changed
                    },
                },
                CatalogWithFiltersMsg::ResourceRequestResult { request, result } => {
                    &&& final(self).selected == old(self).selected
                    &&& r.effect_list().len() == 0
                    &&& match page_position(old(self).catalog@, request@) {
                        Some(k) => {
                            let page = old(self).catalog@[k];
                            let taken = accepts_result(page, request@);
                            &&& final(self).catalog@ == if taken {
                                old(self).catalog@.update(
                                    k,
                                    ResourceLoadable {
                                        request: page.request,
                                        content: Some(vector_content_of_result(result)),
                                    },
                                )
                            } else {
                                old(self).catalog@
                            }
                            &&& r.has_changed == (taken || selectable_view(old(self).selectable) != selectable_view(
                                final(self).selectable,
                            ))
                        },
                        None => {
                            &&& final(self).catalog == old(self).catalog
                            &&& final(self).selectable == old(self).selectable
                            &&& !r.has_changed
                        },
                    }
                },
                CatalogWithFiltersMsg::ProfileChanged => {
                    &&& final(self).selected == old(self).selected
                    &&& final(self).catalog == old(self).catalog
                    &&& r.effect_list().len() == 0
                    &&& r.has_changed == (selectable_view(old(self).selectable) != selectable_view(
                        final(self).selectable,
                    ))
                },
                CatalogWithFiltersMsg::LibraryChanged => {
                    &&& final(self).selected == old(self).selected
                    &&& final(self).catalog == old(self).catalog
                    &&& final(self).selectable == old(self).selectable
                    &&& r.effect_list().len() == 0
                    &&& r.has_changed
                },
            },
    {
        proof {
            lemma_skip_within_total(self.catalog@);
        }
        match msg {
            CatalogWithFiltersMsg::Load(next) => {
                let selected_effects: Effects<ResourceRequest> = selected_update::<T, ResourceRequest>(
                    &mut self.selected,
                    &self.selectable,
                    next,
                );
                let catalog_effects = match &self.selected {
                    Some(s) => {
                        let e = catalog_update(&mut self.catalog, CatalogPageRequest::First, &s.request);
                        proof {
                            lemma_total_of_push(Seq::<ResourceLoadable<Vec<T>>>::empty(), self.catalog@[0]);
                            assert(self.catalog@ =~= Seq::<ResourceLoadable<Vec<T>>>::empty().push(self.catalog@[0]));
                        }
                        e
                    },
                    None => Effects::none().unchanged(),
                };
                proof {
                    lemma_skip_within_total(self.catalog@);
                }
                let selectable_effects: Effects<ResourceRequest> = catalog_selectable_update::<T, ResourceRequest>(
                    &mut self.selectable,
                    &self.selected,
                    self.catalog.as_slice(),
                    addons,
                );
                selected_effects.join(catalog_effects).join(selectable_effects)
            },
            CatalogWithFiltersMsg::Unload => {
                let had_selection = self.selected.is_some();
                let had_pages = self.catalog.len() > 0;
                self.selected = None;
                self.catalog = Vec::new();
                proof {
                    lemma_skip_within_total(self.catalog@);
                }
                let selectable_effects: Effects<ResourceRequest> = catalog_selectable_update::<T, ResourceRequest>(
                    &mut self.selectable,
                    &self.selected,
                    self.catalog.as_slice(),
                    addons,
                );
                let own = if had_selection || had_pages {
                    Effects::none()
                } else {
                    Effects::none().unchanged()
                };
                own.join(selectable_effects)
            },
            CatalogWithFiltersMsg::LoadNextPage => {
                let request = match &self.selectable.next_page {
                    Some(p) => p.request.duplicate(),
                    None => {
                        return Effects::none().unchanged();
                    },
                };
                let ghost before = self.catalog@;
                let catalog_effects = catalog_update(&mut self.catalog, CatalogPageRequest::Next, &request);
                proof {
                    assert(self.catalog@ =~= before.push(self.catalog@.last()));
                    lemma_total_of_push(before, self.catalog@.last());
                    lemma_skip_within_total(self.catalog@);
                }
                let selectable_effects: Effects<ResourceRequest> = catalog_selectable_update::<T, ResourceRequest>(
                    &mut self.selectable,
                    &self.selected,
                    self.catalog.as_slice(),
                    addons,
                );
                catalog_effects.join(selectable_effects)
            },
            CatalogWithFiltersMsg::ResourceRequestResult { request, result } => {
                match find_page(&self.catalog, request) {
                    Some(k) => {
                        let ghost before = self.catalog@;
                        let mut page = self.catalog.remove(k);
                        let page_effects = resource_update_with_vector_content(
                            &mut page,
                            ResourceAction::ResourceRequestResult { request, result },
                        );
                        self.catalog.insert(k, page);
                        proof {
                            if accepts_result(before[k as int], request@) {
                                assert(self.catalog@ =~= before.update(k as int, page));
                                lemma_total_of_update(before, k as int, page);
                            } else {
                                assert(self.catalog@ =~= before);
                            }
                            lemma_skip_within_total(self.catalog@);
                        }
                        let selectable_effects: Effects<ResourceRequest> = catalog_selectable_update::<
                            T,
                            ResourceRequest,
                        >(&mut self.selectable, &self.selected, self.catalog.as_slice(), addons);
                        page_effects.join(selectable_effects)
                    },
                    None => Effects::none().unchanged(),
                }
            },
            CatalogWithFiltersMsg::ProfileChanged => catalog_selectable_update::<T, ResourceRequest>(
                &mut self.selectable,
                &self.selected,
                self.catalog.as_slice(),
                addons,
            ),
            CatalogWithFiltersMsg::LibraryChanged => Effects::none(),
        }
    }
}

pub open spec fn types_once(ts: Seq<SelectableTypeView>) -> bool {
    forall|i: int, j: int| 0 <= i < j < ts.len() ==> ts[i].0 != ts[j].0
}

proof fn lemma_first_of_each_type_once(rs: Seq<ResourceRequestView>)
    ensures
        forall|i: int, j: int| 0 <= i < j < first_of_each_type(rs).len() ==> first_of_each_type(rs)[i].content_type
            != first_of_each_type(rs)[j].content_type,
    decreases rs.len(),
{
    if rs.len() > 0 {
        lemma_first_of_each_type_once(rs.drop_last());
        let rest = first_of_each_type(rs.drop_last());
        if !types_of(rest).contains(rs.last().content_type) {
            assert forall|i: int| 0 <= i < rest.len() implies rest[i].content_type != rs.last().content_type by {
                assert(types_of(rest)[i] == rest[i].content_type);
            }
        }
    }
}

proof fn lemma_rank_types_once(ts: Seq<SelectableTypeView>)
    requires
        types_once(ts),
    ensures
        types_once(rank_types(ts)),
        rank_types(ts).len() == ts.len(),
        forall|t: Seq<char>| choice_types(rank_types(ts)).contains(t) <==> choice_types(ts).contains(t),
    decreases ts.len(),
{
    if ts.len() > 0 {
        let earlier = ts.drop_last();
        assert(types_once(earlier)) by {
            assert forall|i: int, j: int| 0 <= i < j < earlier.len() implies earlier[i].0 != earlier[j].0 by {
                assert(earlier[i] == ts[i] && earlier[j] == ts[j]);
            }
        }
        lemma_rank_types_once(earlier);
        let ranked = rank_types(earlier);
        let x = ts.last();
        let k = type_rank_position(ranked, x);
        lemma_rank_position_bounds(ranked, x);
        let all = ranked.insert(k, x);
        assert(all == rank_types(ts));
        assert forall|i: int| 0 <= i < ranked.len() implies ranked[i].0 != x.0 by {
            if ranked[i].0 == x.0 {
                assert(choice_types(ranked)[i] == x.0);
                assert(choice_types(ranked).contains(x.0));
                assert(choice_types(earlier).contains(x.0));
                let j = choose|j: int| 0 <= j < choice_types(earlier).len() && choice_types(earlier)[j] == x.0;
                assert(earlier[j] == ts[j]);
            }
        }
        assert forall|i: int, j: int| 0 <= i < j < all.len() implies all[i].0 != all[j].0 by {
            if i < k && j < k {
            } else if i < k && j == k {
            } else if i < k {
                assert(all[j] == ranked[j - 1]);
            } else if i == k {
                assert(all[j] == ranked[j - 1]);
            } else {
                assert(all[i] == ranked[i - 1] && all[j] == ranked[j - 1]);
            }
        }
        assert forall|t: Seq<char>| choice_types(all).contains(t) <==> choice_types(ts).contains(t) by {
            if choice_types(all).contains(t) {
                let i = choose|i: int| 0 <= i < choice_types(all).len() && choice_types(all)[i] == t;
                if i == k {
                    assert(choice_types(ts)[ts.len() - 1] == t);
                } else {
                    let m = if i < k { i } else { i - 1 };
                    assert(choice_types(ranked)[m] == t);
                    assert(choice_types(earlier).contains(t));
                    let j = choose|j: int| 0 <= j < choice_types(earlier).len() && choice_types(earlier)[j] == t;
                    assert(choice_types(ts)[j] == t);
                }
            }
            if choice_types(ts).contains(t) {
                let i = choose|i: int| 0 <= i < choice_types(ts).len() && choice_types(ts)[i] == t;
                if i == ts.len() - 1 {
                    assert(choice_types(all)[k] == t);
                } else {
                    assert(choice_types(earlier)[i] == t);
                    assert(choice_types(earlier).contains(t));
                    assert(choice_types(ranked).contains(t));
                    let m = choose|m: int| 0 <= m < choice_types(ranked).len() && choice_types(ranked)[m] == t;
                    if m < k {
                        assert(choice_types(all)[m] == t);
                    } else {
                        assert(choice_types(all)[m + 1] == t);
                    }
                }
            }
        }
    }
}

proof fn lemma_rank_position_bounds(ranked: Seq<SelectableTypeView>, x: SelectableTypeView)
    ensures
        0 <= type_rank_position(ranked, x) <= ranked.len(),
    decreases ranked.len(),
{
    if ranked.len() > 0 {
        lemma_rank_position_bounds(ranked.drop_first(), x);
    }
}

/// A catalog view offers each content type once.
pub proof fn law_types_offered_once<T: CatalogResourceAdapter>(
    selected: Option<Selected>,
    catalog: Seq<ResourceLoadable<Vec<T>>>,
    addons: Seq<Descriptor>,
)
    ensures
        types_once(spec_catalog_selectable::<T>(selected, catalog, addons).0),
{
    let sel = selected_view(selected);
    let firsts = first_of_each_type(type_requests::<T>(sel, catalog_entries::<T>(addons)));
    lemma_first_of_each_type_once(type_requests::<T>(sel, catalog_entries::<T>(addons)));
    let choices = type_choices(sel, firsts);
    assert(types_once(choices)) by {
        assert forall|i: int, j: int| 0 <= i < j < choices.len() implies choices[i].0 != choices[j].0 by {
            assert(choices[i].0 == firsts[i].content_type && choices[j].0 == firsts[j].content_type);
        }
    }
    lemma_rank_types_once(choices);
    let ranked = rank_types(choices);
    let reversed = ranked.reverse();
    assert forall|i: int, j: int| 0 <= i < j < reversed.len() implies reversed[i].0 != reversed[j].0 by {
        assert(reversed[i] == ranked[ranked.len() - 1 - i] && reversed[j] == ranked[ranked.len() - 1 - j]);
    }
}

} // verus!
