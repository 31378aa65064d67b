//! The installed addons, filtered by the content type they serve.

use vstd::prelude::*;

use crate::constants::{priorities_view, spec_type_priorities, type_priorities};
use crate::models::library_with_filters::{ranked_texts, strings_view, types_ranked};
use crate::runtime::Effects;
use crate::types::addon::{descriptor_view, same_descriptor, Descriptor, DescriptorView};
use crate::types::library::{same_text, text_view};

verus! {

/// A listing request: the content type shown (all types when none).
#[derive(PartialEq, Eq, Debug)]
pub struct InstalledAddonsRequest {
    pub content_type: Option<String>,
}

/// The selected request.
#[derive(PartialEq, Eq, Debug)]
pub struct Selected {
    pub request: InstalledAddonsRequest,
}

/// A content type that can be selected, with the request that selects it.
#[derive(PartialEq, Eq, Debug)]
pub struct SelectableType {
    pub content_type: Option<String>,
    pub selected: bool,
    pub request: InstalledAddonsRequest,
}

/// The choices of the view.
#[derive(PartialEq, Eq, Debug)]
pub struct Selectable {
    pub types: Vec<SelectableType>,
}

/// The installed addons view.
pub struct InstalledAddonsWithFilters {
    pub selected: Option<Selected>,
    pub selectable: Selectable,
    pub catalog: Vec<Descriptor>,
}

/// What the view reacts to.
pub enum InstalledAddonsMsg {
    /// A request is selected.
    Load(Selected),
    /// The view is left.
    Unload,
    /// The installed addons changed.
    ProfileChanged,
}

/// The type of the selection, none without a selection.
pub open spec fn selected_type(selected: Option<Selected>) -> Option<Seq<char>> {
    match selected {
        Some(s) => text_view(s.request.content_type),
        None => None,
    }
}

/// The content types that the addons serve, addon by addon.
pub open spec fn served_types(addons: Seq<Descriptor>) -> Seq<Seq<char>>
    decreases addons.len(),
{
    if addons.len() == 0 {
        Seq::empty()
    } else {
        served_types(addons.drop_last()) + strings_view(addons.last().manifest.types@)
    }
}

/// The types offered: first all types, then each type that an addon
/// serves, distinct and highest priority first.
pub open spec fn spec_selectable(
    selected: Option<Selected>,
    addons: Seq<Descriptor>,
    types: Seq<SelectableType>,
) -> bool {
    let ts = types.drop_first().map_values(|t: SelectableType| text_view(t.content_type)->0);
    &&& types.len() >= 1
    &&& types[0].content_type is None
    &&& types[0].request.content_type is None
    &&& types[0].selected == (selected is Some && selected_type(selected) is None)
    &&& forall|i: int|
        1 <= i < types.len() ==> {
            &&& (#[trigger] types[i]).content_type is Some
            &&& text_view(types[i].request.content_type) == text_view(types[i].content_type)
            &&& types[i].selected == (selected_type(selected) == text_view(types[i].content_type))
        }
    &&& ts.no_duplicates()
    &&& types_ranked(ts, spec_type_priorities())
    &&& forall|t: Seq<char>| ts.contains(t) <==> served_types(addons).contains(t)
}

/// Whether an addon serves the requested type (any addon for all types).
pub open spec fn serves(addon: Descriptor, content_type: Option<Seq<char>>) -> bool {
    match content_type {
        Some(t) => strings_view(addon.manifest.types@).contains(t),
        None => true,
    }
}

/// The addons of the selection, in order; none without a selection.
pub open spec fn spec_catalog(selected: Option<Selected>, addons: Seq<Descriptor>) -> Seq<DescriptorView>
    decreases addons.len(),
{
    if addons.len() == 0 || selected is None {
        Seq::empty()
    } else {
        let rest = spec_catalog(selected, addons.drop_last());
        if serves(addons.last(), selected_type(selected)) {
            rest.push(descriptor_view(addons.last()))
        } else {
            rest
        }
    }
}

pub open spec fn catalog_view(catalog: Seq<Descriptor>) -> Seq<DescriptorView> {
    catalog.map_values(|d: Descriptor| descriptor_view(d))
}

pub open spec fn selectable_view(selectable: Selectable) -> Seq<(Option<Seq<char>>, bool, Option<Seq<char>>)> {
    selectable.types@.map_values(
        |t: SelectableType| (text_view(t.content_type), t.selected, text_view(t.request.content_type)),
    )
}

pub open spec fn selected_view(selected: Option<Selected>) -> Option<Option<Seq<char>>> {
    match selected {
        Some(s) => Some(text_view(s.request.content_type)),
        None => None,
    }
}

fn copy_text(value: &Option<String>) -> (r: Option<String>)
    ensures
        text_view(r) == text_view(*value),
{
    match value {
        Some(s) => Some(s.clone()),
        None => None,
    }
}

fn collect_types(addons: &[Descriptor]) -> (r: Vec<String>)
    ensures
        strings_view(r@) == served_types(addons@),
{
    let mut out: Vec<String> = Vec::new();
    let mut i: usize = 0;
    while i < addons.len()
        invariant
            i <= addons.len(),
            strings_view(out@) == served_types(addons@.take(i as int)),
        decreases addons.len() - i,
    {
        assert(addons@.take(i + 1).drop_last() =~= addons@.take(i as int));
        let types = &addons[i].manifest.types;
        let ghost start = strings_view(out@);
        let mut j: usize = 0;
        while j < types.len()
            invariant
                j <= types.len(),
                strings_view(out@) == start + strings_view(types@.take(j as int)),
            decreases types.len() - j,
        {
            let ghost before = out@;
            out.push(types[j].clone());
            assert(types@.take(j + 1) =~= types@.take(j as int).push(types@[j as int]));
            assert(strings_view(out@) =~= strings_view(before).push(types@[j as int]@));
            assert(strings_view(types@.take(j + 1)) =~= strings_view(types@.take(j as int)).push(
                types@[j as int]@,
            ));
            assert(strings_view(out@) =~= start + strings_view(types@.take(j + 1)));
            j = j + 1;
        }
        assert(types@.take(types.len() as int) =~= types@);
        i = i + 1;
    }
    assert(addons@.take(addons.len() as int) =~= addons@);
    out
}

fn holds(values: &Vec<String>, t: &String) -> (r: bool)
    ensures
        r == strings_view(values@).contains(t@),
{
    let mut i: usize = 0;
    while i < values.len()
        invariant
            i <= values.len(),
            forall|j: int| 0 <= j < i ==> values@[j]@ != t@,
        decreases values.len() - i,
    {
        if crate::text::str_eq(values[i].as_str(), t.as_str()) {
            assert(strings_view(values@)[i as int] == t@);
            return true;
        }
        i = i + 1;
    }
    assert(!strings_view(values@).contains(t@)) by {
        if strings_view(values@).contains(t@) {
            let j = choose|j: int| 0 <= j < strings_view(values@).len() && strings_view(values@)[j] == t@;
            assert(values@[j]@ == t@);
        }
    }
    false
}

/// The reducer of the choices.
pub fn selectable_update<A>(
    selectable: &mut Selectable,
    selected: &Option<Selected>,
    addons: &[Descriptor],
) -> (r: Effects<A>)
    ensures
        spec_selectable(*selected, addons@, final(selectable).types@),
        r.effect_list().len() == 0,
        r.has_changed == (selectable_view(*old(selectable)) != selectable_view(*final(selectable))),
{
    let none: Option<String> = None;
    let chosen: &Option<String> = match selected {
        Some(s) => &s.request.content_type,
        None => &none,
    };
    let mut types: Vec<SelectableType> = Vec::new();
    types.push(
        SelectableType {
            content_type: None,
            selected: match selected {
                Some(s) => s.request.content_type.is_none(),
                None => false,
            },
            request: InstalledAddonsRequest { content_type: None },
        },
    );
    let all = collect_types(addons);
    let priorities = type_priorities();
    let ranked = ranked_texts(all.as_slice(), priorities.as_slice());
    let ghost rv = strings_view(ranked@);
    let mut i: usize = 0;
    while i < ranked.len()
        invariant
            i <= ranked.len(),
            rv == strings_view(ranked@),
            text_view(*chosen) == selected_type(*selected),
            types@.len() == i + 1,
            types@[0].content_type is None,
            types@[0].request.content_type is None,
            types@[0].selected == (selected is Some && selected_type(*selected) is None),
            forall|j: int|
                1 <= j < types@.len() ==> {
                    &&& (#[trigger] types@[j]).content_type is Some
                    &&& text_view(types@[j].content_type)->0 == rv[j - 1]
                    &&& text_view(types@[j].request.content_type) == text_view(types@[j].content_type)
                    &&& types@[j].selected == (selected_type(*selected) == text_view(
                        types@[j].content_type,
                    ))
                },
        decreases ranked.len() - i,
    {
        let t = Some(ranked[i].clone());
        let is_selected = same_text(chosen, &t);
        let request = InstalledAddonsRequest { content_type: copy_text(&t) };
        types.push(SelectableType { content_type: t, selected: is_selected, request });
        i = i + 1;
    }
    let ghost ts = types@.drop_first().map_values(
        |t: SelectableType| text_view(t.content_type)->0,
    );
    assert(ts =~= rv);
    assert(priorities_view(priorities@) == spec_type_priorities());
    let next = Selectable { types };
    let same = same_selectable(selectable, &next);
    *selectable = next;
    if same {
        Effects::none().unchanged()
    } else {
        Effects::none()
    }
}

fn same_selectable(a: &Selectable, b: &Selectable) -> (r: bool)
    ensures
        r == (selectable_view(*a) == selectable_view(*b)),
{
    let ghost va = selectable_view(*a);
    let ghost vb = selectable_view(*b);
    if a.types.len() != b.types.len() {
        assert(va.len() != vb.len());
        return false;
    }
    let mut i: usize = 0;
    while i < a.types.len()
        invariant
            i <= a.types.len(),
            a.types.len() == b.types.len(),
            va == selectable_view(*a),
            vb == selectable_view(*b),
            forall|j: int| 0 <= j < i ==> va[j] == #[trigger] vb[j],
        decreases a.types.len() - i,
    {
        let x = &a.types[i];
        let y = &b.types[i];
        if !(same_text(&x.content_type, &y.content_type) && x.selected == y.selected && same_text(
            &x.request.content_type,
            &y.request.content_type,
        )) {
            assert(va[i as int] != vb[i as int]);
            return false;
        }
        i = i + 1;
    }
    assert(va =~= vb);
    true
}

fn same_catalog(a: &Vec<Descriptor>, b: &Vec<Descriptor>) -> (r: bool)
    ensures
        r == (catalog_view(a@) == catalog_view(b@)),
{
    if a.len() != b.len() {
        assert(catalog_view(a@).len() != catalog_view(b@).len());
        return false;
    }
    let mut i: usize = 0;
    while i < a.len()
        invariant
            i <= a.len(),
            a.len() == b.len(),
            forall|j: int| 0 <= j < i ==> descriptor_view(a@[j]) == #[trigger] descriptor_view(b@[j]),
        decreases a.len() - i,
    {
        if !same_descriptor(&a[i], &b[i]) {
            assert(catalog_view(a@)[i as int] != catalog_view(b@)[i as int]);
            return false;
        }
        i = i + 1;
    }
    assert(catalog_view(a@) =~= catalog_view(b@));
    true
}


/// The reducer of the listed addons.
pub fn catalog_update<A>(
    catalog: &mut Vec<Descriptor>,
    selected: &Option<Selected>,
    addons: &[Descriptor],
) -> (r: Effects<A>)
    ensures
        catalog_view(final(catalog)@) == spec_catalog(*selected, addons@),
        r.effect_list().len() == 0,
        r.has_changed == (catalog_view(old(catalog)@) != catalog_view(final(catalog)@)),
{
    let mut next: Vec<Descriptor> = Vec::new();
    match selected {
        Some(s) => {
            let mut i: usize = 0;
            while i < addons.len()
                invariant
                    i <= addons.len(),
                    *selected == Some(*s),
                    catalog_view(next@) == spec_catalog(*selected, addons@.take(i as int)),
                decreases addons.len() - i,
            {
                assert(addons@.take(i + 1).drop_last() =~= addons@.take(i as int));
                let addon = &addons[i];
                let keep = match &s.request.content_type {
                    Some(t) => holds(&addon.manifest.types, t),
                    None => true,
                };
                if keep {
                    next.push(addon.clone());
                    assert(catalog_view(next@) =~= spec_catalog(*selected, addons@.take(i + 1)));
                }
                i = i + 1;
            }
            assert(addons@.take(addons.len() as int) =~= addons@);
        },
        None => {
            assert(catalog_view(next@) =~= spec_catalog(*selected, addons@));
        },
    }
    let same = same_catalog(catalog, &next);
    *catalog = next;
    if same {
        Effects::none().unchanged()
    } else {
        Effects::none()
    }
}

impl InstalledAddonsWithFilters {
    /// A view with nothing selected, offering the types of the addons;
    /// nothing is reported as changed.
    pub fn new(addons: &[Descriptor]) -> (r: (Self, Effects<()>))
        ensures
            r.0.selected is None,
            r.0.catalog@.len() == 0,
            spec_selectable(None, addons@, r.0.selectable.types@),
            !r.1.has_changed,
            r.1.effect_list().len() == 0,
    {
        let selected: Option<Selected> = None;
        let mut selectable = Selectable { types: Vec::new() };
        let effects = selectable_update::<()>(&mut selectable, &selected, addons);
        (
            InstalledAddonsWithFilters { selected, selectable, catalog: Vec::new() },
            effects.unchanged(),
        )
    }

    /// The reducer of the view: after a selection, leaving or a change of
    /// the addons, the choices and the listed addons are those of the
    /// (new) selection.
    pub fn update<A>(&mut self, msg: InstalledAddonsMsg, addons: &[Descriptor]) -> (r: Effects<A>)
        ensures
            r.effect_list().len() == 0,
            match msg {
                InstalledAddonsMsg::Load(s) => selected_view(final(self).selected) == Some(
                    text_view(s.request.content_type),
                ),
                InstalledAddonsMsg::Unload => final(self).selected is None,
                InstalledAddonsMsg::ProfileChanged => selected_view(final(self).selected)
                    == selected_view(old(self).selected),
            },
            spec_selectable(final(self).selected, addons@, final(self).selectable.types@),
            catalog_view(final(self).catalog@) == spec_catalog(final(self).selected, addons@),
            r.has_changed == (selected_view(old(self).selected) != selected_view(
                final(self).selected,
            ) || selectable_view(old(self).selectable) != selectable_view(final(self).selectable)
                || catalog_view(old(self).catalog@) != catalog_view(final(self).catalog@)),
    {
        let selected_effects: Effects<A> = match msg {
            InstalledAddonsMsg::Load(s) => {
                let same = match &self.selected {
                    Some(current) => same_text(&current.request.content_type, &s.request.content_type),
                    None => false,
                };
                self.selected = Some(s);
                if same {
                    Effects::none().unchanged()
                } else {
                    Effects::none()
                }
            },
            InstalledAddonsMsg::Unload => {
                let same = self.selected.is_none();
                self.selected = None;
                if same {
                    Effects::none().unchanged()
                } else {
                    Effects::none()
                }
            },
            InstalledAddonsMsg::ProfileChanged => Effects::none().unchanged(),
        };
        let selectable_effects: Effects<A> = selectable_update(&mut self.selectable, &self.selected, addons);
        let catalog_effects: Effects<A> = catalog_update(&mut self.catalog, &self.selected, addons);
        selected_effects.join(selectable_effects).join(catalog_effects)
    }
}


/// Whether an addon declares the content type among its types, at any
/// position.
pub open spec fn declares_type(addon: Descriptor, t: Seq<char>) -> bool {
    exists|j: int| 0 <= j < addon.manifest.types@.len() && (#[trigger] addon.manifest.types@[j])@ == t
}

/// With a type selected, the listed addons are exactly the installed addons
/// that declare that type among their types, in their order; with all
/// types selected, all of them; with nothing selected, none.
pub proof fn law_catalog_lists_addons_declaring_the_type(selected: Option<Selected>, addons: Seq<Descriptor>)
    ensures
        selected is None ==> spec_catalog(selected, addons).len() == 0,
        selected is Some ==> spec_catalog(selected, addons) == catalog_view(
            addons.filter(
                |a: Descriptor|
                    match selected_type(selected) {
                        Some(t) => declares_type(a, t),
                        None => true,
                    },
            ),
        ),
    decreases addons.len(),
{
    reveal(Seq::filter);
    let pred = |a: Descriptor|
        match selected_type(selected) {
            Some(t) => declares_type(a, t),
            None => true,
        };
    if addons.len() > 0 && selected is Some {
        law_catalog_lists_addons_declaring_the_type(selected, addons.drop_last());
        let last = addons.last();
        let sub = addons.drop_last().filter(pred);
        assert(addons.filter(pred) == if pred(last) {
            sub.push(last)
        } else {
            sub
        });
        assert(serves(last, selected_type(selected)) == pred(last)) by {
            if let Some(t) = selected_type(selected) {
                if strings_view(last.manifest.types@).contains(t) {
                    let j = choose|j: int|
                        0 <= j < strings_view(last.manifest.types@).len() && strings_view(last.manifest.types@)[j]
                            == t;
                    assert(last.manifest.types@[j]@ == t);
                }
                if declares_type(last, t) {
                    let j = choose|j: int| 0 <= j < last.manifest.types@.len() && (#[trigger] last.manifest.types@[j])@ == t;
                    assert(strings_view(last.manifest.types@)[j] == t);
                }
            }
        }
        assert(catalog_view(sub.push(last)) =~= catalog_view(sub).push(descriptor_view(last)));
    } else if addons.len() == 0 && selected is Some {
        assert(addons.filter(pred) =~= Seq::<Descriptor>::empty());
        assert(catalog_view(Seq::<Descriptor>::empty()) =~= Seq::<DescriptorView>::empty());
    }
}


/// A type is offered exactly when some installed addon declares it, at any
/// position among its types.
pub proof fn law_offered_types_are_declared_types(addons: Seq<Descriptor>, t: Seq<char>)
    ensures
        served_types(addons).contains(t) <==> exists|i: int| 0 <= i < addons.len() && declares_type(#[trigger] addons[i], t),
    decreases addons.len(),
{
    if addons.len() > 0 {
        let earlier = addons.drop_last();
        law_offered_types_are_declared_types(earlier, t);
        let a = served_types(earlier);
        let b = strings_view(addons.last().manifest.types@);
        assert(served_types(addons) == a + b);
        if (a + b).contains(t) {
            let k = choose|k: int| 0 <= k < (a + b).len() && (a + b)[k] == t;
            if k < a.len() {
                assert(a[k] == t);
                let i = choose|i: int| 0 <= i < earlier.len() && declares_type(#[trigger] earlier[i], t);
                assert(addons[i] == earlier[i]);
            } else {
                assert(b[k - a.len()] == t);
                assert(addons.last().manifest.types@[k - a.len()]@ == t);
                assert(declares_type(addons[addons.len() - 1], t));
            }
        }
        if exists|i: int| 0 <= i < addons.len() && declares_type(#[trigger] addons[i], t) {
            let i = choose|i: int| 0 <= i < addons.len() && declares_type(#[trigger] addons[i], t);
            if i < addons.len() - 1 {
                assert(earlier[i] == addons[i]);
                let k = choose|k: int| 0 <= k < a.len() && a[k] == t;
                assert((a + b)[k] == t);
            } else {
                let j = choose|j: int|
                    0 <= j < addons[i].manifest.types@.len() && (#[trigger] addons[i].manifest.types@[j])@ == t;
                assert(b[j] == t);
                assert((a + b)[a.len() + j] == t);
            }
        }
    }
}

} // verus!
