use stremio_core::models::catalog_with_filters::{
    catalog_selectable_update, extend_one, CatalogWithFilters, CatalogWithFiltersMsg, Selectable, Selected,
};
use stremio_core::models::common::resource_loadable::ResourceLoadable;
use stremio_core::models::common::Loadable;
use stremio_core::types::addon::{
    Descriptor, DescriptorFlags, ExtraProp, ExtraValue, Manifest, ManifestCatalog, ResourcePath, ResourceRequest,
};
use stremio_core::types::resource::{DescriptorPreview, MetaItemPreview};

fn prop(name: &str, is_required: bool, options: &[&str], options_limit: usize) -> ExtraProp {
    ExtraProp { name: name.into(), is_required, options: options.iter().map(|o| o.to_string()).collect(), options_limit }
}

fn catalog(id: &str, content_type: &str, name: Option<&str>, extra: Vec<ExtraProp>) -> ManifestCatalog {
    ManifestCatalog { id: id.into(), content_type: content_type.into(), name: name.map(|n| n.to_string()), extra }
}

fn addon(id: &str, catalogs: Vec<ManifestCatalog>, addon_catalogs: Vec<ManifestCatalog>) -> Descriptor {
    Descriptor {
        manifest: Manifest {
            id: id.into(),
            name: id.into(),
            types: vec![],
            configuration_required: false,
            catalogs,
            addon_catalogs,
        },
        transport_url: format!("https://{id}.example/addon"),
        flags: DescriptorFlags::default(),
    }
}

fn extra(pairs: &[(&str, &str)]) -> Vec<ExtraValue> {
    pairs.iter().map(|(n, v)| ExtraValue { name: n.to_string(), value: v.to_string() }).collect()
}

fn request(addon: &str, resource: &str, content_type: &str, id: &str, pairs: &[(&str, &str)]) -> ResourceRequest {
    ResourceRequest {
        base: format!("https://{addon}.example/addon"),
        path: ResourcePath { resource: resource.into(), content_type: content_type.into(), id: id.into(), extra: extra(pairs) },
    }
}

fn empty() -> Selectable {
    Selectable { types: vec![], catalogs: vec![], extra: vec![], next_page: None }
}

fn preview(id: &str) -> MetaItemPreview {
    MetaItemPreview { id: id.into(), content_type: "movie".into(), name: id.into(), poster: None, default_video_id: None }
}

fn addons() -> Vec<Descriptor> {
    vec![
        addon(
            "cinemeta",
            vec![
                catalog("top", "movie", Some("Popular"), vec![prop("genre", false, &["Action", "Drama"], 1), prop("skip", false, &[], 1)]),
                catalog("search", "series", None, vec![prop("search", true, &[], 1)]),
                catalog("year", "series", None, vec![prop("year", true, &["2024", "2023"], 1)]),
                catalog("imdb", "movie", None, vec![]),
            ],
            vec![],
        ),
        addon("channels", vec![catalog("chan", "channel", None, vec![])], vec![]),
    ]
}

#[test]
fn types_rank_by_priority_and_catalogs_need_their_required_values() {
    let mut selectable = empty();
    let r = catalog_selectable_update::<MetaItemPreview, ()>(&mut selectable, &None, &[], &addons());
    assert!(r.has_changed && r.effects.is_empty());
    let types: Vec<&str> = selectable.types.iter().map(|t| t.content_type.as_str()).collect();
    assert_eq!(types, vec!["movie", "series", "channel"]);
    assert!(selectable.types.iter().all(|t| !t.selected));
    let names: Vec<&str> = selectable.catalogs.iter().map(|c| c.catalog.as_str()).collect();
    assert_eq!(names, vec!["Popular", "year", "imdb", "chan"]);
    assert_eq!(selectable.catalogs[1].request, request("cinemeta", "catalog", "series", "year", &[("year", "2024")]));
    assert!(selectable.extra.is_empty() && selectable.next_page.is_none());
    let again = catalog_selectable_update::<MetaItemPreview, ()>(&mut selectable, &None, &[], &addons());
    assert!(!again.has_changed);
}

#[test]
fn a_selected_catalog_offers_its_extra_options_and_the_next_page() {
    let mut selectable = empty();
    let selected = Some(Selected { request: request("cinemeta", "catalog", "movie", "top", &[("genre", "Action")]) });
    let pages = vec![ResourceLoadable {
        request: request("cinemeta", "catalog", "movie", "top", &[("genre", "Action")]),
        content: Some(Loadable::Ready(vec![preview("a"), preview("b")])),
    }];
    catalog_selectable_update::<MetaItemPreview, ()>(&mut selectable, &selected, &pages, &addons());
    assert!(selectable.types.iter().any(|t| t.content_type == "movie" && t.selected));
    let names: Vec<(&str, bool)> = selectable.catalogs.iter().map(|c| (c.catalog.as_str(), c.selected)).collect();
    assert_eq!(names, vec![("Popular", true), ("imdb", false)]);
    assert_eq!(selectable.extra.len(), 1);
    let genre = &selectable.extra[0];
    assert_eq!(genre.name, "genre");
    let options: Vec<(Option<&str>, bool)> = genre.options.iter().map(|o| (o.value.as_deref(), o.selected)).collect();
    assert_eq!(options, vec![(None, false), (Some("Action"), true), (Some("Drama"), false)]);
    assert_eq!(genre.options[0].request, request("cinemeta", "catalog", "movie", "top", &[]));
    assert_eq!(genre.options[2].request, request("cinemeta", "catalog", "movie", "top", &[("genre", "Drama")]));
    let next = selectable.next_page.as_ref().map(|p| p.request.clone());
    assert_eq!(next, Some(request("cinemeta", "catalog", "movie", "top", &[("skip", "2"), ("genre", "Action")])));
    let loading = vec![ResourceLoadable { request: request("cinemeta", "catalog", "movie", "top", &[]), content: Some(Loadable::Loading) }];
    catalog_selectable_update::<MetaItemPreview, ()>(&mut selectable, &selected, &loading, &addons());
    assert!(selectable.next_page.is_none());
}

#[test]
fn addon_catalogs_come_first_once_each() {
    let addons = vec![addon(
        "community",
        vec![],
        vec![catalog("all", "movie", None, vec![]), catalog("all", "series", None, vec![]), catalog("new", "tv", None, vec![])],
    )];
    let mut selectable = empty();
    catalog_selectable_update::<DescriptorPreview, ()>(&mut selectable, &None, &[], &addons);
    let names: Vec<&str> = selectable.catalogs.iter().map(|c| c.request.path.id.as_str()).collect();
    assert_eq!(names, vec!["all", "new"]);
    let types: Vec<&str> = selectable.types.iter().map(|t| t.content_type.as_str()).collect();
    assert_eq!(types, vec!["movie", "series", "tv"]);
    let selected = Some(Selected { request: request("community", "addon_catalog", "series", "all", &[]) });
    catalog_selectable_update::<DescriptorPreview, ()>(&mut selectable, &selected, &[], &addons);
    let types: Vec<(&str, bool)> = selectable.types.iter().map(|t| (t.content_type.as_str(), t.selected)).collect();
    assert_eq!(types, vec![("movie", false), ("series", true)]);
}

#[test]
fn extending_extra_values_follows_the_limit_of_the_property() {
    let base = extra(&[("genre", "Action"), ("skip", "100")]);
    assert_eq!(extend_one(&base, &prop("skip", false, &[], 1), Some("200".into())), extra(&[("skip", "200"), ("genre", "Action")]));
    let multi = prop("genre", false, &["Action", "Drama", "Comedy"], 2);
    assert_eq!(extend_one(&base, &multi, Some("Drama".into())), extra(&[("genre", "Drama"), ("genre", "Action"), ("skip", "100")]));
    assert_eq!(extend_one(&base, &multi, Some("Action".into())), extra(&[("skip", "100")]));
    assert_eq!(extend_one(&base, &prop("genre", false, &[], 1), None), extra(&[("skip", "100")]));
    assert_eq!(extend_one(&base, &prop("genre", true, &[], 1), None), extra(&[("genre", "Action"), ("skip", "100")]));
}

#[test]
fn a_catalog_view_loads_pages_of_the_selection() {
    let addons = addons();
    let mut model: CatalogWithFilters<MetaItemPreview> = CatalogWithFilters { selected: None, selectable: empty(), catalog: vec![] };
    let r = model.update(CatalogWithFiltersMsg::ProfileChanged, &addons);
    assert!(r.has_changed && r.effects.is_empty());
    let r = model.update(CatalogWithFiltersMsg::Load(&None), &addons);
    let first = request("cinemeta", "catalog", "movie", "top", &[]);
    assert_eq!(model.selected.as_ref().map(|s| s.request.clone()), Some(first.clone()));
    assert_eq!(r.effects, vec![first.clone()]);
    assert_eq!(model.catalog.len(), 1);
    assert!(model.selectable.next_page.is_none());
    let answer = model.update(
        CatalogWithFiltersMsg::ResourceRequestResult { request: &first, result: Ok(Ok(vec![preview("a"), preview("b"), preview("c")])) },
        &addons,
    );
    assert!(answer.has_changed);
    let next = model.selectable.next_page.as_ref().map(|p| p.request.clone());
    let second = request("cinemeta", "catalog", "movie", "top", &[("skip", "3")]);
    assert_eq!(next, Some(second.clone()));
    let r = model.update(CatalogWithFiltersMsg::LoadNextPage, &addons);
    assert_eq!(r.effects, vec![second.clone()]);
    assert_eq!(model.catalog.len(), 2);
    assert!(model.selectable.next_page.is_none());
    let stray = model.update(
        CatalogWithFiltersMsg::ResourceRequestResult { request: &request("other", "catalog", "movie", "x", &[]), result: Ok(Ok(vec![])) },
        &addons,
    );
    assert!(!stray.has_changed);
    let skip_selected = Some(Selected { request: request("cinemeta", "catalog", "movie", "top", &[("skip", "100"), ("genre", "Drama")]) });
    model.update(CatalogWithFiltersMsg::Load(&skip_selected), &addons);
    assert_eq!(
        model.selected.as_ref().map(|s| s.request.clone()),
        Some(request("cinemeta", "catalog", "movie", "top", &[("genre", "Drama")]))
    );
    assert!(model.update(CatalogWithFiltersMsg::LibraryChanged, &addons).has_changed);
    let r = model.update(CatalogWithFiltersMsg::Unload, &addons);
    assert!(r.has_changed && model.selected.is_none() && model.catalog.is_empty());
    assert!(model.selectable.extra.is_empty());
}
