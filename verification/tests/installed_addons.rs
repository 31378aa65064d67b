use stremio_core::models::installed_addons_with_filters::{
    catalog_update, InstalledAddonsMsg, InstalledAddonsRequest, InstalledAddonsWithFilters, Selected,
};
use stremio_core::types::addon::{Descriptor, DescriptorFlags, Manifest};

fn addon(id: &str, types: &[&str]) -> Descriptor {
    Descriptor {
        manifest: Manifest {
            id: id.into(),
            name: id.into(),
            types: types.iter().map(|t| t.to_string()).collect(),
            configuration_required: false,
            catalogs: vec![],
            addon_catalogs: vec![],
        },
        transport_url: format!("https://{id}.example/addon"),
        flags: DescriptorFlags::default(),
    }
}

fn select(content_type: Option<&str>) -> Selected {
    Selected { request: InstalledAddonsRequest { content_type: content_type.map(|t| t.to_string()) } }
}

#[test]
fn installed_addons_offer_ranked_types_and_filter_by_type() {
    let addons = vec![
        addon("cinemeta", &["movie", "series"]),
        addon("tv", &["tv", "channel"]),
        addon("misc", &["other", "movie", "anime"]),
    ];
    let (mut model, effects) = InstalledAddonsWithFilters::new(&addons);
    assert!(!effects.has_changed);
    let types: Vec<Option<&str>> = model.selectable.types.iter().map(|t| t.content_type.as_deref()).collect();
    assert_eq!(types, vec![None, Some("movie"), Some("series"), Some("channel"), Some("tv"), Some("anime"), Some("other")]);
    assert!(model.selectable.types.iter().all(|t| !t.selected));
    let effects: stremio_core::runtime::Effects<()> = model.update(InstalledAddonsMsg::Load(select(Some("movie"))), &addons);
    assert!(effects.has_changed);
    let ids: Vec<&str> = model.catalog.iter().map(|a| a.manifest.id.as_str()).collect();
    assert_eq!(ids, vec!["cinemeta", "misc"]);
    assert!(model.selectable.types[1].selected && !model.selectable.types[0].selected);
    let again: stremio_core::runtime::Effects<()> = model.update(InstalledAddonsMsg::ProfileChanged, &addons);
    assert!(!again.has_changed);
    let _: stremio_core::runtime::Effects<()> = model.update(InstalledAddonsMsg::Load(select(None)), &addons);
    assert_eq!(model.catalog.len(), 3);
    assert!(model.selectable.types[0].selected);
    let _: stremio_core::runtime::Effects<()> = model.update(InstalledAddonsMsg::Unload, &addons);
    assert!(model.catalog.is_empty() && model.selected.is_none());
    let mut catalog = vec![];
    let nothing = catalog_update::<()>(&mut catalog, &Some(select(Some("documentary"))), &addons);
    assert!(!nothing.has_changed && catalog.is_empty());
}
