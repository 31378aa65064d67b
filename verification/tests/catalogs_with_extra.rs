use stremio_core::models::catalogs_with_extra::{CatalogsEffect, CatalogsWithExtra, CatalogsWithExtraMsg, Selected};
use stremio_core::models::common::Loadable;
use stremio_core::types::addon::{ExtraValue, ResourcePath, ResourceRequest};
use stremio_core::types::resource::MetaItemPreview;

fn extra(name: &str, value: &str) -> ExtraValue {
    ExtraValue { name: name.into(), value: value.into() }
}

fn request(base: &str, id: &str) -> ResourceRequest {
    ResourceRequest {
        base: base.into(),
        path: ResourcePath { resource: "catalog".into(), content_type: "movie".into(), id: id.into(), extra: vec![extra("search", "matrix")] },
    }
}

fn preview(id: &str) -> MetaItemPreview {
    MetaItemPreview { id: id.into(), content_type: "movie".into(), name: id.into(), poster: None, default_video_id: None }
}

#[test]
fn catalogs_with_extra_load_search_and_ranges() {
    let planned = vec![request("https://a", "top"), request("https://b", "top"), request("https://c", "top")];
    let mut model = CatalogsWithExtra { selected: None, catalogs: vec![] };
    let selected = Selected { content_type: Some("movie".into()), extra: vec![extra("skip", "100"), extra("search", "matrix")] };
    let effects = model.update(CatalogsWithExtraMsg::Load(selected, &planned));
    assert!(effects.has_changed);
    assert_eq!(effects.into_effects(), vec![CatalogsEffect::Search("matrix".into())]);
    assert_eq!(model.selected.as_ref().unwrap().extra, vec![extra("search", "matrix")]);
    assert_eq!(model.catalogs.len(), 3);
    assert!(model.catalogs.iter().all(|c| c.len() == 1 && c[0].content.is_none()));
    let effects = model.update(CatalogsWithExtraMsg::LoadRange(0, 1, &planned));
    assert_eq!(
        effects.into_effects(),
        vec![CatalogsEffect::Fetch(planned[0].clone()), CatalogsEffect::Fetch(planned[1].clone())]
    );
    assert_eq!(model.catalogs[0][0].content, Some(Loadable::Loading));
    assert_eq!(model.catalogs[2][0].content, None);
    let effects = model.update(CatalogsWithExtraMsg::ResourceRequestResult(&planned[0], Ok(Ok(vec![preview("tt1")]))));
    assert!(effects.has_changed);
    assert_eq!(model.catalogs[0][0].content, Some(Loadable::Ready(vec![preview("tt1")])));
    // a second answer is not taken
    let late = model.update(CatalogsWithExtraMsg::ResourceRequestResult(&planned[0], Ok(Ok(vec![]))));
    assert!(!late.has_changed);
    // loaded catalogs are kept when the range is loaded again
    let effects = model.update(CatalogsWithExtraMsg::LoadRange(0, 2, &planned));
    assert_eq!(effects.into_effects(), vec![CatalogsEffect::Fetch(planned[2].clone())]);
    assert_eq!(model.catalogs[0][0].content, Some(Loadable::Ready(vec![preview("tt1")])));
    assert_eq!(model.catalogs[1][0].content, Some(Loadable::Loading));
    assert!(model.update(CatalogsWithExtraMsg::LibraryChanged).has_changed);
    let effects = model.update(CatalogsWithExtraMsg::Unload);
    assert!(effects.has_changed);
    assert!(model.selected.is_none() && model.catalogs.is_empty());
}
