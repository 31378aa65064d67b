use stremio_core::models::common::resource_loadable::{ResourceError, ResourceLoadable};
use stremio_core::models::common::Loadable;
use stremio_core::models::source_preview::{
    selected_guess_stream_update, Selected, SourcePreview, SourceStatus,
};
use stremio_core::runtime::Effects;
use stremio_core::types::addon::{ResourcePath, ResourceRequest};
use stremio_core::types::resource::{MetaItem, MetaItemPreview, Stream, StreamSource, Video};

fn path(id: &str) -> ResourcePath {
    ResourcePath { resource: "meta".into(), content_type: "movie".into(), id: id.into(), extra: vec![] }
}

fn request(id: &str) -> ResourceRequest {
    ResourceRequest { base: "https://a".into(), path: path(id) }
}

fn stream(source: StreamSource) -> Stream {
    Stream { source, name: None, description: None }
}

fn streams(content: Option<Loadable<Vec<Stream>, ResourceError>>) -> ResourceLoadable<Vec<Stream>> {
    ResourceLoadable { request: request("tt1"), content }
}

#[test]
fn source_preview_status_follows_the_streams() {
    let mut preview: SourcePreview<MetaItem> = SourcePreview::new();
    assert_eq!(preview.status(), SourceStatus::Unknown);
    preview.selected = Some(Selected { meta_path: path("tt1"), stream_path: Some(path("tt1")), guess_stream: false });
    preview.meta_items = vec![ResourceLoadable { request: request("tt1"), content: Some(Loadable::Loading) }];
    assert_eq!(preview.status(), SourceStatus::Checking);
    preview.meta_items = vec![ResourceLoadable {
        request: request("tt1"),
        content: Some(Loadable::Ready(MetaItem { preview: MetaItemPreview { id: "tt1".to_string(), content_type: "series".to_string(), name: "A".to_string(), poster: None, default_video_id: None }, videos: vec![] })),
    }];
    preview.streams = vec![streams(Some(Loadable::Ready(vec![stream(StreamSource::External { external_url: None })])))];
    assert_eq!(preview.status(), SourceStatus::ExternalOnly);
    preview.streams.push(streams(Some(Loadable::Ready(vec![stream(StreamSource::Url { url: "https://v".into() })]))));
    assert_eq!(preview.status(), SourceStatus::SourcesFound);
    let shown = preview.preview();
    assert_eq!(shown.id, Some("tt1"));
    assert_eq!(shown.status, SourceStatus::SourcesFound);
    preview.streams = vec![streams(Some(Loadable::Error(ResourceError::Env(
        stremio_core::runtime::EnvError::Fetch("x".into()),
    ))))];
    assert_eq!(preview.status(), SourceStatus::CheckFailed);
}

#[test]
fn source_preview_clear_starts_a_new_generation_and_isolate_tags_requests() {
    let mut preview: SourcePreview<MetaItem> = SourcePreview::new();
    preview.selected = Some(Selected { meta_path: path("tt1"), stream_path: None, guess_stream: true });
    preview.streams = vec![streams(None)];
    preview.clear();
    assert_eq!(preview.generation, 1);
    assert!(preview.selected.is_none() && preview.streams.is_empty());
    let effects = preview.isolate(Effects::many(vec![request("a"), request("b")]).unchanged());
    assert!(!effects.has_changed);
    assert_eq!(effects.into_effects(), vec![(1, request("a")), (1, request("b"))]);
    preview.generation = u64::MAX;
    preview.clear();
    assert_eq!(preview.generation, 0);
}

fn movie(default_video_id: Option<&str>, videos: Vec<&str>) -> MetaItem {
    MetaItem {
        preview: MetaItemPreview {
            id: "tt1".to_string(),
            content_type: "movie".to_string(),
            name: "A".to_string(),
            poster: None,
            default_video_id: default_video_id.map(|id| id.to_string()),
        },
        videos: videos
            .into_iter()
            .map(|id| Video {
                id: id.to_string(),
                title: id.to_string(),
                released: None,
                series_info: None,
                streams: vec![],
                epg_info: None,
            })
            .collect(),
    }
}

fn meta(content: Option<Loadable<MetaItem, ResourceError>>) -> ResourceLoadable<MetaItem> {
    ResourceLoadable { request: request("tt1"), content }
}

fn guessing() -> Option<Selected> {
    Some(Selected { meta_path: path("tt1"), stream_path: None, guess_stream: true })
}

fn stream_path(id: &str) -> ResourcePath {
    ResourcePath { resource: "stream".into(), content_type: "movie".into(), id: id.into(), extra: vec![] }
}

#[test]
fn guess_stream_uses_the_meta_item_when_it_has_no_videos() {
    let mut selected = guessing();
    let effects = selected_guess_stream_update::<()>(&mut selected, &[meta(Some(Loadable::Ready(movie(None, vec![]))))]);
    assert!(effects.has_changed);
    assert_eq!(
        selected,
        Some(Selected { meta_path: path("tt1"), stream_path: Some(stream_path("tt1")), guess_stream: false })
    );
    // once guessed, nothing more happens
    let again = selected_guess_stream_update::<()>(&mut selected, &[meta(Some(Loadable::Ready(movie(None, vec![]))))]);
    assert!(!again.has_changed);
}

#[test]
fn guess_stream_prefers_the_default_video_and_waits_for_all_addons() {
    let ready = || meta(Some(Loadable::Ready(movie(Some("tt1:1:1"), vec!["tt1:1:1", "tt1:1:2"]))));
    let failed = meta(Some(Loadable::Error(ResourceError::EmptyContent)));
    let mut selected = guessing();
    // an addon is still loading
    let waiting = selected_guess_stream_update::<()>(&mut selected, &[ready(), meta(Some(Loadable::Loading))]);
    assert!(!waiting.has_changed);
    assert_eq!(selected, guessing());
    // a failed addon does not stop the guess; the first loaded meta item decides
    selected_guess_stream_update::<()>(&mut selected, &[failed, ready()]);
    assert_eq!(selected.unwrap().stream_path, Some(stream_path("tt1:1:1")));
    // several videos and no default video: no guess
    let mut selected = guessing();
    let none = selected_guess_stream_update::<()>(
        &mut selected,
        &[meta(Some(Loadable::Ready(movie(None, vec!["tt1:1:1", "tt1:1:2"]))))],
    );
    assert!(!none.has_changed);
    assert_eq!(selected, guessing());
    // a selection that does not ask for a guess is kept
    let mut chosen = Some(Selected { meta_path: path("tt1"), stream_path: None, guess_stream: false });
    selected_guess_stream_update::<()>(&mut chosen, &[meta(Some(Loadable::Ready(movie(None, vec![]))))]);
    assert_eq!(chosen, Some(Selected { meta_path: path("tt1"), stream_path: None, guess_stream: false }));
}
