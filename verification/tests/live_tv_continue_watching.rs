use stremio_core::models::common::resource_loadable::{ResourceError, ResourceLoadable};
use stremio_core::models::common::Loadable;
use stremio_core::models::live_tv_continue_watching::{
    LiveTvContinueWatching, LiveTvContinueWatchingMsg, RETRY_AFTER_MILLIS, STALE_AFTER_MILLIS,
};
use stremio_core::runtime::EnvError;
use stremio_core::types::addon::{ResourcePath, ResourceRequest};
use stremio_core::types::library::{LibraryItem, LibraryItemState};
use stremio_core::types::resource::{EpgInfo, MetaItem, MetaItemPreview, Video};

const NOW: i64 = 1_700_000_000_000;
const HOUR: i64 = 3_600_000;

fn request(id: &str) -> ResourceRequest {
    ResourceRequest {
        base: "https://epg".to_string(),
        path: ResourcePath {
            resource: "meta".to_string(),
            content_type: "tv".to_string(),
            id: id.to_string(),
            extra: vec![],
        },
    }
}

fn library_item(id: &str, name: &str) -> LibraryItem {
    LibraryItem {
        default_video_id: None,
        id: id.to_string(),
        name: name.to_string(),
        content_type: "tv".to_string(),
        poster: Some("https://poster".to_string()),
        removed: false,
        temp: false,
        ctime: None,
        mtime: NOW,
        state: LibraryItemState { last_watched: Some(NOW - HOUR), ..Default::default() },
    }
}

fn video(id: &str, epg_info: Option<EpgInfo>) -> Video {
    Video { id: id.to_string(), title: id.to_string(), released: None, series_info: None, streams: vec![], epg_info }
}

fn program(id: &str, ends: i64) -> MetaItem {
    MetaItem {
        preview: MetaItemPreview {
            id: id.to_string(),
            content_type: "tv".to_string(),
            name: "Channel One".to_string(),
            poster: None,
            default_video_id: None,
        },
        videos: vec![
            video("show", Some(EpgInfo { start_time: ends - HOUR, end_time: ends })),
            video("clip", None),
        ],
    }
}

#[test]
fn live_tv_row_requests_each_channel_and_falls_back_to_the_library() {
    let library = vec![library_item("ch1", "Channel One")];
    let requests = vec![request("ch1"), request("ch2")];
    let mut row = LiveTvContinueWatching::new();
    let effects = row.update(LiveTvContinueWatchingMsg::Load { requests: &requests, now: NOW }, &library);
    assert!(row.active);
    assert!(effects.has_changed);
    assert_eq!(effects.effects, requests);
    assert_eq!(row.catalog.len(), 2);
    assert_eq!(row.catalog[0].content, Some(Loadable::Loading));
    assert_eq!(row.requested_at, vec![(request("ch1"), NOW), (request("ch2"), NOW)]);
    assert_eq!(row.items.len(), 2);
    assert_eq!(
        row.items[0].channel,
        MetaItemPreview {
            id: "ch1".to_string(),
            content_type: "tv".to_string(),
            name: "Channel One".to_string(),
            poster: Some("https://poster".to_string()),
            default_video_id: None,
        }
    );
    assert_eq!(
        row.items[1].channel,
        MetaItemPreview { id: "ch2".to_string(), content_type: "tv".to_string(), name: String::new(), poster: None, default_video_id: None }
    );
    assert!(row.items[0].shows.is_empty());
}

#[test]
fn live_tv_row_refreshes_stale_programs_only() {
    let library = vec![];
    let requests = vec![request("ch1"), request("ch2")];
    let mut row = LiveTvContinueWatching::new();
    row.update(LiveTvContinueWatchingMsg::Load { requests: &requests, now: NOW }, &library);

    // the program of the first channel arrives, its show ends in an hour
    let answer = program("ch1", NOW + HOUR);
    let effects = row.update(
        LiveTvContinueWatchingMsg::ResourceRequestResult(&request("ch1"), Ok(Ok(answer.clone()))),
        &library,
    );
    assert!(effects.has_changed);
    assert_eq!(row.catalog[0].content, Some(Loadable::Ready(answer.clone())));
    assert_eq!(row.items[0].channel, answer.preview);
    assert_eq!(row.items[0].shows, vec![answer.videos[0].clone()]);

    // the second one fails
    row.update(
        LiveTvContinueWatchingMsg::ResourceRequestResult(&request("ch2"), Err(EnvError::Fetch("offline".to_string()))),
        &library,
    );
    assert!(matches!(row.catalog[1].content, Some(Loadable::Error(ResourceError::Env(_)))));

    // thirty seconds later nothing is stale
    let quiet = row.update(LiveTvContinueWatchingMsg::Changed { requests: &requests, now: NOW + 30_000 }, &library);
    assert!(quiet.effects.is_empty());
    assert!(!quiet.has_changed);

    // a minute later the failed channel is retried, the loaded one kept
    let retry = row.update(
        LiveTvContinueWatchingMsg::Changed { requests: &requests, now: NOW + RETRY_AFTER_MILLIS },
        &library,
    );
    assert_eq!(retry.effects, vec![request("ch2")]);
    assert_eq!(row.catalog[0].content, Some(Loadable::Ready(answer.clone())));
    assert_eq!(row.requested_at, vec![(request("ch1"), NOW), (request("ch2"), NOW + RETRY_AFTER_MILLIS)]);

    // a quarter of an hour after its request the loaded program is refreshed
    let refresh = row.update(
        LiveTvContinueWatchingMsg::Changed { requests: &requests, now: NOW + STALE_AFTER_MILLIS },
        &library,
    );
    assert_eq!(refresh.effects, vec![request("ch1")]);
    // while it loads again, the row keeps its shows
    assert_eq!(row.items[0].shows, vec![answer.videos[0].clone()]);
}

#[test]
fn live_tv_row_refreshes_a_program_whose_shows_ended() {
    let library = vec![];
    let requests = vec![request("ch1")];
    let mut row = LiveTvContinueWatching::new();
    row.update(LiveTvContinueWatchingMsg::Load { requests: &requests, now: NOW }, &library);
    let ended = program("ch1", NOW + 30_000);
    row.update(LiveTvContinueWatchingMsg::ResourceRequestResult(&request("ch1"), Ok(Ok(ended))), &library);
    let effects = row.update(
        LiveTvContinueWatchingMsg::Changed { requests: &requests, now: NOW + 2 * RETRY_AFTER_MILLIS },
        &library,
    );
    assert_eq!(effects.effects, vec![request("ch1")]);
    assert_eq!(row.catalog[0].content, Some(Loadable::Loading));
}

#[test]
fn live_tv_row_forgets_unplanned_channels_and_unloads() {
    let library = vec![];
    let mut row = LiveTvContinueWatching::new();
    // inactive: a change does nothing
    let idle = row.update(LiveTvContinueWatchingMsg::Changed { requests: &[request("ch1")], now: NOW }, &library);
    assert!(!idle.has_changed);
    assert!(row.catalog.is_empty());

    let both = vec![request("ch1"), request("ch2")];
    row.update(LiveTvContinueWatchingMsg::Load { requests: &both, now: NOW }, &library);
    let only_second = vec![request("ch2")];
    let effects = row.update(LiveTvContinueWatchingMsg::Changed { requests: &only_second, now: NOW + 1 }, &library);
    assert!(effects.effects.is_empty());
    assert_eq!(row.catalog.len(), 1);
    assert_eq!(row.catalog[0].request, request("ch2"));
    assert_eq!(row.requested_at, vec![(request("ch2"), NOW)]);

    let unload = row.update(LiveTvContinueWatchingMsg::Unload, &library);
    assert!(unload.has_changed);
    assert!(!row.active);
    assert!(row.catalog.is_empty() && row.items.is_empty() && row.requested_at.is_empty());
    assert!(!row.update(LiveTvContinueWatchingMsg::Unload, &library).has_changed);
}

#[test]
fn live_tv_row_refreshed_twice_at_once_fetches_once() {
    let library = vec![];
    let requests = vec![request("ch1"), request("ch2"), request("ch1")];
    let mut row = LiveTvContinueWatching::new();
    let first = row.update(LiveTvContinueWatchingMsg::Load { requests: &requests, now: NOW }, &library);
    assert_eq!(first.effects, requests);
    let times = row.requested_at.clone();
    let second = row.update(LiveTvContinueWatchingMsg::Changed { requests: &requests, now: NOW }, &library);
    assert!(second.effects.is_empty());
    assert_eq!(row.requested_at, times);
}
