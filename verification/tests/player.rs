use stremio_core::models::player::{intro_db_response, intro_db_segment};
use stremio_core::models::common::Loadable;
use stremio_core::models::player::{
    intro_db_request, intro_db_update, intro_outro, is_introdb_imdb_id,
};
use stremio_core::types::player::{IntroDbResponse, IntroSegment, SegmentRange, SeriesInfo};

#[test]
fn is_introdb_imdb_id_accepts_realistic_imdb_ids() {
    assert!(is_introdb_imdb_id("tt1254207"));
    assert!(is_introdb_imdb_id("tt15264452"));
}

#[test]
fn is_introdb_imdb_id_rejects_short_or_non_numeric_ids() {
    assert!(!is_introdb_imdb_id("tt1"));
    assert!(!is_introdb_imdb_id("ttabcdefg"));
    assert!(!is_introdb_imdb_id("kitsu:123"));
}

#[test]
fn intro_db_request_uses_imdb_part_of_meta_id() {
    let info = SeriesInfo { season: 2, episode: 3 };
    let request = intro_db_request(Some("tt1254207:2:3"), Some(info)).unwrap();
    assert_eq!(request.imdb_id, "tt1254207");
    assert_eq!((request.season, request.episode), (2, 3));
    assert!(intro_db_request(Some("kitsu:1"), Some(info)).is_none());
    assert!(intro_db_request(Some("tt1254207"), None).is_none());
}

#[test]
fn intro_db_update_asks_once_per_episode() {
    let info = SeriesInfo { season: 1, episode: 1 };
    let mut state = None;
    let effects = intro_db_update(Some("tt1254207:1:1"), Some(info), &mut state);
    assert_eq!(effects.len(), 1);
    assert!(effects.has_changed);
    assert!(matches!(state, Some((_, Loadable::Loading))));
    let again = intro_db_update(Some("tt1254207:1:1"), Some(info), &mut state);
    assert!(again.is_empty());
    assert!(!again.has_changed);
    let cleared = intro_db_update(None, Some(info), &mut state);
    assert!(cleared.has_changed);
    assert!(state.is_none());
}

#[test]
fn intro_outro_from_answer() {
    let response = IntroDbResponse {
        segments: vec![
            IntroSegment { segment: "recap".into(), from: 0, to: 900 },
            IntroSegment { segment: "Intro".into(), from: 1000, to: 5000 },
        ],
        outro: Some(SegmentRange { from: 1_000_000, to: 1_100_000 }),
    };
    let shown = intro_outro(&response).unwrap();
    assert_eq!(shown.intro.map(|i| (i.from, i.to)), Some((1000, 5000)));
    assert_eq!(shown.outro, Some(1_000_000));
    assert_eq!(shown.segments.len(), 2);
    let empty = IntroDbResponse { segments: vec![], outro: None };
    assert!(intro_outro(&empty).is_none());
}

#[test]
fn intro_db_answer_sorts_segments_and_takes_the_outro() {
    assert_eq!(intro_db_segment(true, Some(1), Some(2)), Some(SegmentRange { from: 1, to: 2 }));
    assert_eq!(intro_db_segment(false, Some(1), Some(2)), None);
    assert_eq!(intro_db_segment(true, Some(2), Some(2)), None);
    assert_eq!(intro_db_segment(true, None, Some(2)), None);
    let response = intro_db_response(vec![
        ("recap".to_string(), Some(SegmentRange { from: 7000, to: 9000 })),
        ("OUTRO".to_string(), Some(SegmentRange { from: 1_000_000, to: 1_100_000 })),
        ("intro".to_string(), Some(SegmentRange { from: 1000, to: 5000 })),
        ("credits".to_string(), None),
        ("alpha".to_string(), Some(SegmentRange { from: 1000, to: 2000 })),
    ]);
    assert_eq!(response.outro, Some(SegmentRange { from: 1_000_000, to: 1_100_000 }));
    assert_eq!(
        response.segments,
        vec![
            IntroSegment { segment: "alpha".to_string(), from: 1000, to: 2000 },
            IntroSegment { segment: "intro".to_string(), from: 1000, to: 5000 },
            IntroSegment { segment: "recap".to_string(), from: 7000, to: 9000 },
        ]
    );
}

use stremio_core::models::common::resource_loadable::ResourceLoadable;
use stremio_core::models::player::{
    library_item_state_update, next_streams_update, next_video_update, series_info_update, Selected,
};
use stremio_core::types::addon::{ResourcePath, ResourceRequest};
use stremio_core::types::library::{LibraryItem, LibraryItemState};
use stremio_core::types::resource::{MetaItem, MetaItemPreview, Stream, StreamSource, Video};

fn stream_request(id: &str) -> ResourceRequest {
    ResourceRequest {
        base: "https://addon".to_string(),
        path: ResourcePath {
            resource: "stream".to_string(),
            content_type: "series".to_string(),
            id: id.to_string(),
            extra: vec![],
        },
    }
}

fn played(video_id: &str) -> Option<Selected> {
    Some(Selected {
        stream: Stream { source: StreamSource::Url { url: "https://s".to_string() }, name: None, description: None },
        stream_request: Some(stream_request(video_id)),
        meta_request: None,
        subtitles_path: None,
    })
}

fn episode(id: &str, season: u32, episode: u32) -> Video {
    Video {
        id: id.to_string(),
        title: id.to_string(),
        released: None,
        series_info: Some(SeriesInfo { season, episode }),
        streams: vec![],
        epg_info: None,
    }
}

fn meta(videos: Vec<Video>) -> Option<ResourceLoadable<MetaItem>> {
    Some(ResourceLoadable {
        request: stream_request("tt1"),
        content: Some(Loadable::Ready(MetaItem { preview: MetaItemPreview { id: "tt1".to_string(), content_type: "series".to_string(), name: "Show".to_string(), poster: None, default_video_id: None }, videos })),
    })
}

#[test]
fn player_follows_the_series_order() {
    let meta_item = meta(vec![episode("tt1:1:1", 1, 1), episode("tt1:1:2", 1, 2), episode("tt1:0:1", 0, 1)]);
    let mut series_info = None;
    let effects = series_info_update::<()>(&mut series_info, &played("tt1:1:2"), &meta_item);
    assert!(effects.has_changed);
    assert_eq!(series_info, Some(SeriesInfo { season: 1, episode: 2 }));
    let same = series_info_update::<()>(&mut series_info, &played("tt1:1:2"), &meta_item);
    assert!(!same.has_changed);

    let stream = Some(Stream { source: StreamSource::Url { url: "https://n".to_string() }, name: None, description: None });
    let mut next_video = None;
    next_video_update::<()>(&mut next_video, &stream, &played("tt1:1:1"), &meta_item);
    let next = next_video.clone().expect("the next episode");
    assert_eq!(next.id, "tt1:1:2");
    assert_eq!(next.streams, vec![stream.clone().unwrap()]);
    // specials do not follow a regular season
    let effects = next_video_update::<()>(&mut next_video, &stream, &played("tt1:1:2"), &meta_item);
    assert!(effects.has_changed);
    assert_eq!(next_video, None);
    next_video_update::<()>(&mut next_video, &None, &played("tt1:9:9"), &meta_item);
    assert_eq!(next_video, None);
}

#[test]
fn player_requests_streams_of_the_next_video() {
    let mut next_streams = None;
    let next = Some(episode("tt1:1:3", 1, 3));
    let effects = next_streams_update(&mut next_streams, &next, &played("tt1:1:2"));
    assert!(effects.has_changed);
    assert_eq!(effects.into_effects(), vec![stream_request("tt1:1:3")]);
    assert_eq!(next_streams.as_ref().unwrap().content, Some(Loadable::Loading));
    let again = next_streams_update(&mut next_streams, &next, &played("tt1:1:2"));
    assert!(!again.has_changed && again.is_empty());
    let none = next_streams_update(&mut next_streams, &None, &played("tt1:1:2"));
    assert!(!none.has_changed);
}

#[test]
fn player_restarts_the_library_item_for_another_video() {
    let mut item = Some(LibraryItem {
        default_video_id: None,
        id: "tt1".to_string(),
        name: "Show".to_string(),
        content_type: "series".to_string(),
        poster: None,
        removed: false,
        temp: false,
        ctime: None,
        mtime: 0,
        state: LibraryItemState { time_offset: 500, video_id: Some("tt1:1:1".to_string()), ..Default::default() },
    });
    let same = library_item_state_update(&mut item, None, &played("tt1:1:1"));
    assert!(!same.has_changed);
    assert_eq!(item.as_ref().unwrap().state.time_offset, 500);
    let next = episode("tt1:1:3", 1, 3);
    let effects = library_item_state_update(&mut item, Some(&next), &played("tt1:1:2"));
    assert!(effects.has_changed);
    assert_eq!(item.as_ref().unwrap().state.time_offset, 1);
    assert_eq!(effects.into_effects(), vec![item.clone().unwrap()]);
    library_item_state_update(&mut item, None, &played("tt1:1:2"));
    assert_eq!(item.as_ref().unwrap().state.time_offset, 0);
}

#[test]
fn intro_outro_follows_the_intro_db_answer() {
    use_intro_outro_update();
}

fn use_intro_outro_update() {
    let request = stremio_core::types::player::IntroDbRequest { imdb_id: "tt1234567".into(), season: 1, episode: 2 };
    let response = IntroDbResponse {
        segments: vec![IntroSegment { segment: "intro".into(), from: 10, to: 20 }],
        outro: None,
    };
    let mut shown = None;
    let effects = stremio_core::models::player::intro_outro_update::<()>(
        &mut shown,
        &Some((request.clone(), Loadable::Ready(response))),
    );
    assert!(effects.has_changed);
    assert_eq!(shown.as_ref().unwrap().intro.map(|i| (i.from, i.to)), Some((10, 20)));
    let effects = stremio_core::models::player::intro_outro_update::<()>(&mut shown, &Some((request, Loadable::Loading)));
    assert!(effects.has_changed);
    assert!(shown.is_none());
    let effects = stremio_core::models::player::intro_outro_update::<()>(&mut shown, &None);
    assert!(!effects.has_changed);
}

/// A segment of an IntroDB answer from its confidence and range, as the
/// JSON answer gives them: a confidence below one half drops it.
fn answered_segment(confidence: Option<f64>, from: Option<u64>, to: Option<u64>) -> Option<SegmentRange> {
    match confidence {
        Some(c) => intro_db_segment(!(c < 0.5), from, to),
        None => None,
    }
}

#[test]
fn parse_intro_db_response_with_valid_segments() {
    let parsed = intro_db_response(vec![
        ("intro".to_string(), answered_segment(Some(0.95), Some(1000), Some(5000))),
        ("recap".to_string(), answered_segment("0.80".parse().ok(), "7000".parse().ok(), "9000".parse().ok())),
        ("outro".to_string(), answered_segment(Some(0.9), Some(1000000), Some(1100000))),
    ]);
    assert_eq!(parsed.segments.len(), 2);
    assert_eq!(parsed.segments[0].segment, "intro");
    assert_eq!(parsed.segments[0].from, 1000);
    assert_eq!(parsed.segments[0].to, 5000);
    assert_eq!(parsed.segments[1].segment, "recap");
    assert_eq!(parsed.outro.as_ref().map(|segment| segment.from), Some(1_000_000));
}

#[test]
fn parse_intro_db_response_ignores_invalid_or_low_confidence_segments() {
    let parsed = intro_db_response(vec![
        ("intro".to_string(), answered_segment(None, Some(1000), Some(5000))),
        ("recap".to_string(), answered_segment(Some(0.95), Some(9000), Some(7000))),
        ("credits".to_string(), answered_segment(Some(0.1), Some(10000), Some(12000))),
        ("outro".to_string(), answered_segment(Some(0.9), Some(1), Some(2))),
    ]);
    assert!(parsed.segments.is_empty());
    assert_eq!(parsed.outro.as_ref().map(|segment| segment.from), Some(1));
}
