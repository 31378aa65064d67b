use stremio_core::models::player::{
    item_state_update, playback_update, seek_progress, time_changed_progress, time_changed_watched, AnalyticsContext, PlaybackEffect,
    PlaybackMsg, PlaybackState,
};
use stremio_core::types::library::{LibraryItem, LibraryItemState};
use stremio_core::types::resource::Video;

fn item(video_id: Option<&str>, time_offset: u64, time_watched: u64) -> LibraryItem {
    LibraryItem {
        id: "tt1".into(),
        name: "Show".into(),
        content_type: "series".into(),
        poster: None,
        removed: false,
        temp: false,
        ctime: None,
        mtime: 0,
        state: LibraryItemState {
            video_id: video_id.map(|v| v.to_string()),
            time_offset,
            time_watched,
            overall_time_watched: 1000,
            duration: 10_000,
            ..Default::default()
        },
        default_video_id: None,
    }
}

#[test]
fn time_of_the_same_video_adds_watched_time_and_moves_the_offset() {
    let mut it = item(Some("tt1:1:1"), 2000, 500);
    time_changed_progress(&mut it, "tt1:1:1", 3000, 12_000, 77);
    assert_eq!(it.state.last_watched, Some(77));
    assert_eq!(it.state.time_watched, 1500);
    assert_eq!(it.state.overall_time_watched, 2000);
    assert_eq!(it.state.time_offset, 3000);
    assert_eq!(it.state.duration, 12_000);
    time_changed_progress(&mut it, "tt1:1:1", 1000, 12_000, 78);
    assert_eq!(it.state.time_watched, 1500);
    assert_eq!(it.state.time_offset, 3000);
}

#[test]
fn time_of_another_video_starts_its_watched_time_over() {
    let mut it = item(Some("tt1:1:1"), 2000, 500);
    it.state.flagged_watched = 1;
    time_changed_progress(&mut it, "tt1:1:2", 100, 9000, 5);
    assert_eq!(it.state.video_id.as_deref(), Some("tt1:1:2"));
    assert_eq!(it.state.overall_time_watched, 1500);
    assert_eq!(it.state.time_watched, 0);
    assert_eq!(it.state.flagged_watched, 0);
    assert_eq!(it.state.time_offset, 2000);
    assert_eq!(it.state.duration, 10_000);
    let mut saturated = item(Some("v"), 0, u64::MAX);
    time_changed_progress(&mut saturated, "v", 10, 20, 1);
    assert_eq!(saturated.state.time_watched, u64::MAX);
}

#[test]
fn crossing_the_threshold_flags_the_item_watched_once() {
    let mut it = item(Some("v"), 0, 9000);
    it.temp = true;
    assert!(time_changed_watched(&mut it, true));
    assert_eq!((it.state.flagged_watched, it.state.times_watched), (1, 1));
    assert!(!it.removed && it.temp);
    assert!(!time_changed_watched(&mut it, true));
    assert_eq!(it.state.times_watched, 1);
    let mut unwatched = item(Some("v"), 0, 10);
    unwatched.temp = true;
    assert!(!time_changed_watched(&mut unwatched, false));
    assert!(unwatched.removed && unwatched.temp);
}

#[test]
fn seeking_moves_the_offset_without_watched_time() {
    let mut it = item(Some("v"), 5000, 300);
    seek_progress(&mut it, 100, 8000, 42);
    assert_eq!(it.state.time_offset, 100);
    assert_eq!(it.state.duration, 8000);
    assert_eq!(it.state.time_watched, 300);
    assert_eq!(it.state.last_watched, Some(42));
}

fn playing(selected: bool) -> PlaybackState {
    PlaybackState {
        selected,
        library_item: Some(item(Some("v"), 4000, 0)),
        analytics_context: Some(AnalyticsContext { id: Some("tt1".into()), ..Default::default() }),
        loaded: false,
        load_time: Some(1000),
        paused: None,
        ended: false,
        has_next_video: true,
    }
}

#[test]
fn the_first_pause_change_reports_playing_then_pauses_and_resumes() {
    let mut state = playing(true);
    let r = playback_update(&mut state, PlaybackMsg::PausedChanged(false), false, 1750);
    assert!(!r.has_changed && state.loaded && state.paused == Some(false));
    assert!(matches!(&r.effects[0], PlaybackEffect::PlayerPlaying { load_time: 750, context } if context.id.as_deref() == Some("tt1")));
    assert!(matches!(&r.effects[1], PlaybackEffect::UpdateLibraryItem(_)));
    let r = playback_update(&mut state, PlaybackMsg::PausedChanged(true), false, 2000);
    assert!(matches!(r.effects[0], PlaybackEffect::TraktPaused(_)));
    let r = playback_update(&mut state, PlaybackMsg::PausedChanged(false), false, 2100);
    assert!(matches!(r.effects[0], PlaybackEffect::TraktPlaying(_)));
    let mut idle = playing(false);
    let r = playback_update(&mut idle, PlaybackMsg::PausedChanged(true), false, 2000);
    assert!(r.effects.is_empty() && idle.paused.is_none());
}

#[test]
fn ending_and_moving_to_the_next_video_are_reported() {
    let mut state = playing(true);
    state.analytics_context = None;
    let r = playback_update(&mut state, PlaybackMsg::Ended, true, 0);
    assert!(state.ended);
    assert!(matches!(&r.effects[..], [PlaybackEffect::PlayerEnded { context, is_binge_enabled: true, is_playing_next_video: true }] if *context == AnalyticsContext::default()));
    let r = playback_update(&mut state, PlaybackMsg::NextVideo, true, 0);
    assert_eq!(state.library_item.as_ref().map(|i| i.state.time_offset), Some(1));
    assert!(matches!(r.effects[0], PlaybackEffect::PlayerNextVideo { is_playing_next_video: true, .. }));
    assert!(matches!(&r.effects[1], PlaybackEffect::UpdateLibraryItem(i) if i.state.time_offset == 1));
    state.has_next_video = false;
    playback_update(&mut state, PlaybackMsg::NextVideo, true, 0);
    assert_eq!(state.library_item.as_ref().map(|i| i.state.time_offset), Some(0));
}

#[test]
fn leaving_past_the_credits_moves_on_to_the_next_video() {
    let next = Video { id: "tt1:1:2".into(), title: "Next".into(), released: None, series_info: None, streams: vec![], epg_info: None };
    let mut played = Some(item(Some("tt1:1:1"), 9500, 4000));
    item_state_update(&mut played, Some(&next), true);
    let state = &played.as_ref().map(|i| i.state.clone());
    let state = state.as_ref().map(|s| (s.video_id.clone(), s.time_offset, s.time_watched, s.overall_time_watched));
    assert_eq!(state, Some((Some("tt1:1:2".to_string()), 1, 0, 5000)));
    let mut last = Some(item(Some("tt1:1:1"), 9500, 4000));
    item_state_update(&mut last, None, true);
    assert_eq!(last.as_ref().map(|i| (i.state.time_offset, i.state.time_watched)), Some((0, 4000)));
    let mut early = Some(item(Some("tt1:1:1"), 100, 4000));
    item_state_update(&mut early, Some(&next), false);
    assert_eq!(early.as_ref().map(|i| i.state.time_offset), Some(100));
}
