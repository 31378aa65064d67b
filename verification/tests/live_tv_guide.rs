use stremio_core::models::calendar::FullDate;
use stremio_core::models::common::resource_loadable::ResourceLoadable;
use stremio_core::models::common::Loadable;
use stremio_core::models::live_tv_guide::{
    channels_update, local_day_window, ChannelGuide, Selected, DAY_MILLIS,
};
use stremio_core::types::addon::{ResourcePath, ResourceRequest};
use stremio_core::types::resource::{EpgInfo, MetaItem, MetaItemPreview, Video};

// 2024-02-14T00:00:00Z
const MIDNIGHT: i64 = 1_707_868_800_000;
const HOUR: i64 = 3_600_000;

fn preview(id: &str) -> MetaItemPreview {
    MetaItemPreview {
        id: id.to_string(),
        content_type: "tv".to_string(),
        name: id.to_uppercase(),
        poster: None,
        default_video_id: None,
    }
}

fn show(id: &str, start: i64, end: i64) -> Video {
    Video {
        id: id.to_string(),
        title: id.to_string(),
        released: None,
        series_info: None,
        streams: vec![],
        epg_info: Some(EpgInfo { start_time: start, end_time: end }),
    }
}

fn page(content: Option<Loadable<Vec<MetaItem>, stremio_core::models::common::ResourceError>>) -> ResourceLoadable<Vec<MetaItem>> {
    ResourceLoadable {
        request: ResourceRequest {
            base: "https://epg".to_string(),
            path: ResourcePath {
                resource: "catalog".to_string(),
                content_type: "tv".to_string(),
                id: "guide".to_string(),
                extra: vec![],
            },
        },
        content,
    }
}

fn selected(date: Option<FullDate>, utc_offset: i32) -> Option<Selected> {
    Some(Selected { request: None, date, utc_offset })
}

#[test]
fn local_day_window_is_the_utc_span_of_the_local_day() {
    assert_eq!(local_day_window(&FullDate::new(1970, 1, 1), 0), (0, DAY_MILLIS));
    assert_eq!(
        local_day_window(&FullDate::new(2024, 2, 14), 0),
        (MIDNIGHT, MIDNIGHT + DAY_MILLIS)
    );
    // UTC+2: the local day starts two hours before UTC midnight
    assert_eq!(
        local_day_window(&FullDate::new(2024, 2, 14), 120),
        (MIDNIGHT - 2 * HOUR, MIDNIGHT + DAY_MILLIS - 2 * HOUR)
    );
    // UTC-5
    assert_eq!(
        local_day_window(&FullDate::new(2024, 2, 14), -300),
        (MIDNIGHT + 5 * HOUR, MIDNIGHT + DAY_MILLIS + 5 * HOUR)
    );
    assert_eq!(local_day_window(&FullDate::new(1969, 12, 31), 0), (-DAY_MILLIS, 0));
    // across leap days and centuries
    assert_eq!(local_day_window(&FullDate::new(2000, 3, 1), 0).0, 951_868_800_000);
    assert_eq!(local_day_window(&FullDate::new(1600, 2, 29), 0).0, -11_670_998_400_000);
    assert_eq!(local_day_window(&FullDate::new(9999, 12, 31), 0).0, 253_402_214_400_000);
    assert_eq!(local_day_window(&FullDate::new(1, 1, 1), 0).0, -62_135_596_800_000);
}

#[test]
fn channels_update_merges_pages_dedups_and_orders_shows() {
    let first = MetaItem {
        preview: preview("ch1"),
        videos: vec![
            show("late", MIDNIGHT + 20 * HOUR, MIDNIGHT + 21 * HOUR),
            show("spanning", MIDNIGHT - HOUR, MIDNIGHT + HOUR),
            show("yesterday", MIDNIGHT - 3 * HOUR, MIDNIGHT - 2 * HOUR),
            Video {
                id: "vod".to_string(),
                title: "vod".to_string(),
                released: None,
                series_info: None,
                streams: vec![],
                epg_info: None,
            },
        ],
    };
    let second = MetaItem {
        preview: preview("ch2"),
        videos: vec![show("news", MIDNIGHT + 8 * HOUR, MIDNIGHT + 9 * HOUR)],
    };
    let first_again = MetaItem {
        preview: preview("ch1"),
        videos: vec![
            show("late", MIDNIGHT + 20 * HOUR, MIDNIGHT + 21 * HOUR),
            show("morning", MIDNIGHT + 6 * HOUR, MIDNIGHT + 7 * HOUR),
            show("tomorrow", MIDNIGHT + DAY_MILLIS, MIDNIGHT + DAY_MILLIS + HOUR),
        ],
    };
    let catalog = vec![
        page(Some(Loadable::Ready(vec![first.clone(), second.clone()]))),
        page(Some(Loadable::Loading)),
        page(Some(Loadable::Ready(vec![first_again]))),
    ];
    let mut channels: Vec<ChannelGuide> = vec![];
    let effects = channels_update::<()>(&mut channels, &selected(Some(FullDate::new(2024, 2, 14)), 0), &catalog);
    assert!(effects.has_changed);
    assert!(effects.effects.is_empty());
    assert_eq!(channels.len(), 2);
    assert_eq!(channels[0].channel, preview("ch1"));
    let ids: Vec<&str> = channels[0].shows.iter().map(|v| v.id.as_str()).collect();
    assert_eq!(ids, vec!["spanning", "morning", "late"]);
    assert_eq!(channels[1].channel, preview("ch2"));
    assert_eq!(channels[1].shows, vec![second.videos[0].clone()]);

    let again = channels_update::<()>(&mut channels, &selected(Some(FullDate::new(2024, 2, 14)), 0), &catalog);
    assert!(!again.has_changed);

    // in UTC+2 the day ends two hours earlier: the late show still runs,
    // and yesterday's show ends before the local day starts
    channels_update::<()>(&mut channels, &selected(Some(FullDate::new(2024, 2, 14)), 120), &catalog);
    let ids: Vec<&str> = channels[0].shows.iter().map(|v| v.id.as_str()).collect();
    assert_eq!(ids, vec!["spanning", "morning", "late"]);

    // in UTC-5 the day starts five hours later and ends five hours later
    channels_update::<()>(&mut channels, &selected(Some(FullDate::new(2024, 2, 14)), -300), &catalog);
    let ids: Vec<&str> = channels[0].shows.iter().map(|v| v.id.as_str()).collect();
    assert_eq!(ids, vec!["morning", "late", "tomorrow"]);

    let cleared = channels_update::<()>(&mut channels, &selected(None, 0), &catalog);
    assert!(cleared.has_changed);
    assert!(channels.is_empty());
    let none = channels_update::<()>(&mut channels, &None, &catalog);
    assert!(!none.has_changed);
}
