use stremio_core::runtime::env::{
    migrate_settings, migration_plan, migration_writes, StorageWrite, SCHEMA_VERSION,
};
use stremio_core::runtime::EnvError;
use stremio_core::types::json::{JsonMap, JsonValue};

fn map(entries: Vec<(&str, JsonValue)>) -> JsonMap {
    JsonMap {
        entries: entries.into_iter().map(|(k, v)| (k.to_string(), v)).collect(),
    }
}

fn text(s: &str) -> JsonValue {
    JsonValue::Text(s.to_string())
}

fn number(s: &str) -> JsonValue {
    JsonValue::Number(s.to_string())
}

/// Runs the migrations from `version` on a stored profile and gives the
/// stored schema version and profile settings afterwards.
fn migrate_storage(version: u32, settings: Option<JsonMap>) -> (u32, Option<JsonMap>) {
    let mut stored_version = version;
    let mut stored = settings;
    for step in migration_plan(Some(version)).expect("Should migrate") {
        for write in migration_writes(step, stored.take()) {
            match write {
                StorageWrite::SchemaVersion(v) => stored_version = v,
                StorageWrite::Profile(s) => stored = Some(s),
                StorageWrite::DeleteProfile => stored = None,
                StorageWrite::DeleteLibraryRecent | StorageWrite::DeleteLibrary => {}
            }
        }
    }
    (stored_version, stored)
}

#[test]
fn test_migration_to_latest_version() {
    let (version, _) = migrate_storage(1, Some(map(vec![])));
    assert_eq!(version, SCHEMA_VERSION, "Scheme version should now be updated");
}

#[test]
fn test_migration_from_5_to_6() {
    // Profile with external player (true)
    let writes = migration_writes(6, Some(map(vec![("playInExternalPlayer", JsonValue::Bool(true))])));
    assert_eq!(
        writes,
        vec![
            StorageWrite::Profile(map(vec![
                ("playerType", text("external")),
                ("autoFrameRateMatching", JsonValue::Bool(false)),
                ("nextVideoNotificationDuration", number("35000")),
            ])),
            StorageWrite::SchemaVersion(6),
        ]
    );

    // Profile without external player (false)
    let writes = migration_writes(6, Some(map(vec![("playInExternalPlayer", JsonValue::Bool(false))])));
    assert_eq!(
        writes,
        vec![
            StorageWrite::Profile(map(vec![
                ("playerType", JsonValue::Null),
                ("autoFrameRateMatching", JsonValue::Bool(false)),
                ("nextVideoNotificationDuration", number("35000")),
            ])),
            StorageWrite::SchemaVersion(6),
        ]
    );

    // Profile with no external player set (null)
    let writes = migration_writes(6, Some(map(vec![])));
    assert_eq!(
        writes,
        vec![
            StorageWrite::Profile(map(vec![
                ("playerType", JsonValue::Null),
                ("autoFrameRateMatching", JsonValue::Bool(false)),
                ("nextVideoNotificationDuration", number("35000")),
            ])),
            StorageWrite::SchemaVersion(6),
        ]
    );
}

#[test]
fn test_migration_from_6_to_7() {
    let writes = migration_writes(7, Some(map(vec![("autoFrameRateMatching", JsonValue::Bool(false))])));
    assert_eq!(
        writes,
        vec![
            StorageWrite::Profile(map(vec![("frameRateMatchingStrategy", text("FrameRateOnly"))])),
            StorageWrite::SchemaVersion(7),
        ]
    );

    // Profile without autoFrameRateMatching
    let writes = migration_writes(7, Some(map(vec![])));
    assert_eq!(
        writes,
        vec![
            StorageWrite::Profile(map(vec![("frameRateMatchingStrategy", text("FrameRateOnly"))])),
            StorageWrite::SchemaVersion(7),
        ]
    );
}

#[test]
fn migration_plan_runs_each_later_version_and_refuses_downgrades() {
    assert_eq!(migration_plan(None).unwrap(), vec![1, 2, 3, 4, 5, 6, 7]);
    assert_eq!(migration_plan(Some(5)).unwrap(), vec![6, 7]);
    assert!(migration_plan(Some(SCHEMA_VERSION)).unwrap().is_empty());
    assert_eq!(
        migration_plan(Some(9)),
        Err(EnvError::StorageSchemaVersionDowngrade(9, SCHEMA_VERSION))
    );
}

#[test]
fn migration_to_v1_clears_the_profile_and_library() {
    assert_eq!(
        migration_writes(1, Some(map(vec![("a", JsonValue::Null)]))),
        vec![
            StorageWrite::SchemaVersion(1),
            StorageWrite::DeleteProfile,
            StorageWrite::DeleteLibraryRecent,
            StorageWrite::DeleteLibrary,
        ]
    );
}

#[test]
fn migration_to_v2_renames_settings_or_drops_an_incomplete_profile() {
    let snake = [
        "interface_language",
        "streaming_server_url",
        "binge_watching",
        "play_in_background",
        "play_in_external_player",
        "hardware_decoding",
        "subtitles_language",
        "subtitles_size",
        "subtitles_font",
        "subtitles_bold",
        "subtitles_offset",
        "subtitles_text_color",
        "subtitles_background_color",
        "subtitles_outline_color",
    ];
    let camel = [
        "interfaceLanguage",
        "streamingServerUrl",
        "bingeWatching",
        "playInBackground",
        "playInExternalPlayer",
        "hardwareDecoding",
        "subtitlesLanguage",
        "subtitlesSize",
        "subtitlesFont",
        "subtitlesBold",
        "subtitlesOffset",
        "subtitlesTextColor",
        "subtitlesBackgroundColor",
        "subtitlesOutlineColor",
    ];
    let full = map(snake.iter().enumerate().map(|(i, k)| (*k, number(&i.to_string()))).collect());
    let migrated = migrate_settings(2, Some(full)).expect("complete settings migrate");
    let expected = map(camel.iter().enumerate().map(|(i, k)| (*k, number(&i.to_string()))).collect());
    assert_eq!(migrated, expected);
    let partial = map(vec![("interface_language", text("eng"))]);
    assert_eq!(migrate_settings(2, Some(partial)), None);
    assert_eq!(migrate_settings(3, None), None);
}

#[test]
fn migrations_to_v3_v4_v5_add_defaults() {
    assert_eq!(
        migrate_settings(3, Some(map(vec![]))),
        Some(map(vec![("streamingServerWarningDismissed", JsonValue::Null)]))
    );
    assert_eq!(
        migrate_settings(4, Some(map(vec![]))),
        Some(map(vec![("seekTimeDuration", number("20000"))]))
    );
    assert_eq!(
        migrate_settings(5, Some(map(vec![("audioLanguage", text("bul"))]))),
        Some(map(vec![("audioLanguage", text("eng")), ("audioPassthrough", JsonValue::Bool(false))]))
    );
}
