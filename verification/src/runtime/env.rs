use vstd::prelude::*;
use vstd::string::StringExecFns;

use crate::text::{append_decimal, decimal};
use crate::types::json::{map_insert, map_remove, Entries, JsonMap, JsonValue, JsonValueView};

verus! {

/// What went wrong in the environment: fetching, storage or serialization.
#[derive(PartialEq, Debug)]
pub enum EnvError {
    Fetch(String),
    AddonTransport(String),
    Serde(String),
    StorageUnavailable,
    StorageSchemaVersionDowngrade(u32, u32),
    StorageSchemaVersionUpgrade(Box<EnvError>),
    StorageReadError(String),
    StorageWriteError(String),
    Other(String),
}

/// The message of an environment error.
pub open spec fn env_error_message(error: EnvError) -> Seq<char>
    decreases error,
{
    match error {
        EnvError::Fetch(message) => "Failed to fetch: "@ + message@,
        EnvError::AddonTransport(message) => "Addon protocol violation: "@ + message@,
        EnvError::Serde(message) => "Serialization error: "@ + message@,
        EnvError::StorageUnavailable => "Storage is not available"@,
        EnvError::StorageSchemaVersionDowngrade(from, to) => "Downgrade storage schema version from "@
            + decimal(from as nat) + " to "@ + decimal(to as nat) + " is not allowed"@,
        EnvError::StorageSchemaVersionUpgrade(source) =>
            "Upgrade storage schema version failed caused by: "@ + env_error_message(*source),
        EnvError::StorageReadError(message) => "Storage read error: "@ + message@,
        EnvError::StorageWriteError(message) => "Storage write error: "@ + message@,
        EnvError::Other(message) => "Other error: "@ + message@,
    }
}

/// The code of an environment error: one per kind of error.
pub open spec fn env_error_code(error: EnvError) -> u32 {
    match error {
        EnvError::Fetch(_) => 1,
        EnvError::AddonTransport(_) => 2,
        EnvError::Serde(_) => 3,
        EnvError::StorageUnavailable => 4,
        EnvError::StorageSchemaVersionDowngrade(_, _) => 5,
        EnvError::StorageSchemaVersionUpgrade(_) => 6,
        EnvError::StorageReadError(_) => 7,
        EnvError::StorageWriteError(_) => 8,
        EnvError::Other(_) => 1001,
    }
}

fn prefixed(prefix: &str, message: &String) -> (r: String)
    ensures
        r@ == prefix@ + message@,
{
    let mut s = String::from_str(prefix);
    s.append(message.as_str());
    s
}

impl EnvError {
    /// A copy of the error.
    pub fn duplicate(&self) -> (r: EnvError)
        ensures
            r == *self,
        decreases *self,
    {
        match self {
            EnvError::Fetch(m) => EnvError::Fetch(m.clone()),
            EnvError::AddonTransport(m) => EnvError::AddonTransport(m.clone()),
            EnvError::Serde(m) => EnvError::Serde(m.clone()),
            EnvError::StorageUnavailable => EnvError::StorageUnavailable,
            EnvError::StorageSchemaVersionDowngrade(from, to) => EnvError::StorageSchemaVersionDowngrade(
                *from,
                *to,
            ),
            EnvError::StorageSchemaVersionUpgrade(source) => {
                let inner = source.duplicate();
                EnvError::StorageSchemaVersionUpgrade(Box::new(inner))
            },
            EnvError::StorageReadError(m) => EnvError::StorageReadError(m.clone()),
            EnvError::StorageWriteError(m) => EnvError::StorageWriteError(m.clone()),
            EnvError::Other(m) => EnvError::Other(m.clone()),
        }
    }

    /// The message shown for the error.
    pub fn message(&self) -> (r: String)
        ensures
            r@ == env_error_message(*self),
        decreases *self,
    {
        match self {
            EnvError::Fetch(message) => prefixed("Failed to fetch: ", message),
            EnvError::AddonTransport(message) => prefixed("Addon protocol violation: ", message),
            EnvError::Serde(message) => prefixed("Serialization error: ", message),
            EnvError::StorageUnavailable => String::from_str("Storage is not available"),
            EnvError::StorageSchemaVersionDowngrade(from, to) => {
                let mut s = String::from_str("Downgrade storage schema version from ");
                append_decimal(&mut s, *from as u64);
                s.append(" to ");
                append_decimal(&mut s, *to as u64);
                s.append(" is not allowed");
                s
            },
            EnvError::StorageSchemaVersionUpgrade(source) => {
                let inner = source.message();
                prefixed("Upgrade storage schema version failed caused by: ", &inner)
            },
            EnvError::StorageReadError(message) => prefixed("Storage read error: ", message),
            EnvError::StorageWriteError(message) => prefixed("Storage write error: ", message),
            EnvError::Other(message) => prefixed("Other error: ", message),
        }
    }

    /// The code reported for the error.
    pub fn code(&self) -> (r: u32)
        ensures
            r == env_error_code(*self),
    {
        match self {
            EnvError::Fetch(_) => 1,
            EnvError::AddonTransport(_) => 2,
            EnvError::Serde(_) => 3,
            EnvError::StorageUnavailable => 4,
            EnvError::StorageSchemaVersionDowngrade(_, _) => 5,
            EnvError::StorageSchemaVersionUpgrade(_) => 6,
            EnvError::StorageReadError(_) => 7,
            EnvError::StorageWriteError(_) => 8,
            EnvError::Other(_) => 1001,
        }
    }
}

impl Clone for EnvError {
    fn clone(&self) -> (r: Self)
        ensures
            r == *self,
    {
        self.duplicate()
    }
}

/// Two errors have the same code exactly when they are of the same kind.
pub proof fn law_env_error_code_identifies_kind(a: EnvError, b: EnvError)
    ensures
        (env_error_code(a) == env_error_code(b)) <==> (a is Fetch && b is Fetch || a is AddonTransport
            && b is AddonTransport || a is Serde && b is Serde || a is StorageUnavailable
            && b is StorageUnavailable || a is StorageSchemaVersionDowngrade
            && b is StorageSchemaVersionDowngrade || a is StorageSchemaVersionUpgrade
            && b is StorageSchemaVersionUpgrade || a is StorageReadError && b is StorageReadError
            || a is StorageWriteError && b is StorageWriteError || a is Other && b is Other),
{
}

// ---------------------------------------------------------------------------
// Storage schema migrations
// ---------------------------------------------------------------------------

/// The storage schema version that this library reads and writes.
pub const SCHEMA_VERSION: u32 = 7;

/// The migrations to run on storage of the given schema version (none
/// stored counts as version 0): each version after it up to
/// [`SCHEMA_VERSION`], in order. A newer stored version cannot be
/// downgraded.
pub open spec fn spec_migration_plan(stored: Option<u32>) -> Result<Seq<u32>, (u32, u32)> {
    let version = match stored {
        Some(v) => v,
        None => 0,
    };
    if version > SCHEMA_VERSION {
        Err((version, SCHEMA_VERSION))
    } else {
        Ok(Seq::new((SCHEMA_VERSION - version) as nat, |i: int| (version + 1 + i) as u32))
    }
}

pub open spec fn plan_view(r: Result<Vec<u32>, EnvError>) -> Result<Seq<u32>, (u32, u32)> {
    match r {
        Ok(steps) => Ok(steps@),
        Err(EnvError::StorageSchemaVersionDowngrade(from, to)) => Err((from, to)),
        Err(_) => Err((0, 0)),
    }
}

/// The migrations to run on storage of the stored schema version.
pub fn migration_plan(stored: Option<u32>) -> (r: Result<Vec<u32>, EnvError>)
    ensures
        plan_view(r) == spec_migration_plan(stored),
        r matches Err(e) ==> e is StorageSchemaVersionDowngrade,
{
    let version = match stored {
        Some(v) => v,
        None => 0,
    };
    if version > SCHEMA_VERSION {
        return Err(EnvError::StorageSchemaVersionDowngrade(version, SCHEMA_VERSION));
    }
    let mut steps: Vec<u32> = Vec::new();
    let mut next = version;
    while next < SCHEMA_VERSION
        invariant
            version <= next <= SCHEMA_VERSION,
            steps@.len() == next - version,
            forall|i: int| 0 <= i < steps@.len() ==> steps@[i] == version + 1 + i,
        decreases SCHEMA_VERSION - next,
    {
        next = next + 1;
        steps.push(next);
    }
    assert(steps@ =~= Seq::new((SCHEMA_VERSION - version) as nat, |i: int| (version + 1 + i) as u32));
    Ok(steps)
}

/// Running the planned migrations brings any version that is not newer to
/// the current one, one version at a time.
pub proof fn law_migration_plan_reaches_current(stored: Option<u32>)
    requires
        spec_migration_plan(stored) is Ok,
    ensures
        ({
            let steps = spec_migration_plan(stored)->Ok_0;
            let version = match stored {
                Some(v) => v,
                None => 0,
            };
            &&& forall|i: int| 0 <= i < steps.len() ==> #[trigger] steps[i] == version + 1 + i
            &&& steps.len() > 0 ==> steps.last() == SCHEMA_VERSION
            &&& (steps.len() == 0) == (stored == Some(SCHEMA_VERSION))
        }),
{
}

pub open spec fn bool_value(b: bool) -> JsonValueView {
    JsonValueView::Bool(b)
}

/// Removes the members named by `keys` in order; gives the removed values.
pub open spec fn remove_all(entries: Entries, keys: Seq<Seq<char>>) -> (Entries, Seq<Option<JsonValueView>>)
    decreases keys.len(),
{
    if keys.len() == 0 {
        (entries, Seq::empty())
    } else {
        let (before, values) = remove_all(entries, keys.drop_last());
        let (after, value) = map_remove(before, keys.last());
        (after, values.push(value))
    }
}

/// Inserts the given members in order.
pub open spec fn insert_all(entries: Entries, members: Seq<(Seq<char>, JsonValueView)>) -> Entries
    decreases members.len(),
{
    if members.len() == 0 {
        entries
    } else {
        map_insert(insert_all(entries, members.drop_last()), members.last().0, members.last().1)
    }
}

pub open spec fn snake_case_settings() -> Seq<Seq<char>> {
    seq![
        "interface_language"@,
        "streaming_server_url"@,
        "binge_watching"@,
        "play_in_background"@,
        "play_in_external_player"@,
        "hardware_decoding"@,
        "subtitles_language"@,
        "subtitles_size"@,
        "subtitles_font"@,
        "subtitles_bold"@,
        "subtitles_offset"@,
        "subtitles_text_color"@,
        "subtitles_background_color"@,
        "subtitles_outline_color"@,
    ]
}

pub open spec fn camel_case_settings() -> Seq<Seq<char>> {
    seq![
        "interfaceLanguage"@,
        "streamingServerUrl"@,
        "bingeWatching"@,
        "playInBackground"@,
        "playInExternalPlayer"@,
        "hardwareDecoding"@,
        "subtitlesLanguage"@,
        "subtitlesSize"@,
        "subtitlesFont"@,
        "subtitlesBold"@,
        "subtitlesOffset"@,
        "subtitlesTextColor"@,
        "subtitlesBackgroundColor"@,
        "subtitlesOutlineColor"@,
    ]
}

pub open spec fn all_present(values: Seq<Option<JsonValueView>>) -> bool {
    forall|i: int| 0 <= i < values.len() ==> (#[trigger] values[i]) is Some
}

pub open spec fn renamed(values: Seq<Option<JsonValueView>>) -> Seq<(Seq<char>, JsonValueView)> {
    Seq::new(values.len(), |i: int| (camel_case_settings()[i], values[i]->0))
}

/// The settings of a stored profile after the migration to `version`; none
/// when the profile is to be deleted. Settings that are not an object are
/// none already.
///
/// - 2: the snake_case settings are renamed to camelCase; without all of
///   them the profile is deleted.
/// - 3: `streamingServerWarningDismissed` is added as `null`.
/// - 4: `seekTimeDuration` is added as 20000.
/// - 5: `audioLanguage` is added as `"eng"`, `audioPassthrough` as `false`.
/// - 6: `playInExternalPlayer` becomes `playerType` (`"external"` where it
///   was `true`, `null` otherwise); `autoFrameRateMatching` is added as
///   `false` and `nextVideoNotificationDuration` as 35000.
/// - 7: `autoFrameRateMatching` becomes `frameRateMatchingStrategy`
///   `"FrameRateOnly"`.
pub open spec fn spec_migrate_settings(version: u32, settings: Option<Entries>) -> Option<Entries> {
    match settings {
        None => None,
        Some(s) => if version == 2 {
            let (removed, values) = remove_all(s, snake_case_settings());
            if all_present(values) {
                Some(insert_all(removed, renamed(values)))
            } else {
                None
            }
        } else if version == 3 {
            Some(map_insert(s, "streamingServerWarningDismissed"@, JsonValueView::Null))
        } else if version == 4 {
            Some(map_insert(s, "seekTimeDuration"@, JsonValueView::Number("20000"@)))
        } else if version == 5 {
            Some(
                map_insert(
                    map_insert(s, "audioLanguage"@, JsonValueView::Text("eng"@)),
                    "audioPassthrough"@,
                    bool_value(false),
                ),
            )
        } else if version == 6 {
            let (removed, old) = map_remove(s, "playInExternalPlayer"@);
            let player_type = if old == Some(bool_value(true)) {
                JsonValueView::Text("external"@)
            } else {
                JsonValueView::Null
            };
            Some(
                map_insert(
                    map_insert(
                        map_insert(removed, "playerType"@, player_type),
                        "autoFrameRateMatching"@,
                        bool_value(false),
                    ),
                    "nextVideoNotificationDuration"@,
                    JsonValueView::Number("35000"@),
                ),
            )
        } else if version == 7 {
            let (removed, _) = map_remove(s, "autoFrameRateMatching"@);
            Some(
                map_insert(
                    removed,
                    "frameRateMatchingStrategy"@,
                    JsonValueView::Text("FrameRateOnly"@),
                ),
            )
        } else {
            Some(s)
        },
    }
}

pub open spec fn settings_view(settings: Option<JsonMap>) -> Option<Entries> {
    match settings {
        Some(map) => Some(map@),
        None => None,
    }
}

fn migrate_to_v2(input: JsonMap) -> (r: Option<JsonMap>)
    ensures
        settings_view(r) == spec_migrate_settings(2, Some(input@)),
{
    let mut settings = input;
    let old_keys: Vec<&str> = vec![
        "interface_language",
        "streaming_server_url",
        "binge_watching",
        "play_in_background",
        "play_in_external_player",
        "hardware_decoding",
        "subtitles_language",
        "subtitles_size",
        "subtitles_font",
        "subtitles_bold",
        "subtitles_offset",
        "subtitles_text_color",
        "subtitles_background_color",
        "subtitles_outline_color",
    ];
    let new_keys: Vec<&str> = vec![
        "interfaceLanguage",
        "streamingServerUrl",
        "bingeWatching",
        "playInBackground",
        "playInExternalPlayer",
        "hardwareDecoding",
        "subtitlesLanguage",
        "subtitlesSize",
        "subtitlesFont",
        "subtitlesBold",
        "subtitlesOffset",
        "subtitlesTextColor",
        "subtitlesBackgroundColor",
        "subtitlesOutlineColor",
    ];
    let ghost old_view = old_keys@.map_values(|k: &str| k@);
    let ghost new_view = new_keys@.map_values(|k: &str| k@);
    assert(old_view =~= snake_case_settings());
    assert(new_view =~= camel_case_settings());
    let ghost start = settings@;
    let mut values: Vec<Option<JsonValue>> = Vec::new();
    let mut i: usize = 0;
    while i < old_keys.len()
        invariant
            i <= old_keys.len(),
            old_keys.len() == 14,
            old_view == old_keys@.map_values(|k: &str| k@),
            values@.len() == i,
            ({
                let (after, removed) = remove_all(start, old_view.take(i as int));
                &&& settings@ == after
                &&& removed.len() == i
                &&& forall|j: int|
                    0 <= j < i ==> match #[trigger] values@[j] {
                        Some(v) => removed[j] == Some(v@),
                        None => removed[j] is None,
                    }
            }),
        decreases old_keys.len() - i,
    {
        assert(old_view.take(i + 1).drop_last() =~= old_view.take(i as int));
        assert(old_view.take(i + 1).last() == old_keys@[i as int]@);
        let value = settings.remove(old_keys[i]);
        values.push(value);
        i = i + 1;
    }
    assert(old_view.take(14) =~= old_view);
    let ghost removed_values = remove_all(start, snake_case_settings()).1;
    let mut k: usize = 0;
    while k < values.len()
        invariant
            k <= values.len(),
            values.len() == 14,
            removed_values.len() == 14,
            removed_values == remove_all(input@, snake_case_settings()).1,
            forall|j: int|
                0 <= j < 14 ==> match #[trigger] values@[j] {
                    Some(v) => removed_values[j] == Some(v@),
                    None => removed_values[j] is None,
                },
            forall|j: int| 0 <= j < k ==> (#[trigger] removed_values[j]) is Some,
        decreases values.len() - k,
    {
        if values[k].is_none() {
            assert(!all_present(removed_values));
            return None;
        }
        k = k + 1;
    }
    assert(all_present(removed_values));
    let ghost members = renamed(removed_values);
    let ghost middle = settings@;
    let mut m: usize = 0;
    while m < new_keys.len()
        invariant
            m <= new_keys.len(),
            new_keys.len() == 14,
            values.len() == 14,
            new_view == new_keys@.map_values(|k: &str| k@),
            new_view == camel_case_settings(),
            members == renamed(removed_values),
            removed_values.len() == 14,
            forall|j: int|
                0 <= j < 14 ==> match #[trigger] values@[j] {
                    Some(v) => removed_values[j] == Some(v@),
                    None => removed_values[j] is None,
                },
            forall|j: int| 0 <= j < 14 ==> (#[trigger] removed_values[j]) is Some,
            settings@ == insert_all(middle, members.take(m as int)),
        decreases new_keys.len() - m,
    {
        assert(members.take(m + 1).drop_last() =~= members.take(m as int));
        assert(members.take(m + 1).last() == members[m as int]);
        let value = match &values[m] {
            Some(v) => v.clone(),
            None => JsonValue::Null,
        };
        assert(removed_values[m as int] is Some);
        settings.insert(String::from_str(new_keys[m]), value);
        m = m + 1;
    }
    assert(members.take(14) =~= members);
    Some(settings)
}

/// The settings of a stored profile after the migration to `version` (see
/// [`spec_migrate_settings`]); none when the profile is to be deleted.
pub fn migrate_settings(version: u32, settings: Option<JsonMap>) -> (r: Option<JsonMap>)
    ensures
        settings_view(r) == spec_migrate_settings(version, settings_view(settings)),
{
    let mut settings = match settings {
        Some(s) => s,
        None => return None,
    };
    if version == 2 {
        migrate_to_v2(settings)
    } else if version == 3 {
        settings.insert(String::from_str("streamingServerWarningDismissed"), JsonValue::Null);
        Some(settings)
    } else if version == 4 {
        settings.insert(
            String::from_str("seekTimeDuration"),
            JsonValue::Number(String::from_str("20000")),
        );
        Some(settings)
    } else if version == 5 {
        settings.insert(String::from_str("audioLanguage"), JsonValue::Text(String::from_str("eng")));
        settings.insert(String::from_str("audioPassthrough"), JsonValue::Bool(false));
        Some(settings)
    } else if version == 6 {
        let old = settings.remove("playInExternalPlayer");
        let player_type = match old {
            Some(JsonValue::Bool(true)) => JsonValue::Text(String::from_str("external")),
            _ => JsonValue::Null,
        };
        settings.insert(String::from_str("playerType"), player_type);
        settings.insert(String::from_str("autoFrameRateMatching"), JsonValue::Bool(false));
        settings.insert(
            String::from_str("nextVideoNotificationDuration"),
            JsonValue::Number(String::from_str("35000")),
        );
        Some(settings)
    } else if version == 7 {
        let _ = settings.remove("autoFrameRateMatching");
        settings.insert(
            String::from_str("frameRateMatchingStrategy"),
            JsonValue::Text(String::from_str("FrameRateOnly")),
        );
        Some(settings)
    } else {
        Some(settings)
    }
}

/// A write to storage that a migration makes.
#[derive(PartialEq, Eq, Debug)]
pub enum StorageWrite {
    /// The schema version is set.
    SchemaVersion(u32),
    /// The profile is stored with these settings (its other members kept).
    Profile(JsonMap),
    /// The profile is deleted.
    DeleteProfile,
    /// The recent library items are deleted.
    DeleteLibraryRecent,
    /// The library is deleted.
    DeleteLibrary,
}

pub open spec fn write_view(write: StorageWrite) -> (int, Option<Entries>) {
    match write {
        StorageWrite::SchemaVersion(v) => (v as int, None),
        StorageWrite::Profile(settings) => (-1, Some(settings@)),
        StorageWrite::DeleteProfile => (-2, None),
        StorageWrite::DeleteLibraryRecent => (-3, None),
        StorageWrite::DeleteLibrary => (-4, None),
    }
}

pub open spec fn writes_view(writes: Seq<StorageWrite>) -> Seq<(int, Option<Entries>)> {
    writes.map_values(|w: StorageWrite| write_view(w))
}

/// The writes of the migration to `version`, in order: the migration to 1
/// sets the version and deletes the profile and the library; every later
/// one stores the migrated profile (or deletes it) and then sets the
/// version.
pub open spec fn spec_migration_writes(version: u32, settings: Option<Entries>) -> Seq<
    (int, Option<Entries>),
> {
    if version == 1 {
        seq![(1, None), (-2, None), (-3, None), (-4, None)]
    } else {
        let profile = match spec_migrate_settings(version, settings) {
            Some(s) => (-1, Some(s)),
            None => (-2, None),
        };
        seq![profile, (version as int, None)]
    }
}

/// The storage writes of the migration to `version`, for the stored
/// profile's settings (none when there is no profile, or its settings are
/// not an object).
pub fn migration_writes(version: u32, settings: Option<JsonMap>) -> (r: Vec<StorageWrite>)
    requires
        1 <= version <= SCHEMA_VERSION,
    ensures
        writes_view(r@) == spec_migration_writes(version, settings_view(settings)),
{
    let mut writes: Vec<StorageWrite> = Vec::new();
    if version == 1 {
        writes.push(StorageWrite::SchemaVersion(1));
        writes.push(StorageWrite::DeleteProfile);
        writes.push(StorageWrite::DeleteLibraryRecent);
        writes.push(StorageWrite::DeleteLibrary);
    } else {
        match migrate_settings(version, settings) {
            Some(s) => writes.push(StorageWrite::Profile(s)),
            None => writes.push(StorageWrite::DeleteProfile),
        }
        writes.push(StorageWrite::SchemaVersion(version));
    }
    assert(writes_view(writes@) =~= spec_migration_writes(version, settings_view(settings)));
    writes
}

} // verus!
