use stremio_core::models::casting::{
    CastCommand, Casting, CastingEffect, CastingEvent, CastingStatus, PlayOnDeviceArgs, PlaybackDevice,
};
use stremio_core::runtime::EnvError;

fn devices() -> Vec<PlaybackDevice> {
    vec![
        PlaybackDevice { id: "tv1".to_string(), name: "Living room".to_string(), device_type: "tv".to_string() },
        PlaybackDevice { id: "ext".to_string(), name: "VLC".to_string(), device_type: "external".to_string() },
    ]
}

fn args(device: &str, source: &str) -> PlayOnDeviceArgs {
    PlayOnDeviceArgs { device: device.to_string(), source: source.to_string(), time: Some(5), subtitles: None }
}

fn url() -> String {
    "http://127.0.0.1:11470/".to_string()
}

#[test]
fn casting_refuses_unavailable_devices_and_sources() {
    let mut casting = Casting::new();
    let devices = devices();
    let effects = casting.start_casting(args("ext", "http://a/b.mp4"), Some(&devices), &url());
    assert!(!effects.has_changed);
    let effects = effects.into_effects();
    assert_eq!(effects.len(), 2);
    assert_eq!(
        effects[0],
        CastingEffect::Error(
            EnvError::Other("Casting device or source is unavailable".to_string()),
            CastingEvent::PlayingOnDevice("ext".to_string())
        )
    );
    assert_eq!(effects[1], CastingEffect::Event(CastingEvent::StoppedCasting("ext".to_string())));
    let effects = casting.start_casting(args("tv1", "not a url"), Some(&devices), &url());
    assert_eq!(effects.len(), 2);
    let effects = casting.start_casting(args("tv1", "http://a/b.mp4"), None, &url());
    assert_eq!(effects.len(), 2);
    assert!(casting.session.is_none() && casting.requests.is_empty());
}

#[test]
fn casting_plays_then_stops() {
    let mut casting = Casting::new();
    let devices = devices();
    let effects = casting.start_casting(args("tv1", "http://a/b.mp4"), Some(&devices), &url());
    assert!(effects.has_changed);
    let effects = effects.into_effects();
    assert_eq!(effects.len(), 1);
    assert!(matches!(&effects[0], CastingEffect::Send(request) if request.session.id == 1));
    assert_eq!(casting.session.as_ref().unwrap().status, CastingStatus::Starting);
    let effects = casting.casting_result(1, Ok(()));
    assert!(effects.has_changed);
    assert_eq!(
        effects.into_effects(),
        vec![CastingEffect::Event(CastingEvent::PlayingOnDevice("tv1".to_string()))]
    );
    assert_eq!(casting.session.as_ref().unwrap().status, CastingStatus::Playing);
    // subtitles are sent at once while nothing is queued
    let effects = casting.set_casting_subtitles(1, "{\"lang\":\"eng\"}".to_string());
    assert!(!effects.has_changed);
    assert_eq!(effects.len(), 1);
    let effects = casting.casting_result(1, Ok(()));
    assert!(!effects.has_changed);
    let effects = casting.stop_casting();
    assert!(effects.has_changed);
    assert_eq!(casting.session.as_ref().unwrap().status, CastingStatus::Stopping);
    assert!(matches!(casting.requests[0].command, CastCommand::Stop));
    let effects = casting.casting_result(1, Ok(()));
    assert_eq!(
        effects.into_effects(),
        vec![CastingEffect::Event(CastingEvent::StoppedCasting("tv1".to_string()))]
    );
    assert!(casting.session.is_none());
    // an answer nobody waits for is ignored
    let ignored = casting.casting_result(7, Ok(()));
    assert!(!ignored.has_changed && ignored.is_empty());
}

#[test]
fn casting_a_new_source_stops_the_previous_session() {
    let mut casting = Casting::new();
    let devices = devices();
    casting.start_casting(args("tv1", "http://a/1.mp4"), Some(&devices), &url());
    // the first play is in flight; a second cast queues a stop and a new play
    let effects = casting.start_casting(args("tv1", "http://a/2.mp4"), Some(&devices), &url());
    assert!(effects.has_changed && effects.is_empty());
    assert_eq!(casting.generation, 2);
    assert_eq!(casting.requests.len(), 3);
    assert!(matches!(casting.requests[1].command, CastCommand::Stop));
    assert_eq!(casting.requests[1].session.id, 1);
    assert_eq!(casting.session.as_ref().unwrap().id, 2);
    // subtitles for the new session replace each other in the queue
    casting.set_casting_subtitles(2, "a".to_string());
    casting.set_casting_subtitles(2, "b".to_string());
    assert_eq!(casting.requests.len(), 4);
    assert!(matches!(&casting.requests[3].command, CastCommand::Subtitles(s) if s == "b"));
    // the old play fails: its error is reported and the queue moves on
    let effects = casting.casting_result(1, Err(EnvError::Fetch("offline".to_string())));
    assert!(!effects.has_changed);
    let effects = effects.into_effects();
    assert_eq!(
        effects[0],
        CastingEffect::Error(
            EnvError::Fetch("offline".to_string()),
            CastingEvent::PlayingOnDevice("tv1".to_string())
        )
    );
    assert!(matches!(&effects[1], CastingEffect::Send(request) if matches!(request.command, CastCommand::Stop)));
    // a failed stop keeps the session in error and drops the queue
    let effects = casting.casting_result(1, Err(EnvError::Fetch("offline".to_string())));
    assert!(effects.has_changed);
    assert!(casting.requests.is_empty());
    assert_eq!(
        casting.session.as_ref().unwrap().status,
        CastingStatus::Error(EnvError::Fetch("offline".to_string()))
    );
}
