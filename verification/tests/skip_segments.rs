use std::collections::HashMap;

use stremio_core::models::skip_segments::native::stremio_native_candidates;
use stremio_core::models::skip_segments::providers::{
    external_provider_effects, introdb_candidates, introdb_url, is_imdb_id,
    is_theintrodb_imdb_id, provider_url, skipdb_candidates, skipdb_url, theintrodb_candidates,
    theintrodb_url, IntroDbResponse, IntroDbSegment, SkipDbResponse, SkipDbSegment,
    SkipDbSegments, TheIntroDbResponse, TheIntroDbSegment,
};
use stremio_core::models::skip_segments::resolve::resolve_skip_segment;
use stremio_core::models::skip_segments::native::{scale_timestamp, strongest_seek_event};
use stremio_core::types::skip_segments::{
    SeekEvent, SkipGaps, SkipGapsResponse, SkipSegmentCandidate, SkipSegmentContext,
    SkipSegmentKind, SkipSegmentMatch, SkipSegmentSource, SkipSegmentStreamSpecificity,
};

fn candidate(
    source: SkipSegmentSource,
    start_ms: u64,
    end_ms: u64,
    evidence_count: u32,
    specificity: SkipSegmentStreamSpecificity,
    adjusted: bool,
) -> SkipSegmentCandidate {
    SkipSegmentCandidate {
        kind: SkipSegmentKind::Intro,
        start_ms,
        end_ms,
        source,
        source_match: SkipSegmentMatch::ExactEpisode,
        source_confidence: None,
        adjusted,
        evidence_count,
        stream_specificity: specificity,
    }
}

fn context() -> SkipSegmentContext {
    SkipSegmentContext {
        item_id: "tt0903747".into(),
        media_type: "series".into(),
        season: Some(1),
        episode: Some(2),
        duration_ms: Some(2_820_500),
        open_subtitles_hash: None,
        stream_name_hash: None,
    }
}

fn query_of(url: &str) -> HashMap<String, String> {
    url::Url::parse(url)
        .expect("serialized URL parses")
        .query_pairs()
        .map(|(k, v)| (k.into_owned(), v.into_owned()))
        .collect()
}

fn skipdb_segment(start_ms: u64, end_ms: u64, confidence: i64, match_kind: &str) -> SkipDbSegment {
    SkipDbSegment {
        start_ms,
        end_ms,
        adjusted: false,
        confidence: Some(confidence),
        match_kind: match_kind.into(),
    }
}

#[test]
fn skipdb_provider_url_uses_duration_seconds() {
    let url = skipdb_url(&context()).expect("valid SkipDB URL");
    let query = query_of(&url);
    assert_eq!(query.get("duration").map(|value| value.as_str()), Some("2820"));
    assert_eq!(query.get("adjust").map(|value| value.as_str()), Some("conservative"));
}

#[test]
fn skipdb_adapter_fails_closed_for_out_of_range_matches() {
    let response = SkipDbResponse {
        segments: SkipDbSegments {
            intro: Some(skipdb_segment(229_500, 246_500, 600_000, "out-of-range")),
            recap: None,
            outro: None,
            preview: None,
        },
    };
    let candidates = skipdb_candidates(&response, Some(300_000));
    assert_eq!(candidates.len(), 1);
    assert_eq!(candidates[0].source, SkipSegmentSource::SkipDb);
    assert_eq!(candidates[0].source_match, SkipSegmentMatch::Estimated);
    assert!(resolve_skip_segment(SkipSegmentKind::Intro, &candidates).is_none());
}

#[test]
fn skipdb_adapter_rejects_segment_beyond_media_duration() {
    let response = SkipDbResponse {
        segments: SkipDbSegments {
            intro: Some(skipdb_segment(90_000, 130_000, 950_000, "exact")),
            recap: None,
            outro: None,
            preview: None,
        },
    };
    assert!(skipdb_candidates(&response, Some(120_000)).is_empty());
}

#[test]
fn skipdb_adapter_accepts_strong_exact_match() {
    let response = SkipDbResponse {
        segments: SkipDbSegments {
            intro: Some(skipdb_segment(61_000, 91_000, 900_000, "exact")),
            recap: None,
            outro: None,
            preview: None,
        },
    };
    let candidates = skipdb_candidates(&response, Some(300_000));
    let resolved =
        resolve_skip_segment(SkipSegmentKind::Intro, &candidates).expect("trusted SkipDB intro");
    assert_eq!(resolved.from_ms, 61_000);
    assert_eq!(resolved.to_ms, 91_000);
}

#[test]
fn theintrodb_provider_url_uses_duration_milliseconds() {
    let url = provider_url("https://api.theintrodb.org/v3/media", &context(), "duration_ms")
        .expect("valid TheIntroDB URL");
    let query = query_of(&url);
    assert_eq!(query.get("duration_ms").map(|value| value.as_str()), Some("2820500"));
}

#[test]
fn theintrodb_imdb_validation_matches_its_public_contract() {
    assert!(is_theintrodb_imdb_id("tt0903747"));
    assert!(is_theintrodb_imdb_id("tt12345678"));
    assert!(!is_theintrodb_imdb_id("tt123456"));
    assert!(!is_theintrodb_imdb_id("tt123456789"));
}

#[test]
fn native_adapter_selects_strongest_intro_and_scales_to_target_duration() {
    let response = SkipGapsResponse {
        accuracy: "byEpisode".into(),
        gaps: vec![(
            1_000_000,
            SkipGaps {
                seek_history: vec![
                    SeekEvent { records: 3, from: 20_000, to: 60_000 },
                    SeekEvent { records: 25, from: 100_000, to: 160_000 },
                ],
                outro: Some(900_000),
            },
        )],
    };

    let candidates = stremio_native_candidates(&response, 1_100_000);
    assert_eq!(candidates.len(), 2);
    assert_eq!(candidates[0].kind, SkipSegmentKind::Intro);
    assert_eq!(candidates[0].start_ms, 110_000);
    assert_eq!(candidates[0].end_ms, 176_000);
    assert_eq!(candidates[0].evidence_count, 25);
    assert!(candidates[0].adjusted);
    assert_eq!(candidates[1].kind, SkipSegmentKind::Outro);
    assert_eq!(candidates[1].start_ms, 990_000);
    assert_eq!(candidates[1].end_ms, 1_100_000);
}

#[test]
fn introdb_adapter_preserves_confidence_and_submission_count() {
    let response = IntroDbResponse {
        intro: Some(IntroDbSegment {
            start_ms: Some(61_000),
            end_ms: Some(91_000),
            confidence: Some(920_000),
            submission_count: Some(12),
        }),
        recap: None,
        outro: None,
    };
    let candidates = introdb_candidates(&response, Some(120_000));
    assert_eq!(candidates.len(), 1);
    assert_eq!(candidates[0].source, SkipSegmentSource::IntroDb);
    assert_eq!(candidates[0].source_match, SkipSegmentMatch::ExactEpisode);
    assert_eq!(candidates[0].source_confidence, Some(920_000));
    assert_eq!(candidates[0].evidence_count, 12);
    assert!(!candidates[0].adjusted);
}

#[test]
fn introdb_adapter_rejects_segment_beyond_media_duration() {
    let response = IntroDbResponse {
        intro: Some(IntroDbSegment {
            start_ms: Some(90_000),
            end_ms: Some(130_000),
            confidence: None,
            submission_count: None,
        }),
        recap: None,
        outro: None,
    };
    assert!(introdb_candidates(&response, Some(120_000)).is_empty());
}

#[test]
fn theintrodb_adapter_handles_open_ended_credits() {
    let response = TheIntroDbResponse {
        intro: vec![],
        recap: vec![],
        credits: vec![TheIntroDbSegment {
            start_ms: Some(1_800_000),
            end_ms: None,
            confidence: Some(800_000),
            submission_count: Some(7),
        }],
        preview: vec![],
    };
    let candidates = theintrodb_candidates(&response, Some(1_900_000));
    assert_eq!(candidates.len(), 1);
    assert_eq!(candidates[0].kind, SkipSegmentKind::Outro);
    assert_eq!(candidates[0].start_ms, 1_800_000);
    assert_eq!(candidates[0].end_ms, 1_900_000);
    assert_eq!(candidates[0].evidence_count, 7);
}

#[test]
fn resolver_prefers_more_specific_stream_evidence() {
    let candidates = vec![
        candidate(SkipSegmentSource::IntroDb, 90_000, 150_000, 100, SkipSegmentStreamSpecificity::Episode, false),
        candidate(SkipSegmentSource::StremioNative, 92_000, 152_000, 10, SkipSegmentStreamSpecificity::OpenSubtitlesHash, false),
    ];
    let resolved =
        resolve_skip_segment(SkipSegmentKind::Intro, &candidates).expect("resolved segment");
    assert_eq!(resolved.from_ms, 92_000);
    assert_eq!(resolved.to_ms, 152_000);
    assert_eq!(resolved.provenance.len(), 2);
}

#[test]
fn resolver_prefers_unadjusted_then_stronger_evidence() {
    let candidates = vec![
        candidate(SkipSegmentSource::StremioNative, 90_000, 150_000, 100, SkipSegmentStreamSpecificity::Duration, true),
        candidate(SkipSegmentSource::IntroDb, 91_000, 151_000, 5, SkipSegmentStreamSpecificity::Duration, false),
    ];
    let resolved =
        resolve_skip_segment(SkipSegmentKind::Intro, &candidates).expect("resolved segment");
    assert_eq!(resolved.from_ms, 91_000);
    assert!(!resolved.adjusted);
}

#[test]
fn resolver_rejects_weak_external_standalone_candidate() {
    let candidates = vec![candidate(
        SkipSegmentSource::IntroDb,
        60_000,
        90_000,
        1,
        SkipSegmentStreamSpecificity::Episode,
        false,
    )];
    assert!(resolve_skip_segment(SkipSegmentKind::Intro, &candidates).is_none());
}

#[test]
fn resolver_accepts_independent_agreement_without_standalone_strength() {
    let candidates = vec![
        candidate(SkipSegmentSource::IntroDb, 60_000, 90_000, 1, SkipSegmentStreamSpecificity::Episode, false),
        candidate(SkipSegmentSource::TheIntroDb, 61_000, 91_000, 1, SkipSegmentStreamSpecificity::Episode, false),
    ];
    let resolved =
        resolve_skip_segment(SkipSegmentKind::Intro, &candidates).expect("agreed segment");
    assert_eq!(resolved.provenance.len(), 2);
}

#[test]
fn resolver_suppresses_material_conflict_between_trusted_peers() {
    let candidates = vec![
        candidate(SkipSegmentSource::IntroDb, 60_000, 90_000, 10, SkipSegmentStreamSpecificity::Episode, false),
        candidate(SkipSegmentSource::TheIntroDb, 120_000, 155_000, 10, SkipSegmentStreamSpecificity::Episode, false),
    ];
    assert!(resolve_skip_segment(SkipSegmentKind::Intro, &candidates).is_none());
}

#[test]
fn resolver_rejects_implausibly_long_intro() {
    let candidates = vec![candidate(
        SkipSegmentSource::IntroDb,
        10_000,
        250_000,
        20,
        SkipSegmentStreamSpecificity::Episode,
        false,
    )];
    assert!(resolve_skip_segment(SkipSegmentKind::Intro, &candidates).is_none());
}

#[test]
fn resolver_rejects_invalid_or_tiny_segments() {
    let candidates = vec![
        candidate(SkipSegmentSource::IntroDb, 10_000, 9_000, 10, SkipSegmentStreamSpecificity::Episode, false),
        candidate(SkipSegmentSource::TheIntroDb, 10_000, 10_500, 10, SkipSegmentStreamSpecificity::Episode, false),
    ];
    assert!(resolve_skip_segment(SkipSegmentKind::Intro, &candidates).is_none());
}

#[test]
fn resolver_confidence_and_provenance_follow_agreement() {
    // Native and IntroDB agree: provenance in source order, confidence 0.95.
    let candidates = vec![
        candidate(SkipSegmentSource::IntroDb, 60_000, 90_000, 1, SkipSegmentStreamSpecificity::Episode, false),
        candidate(SkipSegmentSource::StremioNative, 60_500, 90_500, 2, SkipSegmentStreamSpecificity::Episode, false),
    ];
    let resolved = resolve_skip_segment(SkipSegmentKind::Intro, &candidates).expect("resolved");
    assert_eq!(
        resolved.provenance,
        vec![SkipSegmentSource::StremioNative, SkipSegmentSource::IntroDb]
    );
    assert_eq!(resolved.confidence, 950_000);

    // A lone trusted candidate with plenty of evidence.
    let lone = vec![candidate(SkipSegmentSource::IntroDb, 60_000, 90_000, 25, SkipSegmentStreamSpecificity::Episode, false)];
    assert_eq!(resolve_skip_segment(SkipSegmentKind::Intro, &lone).unwrap().confidence, 900_000);
    let some = vec![candidate(SkipSegmentSource::IntroDb, 60_000, 90_000, 6, SkipSegmentStreamSpecificity::Episode, false)];
    assert_eq!(resolve_skip_segment(SkipSegmentKind::Intro, &some).unwrap().confidence, 800_000);
    let native = vec![candidate(SkipSegmentSource::StremioNative, 60_000, 90_000, 1, SkipSegmentStreamSpecificity::Episode, false)];
    assert_eq!(resolve_skip_segment(SkipSegmentKind::Intro, &native).unwrap().confidence, 700_000);
}

#[test]
fn resolver_ignores_other_kinds() {
    let mut outro = candidate(SkipSegmentSource::IntroDb, 60_000, 90_000, 10, SkipSegmentStreamSpecificity::Episode, false);
    outro.kind = SkipSegmentKind::Outro;
    assert!(resolve_skip_segment(SkipSegmentKind::Intro, &[outro]).is_none());
    assert!(resolve_skip_segment(SkipSegmentKind::Outro, &[outro]).is_some());
}

#[test]
fn imdb_id_shapes() {
    assert!(is_imdb_id("tt123456"));
    assert!(is_imdb_id("tt1234567890"));
    assert!(!is_imdb_id("tt12345"));
    assert!(!is_imdb_id("tt12345678901"));
    assert!(!is_imdb_id("kitsu:1"));
}

#[test]
fn scaling_and_strongest_seek() {
    assert_eq!(scale_timestamp(500, 0, 1000), 500);
    assert_eq!(scale_timestamp(500, 1000, 1000), 500);
    assert_eq!(scale_timestamp(500, 1000, 2000), 1000);
    let gaps = SkipGaps {
        seek_history: vec![
            SeekEvent { records: 5, from: 100, to: 50 },
            SeekEvent { records: 5, from: 100, to: 200 },
            SeekEvent { records: 5, from: 50, to: 150 },
            SeekEvent { records: 0, from: 0, to: 10_000 },
        ],
        outro: None,
    };
    // Equal records and length: the earlier start wins.
    assert_eq!(
        strongest_seek_event(&gaps),
        Some(SeekEvent { records: 5, from: 50, to: 150 })
    );
}

#[test]
fn native_specificity_from_accuracy_label() {
    let gaps = SkipGaps {
        seek_history: vec![SeekEvent { records: 3, from: 10_000, to: 40_000 }],
        outro: None,
    };
    let by_hash = SkipGapsResponse { accuracy: "ByHASH".into(), gaps: vec![(1000, gaps.clone())] };
    assert_eq!(
        stremio_native_candidates(&by_hash, 1000)[0].stream_specificity,
        SkipSegmentStreamSpecificity::OpenSubtitlesHash
    );
    let by_name = SkipGapsResponse { accuracy: "byFileName".into(), gaps: vec![(1000, gaps.clone())] };
    assert_eq!(
        stremio_native_candidates(&by_name, 1000)[0].stream_specificity,
        SkipSegmentStreamSpecificity::StreamName
    );
    assert!(stremio_native_candidates(&by_name, 0).is_empty());
    // Closest duration first; exact duration is not adjusted.
    let two = SkipGapsResponse { accuracy: "x".into(), gaps: vec![(500, gaps.clone()), (1000, gaps)] };
    let c = stremio_native_candidates(&two, 1000);
    assert!(!c[0].adjusted);
    assert_eq!(c[0].source_match, SkipSegmentMatch::ExactStream);
}

#[test]
fn provider_requests_for_an_episode() {
    let requests = external_provider_effects(context());
    let sources: Vec<_> = requests.iter().map(|r| r.source).collect();
    assert_eq!(
        sources,
        vec![SkipSegmentSource::SkipDb, SkipSegmentSource::IntroDb, SkipSegmentSource::TheIntroDb]
    );
    let introdb = introdb_url(&context()).unwrap();
    let query = query_of(&introdb);
    assert_eq!(query.get("season").map(String::as_str), Some("1"));
    assert!(query.get("duration").is_none());
    assert!(introdb.starts_with("https://api.introdb.app/segments?"));
    let mut movie = context();
    movie.season = None;
    assert!(introdb_url(&movie).is_none());
    let mut other = context();
    other.item_id = "kitsu:1".into();
    assert!(external_provider_effects(other).is_empty());
    let mut long = context();
    long.item_id = "tt123456789".into();
    assert!(theintrodb_url(&long).is_none());
    assert!(skipdb_url(&long).is_some());
}
