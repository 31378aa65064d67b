use vstd::prelude::*;

verus! {

/// The part of a video that a skip segment covers.
#[derive(Clone, Copy, Debug, PartialEq, Eq, Structural)]
pub enum SkipSegmentKind {
    Intro,
    Recap,
    Outro,
    Preview,
}

/// The provider that reported a skip segment candidate.
#[derive(Clone, Copy, Debug, PartialEq, Eq, Structural)]
pub enum SkipSegmentSource {
    StremioNative,
    SkipDb,
    IntroDb,
    TheIntroDb,
}

/// How closely the provider's data matches the stream that is played.
#[derive(Clone, Copy, Debug, PartialEq, Eq, Structural)]
pub enum SkipSegmentMatch {
    ExactStream,
    ExactEpisode,
    DurationAdjusted,
    Estimated,
}

/// What the provider's data was keyed by, from least to most specific.
#[derive(Clone, Copy, Debug, PartialEq, Eq, Structural)]
pub enum SkipSegmentStreamSpecificity {
    Episode,
    Duration,
    StreamName,
    OpenSubtitlesHash,
}

/// One provider's claim about where a segment lies.
///
/// Confidences are fixed-point numbers in parts per million
/// (`1_000_000` stands for a confidence of `1.0`).
#[derive(Clone, Copy, Debug, PartialEq, Eq, Structural)]
pub struct SkipSegmentCandidate {
    pub kind: SkipSegmentKind,
    pub start_ms: u64,
    pub end_ms: u64,
    pub source: SkipSegmentSource,
    pub source_match: SkipSegmentMatch,
    pub source_confidence: Option<i64>,
    pub adjusted: bool,
    pub evidence_count: u32,
    pub stream_specificity: SkipSegmentStreamSpecificity,
}

/// The segment that the player offers to skip, with the providers that
/// agree on it.
///
/// `confidence` is in parts per million.
#[derive(Clone, Debug, PartialEq, Eq)]
pub struct ResolvedSkipSegment {
    pub kind: SkipSegmentKind,
    pub from_ms: u64,
    pub to_ms: u64,
    pub confidence: i64,
    pub provenance: Vec<SkipSegmentSource>,
    pub adjusted: bool,
}

/// What is known of the played item when the providers are asked.
#[derive(Debug, PartialEq, Eq)]
pub struct SkipSegmentContext {
    pub item_id: String,
    pub media_type: String,
    pub season: Option<u32>,
    pub episode: Option<u32>,
    pub duration_ms: Option<u64>,
    pub open_subtitles_hash: Option<String>,
    pub stream_name_hash: Option<String>,
}

fn clone_text(s: &Option<String>) -> (r: Option<String>)
    ensures
        r == *s,
{
    match s {
        Some(s) => Some(s.clone()),
        None => None,
    }
}

impl Clone for SkipSegmentContext {
    fn clone(&self) -> (r: Self)
        ensures
            r == *self,
    {
        SkipSegmentContext {
            item_id: self.item_id.clone(),
            media_type: self.media_type.clone(),
            season: self.season,
            episode: self.episode,
            duration_ms: self.duration_ms,
            open_subtitles_hash: clone_text(&self.open_subtitles_hash),
            stream_name_hash: clone_text(&self.stream_name_hash),
        }
    }
}

/// A seek that users made over the same stretch of a video.
#[derive(Clone, Copy, Debug, PartialEq, Eq, Structural)]
pub struct SeekEvent {
    pub records: u64,
    pub from: u64,
    pub to: u64,
}

/// The seek history recorded for one video duration.
#[derive(Clone, Debug, PartialEq, Eq)]
pub struct SkipGaps {
    pub seek_history: Vec<SeekEvent>,
    pub outro: Option<u64>,
}

/// The skip gaps known for a video, one entry per recorded duration.
#[derive(Clone, Debug, PartialEq, Eq)]
pub struct SkipGapsResponse {
    pub accuracy: String,
    pub gaps: Vec<(u64, SkipGaps)>,
}

} // verus!
