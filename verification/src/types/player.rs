use vstd::prelude::*;

verus! {

/// Where the intro lies, in milliseconds.
#[derive(Clone, Copy, PartialEq, Eq, Debug, Structural)]
pub struct IntroData {
    pub from: u64,
    pub to: u64,
    pub duration: Option<u64>,
}

/// A range of a video, in milliseconds.
#[derive(Clone, Copy, PartialEq, Eq, Debug, Structural)]
pub struct SegmentRange {
    pub from: u64,
    pub to: u64,
}

/// A named segment of a video (such as `intro` or `recap`).
#[derive(Clone, PartialEq, Eq, Debug)]
pub struct IntroSegment {
    pub segment: String,
    pub from: u64,
    pub to: u64,
}

/// The segments that IntroDB knows of an episode, and its outro.
#[derive(Clone, PartialEq, Eq, Debug)]
pub struct IntroDbResponse {
    pub segments: Vec<IntroSegment>,
    pub outro: Option<SegmentRange>,
}

/// What the player shows of intro, outro and other segments.
#[derive(Clone, PartialEq, Eq, Debug)]
pub struct IntroOutro {
    pub intro: Option<IntroData>,
    pub outro: Option<u64>,
    pub segments: Vec<IntroSegment>,
}

/// The episode that IntroDB is asked about.
#[derive(Clone, PartialEq, Eq, Debug)]
pub struct IntroDbRequest {
    pub imdb_id: String,
    pub season: u32,
    pub episode: u32,
}

/// The season and episode of the played video.
#[derive(Clone, Copy, PartialEq, Eq, Debug, Structural)]
pub struct SeriesInfo {
    pub season: u32,
    pub episode: u32,
}

} // verus!
