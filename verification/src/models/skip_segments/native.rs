//! Skip segment candidates from the seek history of other viewers.

use vstd::prelude::*;

use crate::models::skip_segments::resolve::spec_abs_diff;
use crate::order::{int_order, then_order};
use crate::text::{contains_ignore_ascii_case, contains_ignoring_case};
use crate::types::skip_segments::{
    SeekEvent, SkipGaps, SkipGapsResponse, SkipSegmentCandidate, SkipSegmentKind,
    SkipSegmentMatch, SkipSegmentSource, SkipSegmentStreamSpecificity,
};

verus! {

/// A seek counts when it was recorded at least once and goes forward.
pub open spec fn seek_qualifies(event: SeekEvent) -> bool {
    event.records > 0 && event.to > event.from
}

/// The preference between two seeks, as `-1`, `0` or `1`: more records
/// first, then a longer jump, then the earlier start.
pub open spec fn seek_order(left: SeekEvent, right: SeekEvent) -> int {
    then_order(
        int_order(left.records as int, right.records as int),
        then_order(
            int_order(
                spec_abs_diff(left.to as int, left.from as int),
                spec_abs_diff(right.to as int, right.from as int),
            ),
            int_order(right.from as int, left.from as int),
        ),
    )
}

/// The most preferred qualifying seek; the last of equally preferred ones.
pub open spec fn strongest_seek(history: Seq<SeekEvent>) -> Option<SeekEvent>
    decreases history.len(),
{
    if history.len() == 0 {
        None
    } else {
        let previous = strongest_seek(history.drop_last());
        let event = history.last();
        if !seek_qualifies(event) {
            previous
        } else {
            match previous {
                None => Some(event),
                Some(best) => if seek_order(best, event) > 0 {
                    Some(best)
                } else {
                    Some(event)
                },
            }
        }
    }
}

/// The stream specificity that the accuracy label of the seek history
/// stands for.
pub open spec fn spec_native_specificity(accuracy: Seq<char>) -> SkipSegmentStreamSpecificity {
    if contains_ignore_ascii_case(accuracy, seq!['h', 'a', 's', 'h']) {
        SkipSegmentStreamSpecificity::OpenSubtitlesHash
    } else if contains_ignore_ascii_case(accuracy, seq!['f', 'i', 'l', 'e'])
        || contains_ignore_ascii_case(accuracy, seq!['n', 'a', 'm', 'e']) {
        SkipSegmentStreamSpecificity::StreamName
    } else {
        SkipSegmentStreamSpecificity::Episode
    }
}

/// `value` moved from a video of `source_duration` to one of
/// `target_duration` in proportion (truncated to `u64`, as the cast does).
pub open spec fn spec_scale_timestamp(value: u64, source_duration: u64, target_duration: u64) -> u64 {
    if source_duration == 0 || source_duration == target_duration {
        value
    } else {
        ((value as int * target_duration as int) / source_duration as int) as u64
    }
}

/// The distance of a recorded duration from the target duration.
pub open spec fn gap_distance(gap: (u64, SkipGaps), target: u64) -> int {
    spec_abs_diff(gap.0 as int, target as int)
}

/// The index of the recorded duration closest to `target`; the first of
/// equally close ones.
pub open spec fn closest_gap_index(gaps: Seq<(u64, SkipGaps)>, target: u64) -> int
    decreases gaps.len(),
{
    if gaps.len() <= 1 {
        0
    } else {
        let previous = closest_gap_index(gaps.drop_last(), target);
        if gap_distance(gaps.last(), target) < gap_distance(gaps[previous], target) {
            gaps.len() - 1
        } else {
            previous
        }
    }
}

pub open spec fn native_intro(
    event: SeekEvent,
    source_duration: u64,
    target: u64,
    specificity: SkipSegmentStreamSpecificity,
) -> SkipSegmentCandidate {
    SkipSegmentCandidate {
        kind: SkipSegmentKind::Intro,
        start_ms: spec_scale_timestamp(event.from, source_duration, target),
        end_ms: spec_scale_timestamp(event.to, source_duration, target),
        source: SkipSegmentSource::StremioNative,
        source_match: if source_duration != target {
            SkipSegmentMatch::DurationAdjusted
        } else {
            SkipSegmentMatch::ExactStream
        },
        source_confidence: None,
        adjusted: source_duration != target,
        evidence_count: if event.records > u32::MAX {
            u32::MAX
        } else {
            event.records as u32
        },
        stream_specificity: specificity,
    }
}

pub open spec fn native_outro(
    outro: u64,
    source_duration: u64,
    target: u64,
    specificity: SkipSegmentStreamSpecificity,
) -> SkipSegmentCandidate {
    SkipSegmentCandidate {
        kind: SkipSegmentKind::Outro,
        start_ms: spec_scale_timestamp(outro, source_duration, target),
        end_ms: target,
        source: SkipSegmentSource::StremioNative,
        source_match: if source_duration != target {
            SkipSegmentMatch::DurationAdjusted
        } else {
            SkipSegmentMatch::ExactStream
        },
        source_confidence: None,
        adjusted: source_duration != target,
        evidence_count: 1,
        stream_specificity: specificity,
    }
}

/// The candidates that the seek history yields for a video of `target` ms:
/// the strongest seek as intro and the recorded outro, both scaled from the
/// closest recorded duration.
pub open spec fn spec_native_candidates(
    response: SkipGapsResponse,
    target: u64,
) -> Seq<SkipSegmentCandidate> {
    if target == 0 || response.gaps@.len() == 0 {
        Seq::empty()
    } else {
        let gap = response.gaps@[closest_gap_index(response.gaps@, target)];
        let source_duration = gap.0;
        let specificity = spec_native_specificity(response.accuracy@);
        let intro = match strongest_seek(gap.1.seek_history@) {
            Some(event) => seq![native_intro(event, source_duration, target, specificity)],
            None => Seq::empty(),
        };
        let outro = match gap.1.outro {
            Some(outro) => if spec_scale_timestamp(outro, source_duration, target) < target {
                seq![native_outro(outro, source_duration, target, specificity)]
            } else {
                Seq::empty()
            },
            None => Seq::empty(),
        };
        intro + outro
    }
}

fn seek_preferred(left: &SeekEvent, right: &SeekEvent) -> (r: bool)
    ensures
        r == (seek_order(*left, *right) > 0),
{
    if left.records != right.records {
        return left.records > right.records;
    }
    let left_len = if left.to >= left.from {
        left.to - left.from
    } else {
        left.from - left.to
    };
    let right_len = if right.to >= right.from {
        right.to - right.from
    } else {
        right.from - right.to
    };
    if left_len != right_len {
        return left_len > right_len;
    }
    right.from > left.from
}

/// The most preferred seek of `skip_gaps` that was recorded and goes
/// forward.
pub fn strongest_seek_event(skip_gaps: &SkipGaps) -> (r: Option<SeekEvent>)
    ensures
        r == strongest_seek(skip_gaps.seek_history@),
{
    let history = &skip_gaps.seek_history;
    let mut best: Option<SeekEvent> = None;
    let mut i: usize = 0;
    while i < history.len()
        invariant
            i <= history.len(),
            best == strongest_seek(history@.take(i as int)),
        decreases history.len() - i,
    {
        assert(history@.take(i + 1).drop_last() =~= history@.take(i as int));
        let event = history[i];
        if event.records > 0 && event.to > event.from {
            best = match best {
                None => Some(event),
                Some(current) => if seek_preferred(&current, &event) {
                    Some(current)
                } else {
                    Some(event)
                },
            };
        }
        i = i + 1;
    }
    assert(history@.take(history.len() as int) =~= history@);
    best
}

fn native_specificity(accuracy: &str) -> (r: SkipSegmentStreamSpecificity)
    ensures
        r == spec_native_specificity(accuracy@),
{
    proof {
        reveal_strlit("hash");
        reveal_strlit("HASH");
        reveal_strlit("file");
        reveal_strlit("FILE");
        reveal_strlit("name");
        reveal_strlit("NAME");
        assert("hash"@ =~= seq!['h', 'a', 's', 'h']);
        assert("file"@ =~= seq!['f', 'i', 'l', 'e']);
        assert("name"@ =~= seq!['n', 'a', 'm', 'e']);
    }
    if contains_ignoring_case(accuracy, "hash", "HASH") {
        SkipSegmentStreamSpecificity::OpenSubtitlesHash
    } else if contains_ignoring_case(accuracy, "file", "FILE") || contains_ignoring_case(
        accuracy,
        "name",
        "NAME",
    ) {
        SkipSegmentStreamSpecificity::StreamName
    } else {
        SkipSegmentStreamSpecificity::Episode
    }
}

/// Moves `value` from a video of `source_duration` to one of
/// `target_duration` in proportion.
pub fn scale_timestamp(value: u64, source_duration: u64, target_duration: u64) -> (r: u64)
    ensures
        r == spec_scale_timestamp(value, source_duration, target_duration),
{
    if source_duration == 0 || source_duration == target_duration {
        return value;
    }
    let v = value as u128;
    let t = target_duration as u128;
    assert(v * t <= 0xffff_ffff_ffff_ffff * 0xffff_ffff_ffff_ffffu128) by (nonlinear_arith)
        requires
            v <= 0xffff_ffff_ffff_ffffu128,
            t <= 0xffff_ffff_ffff_ffffu128,
    ;
    let product = v * t;
    let quotient = product / (source_duration as u128);
    quotient as u64
}

fn evidence_from_records(records: u64) -> (r: u32)
    ensures
        r == (if records > u32::MAX {
            u32::MAX
        } else {
            records as u32
        }),
{
    if records > 0xffff_ffff {
        0xffff_ffff
    } else {
        records as u32
    }
}

fn closest_gap(gaps: &Vec<(u64, SkipGaps)>, target: u64) -> (r: usize)
    requires
        gaps.len() > 0,
    ensures
        r == closest_gap_index(gaps@, target),
        r < gaps.len(),
{
    let mut best: usize = 0;
    let mut i: usize = 1;
    assert(gaps@.take(1).len() == 1);
    while i < gaps.len()
        invariant
            1 <= i <= gaps.len(),
            best < i,
            best == closest_gap_index(gaps@.take(i as int), target),
        decreases gaps.len() - i,
    {
        assert(gaps@.take(i + 1).drop_last() =~= gaps@.take(i as int));
        let d = gaps[i].0;
        let b = gaps[best].0;
        let distance = if d >= target {
            d - target
        } else {
            target - d
        };
        let best_distance = if b >= target {
            b - target
        } else {
            target - b
        };
        if distance < best_distance {
            best = i;
        }
        i = i + 1;
    }
    assert(gaps@.take(gaps.len() as int) =~= gaps@);
    best
}

/// The skip segment candidates that the seek history of other viewers
/// yields for a video of `target_duration_ms`.
pub fn stremio_native_candidates(response: &SkipGapsResponse, target_duration_ms: u64) -> (r: Vec<
    SkipSegmentCandidate,
>)
    ensures
        r@ == spec_native_candidates(*response, target_duration_ms),
{
    let mut candidates: Vec<SkipSegmentCandidate> = Vec::new();
    if target_duration_ms == 0 || response.gaps.len() == 0 {
        return candidates;
    }
    let index = closest_gap(&response.gaps, target_duration_ms);
    let source_duration = response.gaps[index].0;
    let skip_gaps = &response.gaps[index].1;
    let adjusted = source_duration != target_duration_ms;
    let source_match = if adjusted {
        SkipSegmentMatch::DurationAdjusted
    } else {
        SkipSegmentMatch::ExactStream
    };
    let specificity = native_specificity(response.accuracy.as_str());
    let ghost intro_part: Seq<SkipSegmentCandidate> = Seq::empty();
    if let Some(event) = strongest_seek_event(skip_gaps) {
        candidates.push(
            SkipSegmentCandidate {
                kind: SkipSegmentKind::Intro,
                start_ms: scale_timestamp(event.from, source_duration, target_duration_ms),
                end_ms: scale_timestamp(event.to, source_duration, target_duration_ms),
                source: SkipSegmentSource::StremioNative,
                source_match,
                source_confidence: None,
                adjusted,
                evidence_count: evidence_from_records(event.records),
                stream_specificity: specificity,
            },
        );
        proof {
            intro_part = seq![native_intro(event, source_duration, target_duration_ms, specificity)];
        }
    }
    assert(candidates@ =~= intro_part);
    if let Some(outro) = skip_gaps.outro {
        let start_ms = scale_timestamp(outro, source_duration, target_duration_ms);
        if start_ms < target_duration_ms {
            candidates.push(
                SkipSegmentCandidate {
                    kind: SkipSegmentKind::Outro,
                    start_ms,
                    end_ms: target_duration_ms,
                    source: SkipSegmentSource::StremioNative,
                    source_match,
                    source_confidence: None,
                    adjusted,
                    evidence_count: 1,
                    stream_specificity: specificity,
                },
            );
        }
    }
    assert(candidates@ =~= spec_native_candidates(*response, target_duration_ms));
    candidates
}

} // verus!
