//! Properties of the skip segment rules that hold for every input.

use vstd::prelude::*;

use crate::models::skip_segments::native::{
    spec_native_candidates, spec_scale_timestamp,
};
use crate::models::skip_segments::providers::{
    spec_introdb_candidates, spec_is_imdb_id, spec_is_theintrodb_imdb_id, spec_skipdb_candidates,
    within_duration,
};
use crate::models::skip_segments::resolve::{
    is_plausible, is_trusted_standalone, last_max, agreeing_count, provenance_of, source_agrees,
    source_if_agrees, source_rank,
    spec_agree, spec_candidate_cmp, spec_resolves, valid_candidates,
};
use crate::types::skip_segments::{
    SkipGapsResponse, SkipSegmentCandidate, SkipSegmentKind, SkipSegmentSource,
};

verus! {

/// The preference between candidates is antisymmetric: swapping the two
/// candidates reverses the outcome.
pub proof fn law_candidate_order_antisymmetric(a: SkipSegmentCandidate, b: SkipSegmentCandidate)
    ensures
        spec_candidate_cmp(a, b) == -spec_candidate_cmp(b, a),
{
}

/// The preference between candidates is transitive.
pub proof fn law_candidate_order_transitive(
    a: SkipSegmentCandidate,
    b: SkipSegmentCandidate,
    c: SkipSegmentCandidate,
)
    requires
        spec_candidate_cmp(a, b) >= 0,
        spec_candidate_cmp(b, c) >= 0,
    ensures
        spec_candidate_cmp(a, c) >= 0,
{
}

proof fn lemma_last_max(s: Seq<SkipSegmentCandidate>)
    requires
        s.len() > 0,
    ensures
        exists|i: int| 0 <= i < s.len() && s[i] == last_max(s),
        forall|j: int| 0 <= j < s.len() ==> spec_candidate_cmp(last_max(s), #[trigger] s[j]) >= 0,
    decreases s.len(),
{
    if s.len() > 1 {
        let rest = s.drop_last();
        lemma_last_max(rest);
        let best = last_max(rest);
        let i = choose|i: int| 0 <= i < rest.len() && rest[i] == best;
        assert(s[i] == best);
        assert forall|j: int| 0 <= j < s.len() implies spec_candidate_cmp(
            last_max(s),
            #[trigger] s[j],
        ) >= 0 by {
            if j < s.len() - 1 {
                assert(s[j] == rest[j]);
                if spec_candidate_cmp(best, s.last()) <= 0 {
                    law_candidate_order_antisymmetric(best, s.last());
                    law_candidate_order_transitive(s.last(), best, s[j]);
                }
            } else {
                law_candidate_order_antisymmetric(best, s.last());
            }
        }
    } else {
        assert(s[0] == last_max(s));
    }
}

proof fn lemma_valid_candidates(kind: SkipSegmentKind, candidates: Seq<SkipSegmentCandidate>)
    ensures
        forall|i: int|
            0 <= i < valid_candidates(kind, candidates).len() ==> {
                let c = #[trigger] valid_candidates(kind, candidates)[i];
                &&& c.kind == kind
                &&& is_plausible(c)
                &&& exists|j: int| 0 <= j < candidates.len() && candidates[j] == c
            },
        forall|j: int|
            0 <= j < candidates.len() && (#[trigger] candidates[j]).kind == kind && is_plausible(
                candidates[j],
            ) ==> exists|i: int|
                0 <= i < valid_candidates(kind, candidates).len() && valid_candidates(
                    kind,
                    candidates,
                )[i] == candidates[j],
    decreases candidates.len(),
{
    if candidates.len() > 0 {
        let rest = candidates.drop_last();
        lemma_valid_candidates(kind, rest);
        let v = valid_candidates(kind, candidates);
        let vr = valid_candidates(kind, rest);
        assert forall|i: int| 0 <= i < v.len() implies {
            let c = #[trigger] v[i];
            &&& c.kind == kind
            &&& is_plausible(c)
            &&& exists|j: int| 0 <= j < candidates.len() && candidates[j] == c
        } by {
            if i < vr.len() {
                assert(v[i] == vr[i]);
                let j = choose|j: int| 0 <= j < rest.len() && rest[j] == vr[i];
                assert(candidates[j] == rest[j]);
            } else {
                assert(v[i] == candidates.last());
                assert(candidates[candidates.len() - 1] == candidates.last());
            }
        }
        assert forall|j: int|
            0 <= j < candidates.len() && (#[trigger] candidates[j]).kind == kind && is_plausible(
                candidates[j],
            ) implies exists|i: int| 0 <= i < v.len() && v[i] == candidates[j] by {
            if j < candidates.len() - 1 {
                assert(candidates[j] == rest[j]);
                let i = choose|i: int| 0 <= i < vr.len() && vr[i] == rest[j];
                assert(v[i] == vr[i]);
            } else {
                assert(v[v.len() - 1] == candidates.last());
            }
        }
    }
}

/// A resolved segment comes from one of the given candidates, is of the
/// requested kind, and is plausible for that kind.
pub proof fn law_resolved_segment_is_a_plausible_candidate(
    kind: SkipSegmentKind,
    candidates: Seq<SkipSegmentCandidate>,
)
    requires
        spec_resolves(kind, candidates),
    ensures
        ({
            let best = last_max(valid_candidates(kind, candidates));
            &&& best.kind == kind
            &&& is_plausible(best)
            &&& exists|j: int| 0 <= j < candidates.len() && candidates[j] == best
        }),
{
    let valid = valid_candidates(kind, candidates);
    lemma_last_max(valid);
    lemma_valid_candidates(kind, candidates);
    let i = choose|i: int| 0 <= i < valid.len() && valid[i] == last_max(valid);
    assert(valid[i] == last_max(valid));
}

/// The resolved segment is preferred over, or as preferred as, every other
/// plausible candidate of the kind.
pub proof fn law_resolved_segment_is_preferred(
    kind: SkipSegmentKind,
    candidates: Seq<SkipSegmentCandidate>,
    other: SkipSegmentCandidate,
)
    requires
        spec_resolves(kind, candidates),
        candidates.contains(other),
        other.kind == kind,
        is_plausible(other),
    ensures
        spec_candidate_cmp(last_max(valid_candidates(kind, candidates)), other) >= 0,
{
    let valid = valid_candidates(kind, candidates);
    lemma_last_max(valid);
    lemma_valid_candidates(kind, candidates);
    let j = choose|j: int| 0 <= j < candidates.len() && candidates[j] == other;
    assert(candidates[j].kind == kind && is_plausible(candidates[j]));
    let i = choose|i: int| 0 <= i < valid.len() && valid[i] == candidates[j];
    assert(spec_candidate_cmp(last_max(valid), valid[i]) >= 0);
}

/// A resolved segment is never offered on the word of a single weak
/// provider: it is trusted on its own or another source agrees with it.
pub proof fn law_resolved_segment_is_backed(
    kind: SkipSegmentKind,
    candidates: Seq<SkipSegmentCandidate>,
)
    requires
        spec_resolves(kind, candidates),
    ensures
        ({
            let valid = valid_candidates(kind, candidates);
            let best = last_max(valid);
            is_trusted_standalone(best) || agreeing_count(best, valid) > 0
        }),
{
}

/// The provenance of a resolved segment names the source of the preferred
/// candidate, and lists sources in source order, each at most once.
pub proof fn law_provenance_is_ordered_and_names_the_source(
    kind: SkipSegmentKind,
    candidates: Seq<SkipSegmentCandidate>,
)
    requires
        spec_resolves(kind, candidates),
    ensures
        ({
            let valid = valid_candidates(kind, candidates);
            let best = last_max(valid);
            let provenance = provenance_of(best, valid);
            &&& provenance.contains(best.source)
            &&& forall|i: int, j: int|
                0 <= i < j < provenance.len() ==> source_rank(provenance[i]) < source_rank(
                    provenance[j],
                )
        }),
{
    let valid = valid_candidates(kind, candidates);
    lemma_last_max(valid);
    lemma_valid_candidates(kind, candidates);
    let best = last_max(valid);
    let i = choose|i: int| 0 <= i < valid.len() && valid[i] == best;
    assert(spec_agree(best, valid[i]));
    assert(source_agrees(best, valid, best.source));
    let a = source_if_agrees(best, valid, SkipSegmentSource::StremioNative);
    let b = source_if_agrees(best, valid, SkipSegmentSource::SkipDb);
    let c = source_if_agrees(best, valid, SkipSegmentSource::IntroDb);
    let d = source_if_agrees(best, valid, SkipSegmentSource::TheIntroDb);
    let provenance = provenance_of(best, valid);
    assert(provenance == a + b + c + d);
    match best.source {
        SkipSegmentSource::StremioNative => {
            assert(provenance[0] == best.source);
        },
        SkipSegmentSource::SkipDb => {
            assert(provenance[a.len() as int] == best.source);
        },
        SkipSegmentSource::IntroDb => {
            assert(provenance[(a.len() + b.len()) as int] == best.source);
        },
        SkipSegmentSource::TheIntroDb => {
            assert(provenance[(a.len() + b.len() + c.len()) as int] == best.source);
        },
    }
}

/// Candidates of other kinds do not affect the resolution of a kind.
pub proof fn law_other_kinds_do_not_matter(
    kind: SkipSegmentKind,
    candidates: Seq<SkipSegmentCandidate>,
    other: SkipSegmentCandidate,
)
    requires
        other.kind != kind,
    ensures
        valid_candidates(kind, candidates.push(other)) == valid_candidates(kind, candidates),
        spec_resolves(kind, candidates.push(other)) == spec_resolves(kind, candidates),
{
    assert(candidates.push(other).drop_last() =~= candidates);
}

/// The ids that TheIntroDB accepts are IMDb ids.
pub proof fn law_theintrodb_ids_are_imdb_ids(value: Seq<char>)
    requires
        spec_is_theintrodb_imdb_id(value),
    ensures
        spec_is_imdb_id(value),
{
}

/// Scaling between equal durations, or from an unknown (zero) duration,
/// leaves a timestamp unchanged; scaling within the same duration is the
/// identity.
pub proof fn law_scale_identity(value: u64, duration: u64, target: u64)
    ensures
        spec_scale_timestamp(value, duration, duration) == value,
        spec_scale_timestamp(value, 0, target) == value,
{
}

/// The seek history yields at most an intro and an outro, both from the
/// native source, and an outro ends at the end of the target video and
/// starts before it.
pub proof fn law_native_candidates_shape(response: SkipGapsResponse, target: u64)
    ensures
        spec_native_candidates(response, target).len() <= 2,
        forall|i: int|
            0 <= i < spec_native_candidates(response, target).len() ==> {
                let c = #[trigger] spec_native_candidates(response, target)[i];
                &&& c.source == SkipSegmentSource::StremioNative
                &&& c.kind == SkipSegmentKind::Outro ==> c.end_ms == target && c.start_ms < target
            },
{
}

/// Provider answers only yield non-empty segments that end within the video.
pub proof fn law_provider_candidates_are_within_the_video(
    introdb: crate::models::skip_segments::providers::IntroDbResponse,
    skipdb: crate::models::skip_segments::providers::SkipDbResponse,
    media_duration_ms: Option<u64>,
)
    ensures
        forall|i: int|
            0 <= i < spec_introdb_candidates(introdb, media_duration_ms).len() ==> {
                let c = #[trigger] spec_introdb_candidates(introdb, media_duration_ms)[i];
                c.end_ms > c.start_ms && within_duration(c.end_ms, media_duration_ms)
            },
        forall|i: int|
            0 <= i < spec_skipdb_candidates(skipdb, media_duration_ms).len() ==> {
                let c = #[trigger] spec_skipdb_candidates(skipdb, media_duration_ms)[i];
                c.end_ms > c.start_ms && within_duration(c.end_ms, media_duration_ms)
            },
{
}

} // verus!
