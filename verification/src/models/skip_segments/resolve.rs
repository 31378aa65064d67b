use std::cmp::Ordering;
use vstd::prelude::*;

use crate::order::{int_order, ordering_value, then_order};

use crate::types::skip_segments::{
    ResolvedSkipSegment, SkipSegmentCandidate, SkipSegmentKind, SkipSegmentMatch,
    SkipSegmentSource, SkipSegmentStreamSpecificity,
};

verus! {

// ---------------------------------------------------------------------------
// Ranks and predicates over single candidates
// ---------------------------------------------------------------------------

/// How well a provider's match fits the played stream; higher is better.
pub open spec fn spec_match_rank(source_match: SkipSegmentMatch) -> int {
    match source_match {
        SkipSegmentMatch::ExactStream => 3,
        SkipSegmentMatch::ExactEpisode => 2,
        SkipSegmentMatch::DurationAdjusted => 1,
        SkipSegmentMatch::Estimated => 0,
    }
}

/// The order of stream specificities, from least to most specific.
pub open spec fn specificity_rank(specificity: SkipSegmentStreamSpecificity) -> int {
    match specificity {
        SkipSegmentStreamSpecificity::Episode => 0,
        SkipSegmentStreamSpecificity::Duration => 1,
        SkipSegmentStreamSpecificity::StreamName => 2,
        SkipSegmentStreamSpecificity::OpenSubtitlesHash => 3,
    }
}

/// The order in which sources are listed in a provenance.
pub open spec fn source_rank(source: SkipSegmentSource) -> int {
    match source {
        SkipSegmentSource::StremioNative => 0,
        SkipSegmentSource::SkipDb => 1,
        SkipSegmentSource::IntroDb => 2,
        SkipSegmentSource::TheIntroDb => 3,
    }
}

/// A segment is plausible when it is non-empty and its length fits its kind.
pub open spec fn is_plausible(candidate: SkipSegmentCandidate) -> bool {
    &&& candidate.end_ms > candidate.start_ms
    &&& {
        let duration = candidate.end_ms - candidate.start_ms;
        match candidate.kind {
            SkipSegmentKind::Intro => 3_000 <= duration <= 180_000,
            SkipSegmentKind::Recap => 3_000 <= duration <= 300_000,
            SkipSegmentKind::Outro => duration >= 1_000,
            SkipSegmentKind::Preview => 1_000 <= duration <= 300_000,
        }
    }
}

/// A candidate is trusted on its own when it comes from the native seek
/// history, carries a confidence of at least 0.8, or has at least five
/// pieces of evidence.
pub open spec fn is_trusted_standalone(candidate: SkipSegmentCandidate) -> bool {
    ||| candidate.source == SkipSegmentSource::StremioNative
    ||| (candidate.source_confidence matches Some(confidence) && confidence >= 800_000)
    ||| candidate.evidence_count >= 5
}

/// `x` saturated to the range of `u64`.
pub open spec fn saturate_u64(x: int) -> int {
    if x > u64::MAX {
        u64::MAX as int
    } else {
        x
    }
}

pub open spec fn spec_abs_diff(a: int, b: int) -> int {
    if a >= b {
        a - b
    } else {
        b - a
    }
}

pub open spec fn spec_max(a: int, b: int) -> int {
    if a >= b {
        a
    } else {
        b
    }
}

pub open spec fn spec_min(a: int, b: int) -> int {
    if a <= b {
        a
    } else {
        b
    }
}

/// Two candidates agree when they are of the same kind and overlap by at
/// least 60% of the shorter one, or when both their starts and their ends
/// lie within five seconds of each other (and they overlap at all).
pub open spec fn spec_agree(left: SkipSegmentCandidate, right: SkipSegmentCandidate) -> bool {
    &&& left.kind == right.kind
    &&& spec_min(left.end_ms as int, right.end_ms as int) > spec_max(
        left.start_ms as int,
        right.start_ms as int,
    )
    &&& {
        let overlap = spec_min(left.end_ms as int, right.end_ms as int) - spec_max(
            left.start_ms as int,
            right.start_ms as int,
        );
        let shorter = spec_min(
            left.end_ms - left.start_ms,
            right.end_ms - right.start_ms,
        );
        ||| saturate_u64(overlap * 100) >= saturate_u64(shorter * 60)
        ||| (spec_abs_diff(left.start_ms as int, right.start_ms as int) <= 5_000
            && spec_abs_diff(left.end_ms as int, right.end_ms as int) <= 5_000)
    }
}

/// `best` conflicts materially with a peer from another source that is
/// equally specific and equally well matched but does not agree with it.
pub open spec fn spec_materially_conflicting(
    best: SkipSegmentCandidate,
    peers: Seq<SkipSegmentCandidate>,
) -> bool {
    exists|i: int|
        0 <= i < peers.len() && {
            let peer = #[trigger] peers[i];
            &&& peer.source != best.source
            &&& peer.stream_specificity == best.stream_specificity
            &&& spec_match_rank(peer.source_match) == spec_match_rank(best.source_match)
            &&& !spec_agree(best, peer)
        }
}

// ---------------------------------------------------------------------------
// The preference order between candidates
// ---------------------------------------------------------------------------

pub open spec fn bool_int(b: bool) -> int {
    if b {
        1
    } else {
        0
    }
}

pub open spec fn evidence_of(candidate: SkipSegmentCandidate) -> int {
    candidate.evidence_count as int
}

pub open spec fn start_of(candidate: SkipSegmentCandidate) -> int {
    candidate.start_ms as int
}

pub open spec fn u64_order(a: u64, b: u64) -> int {
    int_order(a as int, b as int)
}

pub open spec fn i64_order(a: i64, b: i64) -> int {
    int_order(a as int, b as int)
}

pub open spec fn confidence_or_zero(candidate: SkipSegmentCandidate) -> int {
    match candidate.source_confidence {
        Some(confidence) => confidence as int,
        None => 0,
    }
}

/// The preference between two candidates, as `-1`, `0` or `1`: more
/// specific stream evidence first, then a better match, then an unadjusted
/// segment, then more evidence, then a higher confidence (none counts as
/// zero), and at last the earlier start.
pub open spec fn spec_candidate_cmp(left: SkipSegmentCandidate, right: SkipSegmentCandidate) -> int {
    then_order(
        int_order(
            specificity_rank(left.stream_specificity),
            specificity_rank(right.stream_specificity),
        ),
        then_order(
            int_order(spec_match_rank(left.source_match), spec_match_rank(right.source_match)),
            then_order(
                int_order(bool_int(right.adjusted), bool_int(left.adjusted)),
                then_order(
                    int_order(evidence_of(left), evidence_of(right)),
                    then_order(
                        int_order(confidence_or_zero(left), confidence_or_zero(right)),
                        int_order(start_of(right), start_of(left)),
                    ),
                ),
            ),
        ),
    )
}

/// The candidate that `Iterator::max_by` picks: the last of the maximal ones.
pub open spec fn last_max(s: Seq<SkipSegmentCandidate>) -> SkipSegmentCandidate
    recommends
        s.len() > 0,
    decreases s.len(),
{
    if s.len() <= 1 {
        s[0]
    } else {
        let best = last_max(s.drop_last());
        if spec_candidate_cmp(best, s.last()) > 0 {
            best
        } else {
            s.last()
        }
    }
}

// ---------------------------------------------------------------------------
// The resolution over a list of candidates
// ---------------------------------------------------------------------------

/// The candidates of `kind` that are plausible, in the order given.
pub open spec fn valid_candidates(
    kind: SkipSegmentKind,
    candidates: Seq<SkipSegmentCandidate>,
) -> Seq<SkipSegmentCandidate>
    decreases candidates.len(),
{
    if candidates.len() == 0 {
        Seq::empty()
    } else {
        let rest = valid_candidates(kind, candidates.drop_last());
        let last = candidates.last();
        if last.kind == kind && is_plausible(last) {
            rest.push(last)
        } else {
            rest
        }
    }
}

/// The candidates of `s` that are trusted on their own, in order.
pub open spec fn trusted_candidates(s: Seq<SkipSegmentCandidate>) -> Seq<SkipSegmentCandidate>
    decreases s.len(),
{
    if s.len() == 0 {
        Seq::empty()
    } else {
        let rest = trusted_candidates(s.drop_last());
        if is_trusted_standalone(s.last()) {
            rest.push(s.last())
        } else {
            rest
        }
    }
}

/// The number of candidates of `s` from another source than `best` that
/// agree with it.
pub open spec fn agreeing_count(best: SkipSegmentCandidate, s: Seq<SkipSegmentCandidate>) -> nat
    decreases s.len(),
{
    if s.len() == 0 {
        0
    } else {
        let rest = agreeing_count(best, s.drop_last());
        if s.last().source != best.source && spec_agree(best, s.last()) {
            rest + 1
        } else {
            rest
        }
    }
}

/// Some candidate of `s` from `source` agrees with `best`.
pub open spec fn source_agrees(
    best: SkipSegmentCandidate,
    s: Seq<SkipSegmentCandidate>,
    source: SkipSegmentSource,
) -> bool {
    exists|i: int| 0 <= i < s.len() && s[i].source == source && #[trigger] spec_agree(best, s[i])
}

pub open spec fn source_if_agrees(
    best: SkipSegmentCandidate,
    s: Seq<SkipSegmentCandidate>,
    source: SkipSegmentSource,
) -> Seq<SkipSegmentSource> {
    if source_agrees(best, s, source) {
        seq![source]
    } else {
        Seq::empty()
    }
}

/// The sources of the candidates of `s` that agree with `best`, each once,
/// in source order.
pub open spec fn provenance_of(
    best: SkipSegmentCandidate,
    s: Seq<SkipSegmentCandidate>,
) -> Seq<SkipSegmentSource> {
    source_if_agrees(best, s, SkipSegmentSource::StremioNative) + source_if_agrees(
        best,
        s,
        SkipSegmentSource::SkipDb,
    ) + source_if_agrees(best, s, SkipSegmentSource::IntroDb) + source_if_agrees(
        best,
        s,
        SkipSegmentSource::TheIntroDb,
    )
}

/// Whether a segment of `kind` is resolved from `candidates`: some valid
/// candidate exists, the preferred one is trusted on its own or agreed on
/// by another source, and no trusted peer conflicts with it.
pub open spec fn spec_resolves(kind: SkipSegmentKind, candidates: Seq<SkipSegmentCandidate>) -> bool {
    let valid = valid_candidates(kind, candidates);
    &&& valid.len() > 0
    &&& {
        let best = last_max(valid);
        &&& (is_trusted_standalone(best) || agreeing_count(best, valid) > 0)
        &&& !spec_materially_conflicting(best, trusted_candidates(valid))
    }
}

/// The confidence reported for the resolved segment, in parts per million.
pub open spec fn resolved_confidence(
    best: SkipSegmentCandidate,
    provenance: Seq<SkipSegmentSource>,
) -> int {
    match best.source_confidence {
        Some(confidence) => confidence as int,
        None => if provenance.len() > 1 {
            950_000
        } else if best.evidence_count >= 20 {
            900_000
        } else if best.evidence_count >= 5 {
            800_000
        } else {
            700_000
        },
    }
}

/// The resolved segment is the one of the preferred candidate.
pub open spec fn resolved_from(
    resolved: ResolvedSkipSegment,
    kind: SkipSegmentKind,
    candidates: Seq<SkipSegmentCandidate>,
) -> bool {
    let valid = valid_candidates(kind, candidates);
    let best = last_max(valid);
    &&& resolved.kind == kind
    &&& resolved.from_ms == best.start_ms
    &&& resolved.to_ms == best.end_ms
    &&& resolved.adjusted == best.adjusted
    &&& resolved.provenance@ == provenance_of(best, valid)
    &&& resolved.confidence == resolved_confidence(best, provenance_of(best, valid))
}

// ---------------------------------------------------------------------------
// Executable rules
// ---------------------------------------------------------------------------

fn match_rank(source_match: SkipSegmentMatch) -> (r: u8)
    ensures
        r == spec_match_rank(source_match),
{
    match source_match {
        SkipSegmentMatch::ExactStream => 3,
        SkipSegmentMatch::ExactEpisode => 2,
        SkipSegmentMatch::DurationAdjusted => 1,
        SkipSegmentMatch::Estimated => 0,
    }
}

fn specificity_level(specificity: SkipSegmentStreamSpecificity) -> (r: u8)
    ensures
        r == specificity_rank(specificity),
{
    match specificity {
        SkipSegmentStreamSpecificity::Episode => 0,
        SkipSegmentStreamSpecificity::Duration => 1,
        SkipSegmentStreamSpecificity::StreamName => 2,
        SkipSegmentStreamSpecificity::OpenSubtitlesHash => 3,
    }
}

fn plausible_segment(candidate: &SkipSegmentCandidate) -> (r: bool)
    ensures
        r == is_plausible(*candidate),
{
    if candidate.end_ms <= candidate.start_ms {
        return false;
    }
    let duration = candidate.end_ms - candidate.start_ms;
    match candidate.kind {
        SkipSegmentKind::Intro => 3_000 <= duration && duration <= 180_000,
        SkipSegmentKind::Recap => 3_000 <= duration && duration <= 300_000,
        SkipSegmentKind::Outro => duration >= 1_000,
        SkipSegmentKind::Preview => 1_000 <= duration && duration <= 300_000,
    }
}

fn trusted_standalone(candidate: &SkipSegmentCandidate) -> (r: bool)
    ensures
        r == is_trusted_standalone(*candidate),
{
    if candidate.source == SkipSegmentSource::StremioNative {
        return true;
    }
    let confident = match candidate.source_confidence {
        Some(confidence) => confidence >= 800_000,
        None => false,
    };
    confident || candidate.evidence_count >= 5
}

/// `min(a * k, u64::MAX)`.
fn saturating_mul_u64(a: u64, k: u64) -> (r: u64)
    requires
        k <= 100,
    ensures
        r == saturate_u64(a * k),
{
    if a > u64::MAX / k.max(1) && k > 0 {
        assert(a * k > u64::MAX) by (nonlinear_arith)
            requires
                a > u64::MAX / k,
                k > 0,
        ;
        u64::MAX
    } else {
        assert(a * k <= u64::MAX) by (nonlinear_arith)
            requires
                k == 0 || a <= u64::MAX / k,
        ;
        a * k
    }
}

fn abs_diff_u64(a: u64, b: u64) -> (r: u64)
    ensures
        r == spec_abs_diff(a as int, b as int),
{
    if a >= b {
        a - b
    } else {
        b - a
    }
}

fn candidates_agree(left: &SkipSegmentCandidate, right: &SkipSegmentCandidate) -> (r: bool)
    ensures
        r == spec_agree(*left, *right),
{
    if left.kind != right.kind {
        return false;
    }
    let overlap_start = if left.start_ms >= right.start_ms {
        left.start_ms
    } else {
        right.start_ms
    };
    let overlap_end = if left.end_ms <= right.end_ms {
        left.end_ms
    } else {
        right.end_ms
    };
    if overlap_end <= overlap_start {
        return false;
    }
    let overlap = overlap_end - overlap_start;
    let left_len = left.end_ms - left.start_ms;
    let right_len = right.end_ms - right.start_ms;
    let shorter = if left_len <= right_len {
        left_len
    } else {
        right_len
    };
    saturating_mul_u64(overlap, 100) >= saturating_mul_u64(shorter, 60) || (abs_diff_u64(
        left.start_ms,
        right.start_ms,
    ) <= 5_000 && abs_diff_u64(left.end_ms, right.end_ms) <= 5_000)
}

fn materially_conflicting(best: &SkipSegmentCandidate, candidates: &Vec<SkipSegmentCandidate>) -> (r:
    bool)
    ensures
        r == spec_materially_conflicting(*best, candidates@),
{
    let mut i: usize = 0;
    while i < candidates.len()
        invariant
            i <= candidates.len(),
            forall|j: int|
                0 <= j < i ==> !({
                    let peer = #[trigger] candidates@[j];
                    &&& peer.source != best.source
                    &&& peer.stream_specificity == best.stream_specificity
                    &&& spec_match_rank(peer.source_match) == spec_match_rank(best.source_match)
                    &&& !spec_agree(*best, peer)
                }),
        decreases candidates.len() - i,
    {
        let candidate = &candidates[i];
        if candidate.source != best.source && candidate.stream_specificity
            == best.stream_specificity && match_rank(candidate.source_match) == match_rank(
            best.source_match,
        ) && !candidates_agree(best, candidate) {
            return true;
        }
        i = i + 1;
    }
    false
}

fn order_of(a: u64, b: u64) -> (r: Ordering)
    ensures
        ordering_value(r) == u64_order(a, b),
{
    if a < b {
        Ordering::Less
    } else if a == b {
        Ordering::Equal
    } else {
        Ordering::Greater
    }
}

fn order_of_signed(a: i64, b: i64) -> (r: Ordering)
    ensures
        ordering_value(r) == i64_order(a, b),
{
    if a < b {
        Ordering::Less
    } else if a == b {
        Ordering::Equal
    } else {
        Ordering::Greater
    }
}

fn candidate_cmp(left: &SkipSegmentCandidate, right: &SkipSegmentCandidate) -> (r: Ordering)
    ensures
        ordering_value(r) == spec_candidate_cmp(*left, *right),
{
    let by_specificity = order_of(
        u64::from(specificity_level(left.stream_specificity)),
        u64::from(specificity_level(right.stream_specificity)),
    );
    if !matches!(by_specificity, Ordering::Equal) {
        return by_specificity;
    }
    let by_match = order_of(
        u64::from(match_rank(left.source_match)),
        u64::from(match_rank(right.source_match)),
    );
    if !matches!(by_match, Ordering::Equal) {
        return by_match;
    }
    let right_adjusted: u64 = if right.adjusted {
        1
    } else {
        0
    };
    let left_adjusted: u64 = if left.adjusted {
        1
    } else {
        0
    };
    let by_adjusted = order_of(right_adjusted, left_adjusted);
    if !matches!(by_adjusted, Ordering::Equal) {
        return by_adjusted;
    }
    let by_evidence = order_of(u64::from(left.evidence_count), u64::from(right.evidence_count));
    if !matches!(by_evidence, Ordering::Equal) {
        return by_evidence;
    }
    let left_confidence = match left.source_confidence {
        Some(confidence) => confidence,
        None => 0,
    };
    let right_confidence = match right.source_confidence {
        Some(confidence) => confidence,
        None => 0,
    };
    let by_confidence = order_of_signed(left_confidence, right_confidence);
    if !matches!(by_confidence, Ordering::Equal) {
        return by_confidence;
    }
    order_of(right.start_ms, left.start_ms)
}


fn any_agreeing_from(
    best: &SkipSegmentCandidate,
    valid: &Vec<SkipSegmentCandidate>,
    source: SkipSegmentSource,
) -> (r: bool)
    ensures
        r == source_agrees(*best, valid@, source),
{
    let mut i: usize = 0;
    while i < valid.len()
        invariant
            i <= valid.len(),
            forall|j: int|
                0 <= j < i ==> !(valid@[j].source == source && #[trigger] spec_agree(
                    *best,
                    valid@[j],
                )),
        decreases valid.len() - i,
    {
        if valid[i].source == source && candidates_agree(best, &valid[i]) {
            return true;
        }
        i = i + 1;
    }
    false
}

fn push_if_agrees(
    provenance: &mut Vec<SkipSegmentSource>,
    best: &SkipSegmentCandidate,
    valid: &Vec<SkipSegmentCandidate>,
    source: SkipSegmentSource,
)
    ensures
        final(provenance)@ == old(provenance)@ + source_if_agrees(*best, valid@, source),
{
    if any_agreeing_from(best, valid, source) {
        provenance.push(source);
        assert(final(provenance)@ =~= old(provenance)@ + seq![source]);
    } else {
        assert(old(provenance)@ + Seq::<SkipSegmentSource>::empty() =~= old(provenance)@);
    }
}

/// The first `n` elements of `s`.
pub open spec fn prefix<T>(s: Seq<T>, n: usize) -> Seq<T> {
    s.take(n as int)
}

proof fn lemma_prefix_step<T>(s: Seq<T>, n: usize)
    requires
        n < s.len(),
        s.len() <= usize::MAX,
    ensures
        prefix(s, (n + 1) as usize).drop_last() == prefix(s, n),
        prefix(s, (n + 1) as usize).last() == s[n as int],
        prefix(s, (n + 1) as usize).len() == n + 1,
{
    assert(prefix(s, (n + 1) as usize).drop_last() =~= prefix(s, n));
}

proof fn lemma_prefix_full<T>(s: Seq<T>, n: usize)
    requires
        n == s.len(),
    ensures
        prefix(s, n) == s,
{
    assert(prefix(s, n) =~= s);
}

/// The plausible candidates of `kind`, in the order given.
fn collect_valid(kind: SkipSegmentKind, candidates: &[SkipSegmentCandidate]) -> (r: Vec<
    SkipSegmentCandidate,
>)
    ensures
        r@ == valid_candidates(kind, candidates@),
{
    let mut valid: Vec<SkipSegmentCandidate> = Vec::new();
    let mut i: usize = 0;
    while i < candidates.len()
        invariant
            i <= candidates.len(),
            valid@ == valid_candidates(kind, candidates@.take(i as int)),
        decreases candidates.len() - i,
    {
        assert(candidates@.take(i + 1).drop_last() =~= candidates@.take(i as int));
        let candidate = candidates[i];
        if candidate.kind == kind && plausible_segment(&candidate) {
            valid.push(candidate);
        }
        i = i + 1;
    }
    assert(candidates@.take(candidates.len() as int) =~= candidates@);
    valid
}

/// The candidate that `max_by` with the preference order picks.
fn preferred_candidate(valid: &Vec<SkipSegmentCandidate>) -> (r: SkipSegmentCandidate)
    requires
        valid.len() > 0,
    ensures
        r == last_max(valid@),
{
    let mut best = valid[0];
    let mut k: usize = 1;
    proof {
        lemma_prefix_step(valid@, 0);
    }
    while k < valid.len()
        invariant
            1 <= k <= valid.len(),
            best == last_max(prefix(valid@, k)),
        decreases valid.len() - k,
    {
        proof {
            lemma_prefix_step(valid@, k);
        }
        let next = valid[k];
        if !matches!(candidate_cmp(&best, &next), Ordering::Greater) {
            best = next;
        }
        k = k + 1;
    }
    proof {
        lemma_prefix_full(valid@, k);
    }
    best
}

/// How many candidates from other sources agree with `best`, and the
/// candidates that are trusted on their own.
fn agreement_and_trusted(best: &SkipSegmentCandidate, valid: &Vec<SkipSegmentCandidate>) -> (r: (
    usize,
    Vec<SkipSegmentCandidate>,
))
    ensures
        r.0 == agreeing_count(*best, valid@),
        r.1@ == trusted_candidates(valid@),
{
    let mut agreeing: usize = 0;
    let mut trusted: Vec<SkipSegmentCandidate> = Vec::new();
    let mut k: usize = 0;
    while k < valid.len()
        invariant
            k <= valid.len(),
            agreeing == agreeing_count(*best, valid@.take(k as int)),
            agreeing <= k,
            trusted@ == trusted_candidates(valid@.take(k as int)),
        decreases valid.len() - k,
    {
        assert(valid@.take(k + 1).drop_last() =~= valid@.take(k as int));
        let candidate = valid[k];
        if candidate.source != best.source && candidates_agree(best, &candidate) {
            agreeing = agreeing + 1;
        }
        if trusted_standalone(&candidate) {
            trusted.push(candidate);
        }
        k = k + 1;
    }
    assert(valid@.take(valid.len() as int) =~= valid@);
    (agreeing, trusted)
}

/// Picks the segment of `kind` to offer for skipping among the candidates
/// that the providers reported.
///
/// Only plausible candidates of `kind` count. The preferred one (see
/// [`spec_candidate_cmp`]; the last of equally preferred ones) is offered
/// when it is trusted on its own or another source agrees with it, and no
/// trusted candidate from another source conflicts with it.
pub fn resolve_skip_segment(
    kind: SkipSegmentKind,
    candidates: &[SkipSegmentCandidate],
) -> (r: Option<ResolvedSkipSegment>)
    ensures
        r is Some <==> spec_resolves(kind, candidates@),
        r matches Some(resolved) ==> resolved_from(resolved, kind, candidates@),
{
    let valid = collect_valid(kind, candidates);
    if valid.len() == 0 {
        return None;
    }
    let best = preferred_candidate(&valid);
    let (agreeing, trusted) = agreement_and_trusted(&best, &valid);
    if !trusted_standalone(&best) && agreeing == 0 {
        return None;
    }
    if materially_conflicting(&best, &trusted) {
        return None;
    }

    let mut provenance: Vec<SkipSegmentSource> = Vec::new();
    push_if_agrees(&mut provenance, &best, &valid, SkipSegmentSource::StremioNative);
    push_if_agrees(&mut provenance, &best, &valid, SkipSegmentSource::SkipDb);
    push_if_agrees(&mut provenance, &best, &valid, SkipSegmentSource::IntroDb);
    push_if_agrees(&mut provenance, &best, &valid, SkipSegmentSource::TheIntroDb);
    assert(provenance@ =~= provenance_of(best, valid@));

    let confidence = match best.source_confidence {
        Some(confidence) => confidence,
        None => if provenance.len() > 1 {
            950_000
        } else if best.evidence_count >= 20 {
            900_000
        } else if best.evidence_count >= 5 {
            800_000
        } else {
            700_000
        },
    };

    Some(
        ResolvedSkipSegment {
            kind,
            from_ms: best.start_ms,
            to_ms: best.end_ms,
            confidence,
            provenance,
            adjusted: best.adjusted,
        },
    )
}

} // verus!
