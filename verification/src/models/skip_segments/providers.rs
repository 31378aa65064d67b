//! Skip segment candidates from the external providers, and the requests
//! that ask them.

use vstd::prelude::*;
use vstd::string::StringExecFns;

use crate::text::{decimal, decimal_string, is_tt_digits, str_eq, tt_digits};
use crate::types::skip_segments::{
    SkipSegmentCandidate, SkipSegmentContext, SkipSegmentKind, SkipSegmentMatch,
    SkipSegmentSource, SkipSegmentStreamSpecificity,
};

verus! {

/// A segment as IntroDB reports it. Confidences are in parts per million.
#[derive(Clone, Copy, Debug, PartialEq, Eq, Structural)]
pub struct IntroDbSegment {
    pub start_ms: Option<u64>,
    pub end_ms: Option<u64>,
    pub confidence: Option<i64>,
    pub submission_count: Option<u32>,
}

/// IntroDB's answer for one episode.
#[derive(Clone, Copy, Debug, PartialEq, Eq, Structural)]
pub struct IntroDbResponse {
    pub intro: Option<IntroDbSegment>,
    pub recap: Option<IntroDbSegment>,
    pub outro: Option<IntroDbSegment>,
}

/// A segment as SkipDB reports it. Confidences are in parts per million.
#[derive(Clone, Debug, PartialEq, Eq)]
pub struct SkipDbSegment {
    pub start_ms: u64,
    pub end_ms: u64,
    pub adjusted: bool,
    pub confidence: Option<i64>,
    pub match_kind: String,
}

#[derive(Clone, Debug, PartialEq, Eq)]
pub struct SkipDbSegments {
    pub intro: Option<SkipDbSegment>,
    pub recap: Option<SkipDbSegment>,
    pub outro: Option<SkipDbSegment>,
    pub preview: Option<SkipDbSegment>,
}

/// SkipDB's answer for one episode.
#[derive(Clone, Debug, PartialEq, Eq)]
pub struct SkipDbResponse {
    pub segments: SkipDbSegments,
}

/// A segment as TheIntroDB reports it. Confidences are in parts per million.
#[derive(Clone, Copy, Debug, PartialEq, Eq, Structural)]
pub struct TheIntroDbSegment {
    pub start_ms: Option<u64>,
    pub end_ms: Option<u64>,
    pub confidence: Option<i64>,
    pub submission_count: Option<u32>,
}

/// TheIntroDB's answer for one episode; several segments per kind.
#[derive(Clone, Debug, PartialEq, Eq)]
pub struct TheIntroDbResponse {
    pub intro: Vec<TheIntroDbSegment>,
    pub recap: Vec<TheIntroDbSegment>,
    pub credits: Vec<TheIntroDbSegment>,
    pub preview: Vec<TheIntroDbSegment>,
}

/// A request to one external provider, to be performed by the runtime.
#[derive(Clone, Debug, PartialEq, Eq)]
pub struct SkipProviderRequest {
    pub source: SkipSegmentSource,
    pub url: String,
    pub context: SkipSegmentContext,
}

// ---------------------------------------------------------------------------
// Adapters from provider answers to candidates
// ---------------------------------------------------------------------------

/// A segment ending at `end_ms` fits a video of the given duration.
pub open spec fn within_duration(end_ms: u64, media_duration_ms: Option<u64>) -> bool {
    match media_duration_ms {
        Some(duration) => end_ms <= duration,
        None => true,
    }
}

pub open spec fn introdb_candidate(
    kind: SkipSegmentKind,
    segment: Option<IntroDbSegment>,
    media_duration_ms: Option<u64>,
) -> Seq<SkipSegmentCandidate> {
    match segment {
        Some(segment) => match (segment.start_ms, segment.end_ms) {
            (Some(start_ms), Some(end_ms)) => if end_ms > start_ms && within_duration(
                end_ms,
                media_duration_ms,
            ) {
                seq![
                    SkipSegmentCandidate {
                        kind,
                        start_ms,
                        end_ms,
                        source: SkipSegmentSource::IntroDb,
                        source_match: SkipSegmentMatch::ExactEpisode,
                        source_confidence: segment.confidence,
                        adjusted: false,
                        evidence_count: match segment.submission_count {
                            Some(count) => count,
                            None => 0,
                        },
                        stream_specificity: SkipSegmentStreamSpecificity::Episode,
                    },
                ]
            } else {
                Seq::empty()
            },
            _ => Seq::empty(),
        },
        None => Seq::empty(),
    }
}

/// IntroDB's intro, recap and outro, in this order, where each is complete,
/// non-empty and within the video.
pub open spec fn spec_introdb_candidates(
    response: IntroDbResponse,
    media_duration_ms: Option<u64>,
) -> Seq<SkipSegmentCandidate> {
    introdb_candidate(SkipSegmentKind::Intro, response.intro, media_duration_ms)
        + introdb_candidate(SkipSegmentKind::Recap, response.recap, media_duration_ms)
        + introdb_candidate(SkipSegmentKind::Outro, response.outro, media_duration_ms)
}

pub open spec fn exact_label() -> Seq<char> {
    seq!['e', 'x', 'a', 'c', 't']
}

pub open spec fn shifted_label() -> Seq<char> {
    seq!['s', 'h', 'i', 'f', 't', 'e', 'd']
}

/// SkipDB's match label: `exact` and `shifted` are stream matches, anything
/// else an estimate.
pub open spec fn skipdb_match(label: Seq<char>) -> SkipSegmentMatch {
    if label == exact_label() {
        SkipSegmentMatch::ExactStream
    } else if label == shifted_label() {
        SkipSegmentMatch::DurationAdjusted
    } else {
        SkipSegmentMatch::Estimated
    }
}

pub open spec fn skipdb_specificity(label: Seq<char>) -> SkipSegmentStreamSpecificity {
    if label == exact_label() || label == shifted_label() {
        SkipSegmentStreamSpecificity::Duration
    } else {
        SkipSegmentStreamSpecificity::Episode
    }
}

pub open spec fn skipdb_candidate(
    kind: SkipSegmentKind,
    segment: Option<SkipDbSegment>,
    media_duration_ms: Option<u64>,
) -> Seq<SkipSegmentCandidate> {
    match segment {
        Some(segment) => if segment.end_ms > segment.start_ms && within_duration(
            segment.end_ms,
            media_duration_ms,
        ) {
            seq![
                SkipSegmentCandidate {
                    kind,
                    start_ms: segment.start_ms,
                    end_ms: segment.end_ms,
                    source: SkipSegmentSource::SkipDb,
                    source_match: skipdb_match(segment.match_kind@),
                    source_confidence: segment.confidence,
                    adjusted: segment.adjusted,
                    evidence_count: 0,
                    stream_specificity: skipdb_specificity(segment.match_kind@),
                },
            ]
        } else {
            Seq::empty()
        },
        None => Seq::empty(),
    }
}

/// SkipDB's intro, recap, outro and preview, in this order, where each is
/// non-empty and within the video.
pub open spec fn spec_skipdb_candidates(
    response: SkipDbResponse,
    media_duration_ms: Option<u64>,
) -> Seq<SkipSegmentCandidate> {
    skipdb_candidate(SkipSegmentKind::Intro, response.segments.intro, media_duration_ms)
        + skipdb_candidate(SkipSegmentKind::Recap, response.segments.recap, media_duration_ms)
        + skipdb_candidate(SkipSegmentKind::Outro, response.segments.outro, media_duration_ms)
        + skipdb_candidate(SkipSegmentKind::Preview, response.segments.preview, media_duration_ms)
}

pub open spec fn theintrodb_candidate(
    kind: SkipSegmentKind,
    segment: TheIntroDbSegment,
    media_duration_ms: Option<u64>,
) -> Seq<SkipSegmentCandidate> {
    let start_ms = match segment.start_ms {
        Some(start) => start,
        None => 0,
    };
    let end = match segment.end_ms {
        Some(end) => Some(end),
        None => media_duration_ms,
    };
    match end {
        Some(end_ms) => if end_ms > start_ms && within_duration(end_ms, media_duration_ms) {
            seq![
                SkipSegmentCandidate {
                    kind,
                    start_ms,
                    end_ms,
                    source: SkipSegmentSource::TheIntroDb,
                    source_match: SkipSegmentMatch::ExactEpisode,
                    source_confidence: segment.confidence,
                    adjusted: false,
                    evidence_count: match segment.submission_count {
                        Some(count) => count,
                        None => 0,
                    },
                    stream_specificity: SkipSegmentStreamSpecificity::Episode,
                },
            ]
        } else {
            Seq::empty()
        },
        None => Seq::empty(),
    }
}

/// The candidates of one group of TheIntroDB segments, in order. A missing
/// start counts as the beginning, a missing end as the end of the video.
pub open spec fn theintrodb_group(
    kind: SkipSegmentKind,
    segments: Seq<TheIntroDbSegment>,
    media_duration_ms: Option<u64>,
) -> Seq<SkipSegmentCandidate>
    decreases segments.len(),
{
    if segments.len() == 0 {
        Seq::empty()
    } else {
        theintrodb_group(kind, segments.drop_last(), media_duration_ms) + theintrodb_candidate(
            kind,
            segments.last(),
            media_duration_ms,
        )
    }
}

/// TheIntroDB's intros, recaps, credits (as outros) and previews, in this
/// order.
pub open spec fn spec_theintrodb_candidates(
    response: TheIntroDbResponse,
    media_duration_ms: Option<u64>,
) -> Seq<SkipSegmentCandidate> {
    theintrodb_group(SkipSegmentKind::Intro, response.intro@, media_duration_ms)
        + theintrodb_group(SkipSegmentKind::Recap, response.recap@, media_duration_ms)
        + theintrodb_group(SkipSegmentKind::Outro, response.credits@, media_duration_ms)
        + theintrodb_group(SkipSegmentKind::Preview, response.preview@, media_duration_ms)
}

fn within(end_ms: u64, media_duration_ms: Option<u64>) -> (r: bool)
    ensures
        r == within_duration(end_ms, media_duration_ms),
{
    match media_duration_ms {
        Some(duration) => end_ms <= duration,
        None => true,
    }
}

fn push_introdb(
    out: &mut Vec<SkipSegmentCandidate>,
    kind: SkipSegmentKind,
    segment: Option<IntroDbSegment>,
    media_duration_ms: Option<u64>,
)
    ensures
        final(out)@ == old(out)@ + introdb_candidate(kind, segment, media_duration_ms),
{
    if let Some(segment) = segment {
        if let (Some(start_ms), Some(end_ms)) = (segment.start_ms, segment.end_ms) {
            if end_ms > start_ms && within(end_ms, media_duration_ms) {
                out.push(
                    SkipSegmentCandidate {
                        kind,
                        start_ms,
                        end_ms,
                        source: SkipSegmentSource::IntroDb,
                        source_match: SkipSegmentMatch::ExactEpisode,
                        source_confidence: segment.confidence,
                        adjusted: false,
                        evidence_count: match segment.submission_count {
                            Some(count) => count,
                            None => 0,
                        },
                        stream_specificity: SkipSegmentStreamSpecificity::Episode,
                    },
                );
                assert(final(out)@ =~= old(out)@ + introdb_candidate(kind, Some(segment), media_duration_ms));
                return;
            }
        }
    }
    assert(final(out)@ =~= old(out)@ + introdb_candidate(kind, segment, media_duration_ms));
}

/// The candidates of an IntroDB answer for a video of the given duration.
pub fn introdb_candidates(response: &IntroDbResponse, media_duration_ms: Option<u64>) -> (r: Vec<
    SkipSegmentCandidate,
>)
    ensures
        r@ == spec_introdb_candidates(*response, media_duration_ms),
{
    let mut out: Vec<SkipSegmentCandidate> = Vec::new();
    push_introdb(&mut out, SkipSegmentKind::Intro, response.intro, media_duration_ms);
    push_introdb(&mut out, SkipSegmentKind::Recap, response.recap, media_duration_ms);
    push_introdb(&mut out, SkipSegmentKind::Outro, response.outro, media_duration_ms);
    assert(out@ =~= spec_introdb_candidates(*response, media_duration_ms));
    out
}

fn skipdb_match_of(label: &String) -> (r: (SkipSegmentMatch, SkipSegmentStreamSpecificity))
    ensures
        r.0 == skipdb_match(label@),
        r.1 == skipdb_specificity(label@),
{
    proof {
        reveal_strlit("exact");
        reveal_strlit("shifted");
        assert("exact"@ =~= exact_label());
        assert("shifted"@ =~= shifted_label());
    }
    if str_eq(label.as_str(), "exact") {
        (SkipSegmentMatch::ExactStream, SkipSegmentStreamSpecificity::Duration)
    } else if str_eq(label.as_str(), "shifted") {
        (SkipSegmentMatch::DurationAdjusted, SkipSegmentStreamSpecificity::Duration)
    } else {
        (SkipSegmentMatch::Estimated, SkipSegmentStreamSpecificity::Episode)
    }
}

fn push_skipdb(
    out: &mut Vec<SkipSegmentCandidate>,
    kind: SkipSegmentKind,
    segment: &Option<SkipDbSegment>,
    media_duration_ms: Option<u64>,
)
    ensures
        final(out)@ == old(out)@ + skipdb_candidate(kind, *segment, media_duration_ms),
{
    if let Some(segment) = segment {
        if segment.end_ms > segment.start_ms && within(segment.end_ms, media_duration_ms) {
            let (source_match, stream_specificity) = skipdb_match_of(&segment.match_kind);
            out.push(
                SkipSegmentCandidate {
                    kind,
                    start_ms: segment.start_ms,
                    end_ms: segment.end_ms,
                    source: SkipSegmentSource::SkipDb,
                    source_match,
                    source_confidence: segment.confidence,
                    adjusted: segment.adjusted,
                    evidence_count: 0,
                    stream_specificity,
                },
            );
        }
    }
    assert(final(out)@ =~= old(out)@ + skipdb_candidate(kind, *segment, media_duration_ms));
}

/// The candidates of a SkipDB answer for a video of the given duration.
pub fn skipdb_candidates(response: &SkipDbResponse, media_duration_ms: Option<u64>) -> (r: Vec<
    SkipSegmentCandidate,
>)
    ensures
        r@ == spec_skipdb_candidates(*response, media_duration_ms),
{
    let mut out: Vec<SkipSegmentCandidate> = Vec::new();
    push_skipdb(&mut out, SkipSegmentKind::Intro, &response.segments.intro, media_duration_ms);
    push_skipdb(&mut out, SkipSegmentKind::Recap, &response.segments.recap, media_duration_ms);
    push_skipdb(&mut out, SkipSegmentKind::Outro, &response.segments.outro, media_duration_ms);
    push_skipdb(&mut out, SkipSegmentKind::Preview, &response.segments.preview, media_duration_ms);
    assert(out@ =~= spec_skipdb_candidates(*response, media_duration_ms));
    out
}

fn push_theintrodb_group(
    out: &mut Vec<SkipSegmentCandidate>,
    kind: SkipSegmentKind,
    segments: &Vec<TheIntroDbSegment>,
    media_duration_ms: Option<u64>,
)
    ensures
        final(out)@ == old(out)@ + theintrodb_group(kind, segments@, media_duration_ms),
{
    let ghost start = out@;
    let mut i: usize = 0;
    while i < segments.len()
        invariant
            i <= segments.len(),
            out@ == start + theintrodb_group(kind, segments@.take(i as int), media_duration_ms),
        decreases segments.len() - i,
    {
        assert(segments@.take(i + 1).drop_last() =~= segments@.take(i as int));
        let segment = segments[i];
        let start_ms = match segment.start_ms {
            Some(start) => start,
            None => 0,
        };
        let end = match segment.end_ms {
            Some(end) => Some(end),
            None => media_duration_ms,
        };
        let ghost before = out@;
        if let Some(end_ms) = end {
            if end_ms > start_ms && within(end_ms, media_duration_ms) {
                out.push(
                    SkipSegmentCandidate {
                        kind,
                        start_ms,
                        end_ms,
                        source: SkipSegmentSource::TheIntroDb,
                        source_match: SkipSegmentMatch::ExactEpisode,
                        source_confidence: segment.confidence,
                        adjusted: false,
                        evidence_count: match segment.submission_count {
                            Some(count) => count,
                            None => 0,
                        },
                        stream_specificity: SkipSegmentStreamSpecificity::Episode,
                    },
                );
            }
        }
        assert(out@ =~= before + theintrodb_candidate(kind, segment, media_duration_ms));
        assert(out@ =~= start + theintrodb_group(kind, segments@.take(i + 1), media_duration_ms));
        i = i + 1;
    }
    assert(segments@.take(segments.len() as int) =~= segments@);
}

/// The candidates of a TheIntroDB answer for a video of the given duration.
pub fn theintrodb_candidates(response: &TheIntroDbResponse, media_duration_ms: Option<u64>) -> (r:
    Vec<SkipSegmentCandidate>)
    ensures
        r@ == spec_theintrodb_candidates(*response, media_duration_ms),
{
    let mut out: Vec<SkipSegmentCandidate> = Vec::new();
    push_theintrodb_group(&mut out, SkipSegmentKind::Intro, &response.intro, media_duration_ms);
    push_theintrodb_group(&mut out, SkipSegmentKind::Recap, &response.recap, media_duration_ms);
    push_theintrodb_group(&mut out, SkipSegmentKind::Outro, &response.credits, media_duration_ms);
    push_theintrodb_group(&mut out, SkipSegmentKind::Preview, &response.preview, media_duration_ms);
    assert(out@ =~= spec_theintrodb_candidates(*response, media_duration_ms));
    out
}

// ---------------------------------------------------------------------------
// Requests to the providers
// ---------------------------------------------------------------------------

/// Names what `url::Url::parse` of `base`, followed by
/// `query_pairs_mut().append_pair(key, value)` for each pair in order, gives
/// as `Url::as_str`: `None` where `base` does not parse. It is a function of
/// its arguments alone.
pub uninterp spec fn url_with_query_pairs(
    base: Seq<char>,
    pairs: Seq<(Seq<char>, Seq<char>)>,
) -> Option<Seq<char>>;

/// Names whether `url::Url::parse` accepts a text. It is a function of the
/// text alone.
pub uninterp spec fn parses_as_url(s: Seq<char>) -> bool;

pub open spec fn pairs_view(pairs: Seq<(String, String)>) -> Seq<(Seq<char>, Seq<char>)> {
    pairs.map_values(|p: (String, String)| (p.0@, p.1@))
}

pub open spec fn string_option_view(s: Option<String>) -> Option<Seq<char>> {
    match s {
        Some(s) => Some(s@),
        None => None,
    }
}

/// Parses `base` with the `url` crate, appends the query pairs in order
/// (form-urlencoded by the crate) and serializes the result. The contract
/// only ties the result to [`url_with_query_pairs`] of the arguments; how
/// the crate encodes is not stated. It also claims that a result is given
/// exactly where `Url::parse` accepts `base` (see [`parses_as_url`]).
#[verifier::external_body]
fn serialize_url_with_query(base: &str, pairs: &Vec<(String, String)>) -> (r: Option<String>)
    ensures
        string_option_view(r) == url_with_query_pairs(base@, pairs_view(pairs@)),
        (r is Some) == parses_as_url(base@),
{
    let mut url = url::Url::parse(base).ok()?;
    {
        let mut query = url.query_pairs_mut();
        for (key, value) in pairs.iter() {
            query.append_pair(key, value);
        }
    }
    Some(url.as_str().to_owned())
}

/// An IMDb id: `tt` and six to ten digits.
pub open spec fn spec_is_imdb_id(value: Seq<char>) -> bool {
    is_tt_digits(value, 6, 10)
}

/// The IMDb ids that TheIntroDB accepts: `tt` and seven or eight digits.
pub open spec fn spec_is_theintrodb_imdb_id(value: Seq<char>) -> bool {
    is_tt_digits(value, 7, 8)
}

pub fn is_imdb_id(value: &str) -> (r: bool)
    ensures
        r == spec_is_imdb_id(value@),
{
    tt_digits(value, 6, 10)
}

pub fn is_theintrodb_imdb_id(value: &str) -> (r: bool)
    ensures
        r == spec_is_theintrodb_imdb_id(value@),
{
    tt_digits(value, 7, 8)
}

pub open spec fn optional_pair(key: Seq<char>, value: Option<u64>) -> Seq<(Seq<char>, Seq<char>)> {
    match value {
        Some(v) => seq![(key, decimal(v as nat))],
        None => Seq::empty(),
    }
}

pub open spec fn season_of(context: SkipSegmentContext) -> Option<u64> {
    match context.season {
        Some(season) => Some(season as u64),
        None => None,
    }
}

pub open spec fn episode_of(context: SkipSegmentContext) -> Option<u64> {
    match context.episode {
        Some(episode) => Some(episode as u64),
        None => None,
    }
}

/// The duration sent to a provider: in seconds (rounded down) when the
/// parameter is called `duration`, in milliseconds otherwise.
pub open spec fn duration_value(context: SkipSegmentContext, duration_param: Seq<char>) -> Option<
    u64,
> {
    match context.duration_ms {
        Some(duration_ms) => if duration_param == "duration"@ {
            Some((duration_ms / 1000) as u64)
        } else {
            Some(duration_ms)
        },
        None => None,
    }
}

/// The query of a provider request: the IMDb id, then the season, the
/// episode and the duration where they are known.
pub open spec fn provider_query(
    context: SkipSegmentContext,
    duration_param: Seq<char>,
) -> Seq<(Seq<char>, Seq<char>)> {
    seq![("imdb_id"@, context.item_id@)] + optional_pair("season"@, season_of(context))
        + optional_pair("episode"@, episode_of(context)) + optional_pair(
        duration_param,
        duration_value(context, duration_param),
    )
}

pub open spec fn spec_provider_url(
    base: Seq<char>,
    context: SkipSegmentContext,
    duration_param: Seq<char>,
) -> Option<Seq<char>> {
    if spec_is_imdb_id(context.item_id@) {
        url_with_query_pairs(base, provider_query(context, duration_param))
    } else {
        None
    }
}

fn push_optional_pair(pairs: &mut Vec<(String, String)>, key: &str, value: Option<u64>)
    ensures
        pairs_view(final(pairs)@) == pairs_view(old(pairs)@) + optional_pair(key@, value),
{
    if let Some(v) = value {
        pairs.push((String::from_str(key), decimal_string(v)));
        assert(pairs_view(final(pairs)@) =~= pairs_view(old(pairs)@) + optional_pair(key@, value));
    } else {
        assert(pairs_view(final(pairs)@) =~= pairs_view(old(pairs)@) + optional_pair(key@, value));
    }
}

fn widen(value: Option<u32>) -> (r: Option<u64>)
    ensures
        r == (match value {
            Some(v) => Some(v as u64),
            None => None::<u64>,
        }),
{
    match value {
        Some(v) => Some(v as u64),
        None => None,
    }
}

fn query_pairs(context: &SkipSegmentContext, duration_param: &str) -> (r: Vec<(String, String)>)
    ensures
        pairs_view(r@) == provider_query(*context, duration_param@),
{
    let mut pairs: Vec<(String, String)> = Vec::new();
    pairs.push((String::from_str("imdb_id"), context.item_id.clone()));
    assert(pairs_view(pairs@) =~= seq![("imdb_id"@, context.item_id@)]);
    push_optional_pair(&mut pairs, "season", widen(context.season));
    push_optional_pair(&mut pairs, "episode", widen(context.episode));
    let duration = match context.duration_ms {
        Some(duration_ms) => if str_eq(duration_param, "duration") {
            Some(duration_ms / 1000)
        } else {
            Some(duration_ms)
        },
        None => None,
    };
    push_optional_pair(&mut pairs, duration_param, duration);
    pairs
}

/// The URL of a provider request for the played item, where its id is an
/// IMDb id.
pub fn provider_url(base: &str, context: &SkipSegmentContext, duration_param: &str) -> (r: Option<
    String,
>)
    ensures
        string_option_view(r) == spec_provider_url(base@, *context, duration_param@),
{
    if !is_imdb_id(context.item_id.as_str()) {
        return None;
    }
    let pairs = query_pairs(context, duration_param);
    serialize_url_with_query(base, &pairs)
}

pub open spec fn skipdb_base() -> Seq<char> {
    "https://api.skipdb.tv/api/segments"@
}

pub open spec fn introdb_base() -> Seq<char> {
    "https://api.introdb.app/segments"@
}

pub open spec fn theintrodb_base() -> Seq<char> {
    "https://api.theintrodb.org/v3/media"@
}

/// SkipDB is asked with the duration in seconds and for conservative
/// adjustment.
pub open spec fn spec_skipdb_url(context: SkipSegmentContext) -> Option<Seq<char>> {
    if spec_is_imdb_id(context.item_id@) {
        url_with_query_pairs(
            skipdb_base(),
            provider_query(context, "duration"@) + seq![("adjust"@, "conservative"@)],
        )
    } else {
        None
    }
}

/// The SkipDB request URL for the played item.
pub fn skipdb_url(context: &SkipSegmentContext) -> (r: Option<String>)
    ensures
        string_option_view(r) == spec_skipdb_url(*context),
{
    if !is_imdb_id(context.item_id.as_str()) {
        return None;
    }
    let mut pairs = query_pairs(context, "duration");
    let ghost before = pairs@;
    pairs.push((String::from_str("adjust"), String::from_str("conservative")));
    assert(pairs_view(pairs@) =~= pairs_view(before) + seq![("adjust"@, "conservative"@)]);
    serialize_url_with_query("https://api.skipdb.tv/api/segments", &pairs)
}

/// IntroDB is asked only for episodes (season and episode known) of items
/// with an IMDb id, and without the duration.
pub open spec fn spec_introdb_url(context: SkipSegmentContext) -> Option<Seq<char>> {
    match (context.season, context.episode) {
        (Some(season), Some(episode)) => if spec_is_imdb_id(context.item_id@) {
            url_with_query_pairs(
                introdb_base(),
                seq![
                    ("imdb_id"@, context.item_id@),
                    ("season"@, decimal(season as nat)),
                    ("episode"@, decimal(episode as nat)),
                ],
            )
        } else {
            None
        },
        _ => None,
    }
}

/// The IntroDB request URL for the played item.
pub fn introdb_url(context: &SkipSegmentContext) -> (r: Option<String>)
    ensures
        string_option_view(r) == spec_introdb_url(*context),
{
    let season = match context.season {
        Some(season) => season,
        None => return None,
    };
    let episode = match context.episode {
        Some(episode) => episode,
        None => return None,
    };
    if !is_imdb_id(context.item_id.as_str()) {
        return None;
    }
    let mut pairs: Vec<(String, String)> = Vec::new();
    pairs.push((String::from_str("imdb_id"), context.item_id.clone()));
    pairs.push((String::from_str("season"), decimal_string(season as u64)));
    pairs.push((String::from_str("episode"), decimal_string(episode as u64)));
    assert(pairs_view(pairs@) =~= seq![
        ("imdb_id"@, context.item_id@),
        ("season"@, decimal(season as nat)),
        ("episode"@, decimal(episode as nat)),
    ]);
    serialize_url_with_query("https://api.introdb.app/segments", &pairs)
}

/// TheIntroDB is asked with the duration in milliseconds, and only for the
/// IMDb ids it accepts.
pub open spec fn spec_theintrodb_url(context: SkipSegmentContext) -> Option<Seq<char>> {
    if spec_is_theintrodb_imdb_id(context.item_id@) {
        spec_provider_url(theintrodb_base(), context, "duration_ms"@)
    } else {
        None
    }
}

/// The TheIntroDB request URL for the played item.
pub fn theintrodb_url(context: &SkipSegmentContext) -> (r: Option<String>)
    ensures
        string_option_view(r) == spec_theintrodb_url(*context),
{
    if !is_theintrodb_imdb_id(context.item_id.as_str()) {
        return None;
    }
    provider_url("https://api.theintrodb.org/v3/media", context, "duration_ms")
}

pub open spec fn request_for(
    source: SkipSegmentSource,
    url: Option<Seq<char>>,
    context: SkipSegmentContext,
) -> Seq<(SkipSegmentSource, Seq<char>, SkipSegmentContext)> {
    match url {
        Some(url) => seq![(source, url, context)],
        None => Seq::empty(),
    }
}

pub open spec fn requests_view(requests: Seq<SkipProviderRequest>) -> Seq<
    (SkipSegmentSource, Seq<char>, SkipSegmentContext),
> {
    requests.map_values(|r: SkipProviderRequest| (r.source, r.url@, r.context))
}

/// The provider requests for the played item: SkipDB, IntroDB and
/// TheIntroDB, in this order, each where the item qualifies for it.
pub open spec fn spec_external_provider_requests(context: SkipSegmentContext) -> Seq<
    (SkipSegmentSource, Seq<char>, SkipSegmentContext),
> {
    request_for(SkipSegmentSource::SkipDb, spec_skipdb_url(context), context) + request_for(
        SkipSegmentSource::IntroDb,
        spec_introdb_url(context),
        context,
    ) + request_for(SkipSegmentSource::TheIntroDb, spec_theintrodb_url(context), context)
}

fn push_request(
    requests: &mut Vec<SkipProviderRequest>,
    source: SkipSegmentSource,
    url: Option<String>,
    context: &SkipSegmentContext,
)
    ensures
        requests_view(final(requests)@) == requests_view(old(requests)@) + request_for(
            source,
            string_option_view(url),
            *context,
        ),
{
    if let Some(url) = url {
        requests.push(SkipProviderRequest { source, url, context: context.clone() });
    }
    assert(requests_view(final(requests)@) =~= requests_view(old(requests)@) + request_for(
        source,
        string_option_view(url),
        *context,
    ));
}

/// The requests that the runtime should make to the external providers for
/// the played item.
pub fn external_provider_effects(context: SkipSegmentContext) -> (r: Vec<SkipProviderRequest>)
    ensures
        requests_view(r@) == spec_external_provider_requests(context),
{
    let mut requests: Vec<SkipProviderRequest> = Vec::new();
    assert(requests_view(requests@) =~= Seq::empty());
    push_request(&mut requests, SkipSegmentSource::SkipDb, skipdb_url(&context), &context);
    push_request(&mut requests, SkipSegmentSource::IntroDb, introdb_url(&context), &context);
    push_request(&mut requests, SkipSegmentSource::TheIntroDb, theintrodb_url(&context), &context);
    assert(requests_view(requests@) =~= spec_external_provider_requests(context));
    requests
}

} // verus!
