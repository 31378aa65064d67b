use vstd::prelude::*;

use crate::text::str_eq;
use crate::types::player::SeriesInfo;

verus! {

/// Where a stream is played from.
#[derive(PartialEq, Eq, Debug)]
pub enum StreamSource {
    Url { url: String },
    YouTube { yt_id: String },
    Torrent { info_hash: String, file_idx: Option<u16> },
    PlayerFrame { player_frame_url: String },
    External { external_url: Option<String> },
}

/// A stream that an addon offers for a video.
#[derive(PartialEq, Eq, Debug)]
pub struct Stream {
    pub source: StreamSource,
    pub name: Option<String>,
    pub description: Option<String>,
}

fn clone_text(value: &Option<String>) -> (r: Option<String>)
    ensures
        r == *value,
{
    match value {
        Some(s) => Some(s.clone()),
        None => None,
    }
}

impl Clone for StreamSource {
    fn clone(&self) -> (r: Self)
        ensures
            r == *self,
    {
        match self {
            StreamSource::Url { url } => StreamSource::Url { url: url.clone() },
            StreamSource::YouTube { yt_id } => StreamSource::YouTube { yt_id: yt_id.clone() },
            StreamSource::Torrent { info_hash, file_idx } => StreamSource::Torrent {
                info_hash: info_hash.clone(),
                file_idx: *file_idx,
            },
            StreamSource::PlayerFrame { player_frame_url } => StreamSource::PlayerFrame {
                player_frame_url: player_frame_url.clone(),
            },
            StreamSource::External { external_url } => StreamSource::External {
                external_url: clone_text(external_url),
            },
        }
    }
}

impl Clone for Stream {
    fn clone(&self) -> (r: Self)
        ensures
            r == *self,
    {
        Stream {
            source: self.source.clone(),
            name: clone_text(&self.name),
            description: clone_text(&self.description),
        }
    }
}

/// The streams that were last played by a user (none when signed out): for
/// each meta item id and video id, the stream and the transport URL of the
/// addon it came from.
#[derive(PartialEq, Eq, Debug, Default)]
pub struct StreamsBucket {
    pub uid: Option<String>,
    pub items: Vec<(String, String, Stream, String)>,
}

} // verus!

verus! {

/// A stream as plain values: the kind of source and its text, the file
/// index of a torrent, the URL of an external source, the name and the
/// description.
pub type StreamView = (
    (int, Seq<char>, Option<u16>, Option<Seq<char>>),
    Option<Seq<char>>,
    Option<Seq<char>>,
);

pub open spec fn optional_text_view(value: Option<String>) -> Option<Seq<char>> {
    match value {
        Some(s) => Some(s@),
        None => None,
    }
}

pub open spec fn stream_view(stream: Stream) -> StreamView {
    let source = match stream.source {
        StreamSource::Url { url } => (0int, url@, None, None),
        StreamSource::YouTube { yt_id } => (1int, yt_id@, None, None),
        StreamSource::Torrent { info_hash, file_idx } => (2int, info_hash@, file_idx, None),
        StreamSource::PlayerFrame { player_frame_url } => (3int, player_frame_url@, None, None),
        StreamSource::External { external_url } => (4int, Seq::empty(), None, optional_text_view(
            external_url,
        )),
    };
    (source, optional_text_view(stream.name), optional_text_view(stream.description))
}

pub open spec fn streams_view(streams: Seq<Stream>) -> Seq<StreamView> {
    streams.map_values(|s: Stream| stream_view(s))
}

fn same_optional_text(a: &Option<String>, b: &Option<String>) -> (r: bool)
    ensures
        r == (optional_text_view(*a) == optional_text_view(*b)),
{
    match (a, b) {
        (Some(x), Some(y)) => crate::text::str_eq(x.as_str(), y.as_str()),
        (None, None) => true,
        _ => false,
    }
}

/// Whether two streams hold the same values.
pub fn same_stream_value(x: &Stream, y: &Stream) -> (r: bool)
    ensures
        r == (stream_view(*x) == stream_view(*y)),
{
    let same_source = match (&x.source, &y.source) {
        (StreamSource::Url { url: p }, StreamSource::Url { url: q }) => crate::text::str_eq(
            p.as_str(),
            q.as_str(),
        ),
        (StreamSource::YouTube { yt_id: p }, StreamSource::YouTube { yt_id: q }) =>
            crate::text::str_eq(p.as_str(), q.as_str()),
        (
            StreamSource::Torrent { info_hash: p, file_idx: i },
            StreamSource::Torrent { info_hash: q, file_idx: j },
        ) => crate::text::str_eq(p.as_str(), q.as_str()) && *i == *j,
        (
            StreamSource::PlayerFrame { player_frame_url: p },
            StreamSource::PlayerFrame { player_frame_url: q },
        ) => crate::text::str_eq(p.as_str(), q.as_str()),
        (
            StreamSource::External { external_url: p },
            StreamSource::External { external_url: q },
        ) => same_optional_text(p, q),
        _ => false,
    };
    same_source && same_optional_text(&x.name, &y.name) && same_optional_text(
        &x.description,
        &y.description,
    )
}

/// Copies the streams.
pub fn clone_streams(streams: &Vec<Stream>) -> (r: Vec<Stream>)
    ensures
        r@ == streams@,
{
    let mut out: Vec<Stream> = Vec::new();
    let mut i: usize = 0;
    while i < streams.len()
        invariant
            i <= streams.len(),
            out@ == streams@.take(i as int),
        decreases streams.len() - i,
    {
        out.push(streams[i].clone());
        assert(out@ =~= streams@.take(i + 1));
        i = i + 1;
    }
    assert(streams@.take(streams.len() as int) =~= streams@);
    out
}

/// When a show of a live channel runs, from its start to its end, in
/// milliseconds since the Unix epoch.
#[derive(Clone, Copy, PartialEq, Eq, Debug, Structural)]
pub struct EpgInfo {
    pub start_time: i64,
    pub end_time: i64,
}

/// A video of a meta item: when it was released (milliseconds since the
/// Unix epoch), its season and episode,
/// the streams it comes with and, for a show of a live channel, when it runs.
#[derive(PartialEq, Eq, Debug)]
pub struct Video {
    pub id: String,
    pub title: String,
    pub released: Option<i64>,
    pub series_info: Option<SeriesInfo>,
    pub streams: Vec<Stream>,
    pub epg_info: Option<EpgInfo>,
}

pub type VideoView = (
    Seq<char>,
    Seq<char>,
    Option<i64>,
    Option<SeriesInfo>,
    Seq<StreamView>,
    Option<EpgInfo>,
);

pub open spec fn video_view(video: Video) -> VideoView {
    (
        video.id@,
        video.title@,
        video.released,
        video.series_info,
        streams_view(video.streams@),
        video.epg_info,
    )
}

impl Clone for Video {
    fn clone(&self) -> (r: Self)
        ensures
            video_view(r) == video_view(*self),
    {
        Video {
            id: self.id.clone(),
            title: self.title.clone(),
            released: self.released,
            series_info: self.series_info,
            streams: clone_streams(&self.streams),
            epg_info: self.epg_info,
        }
    }
}

/// Whether two videos have the same value.
pub fn same_video_value(x: &Video, y: &Video) -> (r: bool)
    ensures
        r == (video_view(*x) == video_view(*y)),
{
    if !(str_eq(x.id.as_str(), y.id.as_str()) && str_eq(x.title.as_str(), y.title.as_str()) && x.released
        == y.released && x.series_info == y.series_info && x.epg_info == y.epg_info
        && x.streams.len() == y.streams.len()) {
        proof {
            if video_view(*x) == video_view(*y) {
                assert(streams_view(x.streams@).len() == x.streams@.len());
            }
        }
        return false;
    }
    let mut i: usize = 0;
    while i < x.streams.len()
        invariant
            i <= x.streams.len(),
            x.streams.len() == y.streams.len(),
            forall|j: int|
                0 <= j < i ==> stream_view(x.streams@[j]) == #[trigger] stream_view(y.streams@[j]),
        decreases x.streams.len() - i,
    {
        if !same_stream_value(&x.streams[i], &y.streams[i]) {
            proof {
                let vx = video_view(*x);
                let vy = video_view(*y);
                assert(vx.4[i as int] != vy.4[i as int]);
            }
            return false;
        }
        i = i + 1;
    }
    assert(streams_view(x.streams@) =~= streams_view(y.streams@));
    true
}

/// Whether two lists of videos have the same value.
pub fn same_videos(a: &Vec<Video>, b: &Vec<Video>) -> (r: bool)
    ensures
        r == (videos_view(a@) == videos_view(b@)),
{
    if a.len() != b.len() {
        proof {
            if videos_view(a@) == videos_view(b@) {
                assert(videos_view(a@).len() == a@.len());
            }
        }
        return false;
    }
    let mut i: usize = 0;
    while i < a.len()
        invariant
            i <= a.len(),
            a.len() == b.len(),
            forall|q: int| 0 <= q < i ==> video_view(a@[q]) == #[trigger] video_view(b@[q]),
        decreases a.len() - i,
    {
        if !same_video_value(&a[i], &b[i]) {
            proof {
                assert(videos_view(a@)[i as int] != videos_view(b@)[i as int]);
            }
            return false;
        }
        i = i + 1;
    }
    assert(videos_view(a@) =~= videos_view(b@));
    true
}

/// Whether two meta items have the same value.
pub fn same_meta_item(a: &MetaItem, b: &MetaItem) -> (r: bool)
    ensures
        r == (meta_item_view(*a) == meta_item_view(*b)),
{
    same_preview(&a.preview, &b.preview) && same_videos(&a.videos, &b.videos)
}

/// A movie, series or channel, with its videos.
#[derive(PartialEq, Eq, Debug)]
pub struct MetaItem {
    pub preview: MetaItemPreview,
    pub videos: Vec<Video>,
}

pub type MetaItemView = (PreviewView, Seq<VideoView>);

pub open spec fn videos_view(videos: Seq<Video>) -> Seq<VideoView> {
    videos.map_values(|v: Video| video_view(v))
}

pub open spec fn meta_item_view(item: MetaItem) -> MetaItemView {
    (preview_view(item.preview), videos_view(item.videos@))
}

impl Clone for MetaItem {
    fn clone(&self) -> (r: Self)
        ensures
            meta_item_view(r) == meta_item_view(*self),
    {
        let mut videos: Vec<Video> = Vec::new();
        let mut i: usize = 0;
        while i < self.videos.len()
            invariant
                i <= self.videos.len(),
                videos@.len() == i,
                forall|j: int| 0 <= j < i ==> video_view(#[trigger] videos@[j]) == video_view(self.videos@[j]),
            decreases self.videos.len() - i,
        {
            videos.push(self.videos[i].clone());
            i = i + 1;
        }
        assert(videos_view(videos@) =~= videos_view(self.videos@));
        MetaItem { preview: self.preview.clone(), videos }
    }
}

/// A meta item as catalogs list it.
#[derive(PartialEq, Eq, Debug)]
pub struct MetaItemPreview {
    pub id: String,
    pub content_type: String,
    pub name: String,
    pub poster: Option<String>,
    /// The video to play when the meta item is played as a whole.
    pub default_video_id: Option<String>,
}

pub type PreviewView = (Seq<char>, Seq<char>, Seq<char>, Option<Seq<char>>, Option<Seq<char>>);

pub open spec fn preview_view(preview: MetaItemPreview) -> PreviewView {
    (
        preview.id@,
        preview.content_type@,
        preview.name@,
        match preview.poster {
            Some(poster) => Some(poster@),
            None => None,
        },
        match preview.default_video_id {
            Some(id) => Some(id@),
            None => None,
        },
    )
}

/// Whether two previews have the same value.
pub fn same_preview(x: &MetaItemPreview, y: &MetaItemPreview) -> (r: bool)
    ensures
        r == (preview_view(*x) == preview_view(*y)),
{
    let same_poster = match (&x.poster, &y.poster) {
        (Some(a), Some(b)) => str_eq(a.as_str(), b.as_str()),
        (None, None) => true,
        _ => false,
    };
    let same_default_video = match (&x.default_video_id, &y.default_video_id) {
        (Some(a), Some(b)) => str_eq(a.as_str(), b.as_str()),
        (None, None) => true,
        _ => false,
    };
    str_eq(x.id.as_str(), y.id.as_str()) && str_eq(x.content_type.as_str(), y.content_type.as_str())
        && str_eq(x.name.as_str(), y.name.as_str()) && same_poster && same_default_video
}

impl Clone for MetaItemPreview {
    fn clone(&self) -> (r: Self)
        ensures
            preview_view(r) == preview_view(*self),
    {
        MetaItemPreview {
            id: self.id.clone(),
            content_type: self.content_type.clone(),
            name: self.name.clone(),
            poster: match &self.poster {
                Some(poster) => Some(poster.clone()),
                None => None,
            },
            default_video_id: match &self.default_video_id {
                Some(id) => Some(id.clone()),
                None => None,
            },
        }
    }
}

} // verus!

verus! {

/// An addon as catalogs of addons list it.
#[derive(Clone, PartialEq, Eq, Debug)]
pub struct DescriptorPreview {
    pub manifest_id: String,
    pub name: String,
    pub transport_url: String,
}

} // verus!
