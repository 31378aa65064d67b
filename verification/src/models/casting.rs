//! Casting to playback devices through the streaming server: the session
//! on a device and the queue of requests sent to it one at a time.

use vstd::prelude::*;
use vstd::string::StringExecFns;

use crate::models::skip_segments::providers::parses_as_url;
use crate::runtime::{Effects, EnvError};
use crate::text::str_eq;

verus! {

/// A device that the streaming server can play on.
#[derive(PartialEq, Eq, Debug)]
pub struct PlaybackDevice {
    pub id: String,
    pub name: String,
    pub device_type: String,
}

/// What to play on a device: the source, where to start (milliseconds), and
/// the subtitles to show, as the JSON that the device takes.
#[derive(PartialEq, Eq, Debug)]
pub struct PlayOnDeviceArgs {
    pub device: String,
    pub source: String,
    pub time: Option<u64>,
    pub subtitles: Option<String>,
}

impl Clone for PlayOnDeviceArgs {
    fn clone(&self) -> (r: Self)
        ensures
            r == *self,
    {
        PlayOnDeviceArgs {
            device: self.device.clone(),
            source: self.source.clone(),
            time: self.time,
            subtitles: match &self.subtitles {
                Some(s) => Some(s.clone()),
                None => None,
            },
        }
    }
}

/// Where a casting session stands.
#[derive(PartialEq, Debug)]
pub enum CastingStatus {
    Starting,
    Playing,
    Stopping,
    Error(EnvError),
}

/// A casting session on a device; `transport_url` is the streaming server
/// it goes through.
#[derive(PartialEq, Debug)]
pub struct CastingSession {
    pub id: u64,
    pub device: String,
    pub status: CastingStatus,
    pub transport_url: String,
}

impl Clone for CastingSession {
    fn clone(&self) -> (r: Self)
        ensures
            r == *self,
    {
        CastingSession {
            id: self.id,
            device: self.device.clone(),
            status: match &self.status {
                CastingStatus::Starting => CastingStatus::Starting,
                CastingStatus::Playing => CastingStatus::Playing,
                CastingStatus::Stopping => CastingStatus::Stopping,
                CastingStatus::Error(e) => CastingStatus::Error(e.duplicate()),
            },
            transport_url: self.transport_url.clone(),
        }
    }
}

/// What a request asks the device: to play, to show subtitles (the JSON
/// that the device takes), or to stop.
#[derive(PartialEq, Debug)]
pub enum CastCommand {
    Play(PlayOnDeviceArgs),
    Subtitles(String),
    Stop,
}

/// A request to the device of a session.
#[derive(PartialEq, Debug)]
pub struct CastingRequest {
    pub session: CastingSession,
    pub command: CastCommand,
}

impl Clone for CastingRequest {
    fn clone(&self) -> (r: Self)
        ensures
            r == *self,
    {
        CastingRequest {
            session: self.session.clone(),
            command: match &self.command {
                CastCommand::Play(args) => CastCommand::Play(args.clone()),
                CastCommand::Subtitles(s) => CastCommand::Subtitles(s.clone()),
                CastCommand::Stop => CastCommand::Stop,
            },
        }
    }
}

/// What casting tells the rest of the application about a device.
#[derive(PartialEq, Debug)]
pub enum CastingEvent {
    PlayingOnDevice(String),
    CastingSubtitlesChanged(String),
    StoppedCasting(String),
}

/// What casting asks for: a request sent to a device, an event, or an
/// error reported for the event that it prevented.
#[derive(PartialEq, Debug)]
pub enum CastingEffect {
    Send(CastingRequest),
    Event(CastingEvent),
    Error(EnvError, CastingEvent),
}

/// The casting state: the current session, the queue of requests (the
/// first one is in flight), and the id of the last session started.
pub struct Casting {
    pub session: Option<CastingSession>,
    pub requests: Vec<CastingRequest>,
    pub generation: u64,
}

/// The stops among the requests, in order.
pub open spec fn stops(requests: Seq<CastingRequest>) -> Seq<CastingRequest>
    decreases requests.len(),
{
    if requests.len() == 0 {
        Seq::empty()
    } else {
        let rest = stops(requests.drop_last());
        if requests.last().command is Stop {
            rest.push(requests.last())
        } else {
            rest
        }
    }
}

/// The queue without the queued work that a stop makes obsolete: the
/// request in flight and the stops.
pub open spec fn pruned(requests: Seq<CastingRequest>) -> Seq<CastingRequest> {
    if requests.len() == 0 {
        requests
    } else {
        seq![requests[0]] + stops(requests.drop_first())
    }
}

/// Whether a stop of the session `id` is queued.
pub open spec fn has_stop_for(requests: Seq<CastingRequest>, id: u64) -> bool {
    exists|i: int|
        0 <= i < requests.len() && (#[trigger] requests[i]).session.id == id
            && requests[i].command is Stop
}

pub open spec fn with_status(session: CastingSession, status: CastingStatus) -> CastingSession {
    CastingSession { status, ..session }
}

/// The session and queue once the current session is being stopped.
pub open spec fn spec_queue_stop(
    session: Option<CastingSession>,
    requests: Seq<CastingRequest>,
) -> (Option<CastingSession>, Seq<CastingRequest>) {
    let kept = pruned(requests);
    match session {
        None => (None, kept),
        Some(s) => {
            let in_flight = kept.len() > 0 && kept[0].session.id == s.id;
            if s.status is Starting && !in_flight {
                (
                    if kept.len() > 0 {
                        Some(with_status(kept.last().session, CastingStatus::Stopping))
                    } else {
                        None
                    },
                    kept,
                )
            } else {
                let stopping = with_status(s, CastingStatus::Stopping);
                if has_stop_for(kept, s.id) {
                    (Some(stopping), kept)
                } else {
                    (Some(stopping), kept.push(CastingRequest { session: stopping, command: CastCommand::Stop }))
                }
            }
        },
    }
}

/// Sending the request in flight, if any.
pub open spec fn spec_next_request(requests: Seq<CastingRequest>) -> Seq<CastingEffect> {
    if requests.len() > 0 {
        seq![CastingEffect::Send(requests[0])]
    } else {
        Seq::empty()
    }
}

/// The event that a failed command prevented.
pub open spec fn prevented_event(command: CastCommand, device: String) -> CastingEvent {
    match command {
        CastCommand::Play(_) => CastingEvent::PlayingOnDevice(device),
        CastCommand::Subtitles(_) => CastingEvent::CastingSubtitlesChanged(device),
        CastCommand::Stop => CastingEvent::StoppedCasting(device),
    }
}

/// Whether the device can play what is cast: a device of type `chromecast`
/// or `tv` with the id.
pub open spec fn castable(devices: Seq<PlaybackDevice>, id: Seq<char>) -> bool {
    exists|i: int|
        0 <= i < devices.len() && (#[trigger] devices[i]).id@ == id && (devices[i].device_type@
            == "chromecast"@ || devices[i].device_type@ == "tv"@)
}

fn copy_text(s: &String) -> (r: String)
    ensures
        r == *s,
{
    s.clone()
}

fn is_castable(devices: &[PlaybackDevice], id: &str) -> (r: bool)
    ensures
        r == castable(devices@, id@),
{
    let mut i: usize = 0;
    while i < devices.len()
        invariant
            i <= devices.len(),
            forall|j: int|
                0 <= j < i ==> !((#[trigger] devices@[j]).id@ == id@ && (devices@[j].device_type@
                    == "chromecast"@ || devices@[j].device_type@ == "tv"@)),
        decreases devices.len() - i,
    {
        let d = &devices[i];
        let chromecast = "chromecast";
        let tv = "tv";
        proof {
            reveal_strlit("chromecast");
            reveal_strlit("tv");
        }
        if str_eq(d.id.as_str(), id) && (str_eq(d.device_type.as_str(), chromecast) || str_eq(
            d.device_type.as_str(),
            tv,
        )) {
            return true;
        }
        i = i + 1;
    }
    false
}

fn prune(requests: Vec<CastingRequest>) -> (r: Vec<CastingRequest>)
    ensures
        r@ == pruned(requests@),
{
    if requests.len() == 0 {
        return requests;
    }
    let ghost all = requests@;
    let mut rest = requests;
    let first = rest.remove(0);
    let mut out: Vec<CastingRequest> = vec![first];
    let ghost tail = rest@;
    assert(tail =~= all.drop_first());
    let mut i: usize = 0;
    assert(out@ =~= seq![all[0]] + stops(tail.take(0)));
    while rest.len() > 0
        invariant
            i + rest@.len() == tail.len(),
            tail.len() < usize::MAX,
            rest@ =~= tail.subrange(i as int, tail.len() as int),
            out@ == seq![all[0]] + stops(tail.take(i as int)),
        decreases rest.len(),
    {
        let request = rest.remove(0);
        assert(request == tail[i as int]);
        assert(tail.take(i + 1).drop_last() =~= tail.take(i as int));
        assert(tail.take(i + 1).last() == tail[i as int]);
        assert(rest@ =~= tail.subrange(i + 1, tail.len() as int));
        let ghost before = out@;
        if matches!(request.command, CastCommand::Stop) {
            out.push(request);
            assert(out@ =~= before.push(tail[i as int]));
        }
        assert(out@ =~= seq![all[0]] + stops(tail.take(i + 1)));
        i = i + 1;
    }
    assert(tail.take(tail.len() as int) =~= tail);
    out
}

fn stop_queued(requests: &Vec<CastingRequest>, id: u64) -> (r: bool)
    ensures
        r == has_stop_for(requests@, id),
{
    let mut i: usize = 0;
    while i < requests.len()
        invariant
            i <= requests.len(),
            forall|j: int|
                0 <= j < i ==> !((#[trigger] requests@[j]).session.id == id
                    && requests@[j].command is Stop),
        decreases requests.len() - i,
    {
        if requests[i].session.id == id && matches!(requests[i].command, CastCommand::Stop) {
            return true;
        }
        i = i + 1;
    }
    false
}

/// Calls `url::Url::parse` and tells whether it accepts the source; the
/// result is named by [`parses_as_url`].
#[verifier::external_body]
pub(crate) fn source_parses(source: &str) -> (r: bool)
    ensures
        r == parses_as_url(source@),
{
    url::Url::parse(source).is_ok()
}

impl Casting {
    /// No session and nothing queued.
    pub fn new() -> (r: Self)
        ensures
            r.session is None,
            r.requests@.len() == 0,
            r.generation == 0,
    {
        Casting { session: None, requests: Vec::new(), generation: 0 }
    }

    /// Marks the current session as stopping, drops the queued work that
    /// this makes obsolete and queues a stop of it, as [`spec_queue_stop`]
    /// says.
    fn queue_cast_stop(&mut self)
        ensures
            (final(self).session, final(self).requests@) == spec_queue_stop(
                old(self).session,
                old(self).requests@,
            ),
            final(self).generation == old(self).generation,
    {
        let mut requests: Vec<CastingRequest> = Vec::new();
        std::mem::swap(&mut requests, &mut self.requests);
        self.requests = prune(requests);
        let ghost kept = self.requests@;
        let mut session: Option<CastingSession> = None;
        std::mem::swap(&mut session, &mut self.session);
        match session {
            None => {},
            Some(mut s) => {
                let in_flight = self.requests.len() > 0 && self.requests[0].session.id == s.id;
                if matches!(s.status, CastingStatus::Starting) && !in_flight {
                    if self.requests.len() > 0 {
                        let last = self.requests.len() - 1;
                        let mut stopping = self.requests[last].session.clone();
                        stopping.status = CastingStatus::Stopping;
                        self.session = Some(stopping);
                    }
                    return;
                }
                s.status = CastingStatus::Stopping;
                if !stop_queued(&self.requests, s.id) {
                    self.requests.push(CastingRequest { session: s.clone(), command: CastCommand::Stop });
                }
                self.session = Some(s);
            },
        }
    }

    fn next_cast_request(&self) -> (r: Effects<CastingEffect>)
        ensures
            r.effect_list() == spec_next_request(self.requests@),
            r.has_changed,
    {
        if self.requests.len() > 0 {
            Effects::one(CastingEffect::Send(self.requests[0].clone()))
        } else {
            Effects::none()
        }
    }
}


/// The queue without the queued subtitles of the session `id` (the request
/// in flight stays).
pub open spec fn without_subtitles(requests: Seq<CastingRequest>, id: u64) -> Seq<CastingRequest> {
    if requests.len() == 0 {
        requests
    } else {
        seq![requests[0]] + other_than_subtitles(requests.drop_first(), id)
    }
}

pub open spec fn other_than_subtitles(requests: Seq<CastingRequest>, id: u64) -> Seq<CastingRequest>
    decreases requests.len(),
{
    if requests.len() == 0 {
        Seq::empty()
    } else {
        let rest = other_than_subtitles(requests.drop_last(), id);
        let last = requests.last();
        if last.session.id != id || !(last.command is Subtitles) {
            rest.push(last)
        } else {
            rest
        }
    }
}

fn drop_subtitles(requests: Vec<CastingRequest>, id: u64) -> (r: Vec<CastingRequest>)
    ensures
        r@ == without_subtitles(requests@, id),
{
    if requests.len() == 0 {
        return requests;
    }
    let ghost all = requests@;
    let mut rest = requests;
    let first = rest.remove(0);
    let mut out: Vec<CastingRequest> = vec![first];
    let ghost tail = rest@;
    assert(tail =~= all.drop_first());
    let mut i: usize = 0;
    assert(out@ =~= seq![all[0]] + other_than_subtitles(tail.take(0), id));
    while rest.len() > 0
        invariant
            i + rest@.len() == tail.len(),
            tail.len() < usize::MAX,
            rest@ =~= tail.subrange(i as int, tail.len() as int),
            out@ == seq![all[0]] + other_than_subtitles(tail.take(i as int), id),
        decreases rest.len(),
    {
        let request = rest.remove(0);
        assert(request == tail[i as int]);
        assert(tail.take(i + 1).drop_last() =~= tail.take(i as int));
        assert(tail.take(i + 1).last() == tail[i as int]);
        assert(rest@ =~= tail.subrange(i + 1, tail.len() as int));
        let ghost before = out@;
        if request.session.id != id || !matches!(request.command, CastCommand::Subtitles(_)) {
            out.push(request);
            assert(out@ =~= before.push(tail[i as int]));
        }
        assert(out@ =~= seq![all[0]] + other_than_subtitles(tail.take(i + 1), id));
        i = i + 1;
    }
    assert(tail.take(tail.len() as int) =~= tail);
    out
}

/// The text of the error for an unavailable device or source.
pub open spec fn unavailable_message() -> Seq<char> {
    "Casting device or source is unavailable"@
}

/// Whether casting `args` can start: the source is a URL and the device is
/// among the loaded devices that can play it.
pub open spec fn can_cast(args: PlayOnDeviceArgs, devices: Option<Seq<PlaybackDevice>>) -> bool {
    &&& parses_as_url(args.source@)
    &&& (devices matches Some(ds) && castable(ds, args.device@))
}

pub open spec fn devices_view(devices: Option<&[PlaybackDevice]>) -> Option<Seq<PlaybackDevice>> {
    match devices {
        Some(ds) => Some(ds@),
        None => None,
    }
}

/// The outcome of an answer to the request in flight, before its error is
/// reported and the next request is sent: the session, the queue, the
/// events and whether the model changed.
pub open spec fn spec_result_outcome(
    session: Option<CastingSession>,
    requests: Seq<CastingRequest>,
    result: Result<(), EnvError>,
) -> (Option<CastingSession>, Seq<CastingRequest>, Seq<CastingEffect>, bool) {
    let request = requests[0];
    let rest = requests.drop_first();
    let is_current = session matches Some(s) && s.id == request.session.id;
    match (request.command, result) {
        (CastCommand::Play(_), Ok(())) if is_current => if session->0.status is Starting {
            (
                Some(with_status(session->0, CastingStatus::Playing)),
                rest,
                seq![CastingEffect::Event(CastingEvent::PlayingOnDevice(session->0.device))],
                true,
            )
        } else {
            (session, rest, Seq::empty(), false)
        },
        (CastCommand::Stop, Ok(())) if is_current => (
            None,
            rest,
            seq![CastingEffect::Event(CastingEvent::StoppedCasting(request.session.device))],
            true,
        ),
        (CastCommand::Stop, Err(e)) => (
            Some(with_status(request.session, CastingStatus::Error(e))),
            Seq::empty(),
            Seq::empty(),
            true,
        ),
        (CastCommand::Play(_), Err(_)) if is_current => {
            let stopping = with_status(session->0, CastingStatus::Stopping);
            (
                Some(stopping),
                seq![CastingRequest { session: stopping, command: CastCommand::Stop }],
                Seq::empty(),
                true,
            )
        },
        _ => (session, rest, Seq::empty(), false),
    }
}

/// The error reported for a failed answer.
pub open spec fn result_error(request: CastingRequest, result: Result<(), EnvError>) -> Seq<
    CastingEffect,
> {
    match result {
        Err(e) => seq![CastingEffect::Error(e, prevented_event(request.command, request.session.device))],
        Ok(()) => Seq::empty(),
    }
}

impl Casting {
    /// Casts `args` to its device. Where the source is not a URL or the
    /// device cannot play it, an error is reported (and, without a session,
    /// that casting stopped) and nothing changes. Otherwise the current
    /// session is being stopped, a new session with the next id starts, and
    /// its play request is queued (and sent, where nothing was queued).
    pub fn start_casting(
        &mut self,
        args: PlayOnDeviceArgs,
        devices: Option<&[PlaybackDevice]>,
        transport_url: &String,
    ) -> (r: Effects<CastingEffect>)
        requires
            old(self).generation < u64::MAX,
        ensures
            !can_cast(args, devices_view(devices)) ==> {
                &&& final(self).session == old(self).session
                &&& final(self).requests@ == old(self).requests@
                &&& final(self).generation == old(self).generation
                &&& !r.has_changed
                &&& r.effect_list().len() == if old(self).session is None {
                    2int
                } else {
                    1int
                }
                &&& r.effect_list()[0] matches CastingEffect::Error(
                    EnvError::Other(message),
                    CastingEvent::PlayingOnDevice(device),
                ) && message@ == unavailable_message() && device == args.device
                &&& old(self).session is None ==> r.effect_list()[1] == CastingEffect::Event(
                    CastingEvent::StoppedCasting(args.device),
                )
            },
            can_cast(args, devices_view(devices)) ==> {
                let (stopped, kept) = spec_queue_stop(old(self).session, old(self).requests@);
                let session = CastingSession {
                    id: (old(self).generation + 1) as u64,
                    device: args.device,
                    status: CastingStatus::Starting,
                    transport_url: *transport_url,
                };
                &&& final(self).generation == old(self).generation + 1
                &&& final(self).session == Some(session)
                &&& final(self).requests@ == kept.push(
                    CastingRequest { session, command: CastCommand::Play(args) },
                )
                &&& r.effect_list() == if old(self).requests@.len() == 0 {
                    spec_next_request(final(self).requests@)
                } else {
                    Seq::empty()
                }
                &&& r.has_changed
            },
    {
        let usable = source_parses(args.source.as_str()) && match devices {
            Some(ds) => is_castable(ds, args.device.as_str()),
            None => false,
        };
        if !usable {
            let error = CastingEffect::Error(
                EnvError::Other(String::from_str("Casting device or source is unavailable")),
                CastingEvent::PlayingOnDevice(copy_text(&args.device)),
            );
            let errors = Effects::one(error).unchanged();
            if self.session.is_none() {
                let stopped = Effects::one(
                    CastingEffect::Event(CastingEvent::StoppedCasting(args.device)),
                ).unchanged();
                return errors.join(stopped);
            } else {
                return errors;
            }
        }
        let was_idle = self.requests.len() == 0;
        self.queue_cast_stop();
        self.generation = self.generation + 1;
        let session = CastingSession {
            id: self.generation,
            device: copy_text(&args.device),
            status: CastingStatus::Starting,
            transport_url: copy_text(transport_url),
        };
        self.session = Some(session.clone());
        self.requests.push(CastingRequest { session, command: CastCommand::Play(args) });
        if was_idle {
            self.next_cast_request()
        } else {
            Effects::none()
        }
    }

    /// Stops the current session: it is being stopped, obsolete queued work
    /// is dropped and a stop is queued (and sent, where nothing was
    /// queued). Without a session nothing happens.
    pub fn stop_casting(&mut self) -> (r: Effects<CastingEffect>)
        ensures
            old(self).session is None ==> {
                &&& final(self).session == old(self).session
                &&& final(self).requests@ == old(self).requests@
                &&& final(self).generation == old(self).generation
                &&& !r.has_changed
                &&& r.effect_list().len() == 0
            },
            old(self).session is Some ==> {
                &&& (final(self).session, final(self).requests@) == spec_queue_stop(
                    old(self).session,
                    old(self).requests@,
                )
                &&& final(self).generation == old(self).generation
                &&& r.effect_list() == if old(self).requests@.len() == 0 {
                    spec_next_request(final(self).requests@)
                } else {
                    Seq::empty()
                }
                &&& r.has_changed
            },
    {
        if self.session.is_none() {
            return Effects::none().unchanged();
        }
        let was_idle = self.requests.len() == 0;
        self.queue_cast_stop();
        if was_idle {
            self.next_cast_request()
        } else {
            Effects::none()
        }
    }

    /// Shows `subtitles` (the JSON that the device takes) in the session
    /// `id`, while it is starting or playing: earlier queued subtitles of
    /// the session are dropped and these are queued (and sent, where
    /// nothing was queued). The model is not reported as changed.
    pub fn set_casting_subtitles(&mut self, id: u64, subtitles: String) -> (r: Effects<
        CastingEffect,
    >)
        ensures
            final(self).session == old(self).session,
            final(self).generation == old(self).generation,
            !r.has_changed,
            match old(self).session {
                Some(s) => if s.id == id && (s.status is Starting || s.status is Playing) {
                    &&& final(self).requests@ == without_subtitles(old(self).requests@, id).push(
                        CastingRequest { session: s, command: CastCommand::Subtitles(subtitles) },
                    )
                    &&& r.effect_list() == if old(self).requests@.len() == 0 {
                        spec_next_request(final(self).requests@)
                    } else {
                        Seq::empty()
                    }
                } else {
                    final(self).requests@ == old(self).requests@ && r.effect_list().len() == 0
                },
                None => final(self).requests@ == old(self).requests@ && r.effect_list().len() == 0,
            },
    {
        let session = match &self.session {
            Some(s) => if s.id == id && (matches!(s.status, CastingStatus::Starting) || matches!(
                s.status,
                CastingStatus::Playing,
            )) {
                s.clone()
            } else {
                return Effects::none().unchanged();
            },
            None => return Effects::none().unchanged(),
        };
        let was_idle = self.requests.len() == 0;
        let mut requests: Vec<CastingRequest> = Vec::new();
        std::mem::swap(&mut requests, &mut self.requests);
        self.requests = drop_subtitles(requests, id);
        self.requests.push(CastingRequest { session, command: CastCommand::Subtitles(subtitles) });
        if was_idle {
            self.next_cast_request().unchanged()
        } else {
            Effects::none().unchanged()
        }
    }

    /// Takes the answer to the request in flight of session `id` (an
    /// answer for anything else is ignored): the outcome that
    /// [`spec_result_outcome`] gives, the error of a failed answer, and the
    /// next queued request sent.
    pub fn casting_result(&mut self, id: u64, result: Result<(), EnvError>) -> (r: Effects<
        CastingEffect,
    >)
        ensures
            final(self).generation == old(self).generation,
            !(old(self).requests@.len() > 0 && old(self).requests@[0].session.id == id) ==> {
                &&& final(self).session == old(self).session
                &&& final(self).requests@ == old(self).requests@
                &&& !r.has_changed
                &&& r.effect_list().len() == 0
            },
            (old(self).requests@.len() > 0 && old(self).requests@[0].session.id == id) ==> {
                let (session, requests, events, changed) = spec_result_outcome(
                    old(self).session,
                    old(self).requests@,
                    result,
                );
                &&& final(self).session == session
                &&& final(self).requests@ == requests
                &&& r.effect_list() == events + result_error(old(self).requests@[0], result)
                    + spec_next_request(requests)
                &&& r.has_changed == changed
            },
    {
        if !(self.requests.len() > 0 && self.requests[0].session.id == id) {
            return Effects::none().unchanged();
        }
        let request = self.requests.remove(0);
        let is_current = match &self.session {
            Some(s) => s.id == id,
            None => false,
        };
        let mut effects: Effects<CastingEffect> = Effects::none().unchanged();
        match (&request.command, &result) {
            (CastCommand::Play(_), Ok(())) => {
                if is_current {
                    let mut session: Option<CastingSession> = None;
                    std::mem::swap(&mut session, &mut self.session);
                    let mut s = session.unwrap();
                    if matches!(s.status, CastingStatus::Starting) {
                        s.status = CastingStatus::Playing;
                        effects = Effects::one(
                            CastingEffect::Event(CastingEvent::PlayingOnDevice(copy_text(&s.device))),
                        );
                    }
                    self.session = Some(s);
                }
            },
            (CastCommand::Stop, Ok(())) => {
                if is_current {
                    self.session = None;
                    effects = Effects::one(
                        CastingEffect::Event(
                            CastingEvent::StoppedCasting(copy_text(&request.session.device)),
                        ),
                    );
                }
            },
            (CastCommand::Stop, Err(error)) => {
                self.requests = Vec::new();
                let mut s = request.session.clone();
                s.status = CastingStatus::Error(error.duplicate());
                self.session = Some(s);
                effects = Effects::none();
            },
            (CastCommand::Play(_), Err(_)) => {
                if is_current {
                    self.requests = Vec::new();
                    let mut session: Option<CastingSession> = None;
                    std::mem::swap(&mut session, &mut self.session);
                    let mut s = session.unwrap();
                    s.status = CastingStatus::Stopping;
                    self.requests.push(CastingRequest { session: s.clone(), command: CastCommand::Stop });
                    self.session = Some(s);
                    effects = Effects::none();
                }
            },
            _ => {},
        }
        if let Err(error) = result {
            let event = match &request.command {
                CastCommand::Play(_) => CastingEvent::PlayingOnDevice(copy_text(&request.session.device)),
                CastCommand::Subtitles(_) => CastingEvent::CastingSubtitlesChanged(
                    copy_text(&request.session.device),
                ),
                CastCommand::Stop => CastingEvent::StoppedCasting(copy_text(&request.session.device)),
            };
            effects = effects.join(Effects::one(CastingEffect::Error(error, event)).unchanged());
        }
        effects.join(self.next_cast_request().unchanged())
    }
}


/// Every session, current or queued, has an id up to the last one started.
pub open spec fn ids_bounded(
    session: Option<CastingSession>,
    requests: Seq<CastingRequest>,
    generation: u64,
) -> bool {
    &&& (session matches Some(s) ==> s.id <= generation)
    &&& forall|i: int| 0 <= i < requests.len() ==> (#[trigger] requests[i]).session.id <= generation
}

proof fn lemma_stops_bounded(requests: Seq<CastingRequest>, generation: u64)
    requires
        forall|i: int| 0 <= i < requests.len() ==> (#[trigger] requests[i]).session.id <= generation,
    ensures
        forall|i: int|
            0 <= i < stops(requests).len() ==> (#[trigger] stops(requests)[i]).session.id
                <= generation,
        forall|i: int| 0 <= i < stops(requests).len() ==> (#[trigger] stops(requests)[i]).command is Stop,
    decreases requests.len(),
{
    if requests.len() > 0 {
        lemma_stops_bounded(requests.drop_last(), generation);
    }
}

proof fn lemma_pruned_bounded(requests: Seq<CastingRequest>, generation: u64)
    requires
        forall|i: int| 0 <= i < requests.len() ==> (#[trigger] requests[i]).session.id <= generation,
    ensures
        forall|i: int|
            0 <= i < pruned(requests).len() ==> (#[trigger] pruned(requests)[i]).session.id
                <= generation,
{
    if requests.len() > 0 {
        let tail = requests.drop_first();
        lemma_stops_bounded(tail, generation);
        let p = pruned(requests);
        assert forall|i: int| 0 <= i < p.len() implies (#[trigger] p[i]).session.id <= generation by {
            if i > 0 {
                assert(p[i] == stops(tail)[i - 1]);
            }
        }
    }
}

/// Stopping the current session keeps every id up to the last one started.
pub proof fn law_queue_stop_keeps_ids_bounded(
    session: Option<CastingSession>,
    requests: Seq<CastingRequest>,
    generation: u64,
)
    requires
        ids_bounded(session, requests, generation),
    ensures
        ({
            let (s, q) = spec_queue_stop(session, requests);
            ids_bounded(s, q, generation)
        }),
{
    lemma_pruned_bounded(requests, generation);
    let kept = pruned(requests);
    let (s, q) = spec_queue_stop(session, requests);
    assert forall|i: int| 0 <= i < q.len() implies (#[trigger] q[i]).session.id <= generation by {
        if i < kept.len() {
            assert(q[i] == kept[i]);
        }
    }
}

/// A session that casting starts has an id that neither the stopped
/// session nor any queued request has: it is above all of them.
pub proof fn law_started_session_is_fresh(
    session: Option<CastingSession>,
    requests: Seq<CastingRequest>,
    generation: u64,
)
    requires
        ids_bounded(session, requests, generation),
        generation < u64::MAX,
    ensures
        ({
            let (s, q) = spec_queue_stop(session, requests);
            &&& (s matches Some(x) ==> x.id < generation + 1)
            &&& forall|i: int| 0 <= i < q.len() ==> (#[trigger] q[i]).session.id < generation + 1
        }),
{
    law_queue_stop_keeps_ids_bounded(session, requests, generation);
}

/// The answer to the request in flight keeps every id up to the last one
/// started.
pub proof fn law_result_keeps_ids_bounded(
    session: Option<CastingSession>,
    requests: Seq<CastingRequest>,
    generation: u64,
    result: Result<(), EnvError>,
)
    requires
        requests.len() > 0,
        ids_bounded(session, requests, generation),
    ensures
        ({
            let (s, q, _, _) = spec_result_outcome(session, requests, result);
            ids_bounded(s, q, generation)
        }),
{
    let (s, q, e, c) = spec_result_outcome(session, requests, result);
    assert(requests[0].session.id <= generation);
    assert forall|i: int| 0 <= i < q.len() implies (#[trigger] q[i]).session.id <= generation by {
        if q =~= requests.drop_first() {
            assert(q[i] == requests[i + 1]);
        }
    }
}

/// The subtitles requests of session `id` queued behind the request in
/// flight.
pub open spec fn queued_subtitles(requests: Seq<CastingRequest>, id: u64) -> int
    decreases requests.len(),
{
    if requests.len() <= 1 {
        0
    } else {
        queued_subtitles(requests.drop_last(), id) + if requests.last().session.id == id
            && requests.last().command is Subtitles {
            1int
        } else {
            0int
        }
    }
}

proof fn lemma_other_than_subtitles_has_none(requests: Seq<CastingRequest>, id: u64, first: CastingRequest)
    ensures
        queued_subtitles(seq![first] + other_than_subtitles(requests, id), id) == 0,
    decreases requests.len(),
{
    if requests.len() > 0 {
        lemma_other_than_subtitles_has_none(requests.drop_last(), id, first);
        let rest = other_than_subtitles(requests.drop_last(), id);
        let last = requests.last();
        if last.session.id != id || !(last.command is Subtitles) {
            assert((seq![first] + rest.push(last)).drop_last() =~= seq![first] + rest);
        }
    }
}

/// After subtitles are set for a session, exactly one subtitles request of
/// it waits behind the request in flight: the new one.
pub proof fn law_one_queued_subtitles(
    requests: Seq<CastingRequest>,
    session: CastingSession,
    subtitles: String,
)
    requires
        requests.len() > 0,
    ensures
        queued_subtitles(
            without_subtitles(requests, session.id).push(
                CastingRequest { session, command: CastCommand::Subtitles(subtitles) },
            ),
            session.id,
        ) == 1,
{
    lemma_other_than_subtitles_has_none(requests.drop_first(), session.id, requests[0]);
    let w = without_subtitles(requests, session.id);
    let pushed = w.push(CastingRequest { session, command: CastCommand::Subtitles(subtitles) });
    assert(pushed.drop_last() =~= w);
}

} // verus!
