//! The event pipeline. Worker pools report progress as [`ProgressEvent`]
//! values; a single ordered bus republishes them one-for-one, in order, as
//! the consumer-facing [`Event`] stream. Per request, `Start` precedes the
//! terminal event (`Finish` or `DownloadError`); events of different
//! requests are unordered relative to each other.

use vstd::prelude::*;

use crate::models::RequestId;

verus! {

/// A progress notification from a worker pool, tagged with the request it
/// belongs to. Exactly one terminal event (`Finish` or `DownloadError`) is
/// emitted per submitted request; a collection request additionally gets one
/// `AlbumTrackComplete` or `AlbumTrackError` per member.
#[derive(Debug, Clone, PartialEq, Eq)]
pub enum ProgressEvent {
    Waiting(RequestId),
    Start(RequestId),
    Finish(RequestId),
    DownloadError(RequestId, String),
    AlbumTrackComplete(RequestId, usize),
    AlbumTrackError(RequestId, usize, String),
}

/// A consumer-facing event, as republished by the event bus.
#[derive(Debug, Clone, PartialEq, Eq)]
pub enum Event {
    Waiting(RequestId),
    Start(RequestId),
    Finish(RequestId),
    DownloadError(RequestId, String),
    AlbumTrackComplete(RequestId, usize),
    AlbumTrackError(RequestId, usize, String),
}

/// The consumer-facing event that republishes a progress event.
pub open spec fn event_of(e: ProgressEvent) -> Event {
    match e {
        ProgressEvent::Waiting(id) => Event::Waiting(id),
        ProgressEvent::Start(id) => Event::Start(id),
        ProgressEvent::Finish(id) => Event::Finish(id),
        ProgressEvent::DownloadError(id, msg) => Event::DownloadError(id, msg),
        ProgressEvent::AlbumTrackComplete(id, index) => Event::AlbumTrackComplete(id, index),
        ProgressEvent::AlbumTrackError(id, index, msg) => Event::AlbumTrackError(id, index, msg),
    }
}

impl From<ProgressEvent> for Event {
    /// Republishes one progress event as its consumer-facing event.
    fn from(e: ProgressEvent) -> (r: Event)
        ensures
            r == event_of(e),
    {
        match e {
            ProgressEvent::Waiting(id) => Event::Waiting(id),
            ProgressEvent::Start(id) => Event::Start(id),
            ProgressEvent::Finish(id) => Event::Finish(id),
            ProgressEvent::DownloadError(id, msg) => Event::DownloadError(id, msg),
            ProgressEvent::AlbumTrackComplete(id, index) => Event::AlbumTrackComplete(id, index),
            ProgressEvent::AlbumTrackError(id, index, msg) => Event::AlbumTrackError(
                id,
                index,
                msg,
            ),
        }
    }
}

impl vstd::std_specs::convert::FromSpecImpl<ProgressEvent> for Event {
    open spec fn obeys_from_spec() -> bool {
        true
    }

    open spec fn from_spec(e: ProgressEvent) -> Event {
        event_of(e)
    }
}

/// The request a progress event belongs to.
pub open spec fn request_of(e: ProgressEvent) -> RequestId {
    match e {
        ProgressEvent::Waiting(id) => id,
        ProgressEvent::Start(id) => id,
        ProgressEvent::Finish(id) => id,
        ProgressEvent::DownloadError(id, _) => id,
        ProgressEvent::AlbumTrackComplete(id, _) => id,
        ProgressEvent::AlbumTrackError(id, _, _) => id,
    }
}

/// Whether a progress event is terminal for its request.
pub open spec fn is_terminal(e: ProgressEvent) -> bool {
    e is Finish || e is DownloadError
}

/// The event bus: republishes a batch of progress events one-for-one, in
/// order, without buffering, reordering, dropping or inventing events.
pub fn republish(events: Vec<ProgressEvent>) -> (out: Vec<Event>)
    ensures
        out@.len() == events@.len(),
        forall|i: int| 0 <= i < events@.len() ==> out@[i] == event_of(events@[i]),
{
    let mut out: Vec<Event> = Vec::new();
    let mut events = events;
    let mut i: usize = 0;
    let ghost all = events@;
    while i < events.len()
        invariant
            i <= all.len(),
            events@ == all,
            out@.len() == i,
            forall|j: int| 0 <= j < i ==> out@[j] == event_of(all[j]),
        decreases all.len() - i,
    {
        let e = clone_progress_event(&events[i]);
        out.push(Event::from(e));
        i = i + 1;
    }
    out
}

/// Copies a progress event.
fn clone_progress_event(e: &ProgressEvent) -> (r: ProgressEvent)
    ensures
        r == *e,
{
    match e {
        ProgressEvent::Waiting(id) => ProgressEvent::Waiting(*id),
        ProgressEvent::Start(id) => ProgressEvent::Start(*id),
        ProgressEvent::Finish(id) => ProgressEvent::Finish(*id),
        ProgressEvent::DownloadError(id, msg) => ProgressEvent::DownloadError(*id, msg.clone()),
        ProgressEvent::AlbumTrackComplete(id, index) => ProgressEvent::AlbumTrackComplete(
            *id,
            *index,
        ),
        ProgressEvent::AlbumTrackError(id, index, msg) => ProgressEvent::AlbumTrackError(
            *id,
            *index,
            msg.clone(),
        ),
    }
}

/// The name under which an event is published to the presentation layer.
pub open spec fn event_name_spec(e: Event) -> Seq<char> {
    match e {
        Event::Waiting(_) => "waiting"@,
        Event::Start(_) => "start"@,
        Event::Finish(_) => "finish"@,
        Event::DownloadError(..) => "download_error"@,
        Event::AlbumTrackComplete(..) => "album_track_complete"@,
        Event::AlbumTrackError(..) => "album_track_error"@,
    }
}

impl Event {
    /// The name under which this event is published.
    pub fn name(&self) -> (r: &'static str)
        ensures
            r@ == event_name_spec(*self),
    {
        match self {
            Event::Waiting(_) => "waiting",
            Event::Start(_) => "start",
            Event::Finish(_) => "finish",
            Event::DownloadError(..) => "download_error",
            Event::AlbumTrackComplete(..) => "album_track_complete",
            Event::AlbumTrackError(..) => "album_track_error",
        }
    }
}

} // verus!
