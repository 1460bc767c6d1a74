//! The album/playlist fan-out engine. A collection request expands into one
//! operation per member; this module turns the members' outcomes into the
//! events the pool reports. Under the per-track policy each member gets its
//! own `AlbumTrackComplete`/`AlbumTrackError` event and a failure never
//! blocks its siblings; under the merge policy a single output is produced
//! and any member failure aborts the whole collection, because a merged file
//! cannot be partially valid.

use vstd::prelude::*;

use crate::events::is_terminal;
use crate::events::request_of;
use crate::events::ProgressEvent;
use crate::models::RequestId;
use crate::sanitize::format_filename;
use crate::sanitize::sanitize_spec;

verus! {

/// How many outcomes failed.
pub open spec fn count_errors<T>(s: Seq<Result<T, String>>) -> int
    decreases s.len(),
{
    if s.len() == 0 {
        0
    } else {
        count_errors(s.drop_last()) + if s.last() is Err {
            1int
        } else {
            0int
        }
    }
}

/// The index of the first failed outcome, or a negative value when all
/// succeeded.
pub open spec fn first_error<T>(s: Seq<Result<T, String>>) -> int
    decreases s.len(),
{
    if s.len() == 0 {
        -1
    } else if s[0] is Err {
        0
    } else {
        let r = first_error(s.drop_first());
        if r < 0 {
            -1
        } else {
            r + 1
        }
    }
}

/// What `first_error` says: it is the smallest index of a failed outcome,
/// or negative when every outcome succeeded.
pub proof fn lemma_first_error<T>(s: Seq<Result<T, String>>)
    ensures
        -1 <= first_error(s) < s.len(),
        first_error(s) >= 0 ==> s[first_error(s)] is Err,
        forall|j: int|
            0 <= j < s.len() && (first_error(s) < 0 || j < first_error(s)) ==> (#[trigger] s[j])
                is Ok,
    decreases s.len(),
{
    if s.len() > 0 && s[0] is Ok {
        lemma_first_error(s.drop_first());
        assert forall|j: int|
            0 <= j < s.len() && (first_error(s) < 0 || j < first_error(s)) implies (
        #[trigger] s[j]) is Ok by {
            if j > 0 {
                assert(s.drop_first()[j - 1] == s[j]);
            }
        }
    }
}

/// The member event for the outcome of one collection member.
pub open spec fn track_event(id: RequestId, i: int, outcome: Result<(), String>) -> ProgressEvent {
    match outcome {
        Ok(_) => ProgressEvent::AlbumTrackComplete(id, i as usize),
        Err(m) => ProgressEvent::AlbumTrackError(id, i as usize, m),
    }
}

/// Per-track policy: one member event per outcome, in member order; a
/// failure is reported for its own index and never blocks or cancels
/// sibling members.
pub fn per_track_events(request_id: RequestId, outcomes: &Vec<Result<(), String>>) -> (events: Vec<
    ProgressEvent,
>)
    ensures
        events@.len() == outcomes@.len(),
        forall|i: int|
            0 <= i < outcomes@.len() ==> events@[i] == track_event(request_id, i, outcomes@[i]),
{
    let mut events: Vec<ProgressEvent> = Vec::new();
    let mut i: usize = 0;
    while i < outcomes.len()
        invariant
            i <= outcomes@.len(),
            events@.len() == i,
            forall|j: int|
                0 <= j < i ==> events@[j] == track_event(request_id, j, outcomes@[j]),
        decreases outcomes@.len() - i,
    {
        let ev = match &outcomes[i] {
            Ok(_) => ProgressEvent::AlbumTrackComplete(request_id, i),
            Err(m) => ProgressEvent::AlbumTrackError(request_id, i, m.clone()),
        };
        events.push(ev);
        i = i + 1;
    }
    events
}

/// How many events report a failed member.
pub open spec fn count_track_errors(s: Seq<ProgressEvent>) -> int
    decreases s.len(),
{
    if s.len() == 0 {
        0
    } else {
        count_track_errors(s.drop_last()) + if s.last() is AlbumTrackError {
            1int
        } else {
            0int
        }
    }
}

/// How many events report a completed member.
pub open spec fn count_track_completes(s: Seq<ProgressEvent>) -> int
    decreases s.len(),
{
    if s.len() == 0 {
        0
    } else {
        count_track_completes(s.drop_last()) + if s.last() is AlbumTrackComplete {
            1int
        } else {
            0int
        }
    }
}

/// For a per-track collection of `M` members of which `F` fail, exactly `M`
/// member events are emitted in total: `F` errors and `M - F` completions,
/// regardless of which members failed.
pub proof fn lemma_per_track_event_counts(
    id: RequestId,
    outcomes: Seq<Result<(), String>>,
    events: Seq<ProgressEvent>,
)
    requires
        events.len() == outcomes.len(),
        forall|i: int| 0 <= i < outcomes.len() ==> events[i] == track_event(id, i, outcomes[i]),
    ensures
        count_track_errors(events) == count_errors(outcomes),
        count_track_completes(events) == outcomes.len() - count_errors(outcomes),
    decreases outcomes.len(),
{
    if outcomes.len() > 0 {
        assert forall|i: int|
            0 <= i < outcomes.drop_last().len() implies events.drop_last()[i] == track_event(
            id,
            i,
            outcomes.drop_last()[i],
        ) by {
            assert(events.drop_last()[i] == events[i]);
            assert(outcomes.drop_last()[i] == outcomes[i]);
        }
        lemma_per_track_event_counts(id, outcomes.drop_last(), events.drop_last());
        assert(events.last() == track_event(id, outcomes.len() - 1, outcomes.last()));
    }
}

/// Copies a byte vector.
fn copy_bytes(v: &Vec<u8>) -> (r: Vec<u8>)
    ensures
        r@ == v@,
{
    let mut r: Vec<u8> = Vec::new();
    let mut i: usize = 0;
    while i < v.len()
        invariant
            i <= v@.len(),
            r@ == v@.subrange(0, i as int),
        decreases v@.len() - i,
    {
        r.push(v[i]);
        proof {
            assert(v@.subrange(0, i + 1 as int) =~= v@.subrange(0, i as int).push(v@[i as int]));
        }
        i = i + 1;
    }
    proof {
        assert(v@.subrange(0, v@.len() as int) =~= v@);
    }
    r
}

/// Merge policy, fail-fast: the member payloads, in member order, are
/// released for encoding only when every member succeeded; any failure
/// aborts the whole merge with the first failing member's message, and no
/// payload is handed out, so no partially merged output can exist.
pub fn merge_contents(outcomes: &Vec<Result<Vec<u8>, String>>) -> (r: Result<Vec<Vec<u8>>, String>)
    ensures
        match r {
            Ok(parts) => first_error(outcomes@) < 0 && parts@.len() == outcomes@.len() && (forall|
                i: int,
            |
                0 <= i < outcomes@.len() ==> (#[trigger] parts@[i])@ == outcomes@[i]->Ok_0@),
            Err(m) => 0 <= first_error(outcomes@) && m == outcomes@[first_error(
                outcomes@,
            )]->Err_0,
        },
{
    let mut parts: Vec<Vec<u8>> = Vec::new();
    let mut i: usize = 0;
    while i < outcomes.len()
        invariant
            i <= outcomes@.len(),
            parts@.len() == i,
            forall|j: int| 0 <= j < i ==> (#[trigger] outcomes@[j]) is Ok,
            forall|j: int| 0 <= j < i ==> (#[trigger] parts@[j])@ == outcomes@[j]->Ok_0@,
        decreases outcomes@.len() - i,
    {
        proof {
            lemma_first_error(outcomes@);
        }
        match &outcomes[i] {
            Ok(bytes) => {
                parts.push(copy_bytes(bytes));
            },
            Err(m) => {
                proof {
                    let f = first_error(outcomes@);
                    if f < 0 || f < i {
                        assert(outcomes@[i as int] is Err);
                    } else if i < f {
                        assert(outcomes@[i as int] is Ok);
                    }
                    assert(f == i);
                }
                return Err(m.clone());
            },
        }
        i = i + 1;
    }
    proof {
        lemma_first_error(outcomes@);
        if first_error(outcomes@) >= 0 {
            assert(outcomes@[first_error(outcomes@)] is Err);
        }
    }
    Ok(parts)
}

/// The terminal event a worker reports for a finished request: `Finish` on
/// success, `DownloadError` with the message otherwise.
pub fn terminal_event(request_id: RequestId, result: &Result<(), String>) -> (ev: ProgressEvent)
    ensures
        ev == (match *result {
            Ok(_) => ProgressEvent::Finish(request_id),
            Err(m) => ProgressEvent::DownloadError(request_id, m),
        }),
{
    match result {
        Ok(_) => ProgressEvent::Finish(request_id),
        Err(m) => ProgressEvent::DownloadError(request_id, m.clone()),
    }
}

/// The full event batch a collection request reports, given each member's
/// outcome. Under the merge policy the request terminates in a single event:
/// `Finish` when every member succeeded, else `DownloadError` with the first
/// failing member's message. Under the per-track policy every member gets
/// its event, in order, and the request then finishes regardless of member
/// failures. Either way the batch ends with exactly one terminal event.
pub fn collection_events(
    request_id: RequestId,
    merge_tracks: bool,
    outcomes: &Vec<Result<(), String>>,
) -> (events: Vec<ProgressEvent>)
    ensures
        merge_tracks ==> (if first_error(outcomes@) < 0 {
            events@ == seq![ProgressEvent::Finish(request_id)]
        } else {
            events@ == seq![
                ProgressEvent::DownloadError(
                    request_id,
                    outcomes@[first_error(outcomes@)]->Err_0,
                ),
            ]
        }),
        !merge_tracks ==> {
            &&& events@.len() == outcomes@.len() + 1
            &&& (forall|i: int|
                0 <= i < outcomes@.len() ==> events@[i] == track_event(
                    request_id,
                    i,
                    outcomes@[i],
                ))
            &&& events@.last() == ProgressEvent::Finish(request_id)
        },
        events@.len() >= 1,
        is_terminal(events@.last()),
        forall|i: int| 0 <= i < events@.len() - 1 ==> !is_terminal(#[trigger] events@[i]),
        forall|i: int| 0 <= i < events@.len() ==> request_of(#[trigger] events@[i]) == request_id,
{
    if merge_tracks {
        let mut events: Vec<ProgressEvent> = Vec::new();
        match first_failure(outcomes) {
            Some(m) => {
                events.push(ProgressEvent::DownloadError(request_id, m));
            },
            None => {
                events.push(ProgressEvent::Finish(request_id));
            },
        }
        proof {
            if first_error(outcomes@) < 0 {
                assert(events@ =~= seq![ProgressEvent::Finish(request_id)]);
            } else {
                assert(events@ =~= seq![
                    ProgressEvent::DownloadError(
                        request_id,
                        outcomes@[first_error(outcomes@)]->Err_0,
                    ),
                ]);
            }
        }
        events
    } else {
        let mut events = per_track_events(request_id, outcomes);
        events.push(ProgressEvent::Finish(request_id));
        events
    }
}

/// The message of the first failed outcome, or `None` when all succeeded.
fn first_failure(outcomes: &Vec<Result<(), String>>) -> (r: Option<String>)
    ensures
        match r {
            Some(m) => 0 <= first_error(outcomes@) && m == outcomes@[first_error(
                outcomes@,
            )]->Err_0,
            None => first_error(outcomes@) < 0,
        },
{
    let mut i: usize = 0;
    while i < outcomes.len()
        invariant
            i <= outcomes@.len(),
            forall|j: int| 0 <= j < i ==> (#[trigger] outcomes@[j]) is Ok,
        decreases outcomes@.len() - i,
    {
        if let Err(m) = &outcomes[i] {
            proof {
                lemma_first_error(outcomes@);
                let f = first_error(outcomes@);
                if f < 0 || f < i {
                    assert(outcomes@[i as int] is Err);
                } else if i < f {
                    assert(outcomes@[i as int] is Ok);
                }
                assert(f == i);
            }
            return Some(m.clone());
        }
        i = i + 1;
    }
    proof {
        lemma_first_error(outcomes@);
        if first_error(outcomes@) >= 0 {
            assert(outcomes@[first_error(outcomes@)] is Err);
        }
    }
    None
}

/// For a merge-policy collection in which any member failed, the collection
/// terminates in `DownloadError` and nothing else is reported: no member
/// event, no `Finish`, and (by [`merge_contents`]) no payload from which a
/// partial merged file could be written.
pub proof fn lemma_merge_fail_fast(
    request_id: RequestId,
    outcomes: Seq<Result<(), String>>,
    events: Seq<ProgressEvent>,
    k: int,
)
    requires
        0 <= k < outcomes.len(),
        outcomes[k] is Err,
        events == (if first_error(outcomes) < 0 {
            seq![ProgressEvent::Finish(request_id)]
        } else {
            seq![ProgressEvent::DownloadError(request_id, outcomes[first_error(outcomes)]->Err_0)]
        }),
    ensures
        events.len() == 1,
        events[0] is DownloadError,
{
    lemma_first_error(outcomes);
    if first_error(outcomes) < 0 {
        assert(outcomes[k] is Ok);
    }
}

/// A chapter marker of a long-form item: its title and its start offset in
/// seconds.
pub struct Chapter {
    pub title: String,
    pub start_time: u64,
}

/// The plan for splitting one downloaded item by its embedded chapters: one
/// output file per chapter, named from the chapter's sanitized title,
/// spanning from the chapter's start to the next chapter's start; the last
/// chapter ends at the item's total duration. The caller runs the external
/// encoder once per entry over the whole-item file, which lives in a scoped
/// temporary location and is removed afterwards whether or not every
/// segment succeeded.
pub fn chapter_plan(chapters: &Vec<Chapter>, total_length: u64, extension: &str) -> (plan: Vec<
    (String, u64, u64),
>)
    ensures
        plan@.len() == chapters@.len(),
        forall|i: int|
            0 <= i < chapters@.len() ==> {
                &&& (#[trigger] plan@[i]).0@ == sanitize_spec(chapters@[i].title@) + "."@
                    + extension@
                &&& plan@[i].1 == chapters@[i].start_time
                &&& plan@[i].2 == (if i + 1 < chapters@.len() {
                    chapters@[i + 1].start_time
                } else {
                    total_length
                })
            },
{
    let mut plan: Vec<(String, u64, u64)> = Vec::new();
    let mut i: usize = 0;
    while i < chapters.len()
        invariant
            i <= chapters@.len(),
            plan@.len() == i,
            forall|j: int|
                0 <= j < i ==> {
                    &&& (#[trigger] plan@[j]).0@ == sanitize_spec(chapters@[j].title@) + "."@
                        + extension@
                    &&& plan@[j].1 == chapters@[j].start_time
                    &&& plan@[j].2 == (if j + 1 < chapters@.len() {
                        chapters@[j + 1].start_time
                    } else {
                        total_length
                    })
                },
        decreases chapters@.len() - i,
    {
        let name = format_filename(chapters[i].title.as_str(), extension);
        let end = if i + 1 < chapters.len() {
            chapters[i + 1].start_time
        } else {
            total_length
        };
        plan.push((name, chapters[i].start_time, end));
        i = i + 1;
    }
    plan
}

} // verus!
