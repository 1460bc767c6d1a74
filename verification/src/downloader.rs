//! The download request registry and worker-pool coordinator. One instance
//! serves one provider. Requests move through the states
//! `Waiting -> Downloading -> (Finished | Failed)`, with `Stopped` for a
//! cancelled download. The registry is owned by this coordinator and mutated
//! only through its methods; workers report outcomes back through the events
//! these methods return. A fixed concurrency limit bounds how many requests
//! are ever `Downloading` at once, while the waiting queue is unbounded.

use vstd::prelude::*;

use crate::config::Config;
use crate::events::ProgressEvent;
use crate::models::DownloadRequest;
use crate::models::RequestId;

verus! {

/// The lifecycle state of one request inside a pool.
#[derive(Clone, Copy, PartialEq, Eq, Structural, Debug)]
pub enum DownloadState {
    Waiting,
    Downloading,
    Finished,
    Failed,
    Stopped,
}

/// Whether a pool has any download in flight.
#[derive(Clone, Copy, PartialEq, Eq, Structural, Debug)]
pub enum DownloadStatus {
    Downloading,
    Inactive,
}

/// One registry entry: a submitted request, the configuration in force when
/// it was submitted, and its current state.
pub struct PoolEntry {
    pub request: DownloadRequest,
    pub config: Config,
    pub state: DownloadState,
}

/// How many entries are in the given state.
pub open spec fn count_in_state(s: Seq<PoolEntry>, st: DownloadState) -> int
    decreases s.len(),
{
    if s.len() == 0 {
        0
    } else {
        count_in_state(s.drop_last(), st) + if s.last().state == st {
            1int
        } else {
            0int
        }
    }
}

/// No two entries carry the same request id.
pub open spec fn ids_unique(s: Seq<PoolEntry>) -> bool {
    forall|i: int, j: int|
        0 <= i < j < s.len() ==> s[i].request.request_id != s[j].request.request_id
}

/// The index of the first entry in `Waiting` state, or a negative value.
pub open spec fn first_waiting(s: Seq<PoolEntry>) -> int
    decreases s.len(),
{
    if s.len() == 0 {
        -1
    } else if s[0].state is Waiting {
        0
    } else {
        let r = first_waiting(s.drop_first());
        if r < 0 {
            -1
        } else {
            r + 1
        }
    }
}

/// The index of the entry carrying this request id, or a negative value.
pub open spec fn index_of_id(s: Seq<PoolEntry>, id: RequestId) -> int
    decreases s.len(),
{
    if s.len() == 0 {
        -1
    } else if s[0].request.request_id == id {
        0
    } else {
        let r = index_of_id(s.drop_first(), id);
        if r < 0 {
            -1
        } else {
            r + 1
        }
    }
}

/// A state count lies between zero and the number of entries.
pub proof fn lemma_count_bounds(s: Seq<PoolEntry>, st: DownloadState)
    ensures
        0 <= count_in_state(s, st) <= s.len(),
    decreases s.len(),
{
    if s.len() > 0 {
        lemma_count_bounds(s.drop_last(), st);
    }
}

/// Appending an entry adds its state to the count.
pub proof fn lemma_count_push(s: Seq<PoolEntry>, st: DownloadState, e: PoolEntry)
    ensures
        count_in_state(s.push(e), st) == count_in_state(s, st) + if e.state == st {
            1int
        } else {
            0int
        },
{
    assert(s.push(e).drop_last() =~= s);
    assert(s.push(e).last() == e);
}

/// Replacing an entry trades its old state for its new one in the count.
pub proof fn lemma_count_update(s: Seq<PoolEntry>, st: DownloadState, i: int, e: PoolEntry)
    requires
        0 <= i < s.len(),
    ensures
        count_in_state(s.update(i, e), st) == count_in_state(s, st) - (if s[i].state == st {
            1int
        } else {
            0int
        }) + (if e.state == st {
            1int
        } else {
            0int
        }),
    decreases s.len(),
{
    let t = s.update(i, e);
    if i == s.len() - 1 {
        assert(t.drop_last() =~= s.drop_last());
        assert(t.last() == e);
    } else {
        assert(t.drop_last() =~= s.drop_last().update(i, e));
        assert(t.last() == s.last());
        lemma_count_update(s.drop_last(), st, i, e);
    }
}

/// Removing an entry subtracts its state from the count.
pub proof fn lemma_count_remove(s: Seq<PoolEntry>, st: DownloadState, i: int)
    requires
        0 <= i < s.len(),
    ensures
        count_in_state(s.remove(i), st) == count_in_state(s, st) - if s[i].state == st {
            1int
        } else {
            0int
        },
    decreases s.len(),
{
    let t = s.remove(i);
    if i == s.len() - 1 {
        assert(t =~= s.drop_last());
    } else {
        assert(t.drop_last() =~= s.drop_last().remove(i));
        assert(t.last() == s.last());
        lemma_count_remove(s.drop_last(), st, i);
    }
}

/// When no entry is in a state, its count is zero.
pub proof fn lemma_count_zero(s: Seq<PoolEntry>, st: DownloadState)
    requires
        forall|i: int| 0 <= i < s.len() ==> s[i].state != st,
    ensures
        count_in_state(s, st) == 0,
    decreases s.len(),
{
    if s.len() > 0 {
        assert forall|i: int| 0 <= i < s.drop_last().len() implies s.drop_last()[i].state
            != st by {
            assert(s.drop_last()[i] == s[i]);
        }
        lemma_count_zero(s.drop_last(), st);
    }
}

/// What `first_waiting` says: it is the smallest index of a `Waiting` entry,
/// or negative when there is none.
pub proof fn lemma_first_waiting(s: Seq<PoolEntry>)
    ensures
        -1 <= first_waiting(s) < s.len(),
        first_waiting(s) >= 0 ==> s[first_waiting(s)].state is Waiting,
        forall|j: int|
            0 <= j < s.len() && (first_waiting(s) < 0 || j < first_waiting(s)) ==> !(
            #[trigger] s[j].state is Waiting),
    decreases s.len(),
{
    if s.len() > 0 && !(s[0].state is Waiting) {
        lemma_first_waiting(s.drop_first());
        assert forall|j: int|
            0 <= j < s.len() && (first_waiting(s) < 0 || j < first_waiting(s)) implies !(
        #[trigger] s[j].state is Waiting) by {
            if j > 0 {
                assert(s.drop_first()[j - 1] == s[j]);
            }
        }
    }
}

/// What `index_of_id` says: it is the smallest index carrying the id, or
/// negative when no entry does.
pub proof fn lemma_index_of_id(s: Seq<PoolEntry>, id: RequestId)
    ensures
        -1 <= index_of_id(s, id) < s.len(),
        index_of_id(s, id) >= 0 ==> s[index_of_id(s, id)].request.request_id == id,
        forall|j: int|
            0 <= j < s.len() && (index_of_id(s, id) < 0 || j < index_of_id(s, id)) ==> (
            #[trigger] s[j].request.request_id) != id,
    decreases s.len(),
{
    if s.len() > 0 && s[0].request.request_id != id {
        lemma_index_of_id(s.drop_first(), id);
        assert forall|j: int|
            0 <= j < s.len() && (index_of_id(s, id) < 0 || j < index_of_id(s, id)) implies (
        #[trigger] s[j].request.request_id) != id by {
            if j > 0 {
                assert(s.drop_first()[j - 1] == s[j]);
            }
        }
    }
}

/// The error of [`Downloader::stop`]: the request is not currently
/// downloading.
#[derive(Clone, Copy, PartialEq, Eq, Structural, Debug)]
pub struct NotDownloading;

/// Why an explicit [`Downloader::start_download`] was refused.
#[derive(Clone, Copy, PartialEq, Eq, Structural, Debug)]
pub enum StartError {
    /// No entry carries this request id.
    NotFound,
    /// The entry exists but is not in `Waiting` state.
    NotWaiting,
    /// Starting would exceed the concurrency limit.
    PoolFull,
}

/// The per-provider download coordinator: the request registry and the
/// fixed concurrency limit of its worker pool.
pub struct Downloader {
    pub limit: usize,
    pub entries: Vec<PoolEntry>,
}

impl Downloader {
    /// Well-formed: the limit is positive, request ids are unique, and at
    /// most `limit` entries are `Downloading`.
    pub open spec fn wf(self) -> bool {
        &&& self.limit >= 1
        &&& ids_unique(self.entries@)
        &&& count_in_state(self.entries@, DownloadState::Downloading) <= self.limit
    }

    /// How many requests this pool holds in the given state.
    pub open spec fn spec_count(self, st: DownloadState) -> int {
        count_in_state(self.entries@, st)
    }

    /// Whether some entry carries this request id.
    pub open spec fn has_request(self, id: RequestId) -> bool {
        index_of_id(self.entries@, id) >= 0
    }

    /// Creates an empty pool with the given concurrency limit.
    pub fn new(limit: usize) -> (p: Downloader)
        requires
            limit >= 1,
        ensures
            p.wf(),
            p.limit == limit,
            p.entries@.len() == 0,
    {
        Downloader { limit, entries: Vec::new() }
    }

    /// How many entries the registry holds.
    pub fn len(&self) -> (n: usize)
        ensures
            n == self.entries@.len(),
    {
        self.entries.len()
    }

    /// Reads the request at a registry index.
    pub fn request_at(&self, i: usize) -> (r: &DownloadRequest)
        requires
            i < self.entries@.len(),
        ensures
            *r == self.entries@[i as int].request,
    {
        &self.entries[i].request
    }

    /// Reads the configuration snapshot at a registry index.
    pub fn config_at(&self, i: usize) -> (c: &Config)
        requires
            i < self.entries@.len(),
        ensures
            *c == self.entries@[i as int].config,
    {
        &self.entries[i].config
    }

    /// Reads the state at a registry index.
    pub fn state_at(&self, i: usize) -> (st: DownloadState)
        requires
            i < self.entries@.len(),
        ensures
            st == self.entries@[i as int].state,
    {
        self.entries[i].state
    }

    /// How many requests are currently downloading.
    pub fn downloading_len(&self) -> (n: usize)
        ensures
            n == count_in_state(self.entries@, DownloadState::Downloading),
    {
        proof {
            lemma_count_bounds(self.entries@, DownloadState::Downloading);
        }
        let mut n: usize = 0;
        let mut i: usize = 0;
        while i < self.entries.len()
            invariant
                i <= self.entries@.len(),
                n == count_in_state(self.entries@.subrange(0, i as int), DownloadState::Downloading),
                n <= i,
            decreases self.entries@.len() - i,
        {
            proof {
                assert(self.entries@.subrange(0, i + 1 as int).drop_last() =~= self.entries@.subrange(
                    0,
                    i as int,
                ));
                assert(self.entries@.subrange(0, i + 1 as int).last() == self.entries@[i as int]);
                lemma_count_bounds(
                    self.entries@.subrange(0, i as int),
                    DownloadState::Downloading,
                );
            }
            if self.entries[i].state == DownloadState::Downloading {
                n = n + 1;
            }
            i = i + 1;
        }
        proof {
            assert(self.entries@.subrange(0, self.entries@.len() as int) =~= self.entries@);
        }
        n
    }

    /// Whether the pool is actively downloading anything.
    pub fn status(&self) -> (st: DownloadStatus)
        ensures
            st == (if count_in_state(self.entries@, DownloadState::Downloading) > 0 {
                DownloadStatus::Downloading
            } else {
                DownloadStatus::Inactive
            }),
    {
        if self.downloading_len() > 0 {
            DownloadStatus::Downloading
        } else {
            DownloadStatus::Inactive
        }
    }

    /// Finds the registry index carrying a request id.
    fn find_id(&self, id: RequestId) -> (r: Option<usize>)
        ensures
            match r {
                Some(i) => i == index_of_id(self.entries@, id) && i < self.entries@.len(),
                None => index_of_id(self.entries@, id) < 0,
            },
    {
        proof {
            lemma_index_of_id(self.entries@, id);
        }
        let mut i: usize = 0;
        while i < self.entries.len()
            invariant
                i <= self.entries@.len(),
                forall|j: int|
                    0 <= j < i ==> (#[trigger] self.entries@[j].request.request_id) != id,
            decreases self.entries@.len() - i,
        {
            if self.entries[i].request.request_id == id {
                proof {
                    lemma_index_of_id(self.entries@, id);
                    let k = index_of_id(self.entries@, id);
                    if k != i {
                        assert(self.entries@[k].request.request_id == id);
                    }
                }
                return Some(i);
            }
            i = i + 1;
        }
        proof {
            lemma_index_of_id(self.entries@, id);
            if index_of_id(self.entries@, id) >= 0 {
                assert(self.entries@[index_of_id(self.entries@, id)].request.request_id == id);
            }
        }
        None
    }

    /// Whether the registry already holds an entry with this request id.
    pub fn contains_request(&self, id: RequestId) -> (r: bool)
        ensures
            r == self.has_request(id),
    {
        proof {
            lemma_index_of_id(self.entries@, id);
        }
        match self.find_id(id) {
            Some(_) => true,
            None => false,
        }
    }

    /// Submits a request with a snapshot of the current configuration: it is
    /// appended to the registry in `Waiting` state and the `Waiting` event is
    /// emitted synchronously. The intake is unbounded; only the downloading
    /// set is limited.
    pub fn request_download(&mut self, request: DownloadRequest, config: Config) -> (ev:
        ProgressEvent)
        requires
            old(self).wf(),
            !old(self).has_request(request.request_id),
        ensures
            final(self).wf(),
            final(self).limit == old(self).limit,
            final(self).entries@ == old(self).entries@.push(
                (PoolEntry { request, config, state: DownloadState::Waiting }),
            ),
            ev == ProgressEvent::Waiting(request.request_id),
    {
        let id = request.request_id;
        let ghost s0 = self.entries@;
        let entry = PoolEntry { request, config, state: DownloadState::Waiting };
        self.entries.push(entry);
        proof {
            lemma_count_push(s0, DownloadState::Downloading, entry);
            lemma_index_of_id(s0, id);
            assert forall|i: int, j: int|
                0 <= i < j < self.entries@.len() implies self.entries@[i].request.request_id
                != self.entries@[j].request.request_id by {
                if j < s0.len() {
                    assert(self.entries@[i] == s0[i] && self.entries@[j] == s0[j]);
                } else {
                    assert(self.entries@[i] == s0[i]);
                    assert(s0[i].request.request_id != id);
                }
            }
        }
        ProgressEvent::Waiting(id)
    }

    /// Starts the first waiting request when the pool is below its
    /// concurrency limit, emitting `Start`; returns the started registry
    /// index with the event. Returns `None`, changing nothing, exactly when
    /// the pool is full or nothing waits.
    pub fn start_next(&mut self) -> (r: Option<(usize, ProgressEvent)>)
        requires
            old(self).wf(),
        ensures
            final(self).wf(),
            final(self).limit == old(self).limit,
            match r {
                Some((i, ev)) => {
                    let s0 = old(self).entries@;
                    &&& count_in_state(s0, DownloadState::Downloading) < old(self).limit
                    &&& i == first_waiting(s0)
                    &&& 0 <= first_waiting(s0) < s0.len()
                    &&& final(self).entries@ == s0.update(
                        i as int,
                        (PoolEntry {
                            request: s0[i as int].request,
                            config: s0[i as int].config,
                            state: DownloadState::Downloading,
                        }),
                    )
                    &&& ev == ProgressEvent::Start(s0[i as int].request.request_id)
                    &&& count_in_state(final(self).entries@, DownloadState::Downloading)
                        == count_in_state(s0, DownloadState::Downloading) + 1
                    &&& count_in_state(final(self).entries@, DownloadState::Waiting)
                        == count_in_state(s0, DownloadState::Waiting) - 1
                },
                None => {
                    &&& *final(self) == *old(self)
                    &&& (count_in_state(old(self).entries@, DownloadState::Downloading) >= old(
                        self,
                    ).limit || count_in_state(old(self).entries@, DownloadState::Waiting) == 0)
                },
            },
    {
        proof {
            lemma_first_waiting(self.entries@);
        }
        let active = self.downloading_len();
        if active >= self.limit {
            proof {
                lemma_count_bounds(self.entries@, DownloadState::Waiting);
            }
            return None;
        }
        let ghost s0 = self.entries@;
        let mut i: usize = 0;
        while i < self.entries.len()
            invariant
                *self == *old(self),
                self.entries@ == s0,
                old(self).wf(),
                count_in_state(s0, DownloadState::Downloading) < old(self).limit,
                i <= s0.len(),
                forall|j: int| 0 <= j < i ==> !(#[trigger] s0[j].state is Waiting),
            decreases s0.len() - i,
        {
            if self.entries[i].state == DownloadState::Waiting {
                proof {
                    lemma_first_waiting(s0);
                    let w = first_waiting(s0);
                    assert(s0[i as int].state is Waiting);
                    if w < 0 {
                        assert(!(s0[i as int].state is Waiting));
                    } else if w < i {
                        assert(s0[w].state is Waiting);
                    } else if i < w {
                        assert(!(s0[i as int].state is Waiting));
                    }
                    assert(w == i);
                }
                let request_id = self.entries[i].request.request_id;
                self.entries[i].state = DownloadState::Downloading;
                proof {
                    lemma_count_update(
                        s0,
                        DownloadState::Downloading,
                        i as int,
                        self.entries@[i as int],
                    );
                    lemma_count_update(
                        s0,
                        DownloadState::Waiting,
                        i as int,
                        self.entries@[i as int],
                    );
                    assert forall|a: int, b: int|
                        0 <= a < b < self.entries@.len() implies self.entries@[a].request.request_id
                        != self.entries@[b].request.request_id by {
                        assert(self.entries@[a].request == s0[a].request);
                        assert(self.entries@[b].request == s0[b].request);
                    }
                }
                return Some((i, ProgressEvent::Start(request_id)));
            }
            i = i + 1;
        }
        proof {
            lemma_first_waiting(s0);
            if first_waiting(s0) >= 0 {
                assert(s0[first_waiting(s0)].state is Waiting);
            }
            lemma_count_zero(s0, DownloadState::Waiting);
        }
        None
    }

    /// Starts waiting requests, oldest first, until the pool reaches its
    /// concurrency limit or nothing waits; returns the `Start` events in
    /// starting order.
    pub fn start_download_queue(&mut self) -> (events: Vec<ProgressEvent>)
        requires
            old(self).wf(),
        ensures
            final(self).wf(),
            final(self).limit == old(self).limit,
            forall|k: int| 0 <= k < events@.len() ==> (#[trigger] events@[k]) is Start,
            count_in_state(final(self).entries@, DownloadState::Downloading) == vstd::math::min(
                old(self).limit as int,
                count_in_state(old(self).entries@, DownloadState::Downloading) + count_in_state(
                    old(self).entries@,
                    DownloadState::Waiting,
                ),
            ),
            events@.len() == count_in_state(final(self).entries@, DownloadState::Downloading)
                - count_in_state(old(self).entries@, DownloadState::Downloading),
    {
        let mut events: Vec<ProgressEvent> = Vec::new();
        let ghost d0 = count_in_state(self.entries@, DownloadState::Downloading);
        let ghost w0 = count_in_state(self.entries@, DownloadState::Waiting);
        proof {
            lemma_count_bounds(self.entries@, DownloadState::Waiting);
        }
        loop
            invariant
                self.wf(),
                self.limit == old(self).limit,
                count_in_state(self.entries@, DownloadState::Downloading) == d0 + events@.len(),
                count_in_state(self.entries@, DownloadState::Waiting) == w0 - events@.len(),
                w0 - events@.len() >= 0,
                forall|k: int| 0 <= k < events@.len() ==> (#[trigger] events@[k]) is Start,
                d0 == count_in_state(old(self).entries@, DownloadState::Downloading),
                w0 == count_in_state(old(self).entries@, DownloadState::Waiting),
            ensures
                count_in_state(self.entries@, DownloadState::Downloading) >= self.limit
                    || count_in_state(self.entries@, DownloadState::Waiting) == 0,
            decreases w0 - events@.len(),
        {
            match self.start_next() {
                Some((_, ev)) => {
                    events.push(ev);
                    proof {
                        lemma_count_bounds(self.entries@, DownloadState::Waiting);
                    }
                },
                None => {
                    break ;
                },
            }
        }
        events
    }

    /// Starts one waiting request by id, emitting `Start`. Refused, changing
    /// nothing, when the id is unknown, the entry is not waiting, or the
    /// pool is at its concurrency limit.
    pub fn start_download(&mut self, id: RequestId) -> (r: Result<ProgressEvent, StartError>)
        requires
            old(self).wf(),
        ensures
            final(self).wf(),
            final(self).limit == old(self).limit,
            ({
                let s0 = old(self).entries@;
                let k = index_of_id(s0, id);
                match r {
                    Ok(ev) => {
                        &&& k >= 0
                        &&& s0[k].state is Waiting
                        &&& count_in_state(s0, DownloadState::Downloading) < old(self).limit
                        &&& final(self).entries@ == s0.update(
                            k,
                            (PoolEntry {
                                request: s0[k].request,
                                config: s0[k].config,
                                state: DownloadState::Downloading,
                            }),
                        )
                        &&& ev == ProgressEvent::Start(id)
                    },
                    Err(e) => {
                        &&& *final(self) == *old(self)
                        &&& match e {
                            StartError::NotFound => k < 0,
                            StartError::NotWaiting => k >= 0 && !(s0[k].state is Waiting),
                            StartError::PoolFull => k >= 0 && s0[k].state is Waiting
                                && count_in_state(s0, DownloadState::Downloading) >= old(
                                self,
                            ).limit,
                        }
                    },
                }
            }),
    {
        let ghost s0 = self.entries@;
        let k = match self.find_id(id) {
            Some(k) => k,
            None => {
                return Err(StartError::NotFound);
            },
        };
        if !(self.entries[k].state == DownloadState::Waiting) {
            return Err(StartError::NotWaiting);
        }
        let active = self.downloading_len();
        if active >= self.limit {
            return Err(StartError::PoolFull);
        }
        proof {
            lemma_index_of_id(s0, id);
        }
        self.entries[k].state = DownloadState::Downloading;
        proof {
            lemma_count_update(s0, DownloadState::Downloading, k as int, self.entries@[k as int]);
            assert forall|a: int, b: int|
                0 <= a < b < self.entries@.len() implies self.entries@[a].request.request_id
                != self.entries@[b].request.request_id by {
                assert(self.entries@[a].request == s0[a].request);
                assert(self.entries@[b].request == s0[b].request);
            }
        }
        Ok(ProgressEvent::Start(id))
    }

    /// Records the outcome a worker reports for a downloading request and
    /// returns its terminal event: `Finish` on success, `DownloadError` with
    /// the message otherwise. Returns `None`, changing nothing, when the id
    /// is unknown or the entry is not downloading; a worker failure never
    /// terminates the pool.
    pub fn complete(&mut self, id: RequestId, success: bool, message: String) -> (r: Option<
        ProgressEvent,
    >)
        requires
            old(self).wf(),
        ensures
            final(self).wf(),
            final(self).limit == old(self).limit,
            ({
                let s0 = old(self).entries@;
                let k = index_of_id(s0, id);
                if k >= 0 && s0[k].state is Downloading {
                    match r {
                        Some(ev) => {
                            &&& final(self).entries@ == s0.update(
                                k,
                                (PoolEntry {
                                    request: s0[k].request,
                                    config: s0[k].config,
                                    state: if success {
                                        DownloadState::Finished
                                    } else {
                                        DownloadState::Failed
                                    },
                                }),
                            )
                            &&& ev == (if success {
                                ProgressEvent::Finish(id)
                            } else {
                                ProgressEvent::DownloadError(id, message)
                            })
                            &&& count_in_state(final(self).entries@, DownloadState::Downloading)
                                == count_in_state(s0, DownloadState::Downloading) - 1
                        },
                        None => false,
                    }
                } else {
                    r is None && *final(self) == *old(self)
                }
            }),
    {
        let ghost s0 = self.entries@;
        let k = match self.find_id(id) {
            Some(k) => k,
            None => {
                return None;
            },
        };
        if !(self.entries[k].state == DownloadState::Downloading) {
            return None;
        }
        proof {
            lemma_index_of_id(s0, id);
            lemma_count_bounds(s0, DownloadState::Downloading);
        }
        let new_state = if success {
            DownloadState::Finished
        } else {
            DownloadState::Failed
        };
        self.entries[k].state = new_state;
        proof {
            lemma_count_update(s0, DownloadState::Downloading, k as int, self.entries@[k as int]);
            assert forall|a: int, b: int|
                0 <= a < b < self.entries@.len() implies self.entries@[a].request.request_id
                != self.entries@[b].request.request_id by {
                assert(self.entries@[a].request == s0[a].request);
                assert(self.entries@[b].request == s0[b].request);
            }
        }
        if success {
            Some(ProgressEvent::Finish(id))
        } else {
            Some(ProgressEvent::DownloadError(id, message))
        }
    }

    /// Cancels an in-flight download, resetting its entry to `Stopped`.
    /// Fails, changing nothing, when the request is not downloading.
    pub fn stop(&mut self, id: RequestId) -> (r: Result<(), NotDownloading>)
        requires
            old(self).wf(),
        ensures
            final(self).wf(),
            final(self).limit == old(self).limit,
            ({
                let s0 = old(self).entries@;
                let k = index_of_id(s0, id);
                if k >= 0 && s0[k].state is Downloading {
                    r is Ok && final(self).entries@ == s0.update(
                        k,
                        (PoolEntry {
                            request: s0[k].request,
                            config: s0[k].config,
                            state: DownloadState::Stopped,
                        }),
                    )
                } else {
                    r is Err && *final(self) == *old(self)
                }
            }),
    {
        let ghost s0 = self.entries@;
        let k = match self.find_id(id) {
            Some(k) => k,
            None => {
                return Err(NotDownloading);
            },
        };
        if !(self.entries[k].state == DownloadState::Downloading) {
            return Err(NotDownloading);
        }
        proof {
            lemma_index_of_id(s0, id);
            lemma_count_bounds(s0, DownloadState::Downloading);
        }
        self.entries[k].state = DownloadState::Stopped;
        proof {
            lemma_count_update(s0, DownloadState::Downloading, k as int, self.entries@[k as int]);
            assert forall|a: int, b: int|
                0 <= a < b < self.entries@.len() implies self.entries@[a].request.request_id
                != self.entries@[b].request.request_id by {
                assert(self.entries@[a].request == s0[a].request);
                assert(self.entries@[b].request == s0[b].request);
            }
        }
        Ok(())
    }

    /// Removes the entry carrying this request id from the registry, in any
    /// state; unknown ids are ignored.
    pub fn remove_from_queue(&mut self, id: RequestId)
        requires
            old(self).wf(),
        ensures
            final(self).wf(),
            final(self).limit == old(self).limit,
            ({
                let s0 = old(self).entries@;
                let k = index_of_id(s0, id);
                if k >= 0 {
                    final(self).entries@ == s0.remove(k)
                } else {
                    *final(self) == *old(self)
                }
            }),
    {
        let ghost s0 = self.entries@;
        let k = match self.find_id(id) {
            Some(k) => k,
            None => {
                return ;
            },
        };
        proof {
            lemma_index_of_id(s0, id);
        }
        self.entries.remove(k);
        proof {
            lemma_count_remove(s0, DownloadState::Downloading, k as int);
            lemma_count_bounds(s0, DownloadState::Downloading);
            assert forall|a: int, b: int|
                0 <= a < b < self.entries@.len() implies self.entries@[a].request.request_id
                != self.entries@[b].request.request_id by {
                let sa: int = if a < k {
                    a
                } else {
                    a + 1
                };
                let sb: int = if b < k {
                    b
                } else {
                    b + 1
                };
                assert(self.entries@[a] == s0[sa]);
                assert(self.entries@[b] == s0[sb]);
            }
        }
    }

    /// A snapshot of the registry for the presentation layer: each request
    /// id with its current state, in registry order.
    pub fn queue_states(&self) -> (snapshot: Vec<(RequestId, DownloadState)>)
        ensures
            snapshot@.len() == self.entries@.len(),
            forall|i: int|
                0 <= i < self.entries@.len() ==> (#[trigger] snapshot@[i]) == (
                self.entries@[i].request.request_id,
                self.entries@[i].state,
                ),
    {
        let mut snapshot: Vec<(RequestId, DownloadState)> = Vec::new();
        let mut i: usize = 0;
        while i < self.entries.len()
            invariant
                i <= self.entries@.len(),
                snapshot@.len() == i,
                forall|j: int|
                    0 <= j < i ==> (#[trigger] snapshot@[j]) == (
                    self.entries@[j].request.request_id,
                    self.entries@[j].state,
                    ),
            decreases self.entries@.len() - i,
        {
            snapshot.push((self.entries[i].request.request_id, self.entries[i].state));
            i = i + 1;
        }
        snapshot
    }

    /// Empties the whole registry, queued and finished entries alike.
    pub fn clear_queue(&mut self)
        requires
            old(self).wf(),
        ensures
            final(self).wf(),
            final(self).limit == old(self).limit,
            final(self).entries@.len() == 0,
    {
        self.entries.clear();
    }
}

/// For any number of submitted requests, a well-formed pool with concurrency
/// limit `K` holds at most `K` requests in the `Downloading` state: every
/// method keeps the pool well-formed, and well-formedness bounds the count.
pub proof fn lemma_downloading_bounded(p: Downloader)
    requires
        p.wf(),
    ensures
        count_in_state(p.entries@, DownloadState::Downloading) <= p.limit,
{
}

/// Draws a fresh identifier from a counter: the id returned, the counter
/// stepped past it.
pub fn generate_id(counter: &mut usize) -> (id: usize)
    requires
        *old(counter) < usize::MAX,
    ensures
        id == *old(counter),
        *final(counter) == *old(counter) + 1,
{
    let id = *counter;
    *counter = *counter + 1;
    id
}

} // verus!
