//! The canonical data model: track and collection metadata, the tagged union
//! describing what a download request refers to, and the request itself.

use vstd::prelude::*;

verus! {

/// A 128-bit request identifier, unique per submission. The submitter
/// generates it; in the surrounding application it is a UUID.
#[derive(Clone, Copy, PartialEq, Eq, Structural, Debug)]
pub struct RequestId {
    pub value: u128,
}

/// Which content provider an item belongs to.
#[derive(Clone, Copy, PartialEq, Eq, Structural, Debug)]
pub enum Provider {
    Deezer,
    Youtube,
}

/// The album-related metadata carried inside a [`Song`].
#[derive(Debug, Clone)]
pub struct SongAlbum {
    pub title: String,
    pub cover_url: String,
}

/// Canonical track metadata. A plain value type: copied freely, never
/// shared-mutable.
#[derive(Debug, Clone)]
pub struct Song {
    pub id: String,
    pub title: String,
    pub album: SongAlbum,
    pub artist: String,
    pub release_date: String,
}

/// A collection of songs: an album or a playlist, with its members in order.
#[derive(Debug, Clone)]
pub struct Album {
    pub title: String,
    pub artist: String,
    pub cover_url: String,
    pub songs: Vec<Song>,
}

/// What a download request refers to, with its per-kind options.
#[derive(Debug, Clone)]
pub enum Item {
    DeezerAlbum { album: Album, merge_tracks: bool },
    DeezerTrack { track: Song },
    YoutubeVideo { video: Song, split_by_chapters: bool },
    YoutubePlaylist { playlist: Album },
}

/// A submitted download request: the submitter-chosen identifier and the
/// resolved item. Owned by the worker pool once submitted.
#[derive(Debug, Clone)]
pub struct DownloadRequest {
    pub request_id: RequestId,
    pub item: Item,
}

/// The provider whose worker pool must handle this item.
pub open spec fn provider_of(item: Item) -> Provider {
    match item {
        Item::DeezerAlbum { .. } => Provider::Deezer,
        Item::DeezerTrack { .. } => Provider::Deezer,
        Item::YoutubeVideo { .. } => Provider::Youtube,
        Item::YoutubePlaylist { .. } => Provider::Youtube,
    }
}

/// Routes an item to its provider's worker pool.
pub fn route_provider(item: &Item) -> (p: Provider)
    ensures
        p == provider_of(*item),
{
    match item {
        Item::DeezerAlbum { .. } => Provider::Deezer,
        Item::DeezerTrack { .. } => Provider::Deezer,
        Item::YoutubeVideo { .. } => Provider::Youtube,
        Item::YoutubePlaylist { .. } => Provider::Youtube,
    }
}

/// What a provider's worker does with a dequeued request.
pub enum WorkerAction {
    /// Download one track to its own file.
    DownloadTrack(Song),
    /// Fan the album out into per-member operations, merging into one file
    /// when asked.
    DownloadAlbum(Album, bool),
    /// Download one video, split by its chapters when asked.
    DownloadVideo(Song, bool),
    /// Fan the playlist out, one file per member.
    DownloadPlaylist(Album),
    /// Another provider's item: the worker moves on to the next request.
    Skip,
}

/// The action a provider's worker takes for a dequeued item: it serves its
/// own provider's items and skips any other.
pub open spec fn worker_action_spec(provider: Provider, item: Item) -> WorkerAction {
    if provider_of(item) != provider {
        WorkerAction::Skip
    } else {
        match item {
            Item::DeezerTrack { track } => WorkerAction::DownloadTrack(track),
            Item::DeezerAlbum { album, merge_tracks } => WorkerAction::DownloadAlbum(
                album,
                merge_tracks,
            ),
            Item::YoutubeVideo { video, split_by_chapters } => WorkerAction::DownloadVideo(
                video,
                split_by_chapters,
            ),
            Item::YoutubePlaylist { playlist } => WorkerAction::DownloadPlaylist(playlist),
        }
    }
}

/// Dispatches a dequeued item inside one provider's worker.
pub fn worker_action(provider: Provider, item: Item) -> (a: WorkerAction)
    ensures
        a == worker_action_spec(provider, item),
{
    let mine = route_provider(&item);
    if !(mine == provider) {
        return WorkerAction::Skip;
    }
    match item {
        Item::DeezerTrack { track } => WorkerAction::DownloadTrack(track),
        Item::DeezerAlbum { album, merge_tracks } => WorkerAction::DownloadAlbum(
            album,
            merge_tracks,
        ),
        Item::YoutubeVideo { video, split_by_chapters } => WorkerAction::DownloadVideo(
            video,
            split_by_chapters,
        ),
        Item::YoutubePlaylist { playlist } => WorkerAction::DownloadPlaylist(playlist),
    }
}

} // verus!
