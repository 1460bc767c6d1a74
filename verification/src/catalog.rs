//! The item catalog: converts raw provider metadata into the canonical data
//! model, and builds the item a resolved reference denotes from what the
//! provider returned. A missing or inaccessible item is a normal outcome
//! (`None`), distinct from a transport failure.

use vstd::prelude::*;
use vstd::string::*;

use crate::models::Album;
use crate::models::Item;
use crate::models::Song;
use crate::models::SongAlbum;
use crate::numbers::dec_digits;
use crate::numbers::u64_to_string;
use crate::resolver::ParsedId;

verus! {

/// Converts raw provider track metadata into a [`Song`]. A track the
/// provider reports as not readable is not available: the result is `None`,
/// a normal outcome rather than an error.
pub fn song_from_track(
    id: u64,
    title: String,
    artist: String,
    album_title: String,
    cover_url: String,
    release_date: String,
    readable: bool,
) -> (r: Option<Song>)
    ensures
        match r {
            Some(s) => {
                &&& readable
                &&& s.id@ == dec_digits(id as int)
                &&& s.title == title
                &&& s.artist == artist
                &&& s.album.title == album_title
                &&& s.album.cover_url == cover_url
                &&& s.release_date == release_date
            },
            None => !readable,
        },
{
    if !readable {
        return None;
    }
    Some(
        Song {
            id: u64_to_string(id),
            title,
            album: SongAlbum { title: album_title, cover_url },
            artist,
            release_date,
        },
    )
}

/// Converts raw provider video metadata into a [`Song`]. Videos carry no
/// album, so the album title is empty; a missing thumbnail or upload date
/// becomes empty text.
pub fn song_from_video(
    video_id: String,
    title: String,
    channel_name: String,
    thumbnail_url: Option<String>,
    uploaded_at: Option<String>,
) -> (s: Song)
    ensures
        s.id == video_id,
        s.title == title,
        s.artist == channel_name,
        s.album.title@ == Seq::<char>::empty(),
        match thumbnail_url {
            Some(u) => s.album.cover_url == u,
            None => s.album.cover_url@ == Seq::<char>::empty(),
        },
        match uploaded_at {
            Some(d) => s.release_date == d,
            None => s.release_date@ == Seq::<char>::empty(),
        },
{
    let cover_url = match thumbnail_url {
        Some(u) => u,
        None => String::new(),
    };
    let release_date = match uploaded_at {
        Some(d) => d,
        None => String::new(),
    };
    Song {
        id: video_id,
        title,
        album: SongAlbum { title: String::new(), cover_url },
        artist: channel_name,
        release_date,
    }
}

/// Assembles a collection from its provider metadata and its resolved
/// members, in member order.
pub fn album_from_parts(title: String, artist: String, cover_url: String, songs: Vec<Song>) -> (a:
    Album)
    ensures
        a.title == title,
        a.artist == artist,
        a.cover_url == cover_url,
        a.songs == songs,
{
    Album { title, artist, cover_url, songs }
}

/// The message reported when the provider has no item for a valid id.
pub open spec fn missing_item_msg(parsed: ParsedId) -> Seq<char> {
    match parsed {
        ParsedId::DeezerTrack(id) => "Invalid track id "@ + dec_digits(id as int),
        ParsedId::DeezerAlbum(id) => "Invalid album id "@ + dec_digits(id as int),
        ParsedId::YoutubeVideo(_) => "Invalid video id"@,
        ParsedId::YoutubePlaylist(_) => "Invalid playlist id"@,
    }
}

/// Builds the item a resolved reference denotes from what the provider
/// returned for it: the caller fetches a song for track and video references
/// and an album for album and playlist references, and hands it in here.
/// A missing item yields the message the submitter sees. Collection options
/// start out disabled; the submitter chooses them later.
pub fn get_item(parsed: &ParsedId, song: Option<Song>, album: Option<Album>) -> (r: Result<
    Item,
    String,
>)
    ensures
        match *parsed {
            ParsedId::DeezerTrack(_) => match song {
                Some(s) => r == Ok::<Item, String>((Item::DeezerTrack { track: s })),
                None => r matches Err(m) && m@ == missing_item_msg(*parsed),
            },
            ParsedId::DeezerAlbum(_) => match album {
                Some(a) => r == Ok::<Item, String>(
                    (Item::DeezerAlbum { album: a, merge_tracks: false }),
                ),
                None => r matches Err(m) && m@ == missing_item_msg(*parsed),
            },
            ParsedId::YoutubeVideo(_) => match song {
                Some(s) => r == Ok::<Item, String>(
                    (Item::YoutubeVideo { video: s, split_by_chapters: false }),
                ),
                None => r matches Err(m) && m@ == missing_item_msg(*parsed),
            },
            ParsedId::YoutubePlaylist(_) => match album {
                Some(a) => r == Ok::<Item, String>((Item::YoutubePlaylist { playlist: a })),
                None => r matches Err(m) && m@ == missing_item_msg(*parsed),
            },
        },
{
    match parsed {
        ParsedId::DeezerTrack(id) => match song {
            Some(s) => Ok(Item::DeezerTrack { track: s }),
            None => {
                let mut m = String::from_str("Invalid track id ");
                let digits = u64_to_string(*id);
                m.append(digits.as_str());
                Err(m)
            },
        },
        ParsedId::DeezerAlbum(id) => match album {
            Some(a) => Ok(Item::DeezerAlbum { album: a, merge_tracks: false }),
            None => {
                let mut m = String::from_str("Invalid album id ");
                let digits = u64_to_string(*id);
                m.append(digits.as_str());
                Err(m)
            },
        },
        ParsedId::YoutubeVideo(_) => match song {
            Some(s) => Ok(Item::YoutubeVideo { video: s, split_by_chapters: false }),
            None => Err(String::from_str("Invalid video id")),
        },
        ParsedId::YoutubePlaylist(_) => match album {
            Some(a) => Ok(Item::YoutubePlaylist { playlist: a }),
            None => Err(String::from_str("Invalid playlist id")),
        },
    }
}

} // verus!
