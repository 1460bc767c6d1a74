//! The user-visible options the engine consults: target format for video
//! downloads, the collection policies, and the destination directory.
//! Loading and saving the configuration is the surrounding application's
//! business; the engine only reads these values.

use vstd::prelude::*;

verus! {

/// The audio format a video download is encoded to.
#[derive(Debug, Clone, Copy, PartialEq, Eq, Structural)]
pub enum YoutubeFormat {
    MP3,
    WEBM,
    WAV,
    OGG,
}

/// The file extension each format writes.
pub open spec fn format_extension_spec(f: YoutubeFormat) -> Seq<char> {
    match f {
        YoutubeFormat::MP3 => "mp3"@,
        YoutubeFormat::WEBM => "webm"@,
        YoutubeFormat::WAV => "wav"@,
        YoutubeFormat::OGG => "ogg"@,
    }
}

impl YoutubeFormat {
    /// The file extension this format writes.
    pub fn extension(&self) -> (r: &'static str)
        ensures
            r@ == format_extension_spec(*self),
    {
        match self {
            YoutubeFormat::MP3 => "mp3",
            YoutubeFormat::WEBM => "webm",
            YoutubeFormat::WAV => "wav",
            YoutubeFormat::OGG => "ogg",
        }
    }
}

impl Default for YoutubeFormat {
    /// The default format.
    fn default() -> (r: YoutubeFormat)
        ensures
            r == YoutubeFormat::MP3,
    {
        YoutubeFormat::MP3
    }
}

/// The recognized options: whether a collection's files are grouped into a
/// subfolder, the destination directory, whether a collection is merged into
/// one file, the target format for video downloads, and whether a long item
/// is split by its embedded chapters.
#[derive(Debug, Clone)]
pub struct Config {
    pub group_songs_in_folder: bool,
    pub download_folder: String,
    pub deezer_merge_tracks: bool,
    pub youtube_format: YoutubeFormat,
    pub youtube_split_chapters: bool,
}

impl Default for Config {
    /// The default configuration: everything off, current directory, MP3.
    fn default() -> (c: Config)
        ensures
            !c.group_songs_in_folder,
            c.download_folder@ == Seq::<char>::empty(),
            !c.deezer_merge_tracks,
            c.youtube_format == YoutubeFormat::MP3,
            !c.youtube_split_chapters,
    {
        Config {
            group_songs_in_folder: false,
            download_folder: String::new(),
            deezer_merge_tracks: false,
            youtube_format: YoutubeFormat::MP3,
            youtube_split_chapters: false,
        }
    }
}

} // verus!
