//! Turning what the video-metadata service reports into a song.
use vstd::prelude::*;

use crate::errors::ApiError;
use crate::song::{Song, SongDetails};

verus! {

/// One media format that the metadata service lists for a video.
#[derive(Debug)]
pub struct FormatInfo {
    pub format_id: Option<String>,
    pub url: Option<String>,
}

/// What the metadata service reports for a single video.
#[derive(Debug)]
pub struct VideoInfo {
    pub id: String,
    pub title: String,
    pub thumbnail: Option<String>,
    pub formats: Option<Vec<FormatInfo>>,
}

/// The identifier of the audio-only format that songs are played from.
pub open spec fn audio_format_id() -> Seq<char> {
    "251"@
}

/// A format, as its identifier and location.
pub open spec fn format_view(f: FormatInfo) -> (Option<Seq<char>>, Option<Seq<char>>) {
    (
        match f.format_id {
            Some(s) => Some(s@),
            None => None,
        },
        match f.url {
            Some(s) => Some(s@),
            None => None,
        },
    )
}

/// The location of the first listed format whose identifier is the audio
/// format's, if that format is listed and has a location.
pub open spec fn audio_url_of(formats: Seq<(Option<Seq<char>>, Option<Seq<char>>)>) -> Option<Seq<char>>
    decreases formats.len(),
{
    if formats.len() == 0 {
        None
    } else if formats[0].0 == Some(audio_format_id()) {
        formats[0].1
    } else {
        audio_url_of(formats.drop_first())
    }
}

/// The song that a video report describes: its identifier, title and
/// thumbnail, and the location of its audio format; `None` when the
/// thumbnail, the format list or the audio format is missing.
pub open spec fn song_of_video(v: VideoInfo) -> Option<Song> {
    match (v.thumbnail, v.formats) {
        (Some(t), Some(fs)) => match audio_url_of(fs@.map_values(|f: FormatInfo| format_view(f))) {
            Some(a) => Some(Song { id: v.id@, title: v.title@, thumbnail: t@, audio: a }),
            None => None,
        },
        _ => None,
    }
}

/// The location of the audio format among `formats`, if listed with one.
pub fn find_audio_url(formats: &Vec<FormatInfo>) -> (r: Option<String>)
    ensures
        match r {
            Some(u) => audio_url_of(formats@.map_values(|f: FormatInfo| format_view(f))) == Some(u@),
            None => audio_url_of(formats@.map_values(|f: FormatInfo| format_view(f))) is None,
        },
{
    proof {
        reveal_strlit("251");
    }
    let wanted = String::from_str("251");
    let ghost all = formats@.map_values(|f: FormatInfo| format_view(f));
    assert(all.subrange(0, all.len() as int) =~= all);
    let mut i: usize = 0;
    while i < formats.len()
        invariant
            i <= formats@.len(),
            wanted@ == audio_format_id(),
            all == formats@.map_values(|f: FormatInfo| format_view(f)),
            audio_url_of(all) == audio_url_of(all.subrange(i as int, all.len() as int)),
        decreases formats@.len() - i,
    {
        let ghost rest = all.subrange(i as int, all.len() as int);
        assert(rest[0] == format_view(formats@[i as int]));
        assert(rest.drop_first() =~= all.subrange(i + 1, all.len() as int));
        let matched = match &formats[i].format_id {
            Some(id) => *id == wanted,
            None => false,
        };
        if matched {
            return match &formats[i].url {
                Some(u) => Some(u.clone()),
                None => None,
            };
        }
        i += 1;
    }
    None
}

/// The song that a video report describes; a report without a thumbnail,
/// a format list or the audio format is an invalid song.
pub fn song_details_from_video(video: VideoInfo) -> (r: Result<SongDetails, ApiError>)
    ensures
        match r {
            Ok(d) => song_of_video(video) == Some(d@),
            Err(e) => song_of_video(video) is None && e == ApiError::InvalidSong,
        },
{
    let VideoInfo { id, title, thumbnail, formats } = video;
    match (thumbnail, formats) {
        (Some(thumbnail), Some(formats)) => match find_audio_url(&formats) {
            Some(audio) => Ok(SongDetails { id, title, thumbnail, audio }),
            None => Err(ApiError::InvalidSong),
        },
        _ => Err(ApiError::InvalidSong),
    }
}

} // verus!
