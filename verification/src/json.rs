//! The values that responses are made of, before they are serialised.

use crate::consts::API_VERSION;
use crate::consts::SERVER_NAME;
use crate::consts::SERVER_VERSION;
use vstd::prelude::*;

verus! {

/// Whether a request was served.
#[derive(Clone, Copy, Debug, PartialEq, Eq, Structural)]
pub enum Status {
    /// Served; serialised as `ok`.
    Okay,
    /// Not served; serialised as `failed`.
    Failed,
}

/// The body of every response: who answers, how it went, and the payload
/// if there is one.
pub struct ResponseBody<T> {
    pub status: Status,
    pub version: &'static str,
    pub server_type: &'static str,
    pub server_version: &'static str,
    pub open_subsonic: bool,
    pub data: Option<T>,
}

/// A response body under the key the protocol wants it under.
pub struct SubsonicResponse<T> {
    pub response: ResponseBody<T>,
}

/// A response ready to be sent: the HTTP status and the JSON body.
pub struct HttpReply<T> {
    pub status_code: u16,
    pub body: SubsonicResponse<T>,
}

/// The HTTP status that goes with a response status.
pub open spec fn status_code_of(status: Status) -> u16 {
    match status {
        Status::Okay => 200,
        Status::Failed => 500,
    }
}

impl<T> ResponseBody<T> {
    /// A body with the given status and payload, signed by this server.
    pub fn new(status: Status, data: Option<T>) -> (body: Self)
        ensures
            body.status == status,
            body.version@ == API_VERSION@,
            body.server_type@ == SERVER_NAME@,
            body.server_version@ == SERVER_VERSION@,
            body.open_subsonic,
            body.data == data,
    {
        ResponseBody {
            status,
            version: API_VERSION,
            server_type: SERVER_NAME,
            server_version: SERVER_VERSION,
            open_subsonic: true,
            data,
        }
    }

    /// A success without payload.
    pub fn ok() -> (body: Self)
        ensures
            body.status == Status::Okay,
            body.version@ == API_VERSION@,
            body.server_type@ == SERVER_NAME@,
            body.server_version@ == SERVER_VERSION@,
            body.open_subsonic,
            body.data is None,
    {
        Self::new(Status::Okay, None)
    }

    /// A success with a payload.
    pub fn ok_with(data: T) -> (body: Self)
        ensures
            body.status == Status::Okay,
            body.version@ == API_VERSION@,
            body.server_type@ == SERVER_NAME@,
            body.server_version@ == SERVER_VERSION@,
            body.open_subsonic,
            body.data == Some(data),
    {
        Self::new(Status::Okay, Some(data))
    }

    /// A failure without payload.
    pub fn failed() -> (body: Self)
        ensures
            body.status == Status::Failed,
            body.version@ == API_VERSION@,
            body.server_type@ == SERVER_NAME@,
            body.server_version@ == SERVER_VERSION@,
            body.open_subsonic,
            body.data is None,
    {
        Self::new(Status::Failed, None)
    }

    /// Wraps the body for sending: 200 for a success, 500 for a failure.
    pub fn into_response(self) -> (reply: HttpReply<T>)
        ensures
            reply.status_code == status_code_of(self.status),
            reply.body.response == self,
    {
        let status_code: u16 = match self.status {
            Status::Okay => 200,
            Status::Failed => 500,
        };
        HttpReply { status_code, body: SubsonicResponse { response: self } }
    }
}

/// What the metadata provider says of a track, as far as this server
/// reads it.
#[derive(Clone, Debug)]
pub struct TrackInfo {
    /// The provider's id of the track; local files have none.
    pub id: Option<String>,
    pub name: String,
    pub album_name: String,
    /// The provider's id of the album, under which its cover is found.
    pub album_id: Option<String>,
    pub release_date: Option<String>,
    /// The names of the artists, the main one first.
    pub artists: Vec<String>,
    pub track_number: u32,
    pub disc_number: i32,
    /// The length of the track in milliseconds, as the provider gives it.
    pub duration_ms: i64,
    pub explicit: bool,
}

/// A song as clients are told of it.
#[derive(Clone, Debug)]
pub struct Song {
    pub id: String,
    pub title: String,
    pub album: String,
    pub track: u32,
    /// The length in whole seconds.
    pub duration: u64,
    pub is_dir: bool,
    pub item_type: &'static str,
    pub media_type: &'static str,
    pub suffix: &'static str,
    pub content_type: &'static str,
    pub bit_rate: u32,
    pub bit_depth: u32,
    pub sampling_rate: u32,
    pub channel_count: u32,
    pub transcoded_suffix: &'static str,
    pub transcoded_content_type: &'static str,
    pub disc_number: i32,
    pub artist: Option<String>,
    pub cover_art: Option<String>,
    pub created: Option<String>,
    pub explicit_status: Option<&'static str>,
}

/// The text of an optional string.
pub open spec fn text_of(s: Option<String>) -> Option<Seq<char>> {
    match s {
        Some(s) => Some(s@),
        None => None,
    }
}

/// The text of an optional string constant.
pub open spec fn label_of(s: Option<&'static str>) -> Option<Seq<char>> {
    match s {
        Some(s) => Some(s@),
        None => None,
    }
}

/// A track can be told of as a song: it has an id and a length that is
/// not negative.
pub open spec fn is_listable(t: TrackInfo) -> bool {
    t.id is Some && t.duration_ms >= 0
}

/// What a song made of a track holds: the track's own data, and what is
/// the same for every song this server streams.
pub open spec fn song_matches(song: Song, t: TrackInfo) -> bool {
    &&& Some(song.id@) == text_of(t.id)
    &&& song.title@ == t.name@
    &&& song.album@ == t.album_name@
    &&& song.track == t.track_number
    &&& song.duration == t.duration_ms / 1000
    &&& !song.is_dir
    &&& song.item_type@ == "music"@
    &&& song.media_type@ == "song"@
    &&& song.suffix@ == "ogg"@
    &&& song.content_type@ == "audio/ogg"@
    &&& song.bit_rate == 320
    &&& song.bit_depth == 16
    &&& song.sampling_rate == 44100
    &&& song.channel_count == 2
    &&& song.transcoded_suffix@ == "opus"@
    &&& song.transcoded_content_type@ == "audio/ogg; codecs=opus"@
    &&& song.disc_number == t.disc_number
    &&& text_of(song.artist) == if t.artists@.len() > 0 {
        Some(t.artists@[0]@)
    } else {
        None
    }
    &&& text_of(song.cover_art) == text_of(t.album_id)
    &&& text_of(song.created) == text_of(t.release_date)
    &&& label_of(song.explicit_status) == if t.explicit {
        Some("explicit"@)
    } else {
        None
    }
}

/// A copy of an optional string.
pub fn clone_text(s: &Option<String>) -> (out: Option<String>)
    ensures
        out == *s,
{
    match s {
        Some(s) => Some(s.clone()),
        None => None,
    }
}

impl Song {
    /// A copy of the song, equal to it field by field.
    pub fn duplicate(&self) -> (out: Self)
        ensures
            out == *self,
    {
        Song {
            id: self.id.clone(),
            title: self.title.clone(),
            album: self.album.clone(),
            track: self.track,
            duration: self.duration,
            is_dir: self.is_dir,
            item_type: self.item_type,
            media_type: self.media_type,
            suffix: self.suffix,
            content_type: self.content_type,
            bit_rate: self.bit_rate,
            bit_depth: self.bit_depth,
            sampling_rate: self.sampling_rate,
            channel_count: self.channel_count,
            transcoded_suffix: self.transcoded_suffix,
            transcoded_content_type: self.transcoded_content_type,
            disc_number: self.disc_number,
            artist: clone_text(&self.artist),
            cover_art: clone_text(&self.cover_art),
            created: clone_text(&self.created),
            explicit_status: self.explicit_status,
        }
    }

    /// The song for a track; none for a track without an id or with a
    /// negative length.
    pub fn from_spotify(t: &TrackInfo) -> (song: Option<Self>)
        ensures
            song is Some <==> is_listable(*t),
            song matches Some(s) ==> song_matches(s, *t),
    {
        let id = match &t.id {
            Some(id) => id.clone(),
            None => {
                return None;
            },
        };
        if t.duration_ms < 0 {
            return None;
        }
        let duration = (t.duration_ms / 1000) as u64;
        let artist = if t.artists.len() > 0 {
            Some(t.artists[0].clone())
        } else {
            None
        };
        let explicit_status: Option<&'static str> = if t.explicit {
            Some("explicit")
        } else {
            None
        };
        Some(
            Song {
                id,
                title: t.name.clone(),
                album: t.album_name.clone(),
                track: t.track_number,
                duration,
                is_dir: false,
                item_type: "music",
                media_type: "song",
                suffix: "ogg",
                content_type: "audio/ogg",
                bit_rate: 320,
                bit_depth: 16,
                sampling_rate: 44100,
                channel_count: 2,
                transcoded_suffix: "opus",
                transcoded_content_type: "audio/ogg; codecs=opus",
                disc_number: t.disc_number,
                artist,
                cover_art: clone_text(&t.album_id),
                created: clone_text(&t.release_date),
                explicit_status,
            },
        )
    }
}

/// A track as the plain listing tells of it: nothing is left out, what the
/// provider does not say is filled in.
#[derive(Clone, Debug)]
pub struct ListedTrack {
    pub id: String,
    pub title: String,
    pub artist: String,
    pub album: String,
    pub cover_art: String,
    pub track: u32,
    /// The length in whole seconds.
    pub duration: u64,
    pub is_dir: bool,
    pub created: String,
    pub content_type: &'static str,
}

/// A text, or what stands in for it where it is missing.
pub open spec fn text_or(s: Option<String>, fallback: Seq<char>) -> Seq<char> {
    match s {
        Some(s) => s@,
        None => fallback,
    }
}

/// What the listing of a track holds.
pub open spec fn listing_matches(entry: ListedTrack, t: TrackInfo) -> bool {
    &&& entry.id@ == text_or(t.id, "unknown"@)
    &&& entry.title@ == t.name@
    &&& entry.artist@ == if t.artists@.len() > 0 {
        t.artists@[0]@
    } else {
        "Unknown"@
    }
    &&& entry.album@ == t.album_name@
    &&& entry.cover_art@ == text_or(t.album_id, "unknown"@)
    &&& entry.track == t.track_number
    &&& entry.duration == t.duration_ms / 1000
    &&& !entry.is_dir
    &&& entry.created@ == text_or(t.release_date, "1970-01-01"@)
    &&& entry.content_type@ == "audio/ogg; codecs=opus"@
}

/// A copy of a text, or of what stands in for it where it is missing.
fn clone_or(s: &Option<String>, fallback: &str) -> (out: String)
    ensures
        out@ == text_or(*s, fallback@),
{
    match s {
        Some(s) => s.clone(),
        None => fallback.to_owned(),
    }
}

/// Lists tracks one for one, in their order. The lengths must not be
/// negative.
pub fn spotify_to_subsonic(tracks: &Vec<TrackInfo>) -> (entries: Vec<ListedTrack>)
    requires
        forall|i: int| 0 <= i < tracks@.len() ==> (#[trigger] tracks@[i]).duration_ms >= 0,
    ensures
        entries@.len() == tracks@.len(),
        forall|i: int|
            0 <= i < tracks@.len() ==> listing_matches(#[trigger] entries@[i], tracks@[i]),
{
    let mut entries: Vec<ListedTrack> = Vec::new();
    let mut i: usize = 0;
    while i < tracks.len()
        invariant
            i <= tracks.len(),
            entries@.len() == i,
            forall|k: int| 0 <= k < tracks@.len() ==> (#[trigger] tracks@[k]).duration_ms >= 0,
            forall|k: int| 0 <= k < i ==> listing_matches(#[trigger] entries@[k], tracks@[k]),
        decreases tracks.len() - i,
    {
        let t = &tracks[i];
        let artist = if t.artists.len() > 0 {
            t.artists[0].clone()
        } else {
            "Unknown".to_owned()
        };
        entries.push(
            ListedTrack {
                id: clone_or(&t.id, "unknown"),
                title: t.name.clone(),
                artist,
                album: t.album_name.clone(),
                cover_art: clone_or(&t.album_id, "unknown"),
                track: t.track_number,
                duration: (t.duration_ms / 1000) as u64,
                is_dir: false,
                created: clone_or(&t.release_date, "1970-01-01"),
                content_type: "audio/ogg; codecs=opus",
            },
        );
        i += 1;
    }
    entries
}

} // verus!
