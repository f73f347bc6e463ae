//! What each request handler decides.
//!
//! A handler waits for locks, for the metadata provider and for downloads;
//! between the waits it decides what to answer or what to ask for next.
//! The decisions are here, each as a function of what the handler knows at
//! that point.

use crate::cache::Cache;
use crate::consts::DELAY_SEARCH3_SECS;
use crate::headers::push_all;
use crate::json::is_listable;
use crate::json::song_matches;
use crate::json::Song;
use crate::json::TrackInfo;
use crate::text::parse_u32;
use crate::text::parsed_u32;
use vstd::prelude::*;
use vstd::string::is_ascii;
use vstd::string::is_ascii_spec_bytes;
use vstd::utf8::is_ascii_chars;
use vstd::string::StringSliceAdditionalSpecFns;

verus! {

/// The request was served.
pub const HTTP_OK: u16 = 200;

/// The request lacks something or names an id that cannot be one.
pub const HTTP_BAD_REQUEST: u16 = 400;

/// The client did not sign in.
pub const HTTP_UNAUTHORIZED: u16 = 401;

/// The provider knows nothing usable under the id.
pub const HTTP_NOT_FOUND: u16 = 404;

/// The status by which the provider says it limits its rate.
pub const HTTP_TOO_MANY_REQUESTS: u16 = 429;

/// The provider or a download failed.
pub const HTTP_INTERNAL_SERVER_ERROR: u16 = 500;

/// Songs a search returns when the client does not say how many.
pub const DEFAULT_SONG_COUNT: u32 = 4;

/// The most songs a search returns, to go easy on the provider.
pub const MAX_SONG_COUNT: u32 = 7;

/// An ASCII letter or digit.
pub open spec fn is_alphanumeric(c: char) -> bool {
    ||| 0x30 <= c as u32 <= 0x39
    ||| 0x41 <= c as u32 <= 0x5a
    ||| 0x61 <= c as u32 <= 0x7a
}

/// An id as the provider gives them: ASCII letters and digits only.
pub open spec fn is_valid_id(id: Seq<char>) -> bool {
    forall|i: int| 0 <= i < id.len() ==> is_alphanumeric(#[trigger] id[i])
}

/// Letters and digits are ASCII.
proof fn lemma_alphanumeric_is_ascii(c: char)
    requires
        is_alphanumeric(c),
    ensures
        '\0' <= c <= '\u{7f}',
{
    assert(c as u32 <= 0x7f);
}

/// Whether `id` can be one of the provider's ids, for a track or an album
/// alike: each of its characters is an ASCII letter or digit. The empty id
/// passes.
pub fn id_is_valid(id: &str) -> (ok: bool)
    ensures
        ok == is_valid_id(id@),
{
    if !id.is_ascii() {
        proof {
            // Letters and digits are ASCII, so an id of them would be.
            if is_valid_id(id@) {
                assert forall|i: int| 0 <= i < id@.len() implies '\0' <= #[trigger] id@[i]
                    <= '\u{7f}' by {
                    lemma_alphanumeric_is_ascii(id@[i]);
                }
                assert(is_ascii_chars(id@));
            }
        }
        return false;
    }
    let bytes = id.as_bytes();
    proof {
        is_ascii_spec_bytes(id);
    }
    let mut i: usize = 0;
    while i < bytes.len()
        invariant
            i <= bytes.len(),
            is_ascii(id),
            bytes@ == Seq::new(id@.len(), |k: int| id@[k] as u8),
            forall|k: int| 0 <= k < i ==> is_alphanumeric(#[trigger] id@[k]),
        decreases bytes.len() - i,
    {
        let b = bytes[i];
        proof {
            let c = id@[i as int];
            assert('\0' <= c <= '\u{7f}');
            assert(b == c as u8);
            assert(b as u32 == c as u32);
        }
        let alphanumeric = (0x30 <= b && b <= 0x39) || (0x41 <= b && b <= 0x5a) || (0x61 <= b
            && b <= 0x7a);
        if !alphanumeric {
            assert(!is_alphanumeric(id@[i as int]));
            return false;
        }
        i += 1;
    }
    true
}

/// What to do about a request for a song or a cover.
pub enum Plan<'a, V> {
    /// Answer 401: the client did not sign in.
    Unauthorized,
    /// The request names no id.
    MissingId,
    /// Answer with what the cache holds; the provider is not asked.
    Hit(&'a V),
    /// Answer 400: the id cannot be one of the provider's.
    InvalidId,
    /// Ask the provider, then settle.
    Fetch,
}

/// The plan for a request, with the cache as it stands: sign-in first,
/// then the id, then the cache, and only on a miss the provider, if the id
/// can be one of its ids.
pub open spec fn plan_for<V>(
    authorized: bool,
    id: Option<&str>,
    cached: Map<Seq<char>, V>,
    plan: Plan<V>,
) -> bool {
    if !authorized {
        plan is Unauthorized
    } else {
        match id {
            None => plan is MissingId,
            Some(id) => if cached.contains_key(id@) {
                plan matches Plan::Hit(value) && *value == cached[id@]
            } else if is_valid_id(id@) {
                plan is Fetch
            } else {
                plan is InvalidId
            },
        }
    }
}

/// Plans the answer to a request for a song's metadata.
pub fn song_plan<'a>(authorized: bool, id: Option<&str>, cache: &'a Cache<Song>) -> (plan: Plan<
    'a,
    Song,
>)
    ensures
        plan_for(authorized, id, cache@, plan),
{
    if !authorized {
        return Plan::Unauthorized;
    }
    let id = match id {
        Some(id) => id,
        None => {
            return Plan::MissingId;
        },
    };
    match cache.lookup(id) {
        Some(song) => Plan::Hit(song),
        None => if id_is_valid(id) {
            Plan::Fetch
        } else {
            Plan::InvalidId
        },
    }
}

/// Plans the answer to a request for a cover.
pub fn cover_plan<'a>(authorized: bool, id: Option<&str>, cache: &'a Cache<Vec<u8>>) -> (plan:
    Plan<'a, Vec<u8>>)
    ensures
        plan_for(authorized, id, cache@, plan),
{
    if !authorized {
        return Plan::Unauthorized;
    }
    let id = match id {
        Some(id) => id,
        None => {
            return Plan::MissingId;
        },
    };
    match cache.lookup(id) {
        Some(bytes) => Plan::Hit(bytes),
        None => if id_is_valid(id) {
            Plan::Fetch
        } else {
            Plan::InvalidId
        },
    }
}

/// The status a request for a song's metadata is turned down with: 401
/// without sign-in, 400 without an id or with one that cannot be one of
/// the provider's. None for a request that is not turned down.
pub open spec fn song_refusal_of<V>(plan: Plan<V>) -> Option<u16> {
    match plan {
        Plan::Unauthorized => Some(HTTP_UNAUTHORIZED),
        Plan::MissingId => Some(HTTP_BAD_REQUEST),
        Plan::InvalidId => Some(HTTP_BAD_REQUEST),
        _ => None,
    }
}

/// The status a request for a cover is turned down with: 401 without
/// sign-in, 500 with the failure body without an id, 400 with an id that
/// cannot be one of the provider's. None for a request that is not
/// turned down.
pub open spec fn cover_refusal_of<V>(plan: Plan<V>) -> Option<u16> {
    match plan {
        Plan::Unauthorized => Some(HTTP_UNAUTHORIZED),
        Plan::MissingId => Some(HTTP_INTERNAL_SERVER_ERROR),
        Plan::InvalidId => Some(HTTP_BAD_REQUEST),
        _ => None,
    }
}

/// The status a request for a song's metadata is turned down with.
pub fn song_refusal(plan: &Plan<Song>) -> (status: Option<u16>)
    ensures
        status == song_refusal_of(*plan),
{
    match plan {
        Plan::Unauthorized => Some(HTTP_UNAUTHORIZED),
        Plan::MissingId => Some(HTTP_BAD_REQUEST),
        Plan::InvalidId => Some(HTTP_BAD_REQUEST),
        _ => None,
    }
}

/// The status a request for a cover is turned down with.
pub fn cover_refusal(plan: &Plan<Vec<u8>>) -> (status: Option<u16>)
    ensures
        status == cover_refusal_of(*plan),
{
    match plan {
        Plan::Unauthorized => Some(HTTP_UNAUTHORIZED),
        Plan::MissingId => Some(HTTP_INTERNAL_SERVER_ERROR),
        Plan::InvalidId => Some(HTTP_BAD_REQUEST),
        _ => None,
    }
}

/// Settles a request for a song with what the provider said, `None`
/// standing for its failure. A track that can be listed is remembered
/// under its id and answered; the others are answered with 404, a failure
/// with 500, and nothing is remembered.
pub fn song_fetched(cache: &mut Cache<Song>, fetched: Option<TrackInfo>) -> (r: Result<Song, u16>)
    ensures
        match fetched {
            None => {
                &&& r == Err::<Song, u16>(HTTP_INTERNAL_SERVER_ERROR)
                &&& final(cache)@ == old(cache)@
            },
            Some(track) => if is_listable(track) {
                &&& r matches Ok(song)
                &&& song_matches(song, track)
                &&& final(cache)@ == old(cache)@.insert(song.id@, song)
            } else {
                &&& r == Err::<Song, u16>(HTTP_NOT_FOUND)
                &&& final(cache)@ == old(cache)@
            },
        },
{
    let track = match fetched {
        Some(track) => track,
        None => {
            return Err(HTTP_INTERNAL_SERVER_ERROR);
        },
    };
    match Song::from_spotify(&track) {
        Some(song) => {
            cache.store(song.id.clone(), song.duplicate());
            Ok(song)
        },
        None => Err(HTTP_NOT_FOUND),
    }
}

/// How fetching a cover went.
pub enum CoverFetch {
    /// The provider did not return the album.
    AlbumFailed,
    /// The album has no image.
    NoImage,
    /// The image could not be downloaded.
    DownloadFailed,
    /// The image.
    Image(Vec<u8>),
}

/// The URL of the image to download for an album: the first the provider
/// lists, which is the largest.
pub fn cover_url(images: &Vec<String>) -> (url: Option<&String>)
    ensures
        images@.len() == 0 ==> url is None,
        images@.len() > 0 ==> url == Some(&images@[0]),
{
    if images.len() > 0 {
        Some(&images[0])
    } else {
        None
    }
}

/// Settles a request for a cover with how fetching it went. An image is
/// remembered under the id and answered; no image is answered with 404, a
/// failure with 500, and nothing is remembered.
pub fn cover_fetched(cache: &mut Cache<Vec<u8>>, id: &str, outcome: CoverFetch) -> (r: Result<
    Vec<u8>,
    u16,
>)
    ensures
        match outcome {
            CoverFetch::Image(bytes) => {
                &&& r matches Ok(out)
                &&& out@ == bytes@
                &&& final(cache)@ == old(cache)@.insert(id@, bytes)
            },
            CoverFetch::NoImage => {
                &&& r == Err::<Vec<u8>, u16>(HTTP_NOT_FOUND)
                &&& final(cache)@ == old(cache)@
            },
            _ => {
                &&& r == Err::<Vec<u8>, u16>(HTTP_INTERNAL_SERVER_ERROR)
                &&& final(cache)@ == old(cache)@
            },
        },
{
    match outcome {
        CoverFetch::Image(bytes) => {
            let mut out: Vec<u8> = Vec::new();
            push_all(&mut out, bytes.as_slice());
            cache.store(id.to_owned(), bytes);
            Ok(out)
        },
        CoverFetch::NoImage => Err(HTTP_NOT_FOUND),
        CoverFetch::AlbumFailed => Err(HTTP_INTERNAL_SERVER_ERROR),
        CoverFetch::DownloadFailed => Err(HTTP_INTERNAL_SERVER_ERROR),
    }
}

/// How many songs to ask the provider for: what the client says, four if
/// it says nothing readable, and never more than seven.
pub open spec fn song_count_for(song_count: Option<&str>) -> u32 {
    let asked = match song_count {
        Some(text) => match parsed_u32(text.spec_bytes()) {
            Some(n) => n,
            None => DEFAULT_SONG_COUNT,
        },
        None => DEFAULT_SONG_COUNT,
    };
    if asked < MAX_SONG_COUNT {
        asked
    } else {
        MAX_SONG_COUNT
    }
}

/// How many songs to ask the provider for.
pub fn search_count(song_count: Option<&str>) -> (count: u32)
    ensures
        count == song_count_for(song_count),
{
    let asked = match song_count {
        Some(text) => match parse_u32(text.as_bytes()) {
            Some(n) => n,
            None => DEFAULT_SONG_COUNT,
        },
        None => DEFAULT_SONG_COUNT,
    };
    if asked < MAX_SONG_COUNT {
        asked
    } else {
        MAX_SONG_COUNT
    }
}

/// The tracks of a search result that can be listed, in their order.
pub open spec fn listable(tracks: Seq<TrackInfo>) -> Seq<TrackInfo>
    decreases tracks.len(),
{
    if tracks.len() == 0 {
        Seq::empty()
    } else if is_listable(tracks.last()) {
        listable(tracks.drop_last()).push(tracks.last())
    } else {
        listable(tracks.drop_last())
    }
}

/// The songs of a search result: one for each track that can be listed,
/// in the provider's order.
pub fn songs_of(tracks: &Vec<TrackInfo>) -> (songs: Vec<Song>)
    ensures
        songs@.len() == listable(tracks@).len(),
        forall|i: int|
            0 <= i < songs@.len() ==> song_matches(#[trigger] songs@[i], listable(tracks@)[i]),
{
    let mut songs: Vec<Song> = Vec::new();
    let mut i: usize = 0;
    while i < tracks.len()
        invariant
            i <= tracks.len(),
            songs@.len() == listable(tracks@.take(i as int)).len(),
            forall|k: int|
                0 <= k < songs@.len() ==> song_matches(
                    #[trigger] songs@[k],
                    listable(tracks@.take(i as int))[k],
                ),
        decreases tracks.len() - i,
    {
        proof {
            assert(tracks@.take(i + 1).drop_last() =~= tracks@.take(i as int));
            assert(tracks@.take(i + 1).last() == tracks@[i as int]);
        }
        match Song::from_spotify(&tracks[i]) {
            Some(song) => {
                songs.push(song);
            },
            None => {},
        }
        i += 1;
    }
    assert(tracks@.take(tracks.len() as int) =~= tracks@);
    songs
}

/// What to do about a search.
#[derive(Clone, Copy, Debug, PartialEq, Eq, Structural)]
pub enum SearchPlan {
    /// Answer 401: the client did not sign in.
    Unauthorized,
    /// Answer with an empty list: there is nothing to search for.
    Empty,
    /// Ask the provider for this many songs.
    Search(u32),
}

/// Plans the answer to a search.
pub fn search_plan(authorized: bool, has_query: bool, song_count: Option<&str>) -> (plan:
    SearchPlan)
    ensures
        plan == if !authorized {
            SearchPlan::Unauthorized
        } else if !has_query {
            SearchPlan::Empty
        } else {
            SearchPlan::Search(song_count_for(song_count))
        },
{
    if !authorized {
        SearchPlan::Unauthorized
    } else if !has_query {
        SearchPlan::Empty
    } else {
        SearchPlan::Search(search_count(song_count))
    }
}

/// The offset a client asks to start at, in seconds: `transcodeOffset`
/// where it is given, else `timeOffset`; zero where the one that counts
/// is missing or unreadable.
pub open spec fn offset_secs(transcode_offset: Option<&str>, time_offset: Option<&str>) -> u32 {
    let chosen = match transcode_offset {
        Some(text) => Some(text),
        None => time_offset,
    };
    match chosen {
        Some(text) => match parsed_u32(text.spec_bytes()) {
            Some(secs) => secs,
            None => 0,
        },
        None => 0,
    }
}

/// The offset to start a stream at, in milliseconds; none where the
/// seconds asked for are more than a `u32` of milliseconds can hold.
pub fn time_offset_ms(transcode_offset: Option<&str>, time_offset: Option<&str>) -> (ms: Option<
    u32,
>)
    ensures
        ms == if offset_secs(transcode_offset, time_offset) * 1000 <= u32::MAX {
            Some((offset_secs(transcode_offset, time_offset) * 1000) as u32)
        } else {
            None
        },
{
    let chosen = match transcode_offset {
        Some(text) => Some(text),
        None => time_offset,
    };
    let secs: u32 = match chosen {
        Some(text) => match parse_u32(text.as_bytes()) {
            Some(secs) => secs,
            None => 0,
        },
        None => 0,
    };
    secs.checked_mul(1000)
}

/// What is known of the track id of a request for a stream, once the
/// provider's own test has been made on it.
#[derive(Clone, Copy, Debug, PartialEq, Eq, Structural)]
pub enum IdTest {
    /// The request names no track.
    Missing,
    /// The id is not one the provider could have given.
    Invalid,
    /// The id can be one of the provider's.
    Valid,
}

/// What to do about a request for a stream.
#[derive(Clone, Copy, Debug, PartialEq, Eq, Structural)]
pub enum StreamPlan {
    /// Answer 401: the client did not sign in.
    Unauthorized,
    /// Answer 400: the request names no track.
    MissingId,
    /// Answer 404: the id names no track. No session is made, the
    /// provider is not asked and nothing of the pipeline is set up.
    InvalidId,
    /// Install a session and start the provider at this offset, in
    /// milliseconds.
    Start(u32),
    /// The offset asked for cannot be held.
    OffsetTooLarge,
}

/// The plan for a request for a stream: sign-in first, then the id,
/// missing or invalid, and only for a valid id the offset.
pub open spec fn stream_plan_for(
    authorized: bool,
    id: IdTest,
    transcode_offset: Option<&str>,
    time_offset: Option<&str>,
) -> StreamPlan {
    if !authorized {
        StreamPlan::Unauthorized
    } else if id == IdTest::Missing {
        StreamPlan::MissingId
    } else if id == IdTest::Invalid {
        StreamPlan::InvalidId
    } else if offset_secs(transcode_offset, time_offset) * 1000 <= u32::MAX {
        StreamPlan::Start((offset_secs(transcode_offset, time_offset) * 1000) as u32)
    } else {
        StreamPlan::OffsetTooLarge
    }
}

/// Plans the answer to a request for a stream.
pub fn stream_plan(
    authorized: bool,
    id: IdTest,
    transcode_offset: Option<&str>,
    time_offset: Option<&str>,
) -> (plan: StreamPlan)
    ensures
        plan == stream_plan_for(authorized, id, transcode_offset, time_offset),
{
    if !authorized {
        return StreamPlan::Unauthorized;
    }
    match id {
        IdTest::Missing => {
            return StreamPlan::MissingId;
        },
        IdTest::Invalid => {
            return StreamPlan::InvalidId;
        },
        IdTest::Valid => {},
    }
    match time_offset_ms(transcode_offset, time_offset) {
        Some(ms) => StreamPlan::Start(ms),
        None => StreamPlan::OffsetTooLarge,
    }
}

/// The status a request for a stream is turned down with; none for a
/// request that is not turned down.
pub fn stream_refusal(plan: StreamPlan) -> (status: Option<u16>)
    ensures
        status == match plan {
            StreamPlan::Unauthorized => Some(HTTP_UNAUTHORIZED),
            StreamPlan::MissingId => Some(HTTP_BAD_REQUEST),
            StreamPlan::InvalidId => Some(HTTP_NOT_FOUND),
            _ => None::<u16>,
        },
{
    match plan {
        StreamPlan::Unauthorized => Some(HTTP_UNAUTHORIZED),
        StreamPlan::MissingId => Some(HTTP_BAD_REQUEST),
        StreamPlan::InvalidId => Some(HTTP_NOT_FOUND),
        _ => None,
    }
}

/// What to do when the provider has failed a search.
#[derive(Clone, Copy, Debug, PartialEq, Eq, Structural)]
pub enum SearchRetry {
    /// The provider limits its rate: wait this many seconds and ask again.
    RetryAfter(u64),
    /// Any other failure is not tried again: answer with this status.
    Answer(u16),
}

/// Decides what to do about a failed search from the HTTP status the
/// provider failed with, if it gave one. Only a provider that limits its
/// rate is asked again, after a fixed delay; every other failure is
/// answered as not found.
pub fn search_failed(provider_status: Option<u16>) -> (retry: SearchRetry)
    ensures
        retry == if provider_status == Some(HTTP_TOO_MANY_REQUESTS) {
            SearchRetry::RetryAfter(DELAY_SEARCH3_SECS)
        } else {
            SearchRetry::Answer(HTTP_NOT_FOUND)
        },
{
    match provider_status {
        Some(status) => if status == HTTP_TOO_MANY_REQUESTS {
            SearchRetry::RetryAfter(DELAY_SEARCH3_SECS)
        } else {
            SearchRetry::Answer(HTTP_NOT_FOUND)
        },
        None => SearchRetry::Answer(HTTP_NOT_FOUND),
    }
}

} // verus!
