use spotisub::cache::Cache;
use spotisub::json::Song;
use spotisub::json::TrackInfo;
use spotisub::routes::cover_fetched;
use spotisub::routes::cover_plan;
use rspotify::model::AlbumId;
use rspotify::model::TrackId;
use spotisub::routes::cover_refusal;
use spotisub::routes::cover_url;
use spotisub::routes::song_refusal;
use spotisub::routes::id_is_valid;
use spotisub::routes::search_failed;
use spotisub::routes::stream_refusal;
use spotisub::routes::IdTest;
use spotisub::routes::SearchRetry;
use spotisub::routes::search_count;
use spotisub::routes::search_plan;
use spotisub::routes::song_fetched;
use spotisub::routes::song_plan;
use spotisub::routes::songs_of;
use spotisub::routes::stream_plan;
use spotisub::routes::time_offset_ms;
use spotisub::routes::CoverFetch;
use spotisub::routes::Plan;
use spotisub::routes::SearchPlan;
use spotisub::routes::StreamPlan;

fn some_track(id: Option<&str>, name: &str, duration_ms: i64) -> TrackInfo {
    TrackInfo {
        id: id.map(|s| s.to_string()),
        name: name.to_string(),
        album_name: "Album".to_string(),
        album_id: None,
        release_date: None,
        artists: Vec::new(),
        track_number: 1,
        disc_number: 1,
        duration_ms,
        explicit: false,
    }
}

#[test]
fn sign_in_is_checked_before_anything_else() {
    let cache: Cache<Song> = Cache::new();
    assert!(matches!(song_plan(false, Some("abc"), &cache), Plan::Unauthorized));
    assert!(matches!(song_plan(false, None, &cache), Plan::Unauthorized));
    let covers: Cache<Vec<u8>> = Cache::new();
    assert!(matches!(cover_plan(false, Some("abc"), &covers), Plan::Unauthorized));
}

#[test]
fn a_request_without_id_is_told_so() {
    let cache: Cache<Song> = Cache::new();
    assert!(matches!(song_plan(true, None, &cache), Plan::MissingId));
    let covers: Cache<Vec<u8>> = Cache::new();
    assert!(matches!(cover_plan(true, None, &covers), Plan::MissingId));
}

#[test]
fn ids_are_letters_and_digits() {
    let cache: Cache<Song> = Cache::new();
    assert!(matches!(song_plan(true, Some("4uLU6hMCjMI75M1A2tKUQC"), &cache), Plan::Fetch));
    assert!(matches!(song_plan(true, Some(""), &cache), Plan::Fetch));
    assert!(matches!(song_plan(true, Some("abc-def"), &cache), Plan::InvalidId));
    assert!(matches!(song_plan(true, Some("abc def"), &cache), Plan::InvalidId));
    assert!(matches!(song_plan(true, Some("abcé"), &cache), Plan::InvalidId));
    let covers: Cache<Vec<u8>> = Cache::new();
    assert!(matches!(cover_plan(true, Some("2noRn2Aes5aoNVsU6iWThc"), &covers), Plan::Fetch));
    assert!(matches!(cover_plan(true, Some("../etc"), &covers), Plan::InvalidId));
}

#[test]
fn a_cached_id_is_answered_from_the_cache() {
    let mut cache: Cache<Song> = Cache::new();
    let song = song_fetched(&mut cache, Some(some_track(Some("abc"), "Title", 1000))).unwrap();
    assert_eq!(song.id, "abc");
    match song_plan(true, Some("abc"), &cache) {
        Plan::Hit(hit) => assert_eq!(hit.title, "Title"),
        _ => panic!("expected a hit"),
    }
    let mut covers: Cache<Vec<u8>> = Cache::new();
    covers.store("not an id".to_string(), vec![1]);
    match cover_plan(true, Some("not an id"), &covers) {
        Plan::Hit(bytes) => assert_eq!(bytes, &vec![1]),
        _ => panic!("expected a hit"),
    }
}

#[test]
fn a_fetched_cover_is_remembered_and_answered() {
    let mut covers: Cache<Vec<u8>> = Cache::new();
    assert_eq!(cover_fetched(&mut covers, "alb", CoverFetch::AlbumFailed), Err(500));
    assert_eq!(cover_fetched(&mut covers, "alb", CoverFetch::DownloadFailed), Err(500));
    assert_eq!(cover_fetched(&mut covers, "alb", CoverFetch::NoImage), Err(404));
    assert_eq!(covers.len(), 0);
    assert_eq!(cover_fetched(&mut covers, "alb", CoverFetch::Image(vec![0xff, 0xd8])), Ok(vec![0xff, 0xd8]));
    assert_eq!(covers.lookup("alb"), Some(&vec![0xff, 0xd8]));
}

#[test]
fn the_first_image_is_the_cover() {
    let images = vec!["https://i/large".to_string(), "https://i/small".to_string()];
    assert_eq!(cover_url(&images), Some(&"https://i/large".to_string()));
    assert_eq!(cover_url(&Vec::new()), None);
}

#[test]
fn a_search_asks_for_four_songs_unless_told_and_never_more_than_seven() {
    assert_eq!(search_count(None), 4);
    assert_eq!(search_count(Some("2")), 2);
    assert_eq!(search_count(Some("0")), 0);
    assert_eq!(search_count(Some("7")), 7);
    assert_eq!(search_count(Some("8")), 7);
    assert_eq!(search_count(Some("4294967295")), 7);
    assert_eq!(search_count(Some("4294967296")), 4);
    assert_eq!(search_count(Some("many")), 4);
    assert_eq!(search_count(Some("-3")), 4);
    assert_eq!(search_count(Some("")), 4);
}

#[test]
fn a_search_is_planned() {
    assert_eq!(search_plan(false, true, Some("3")), SearchPlan::Unauthorized);
    assert_eq!(search_plan(true, false, Some("3")), SearchPlan::Empty);
    assert_eq!(search_plan(true, true, Some("3")), SearchPlan::Search(3));
    assert_eq!(search_plan(true, true, None), SearchPlan::Search(4));
    assert_eq!(search_plan(true, true, Some("20")), SearchPlan::Search(7));
}

#[test]
fn tracks_that_cannot_be_listed_are_left_out_of_a_search_result() {
    let tracks = vec![
        some_track(Some("a"), "First", 1000),
        some_track(None, "Local file", 1000),
        some_track(Some("b"), "Second", 2500),
        some_track(Some("c"), "Broken", -5),
        some_track(Some("d"), "Third", 0),
    ];
    let songs = songs_of(&tracks);
    let titles: Vec<&str> = songs.iter().map(|s| s.title.as_str()).collect();
    assert_eq!(titles, vec!["First", "Second", "Third"]);
    assert_eq!(songs[1].duration, 2);
    assert!(songs_of(&Vec::new()).is_empty());
}

#[test]
fn the_offset_is_read_in_seconds_and_given_in_milliseconds() {
    assert_eq!(time_offset_ms(None, None), Some(0));
    assert_eq!(time_offset_ms(None, Some("12")), Some(12_000));
    assert_eq!(time_offset_ms(Some("3"), None), Some(3_000));
    assert_eq!(time_offset_ms(Some("3"), Some("12")), Some(3_000));
    assert_eq!(time_offset_ms(Some("4294967"), None), Some(4_294_967_000));
}

#[test]
fn an_unreadable_transcode_offset_does_not_fall_back() {
    assert_eq!(time_offset_ms(Some("soon"), Some("12")), Some(0));
    assert_eq!(time_offset_ms(Some(""), Some("12")), Some(0));
    assert_eq!(time_offset_ms(Some("-1"), Some("12")), Some(0));
    assert_eq!(time_offset_ms(None, Some("1.5")), Some(0));
}

#[test]
fn an_offset_beyond_what_fits_is_none() {
    assert_eq!(time_offset_ms(Some("4294968"), None), None);
    assert_eq!(time_offset_ms(None, Some("4294967295")), None);
    assert_eq!(time_offset_ms(None, Some("4294967296")), Some(0));
}

#[test]
fn a_stream_is_planned() {
    assert_eq!(stream_plan(false, IdTest::Valid, None, None), StreamPlan::Unauthorized);
    assert_eq!(stream_plan(false, IdTest::Missing, None, None), StreamPlan::Unauthorized);
    assert_eq!(stream_plan(true, IdTest::Missing, None, Some("5")), StreamPlan::MissingId);
    assert_eq!(stream_plan(true, IdTest::Invalid, None, Some("5")), StreamPlan::InvalidId);
    assert_eq!(stream_plan(true, IdTest::Valid, None, None), StreamPlan::Start(0));
    assert_eq!(stream_plan(true, IdTest::Valid, Some("2"), Some("5")), StreamPlan::Start(2000));
    assert_eq!(stream_plan(true, IdTest::Valid, Some("4294968"), None), StreamPlan::OffsetTooLarge);
}

#[test]
fn an_invalid_id_is_not_found_whatever_the_offset() {
    assert_eq!(stream_plan(true, IdTest::Invalid, Some("4294968"), None), StreamPlan::InvalidId);
    assert_eq!(stream_plan(true, IdTest::Invalid, None, Some("4294967295")), StreamPlan::InvalidId);
    assert_eq!(stream_plan(true, IdTest::Missing, Some("4294968"), None), StreamPlan::MissingId);
    assert_eq!(stream_plan(false, IdTest::Invalid, Some("4294968"), None), StreamPlan::Unauthorized);
}

#[test]
fn a_stream_is_turned_down_with_401_400_or_404() {
    assert_eq!(stream_refusal(StreamPlan::Unauthorized), Some(401));
    assert_eq!(stream_refusal(StreamPlan::MissingId), Some(400));
    assert_eq!(stream_refusal(StreamPlan::InvalidId), Some(404));
    assert_eq!(stream_refusal(StreamPlan::Start(0)), None);
    assert_eq!(stream_refusal(StreamPlan::Start(5000)), None);
    assert_eq!(stream_refusal(StreamPlan::OffsetTooLarge), None);
}

#[test]
fn only_a_rate_limited_search_is_tried_again() {
    assert_eq!(search_failed(Some(429)), SearchRetry::RetryAfter(1));
    assert_eq!(search_failed(Some(500)), SearchRetry::Answer(404));
    assert_eq!(search_failed(Some(401)), SearchRetry::Answer(404));
    assert_eq!(search_failed(Some(404)), SearchRetry::Answer(404));
    assert_eq!(search_failed(Some(428)), SearchRetry::Answer(404));
    assert_eq!(search_failed(Some(430)), SearchRetry::Answer(404));
    assert_eq!(search_failed(None), SearchRetry::Answer(404));
}

#[test]
fn the_id_test_agrees_with_the_provider_library() {
    let cases = [
        "", "a", "Z", "0", "9", "4uLU6hMCjMI75M1A2tKUQC", "abc-def", "abc def", "abc_def", "abc/def",
        "abcé", "é", "日本", "abc\n", "/", ":", "@", "[", "`", "{", "\u{7f}", " ", "az09AZ", "a.b",
        "spotify:track:4uLU6hMCjMI75M1A2tKUQC",
    ];
    for case in cases {
        assert_eq!(id_is_valid(case), TrackId::from_id(case).is_ok(), "{case:?}");
        assert_eq!(id_is_valid(case), AlbumId::from_id(case).is_ok(), "{case:?}");
    }
    assert!(id_is_valid(""));
    assert!(!id_is_valid("a b"));
}

#[test]
fn requests_for_songs_and_covers_are_turned_down_with_their_statuses() {
    let songs: Cache<Song> = Cache::new();
    assert_eq!(song_refusal(&song_plan(false, Some("abc"), &songs)), Some(401));
    assert_eq!(song_refusal(&song_plan(true, None, &songs)), Some(400));
    assert_eq!(song_refusal(&song_plan(true, Some("a-b"), &songs)), Some(400));
    assert_eq!(song_refusal(&song_plan(true, Some("abc"), &songs)), None);
    let mut covers: Cache<Vec<u8>> = Cache::new();
    assert_eq!(cover_refusal(&cover_plan(false, Some("abc"), &covers)), Some(401));
    assert_eq!(cover_refusal(&cover_plan(true, None, &covers)), Some(500));
    assert_eq!(cover_refusal(&cover_plan(true, Some("a-b"), &covers)), Some(400));
    assert_eq!(cover_refusal(&cover_plan(true, Some("abc"), &covers)), None);
    covers.store("abc".to_string(), vec![1]);
    assert_eq!(cover_refusal(&cover_plan(true, Some("abc"), &covers)), None);
}
