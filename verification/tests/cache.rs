use spotisub::cache::Cache;
use spotisub::json::Song;
use spotisub::json::TrackInfo;
use spotisub::routes::song_fetched;
use spotisub::routes::song_plan;
use spotisub::routes::Plan;
use spotisub::routes::HTTP_INTERNAL_SERVER_ERROR;
use spotisub::routes::HTTP_NOT_FOUND;

fn track(id: &str, name: &str) -> TrackInfo {
    TrackInfo {
        id: Some(id.to_string()),
        name: name.to_string(),
        album_name: "Album".to_string(),
        album_id: Some("album1".to_string()),
        release_date: Some("2020-02-02".to_string()),
        artists: vec!["Artist".to_string()],
        track_number: 1,
        disc_number: 1,
        duration_ms: 61_500,
        explicit: false,
    }
}

struct CountingProvider {
    calls: usize,
    fails: bool,
}

impl CountingProvider {
    fn resolve(&mut self, id: &str) -> Option<TrackInfo> {
        self.calls += 1;
        if self.fails {
            None
        } else {
            Some(track(id, "Title"))
        }
    }
}

fn request(cache: &mut Cache<Song>, provider: &mut CountingProvider, id: &str) -> Result<Song, u16> {
    match song_plan(true, Some(id), cache) {
        Plan::Hit(song) => return Ok(song.duplicate()),
        Plan::Fetch => {}
        _ => return Err(400),
    }
    let fetched = provider.resolve(id);
    song_fetched(cache, fetched)
}

#[test]
fn an_empty_cache_misses() {
    let cache: Cache<Vec<u8>> = Cache::new();
    assert_eq!(cache.len(), 0);
    assert!(cache.lookup("abc").is_none());
}

#[test]
fn what_is_stored_is_found() {
    let mut cache: Cache<Vec<u8>> = Cache::new();
    cache.store("abc".to_string(), vec![1, 2, 3]);
    assert_eq!(cache.lookup("abc"), Some(&vec![1, 2, 3]));
    assert!(cache.lookup("abd").is_none());
    cache.store("abc".to_string(), vec![4]);
    assert_eq!(cache.lookup("abc"), Some(&vec![4]));
    assert_eq!(cache.len(), 1);
}

#[test]
fn settle_remembers_answers_and_not_failures() {
    let mut cache: Cache<u32> = Cache::new();
    let failed: Result<u32, &str> = Err("provider down");
    assert_eq!(cache.settle("a", failed), Err("provider down"));
    assert!(cache.lookup("a").is_none());
    assert_eq!(cache.len(), 0);
    let answered: Result<u32, &str> = Ok(17);
    assert_eq!(cache.settle("a", answered), Ok(()));
    assert_eq!(cache.lookup("a"), Some(&17));
    assert!(cache.lookup("b").is_none());
}

#[test]
fn the_same_track_twice_asks_the_provider_once() {
    let mut cache: Cache<Song> = Cache::new();
    let mut provider = CountingProvider { calls: 0, fails: false };
    let first = request(&mut cache, &mut provider, "track1").unwrap();
    assert_eq!(provider.calls, 1);
    let second = request(&mut cache, &mut provider, "track1").unwrap();
    assert_eq!(provider.calls, 1);
    assert_eq!(first.id, second.id);
    assert_eq!(first.title, second.title);
    assert_eq!(first.album, second.album);
    assert_eq!(first.duration, second.duration);
    assert_eq!(first.artist, second.artist);
    assert_eq!(first.cover_art, second.cover_art);
    assert_eq!(first.created, second.created);
    let _ = request(&mut cache, &mut provider, "track2").unwrap();
    assert_eq!(provider.calls, 2);
    assert_eq!(cache.len(), 2);
}

#[test]
fn a_failure_is_asked_again() {
    let mut cache: Cache<Song> = Cache::new();
    let mut provider = CountingProvider { calls: 0, fails: true };
    assert_eq!(request(&mut cache, &mut provider, "track1").err(), Some(HTTP_INTERNAL_SERVER_ERROR));
    assert_eq!(provider.calls, 1);
    assert_eq!(cache.len(), 0);
    provider.fails = false;
    assert!(request(&mut cache, &mut provider, "track1").is_ok());
    assert_eq!(provider.calls, 2);
    assert!(request(&mut cache, &mut provider, "track1").is_ok());
    assert_eq!(provider.calls, 2);
}

#[test]
fn a_track_that_cannot_be_listed_is_not_remembered() {
    let mut cache: Cache<Song> = Cache::new();
    let mut unlisted = track("track1", "Title");
    unlisted.id = None;
    assert_eq!(song_fetched(&mut cache, Some(unlisted)).err(), Some(HTTP_NOT_FOUND));
    assert_eq!(cache.len(), 0);
}

#[test]
fn a_search_result_is_remembered_song_by_song() {
    let mut cache: Cache<Song> = Cache::new();
    let songs: Vec<Song> = vec![
        Song::from_spotify(&track("a", "First")).unwrap(),
        Song::from_spotify(&track("b", "Second")).unwrap(),
        Song::from_spotify(&track("a", "Third")).unwrap(),
    ];
    cache.store_all(&songs);
    assert_eq!(cache.len(), 2);
    assert_eq!(cache.lookup("a").unwrap().title, "Third");
    assert_eq!(cache.lookup("b").unwrap().title, "Second");
    assert!(cache.lookup("c").is_none());
}
