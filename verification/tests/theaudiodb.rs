use std::collections::HashMap;
use std::time::{Duration, Instant};

use coverart::artist::{Artist, Identifier};
use coverart::json::{parse_json, JsonNumber, JsonValue};
use coverart::protocol::{Reply, Request, Service, Step};
use coverart::theaudiodb::{
    default_theaudiodb_api_key, get_album_coverart, get_api_key, get_artist_coverart,
    initialize_from_config, is_enabled, lookup_theaudiodb_album_by_name,
    lookup_theaudiodb_albums_by_artist, lookup_theaudiodb_by_artist_name,
    lookup_theaudiodb_by_mbid, pick_album_urls, pick_artist_urls, pick_fallback_urls, titles_fit,
    AlbumCoverart, ArtistCoverart, ArtistUpdate, Lookup, Target, TheAudioDBConfig,
    TheAudioDbCoverartProvider, TheAudioDbUpdater,
};
use coverart::coverart::CoverartMethod;

const BASE: &str = "https://www.theaudiodb.com/api/v1/json/";

/// An attribute cache and web services in memory.
#[derive(Default)]
struct Host {
    values: HashMap<String, JsonValue>,
    flags: HashMap<String, bool>,
    lifetimes: HashMap<String, Option<i64>>,
    pages: HashMap<String, String>,
    fetched: Vec<String>,
    rate_limit: Option<Duration>,
    last: Option<Instant>,
}

impl Host {
    fn with_page(mut self, path: &str, page: &str) -> Host {
        self.pages.insert(format!("{}{}", BASE, path), page.to_string());
        self
    }

    fn answer(&mut self, request: Request) -> Reply {
        if request.throttle() == Some(Service::TheAudioDb) {
            if let (Some(limit), Some(last)) = (self.rate_limit, self.last) {
                while last.elapsed() < limit {
                    std::hint::spin_loop();
                }
            }
            self.last = Some(Instant::now());
        }
        match request {
            Request::ReadValue(key) => Reply::Value(self.values.get(&key).map(|v| v.duplicate())),
            Request::ReadFlag(key) => Reply::Flag(self.flags.get(&key).copied()),
            Request::StoreValue(key, value) => {
                self.values.insert(key, value);
                Reply::Stored(true)
            }
            Request::StoreFlag(key, lifetime) => {
                self.lifetimes.insert(key.clone(), lifetime);
                self.flags.insert(key, true);
                Reply::Stored(true)
            }
            Request::Fetch(Service::TheAudioDb, url) => {
                self.fetched.push(url.clone());
                match self.pages.get(&url) {
                    Some(page) => Reply::Page(Ok(page.clone())),
                    None => Reply::Page(Err("status code 404".to_string())),
                }
            }
            Request::CleanGenres(genres) => {
                Reply::Names(genres.iter().map(|g| g.to_lowercase()).collect())
            }
            other => panic!("unexpected request {:?}", other),
        }
    }

    fn look_up(
        &mut self,
        config: &TheAudioDBConfig,
        step: Step<Lookup, Result<JsonValue, String>>,
    ) -> Result<JsonValue, String> {
        let mut step = step;
        loop {
            match step {
                Step::Done(result) => return result,
                Step::Ask(lookup, request) => {
                    let reply = self.answer(request);
                    step = lookup.resume(config, reply);
                }
            }
        }
    }

    fn artist_art(
        &mut self,
        config: &TheAudioDBConfig,
        step: Step<ArtistCoverart, Vec<String>>,
    ) -> Vec<String> {
        let mut step = step;
        loop {
            match step {
                Step::Done(urls) => return urls,
                Step::Ask(search, request) => {
                    let reply = self.answer(request);
                    step = search.resume(config, reply);
                }
            }
        }
    }

    fn album_art(
        &mut self,
        config: &TheAudioDBConfig,
        step: Step<AlbumCoverart, Vec<String>>,
    ) -> Vec<String> {
        let mut step = step;
        loop {
            match step {
                Step::Done(urls) => return urls,
                Step::Ask(search, request) => {
                    let reply = self.answer(request);
                    step = search.resume(config, reply);
                }
            }
        }
    }

    fn update(&mut self, config: &TheAudioDBConfig, step: Step<ArtistUpdate, Artist>) -> Artist {
        let mut step = step;
        loop {
            match step {
                Step::Done(artist) => return artist,
                Step::Ask(update, request) => {
                    let reply = self.answer(request);
                    step = update.resume(config, reply);
                }
            }
        }
    }
}

fn test_config() -> TheAudioDBConfig {
    TheAudioDBConfig::new("test_api_key".to_string())
}

/// Settings as they are after reading a whole configuration.
fn configured(text: &str) -> (TheAudioDBConfig, u64) {
    let document = parse_json(text).unwrap();
    let mut config = test_config();
    let rate = initialize_from_config(&mut config, document.get("theaudiodb"));
    (config, rate)
}

fn setup_test_config() -> TheAudioDBConfig {
    let (config, rate) = configured(
        "{\"theaudiodb\": {\"enable\": true, \"api_key\": \"test_api_key\", \"rate_limit_ms\": 100}}",
    );
    assert_eq!(rate, 100);
    config
}

fn has_real_api_key(config: &TheAudioDBConfig) -> bool {
    let api_key = default_theaudiodb_api_key(config);
    !api_key.is_empty() && api_key != "test_api_key" && api_key != "YOUR_API_KEY_HERE"
}

fn same(a: &JsonValue, b: &JsonValue) -> bool {
    format!("{:?}", a) == format!("{:?}", b)
}

fn test_artist() -> Artist {
    Artist {
        id: Identifier::String("test_artist".to_string()),
        name: "Test Artist".to_string(),
        is_multi: false,
        metadata: None,
    }
}

#[test]
fn test_is_enabled_default() {
    // Test that it's disabled by default
    let config = test_config();
    assert!(!is_enabled(&config));
}

#[test]
fn test_initialize_from_config_enabled() {
    let (config, rate) = configured(
        "{\"theaudiodb\": {\"enable\": true, \"api_key\": \"test_key_123\", \"rate_limit_ms\": 250}}",
    );
    assert!(is_enabled(&config));
    assert_eq!(rate, 250);
}

#[test]
fn test_initialize_from_config_disabled() {
    let (config, _) =
        configured("{\"theaudiodb\": {\"enable\": false, \"api_key\": \"test_key_123\"}}");
    assert!(!is_enabled(&config));
}

#[test]
fn test_get_api_key_with_config() {
    let (config, _) =
        configured("{\"theaudiodb\": {\"enable\": true, \"api_key\": \"configured_key_123\"}}");
    let api_key = get_api_key(&config);
    assert!(api_key.is_some());
    assert_eq!(api_key.unwrap(), "configured_key_123");
}

#[test]
fn test_get_api_key_default() {
    let (config, _) = configured("{\"theaudiodb\": {\"enable\": true, \"api_key\": \"\"}}");
    let api_key = get_api_key(&config);

    if has_real_api_key(&config) {
        assert!(api_key.is_some());
        assert_ne!(api_key.unwrap(), "YOUR_API_KEY_HERE");
    } else {
        // In test environment, default key is "test_api_key"
        assert!(api_key.is_none() || api_key.unwrap() == "test_api_key");
    }
}

#[test]
fn test_lookup_theaudiodb_by_mbid_disabled() {
    let config = test_config();
    let mut host = Host::default();
    let step = lookup_theaudiodb_by_mbid(&config, "5b11f4ce-a62d-471e-81fc-a69a8278c7da");
    let result = host.look_up(&config, step);
    assert!(result.is_err());
    assert!(result.unwrap_err().contains("disabled"));
}

#[test]
fn test_lookup_theaudiodb_by_mbid_no_api_key() {
    let (config, _) = configured("{\"theaudiodb\": {\"enable\": true, \"api_key\": \"\"}}");
    assert!(!has_real_api_key(&config));
    let mut host = Host::default();
    let step = lookup_theaudiodb_by_mbid(&config, "5b11f4ce-a62d-471e-81fc-a69a8278c7da");
    let result = host.look_up(&config, step);
    // In test environment, this should either fail with no API key or with network error
    // since we have a test key that doesn't work
    assert!(result.is_err());
    let error = result.unwrap_err();
    let is_no_api_key_error = error.contains("No API key");
    let is_network_error =
        error.contains("Failed to send request") || error.contains("status code");
    assert!(
        is_no_api_key_error || is_network_error,
        "Expected no API key or network error, got: {}",
        error
    );
}

#[test]
fn test_lookup_theaudiodb_by_mbid_valid() {
    let config = setup_test_config();
    let mut host = Host::default().with_page(
        "test_api_key/artist-mb.php?i=a74b1b7f-71a5-4011-9441-d0b5e4122711",
        "{\"artists\": [{\"strArtist\": \"Radiohead\", \"intFormedYear\": \"1991\"}]}",
    );

    // Use Radiohead's MBID as a test case
    let step = lookup_theaudiodb_by_mbid(&config, "a74b1b7f-71a5-4011-9441-d0b5e4122711");
    let artist_data = host.look_up(&config, step).unwrap();

    // Verify we got valid artist data
    assert!(matches!(artist_data, JsonValue::Object(_)));
    // Should have basic artist fields
    let artist_name = artist_data.get("strArtist").unwrap();
    assert!(artist_name.as_str().is_some());
    assert_eq!(artist_name.as_str().unwrap(), "Radiohead");
}

#[test]
fn test_lookup_theaudiodb_by_mbid_invalid() {
    let config = setup_test_config();
    let mut host = Host::default()
        .with_page("test_api_key/artist-mb.php?i=invalid-mbid-12345", "{\"artists\": null}");

    // Use an invalid MBID
    let step = lookup_theaudiodb_by_mbid(&config, "invalid-mbid-12345");
    let result = host.look_up(&config, step);
    assert!(result.is_err());
    assert_eq!(result.unwrap_err(), "No artist found with MBID invalid-mbid-12345");
}

#[test]
fn test_lookup_theaudiodb_by_artist_name_disabled() {
    let config = test_config();
    let mut host = Host::default();
    let step = lookup_theaudiodb_by_artist_name(&config, "Radiohead");
    let result = host.look_up(&config, step);
    assert!(result.is_err());
    assert!(result.unwrap_err().contains("disabled"));
}

#[test]
fn test_lookup_theaudiodb_by_artist_name_valid() {
    let config = setup_test_config();
    let mut host = Host::default().with_page(
        "test_api_key/search.php?s=Radiohead",
        "{\"artists\": [{\"strArtist\": \"Radiohead\"}]}",
    );
    let step = lookup_theaudiodb_by_artist_name(&config, "Radiohead");
    let search_result = host.look_up(&config, step).unwrap();

    // Verify we got valid search result
    assert!(matches!(search_result, JsonValue::Object(_)));
    let artists_array = search_result.get("artists").unwrap().as_array().unwrap();
    assert!(!artists_array.is_empty());
    assert_eq!(artists_array.len(), 1);
}

#[test]
fn test_lookup_theaudiodb_by_artist_name_nonexistent() {
    let config = setup_test_config();
    let mut host = Host::default().with_page(
        "test_api_key/search.php?s=ThisArtistDoesNotExist12345XYZ",
        "{\"artists\": null}",
    );
    let step = lookup_theaudiodb_by_artist_name(&config, "ThisArtistDoesNotExist12345XYZ");
    let result = host.look_up(&config, step);
    assert!(result.is_err());
    assert!(result.unwrap_err().contains("No artist found"));
}

#[test]
fn test_lookup_theaudiodb_albums_by_artist_disabled() {
    let config = test_config();
    let mut host = Host::default();
    let step = lookup_theaudiodb_albums_by_artist(&config, "Radiohead");
    let result = host.look_up(&config, step);
    assert!(result.is_err());
    assert!(result.unwrap_err().contains("disabled"));
}

#[test]
fn test_lookup_theaudiodb_albums_by_artist_valid() {
    let config = setup_test_config();
    let mut host = Host::default().with_page(
        "test_api_key/searchalbum.php?s=Radiohead",
        "{\"album\": [{\"strAlbum\": \"OK Computer\"}, {\"strAlbum\": \"Kid A\"}]}",
    );
    let step = lookup_theaudiodb_albums_by_artist(&config, "Radiohead");
    let search_result = host.look_up(&config, step).unwrap();

    // Verify we got valid search result
    assert!(matches!(search_result, JsonValue::Object(_)));
    let albums_array = search_result.get("album").unwrap().as_array().unwrap();
    assert!(!albums_array.is_empty());
    assert_eq!(albums_array.len(), 2);
}

#[test]
fn test_lookup_theaudiodb_album_by_name_disabled() {
    let config = test_config();
    let mut host = Host::default();
    let step = lookup_theaudiodb_album_by_name(&config, "Radiohead", "OK Computer");
    let result = host.look_up(&config, step);
    assert!(result.is_err());
    assert!(result.unwrap_err().contains("disabled"));
}

#[test]
fn test_lookup_theaudiodb_album_by_name_valid() {
    let config = setup_test_config();
    let mut host = Host::default().with_page(
        "test_api_key/searchalbum.php?s=Radiohead&a=OK%20Computer",
        "{\"album\": [{\"strAlbum\": \"OK Computer\"}]}",
    );
    let step = lookup_theaudiodb_album_by_name(&config, "Radiohead", "OK Computer");
    let search_result = host.look_up(&config, step).unwrap();

    // Verify we got valid search result
    assert!(matches!(search_result, JsonValue::Object(_)));
    let albums_array = search_result.get("album").unwrap().as_array().unwrap();
    assert!(!albums_array.is_empty());
}

#[test]
fn test_get_artist_coverart_disabled() {
    let config = test_config();
    let mut host = Host::default();
    let step = get_artist_coverart(&config, "Radiohead");
    let urls = host.artist_art(&config, step);
    assert!(urls.is_empty());
}

#[test]
fn test_get_artist_coverart_valid() {
    let config = setup_test_config();
    let mut host = Host::default().with_page(
        "test_api_key/search.php?s=Radiohead",
        "{\"artists\": [
            {\"strArtistLogo\": \"http://img/logo\", \"strArtistThumb\": \"http://img/thumb\",
             \"strArtistBanner\": \"\", \"strArtistFanart\": \"http://img/fanart\"},
            {\"strArtistThumb\": null, \"strArtistBanner\": \"http://img/banner2\"}]}",
    );
    let step = get_artist_coverart(&config, "Radiohead");
    let urls = host.artist_art(&config, step);
    for url in urls.iter() {
        assert!(url.starts_with("http"));
    }
    assert_eq!(
        urls,
        vec!["http://img/thumb", "http://img/fanart", "http://img/logo", "http://img/banner2"]
    );
}

#[test]
fn test_get_album_coverart_disabled() {
    let config = test_config();
    let mut host = Host::default();
    let step = get_album_coverart(&config, "OK Computer", "Radiohead", Some(1997));
    let urls = host.album_art(&config, step);
    assert!(urls.is_empty());
    assert!(host.fetched.is_empty());
}

#[test]
fn test_get_album_coverart_valid() {
    let config = setup_test_config();
    let mut host = Host::default().with_page(
        "test_api_key/searchalbum.php?s=Radiohead&a=OK%20Computer",
        "{\"album\": [
            {\"strAlbum\": \"OK Computer\", \"strAlbumThumb\": \"http://img/cover\",
             \"strAlbumThumb3D\": \"http://img/3d\", \"strAlbumSpine\": \"http://img/spine\",
             \"strAlbumCDart\": \"http://img/cd\"}]}",
    );
    let step = get_album_coverart(&config, "OK Computer", "Radiohead", Some(1997));
    let urls = host.album_art(&config, step);
    for url in urls.iter() {
        assert!(url.starts_with("http"));
    }
    assert_eq!(urls, vec!["http://img/cover"]);
}

#[test]
fn test_get_album_coverart_nonexistent() {
    let config = setup_test_config();
    let mut host = Host::default()
        .with_page(
            "test_api_key/searchalbum.php?s=NonExistentArtist&a=ThisAlbumDoesNotExist12345",
            "{\"album\": null}",
        )
        .with_page("test_api_key/searchalbum.php?s=NonExistentArtist", "{\"album\": null}");
    let step =
        get_album_coverart(&config, "ThisAlbumDoesNotExist12345", "NonExistentArtist", None);
    let urls = host.album_art(&config, step);
    assert!(urls.is_empty());
    assert_eq!(host.fetched.len(), 2);
}

#[test]
fn test_theaudiodb_updater_disabled() {
    let config = test_config();
    let updater = TheAudioDbUpdater::new();
    let mut artist = test_artist();
    artist.ensure_metadata();

    if let Some(metadata) = &mut artist.metadata {
        metadata.mbid.push("a74b1b7f-71a5-4011-9441-d0b5e4122711".to_string());
    }

    let original_name = artist.name.clone();
    let mut host = Host::default();
    let step = updater.update_artist(&config, artist);
    let updated_artist = host.update(&config, step);

    // Should return unchanged artist when disabled
    assert_eq!(updated_artist.name, original_name);
}

#[test]
fn test_theaudiodb_updater_no_mbid() {
    let config = setup_test_config();
    let updater = TheAudioDbUpdater::new();
    let artist = test_artist();

    let original_name = artist.name.clone();
    let mut host = Host::default();
    let step = updater.update_artist(&config, artist);
    let updated_artist = host.update(&config, step);

    // Should return unchanged artist when no MBID
    assert_eq!(updated_artist.name, original_name);
    assert!(host.fetched.is_empty());
}

#[test]
fn test_caching_behavior() {
    let config = setup_test_config();

    // Test caching by making the same request twice
    let artist_name = "Radiohead";

    for page in ["{\"artists\": [{\"strArtist\": \"Radiohead\"}]}", "{\"artists\": null}"] {
        let mut host = Host::default().with_page("test_api_key/search.php?s=Radiohead", page);

        // First request - should hit the API
        let step = lookup_theaudiodb_by_artist_name(&config, artist_name);
        let result1 = host.look_up(&config, step);
        assert_eq!(host.fetched.len(), 1);

        // Second request - should hit the cache
        let step = lookup_theaudiodb_by_artist_name(&config, artist_name);
        let result2 = host.look_up(&config, step);
        assert_eq!(host.fetched.len(), 1);

        // Both should return the same result
        match (result1, result2) {
            (Ok(data1), Ok(data2)) => {
                assert!(same(&data1, &data2));
            }
            (Err(e1), Err(e2)) => {
                // Both failed with same error (cached negative result)
                assert_eq!(e1, e2);
            }
            _ => {
                panic!("Inconsistent results between cached and non-cached requests");
            }
        }
    }
}

#[test]
fn test_rate_limiting() {
    let config = setup_test_config();
    let mut host = Host { rate_limit: Some(Duration::from_millis(100)), ..Host::default() };

    // Make multiple requests and ensure they're rate limited
    let start = Instant::now();

    // Make 3 requests that should be rate limited
    for i in 0..3 {
        let artist_name = format!("TestArtist{}", i);
        let step = lookup_theaudiodb_by_artist_name(&config, &artist_name);
        let _ = host.look_up(&config, step);
    }

    let duration = start.elapsed();

    // With 100ms rate limit, 3 requests should take at least 200ms
    assert!(
        duration.as_millis() >= 200,
        "Rate limiting not working properly: took {:?}",
        duration
    );
}

#[test]
fn configuration_defaults() {
    let mut config = test_config();
    assert_eq!(initialize_from_config(&mut config, None), 500);
    assert!(!is_enabled(&config));

    let (config, rate) = configured("{\"theaudiodb\": {}}");
    assert!(is_enabled(&config));
    assert_eq!(rate, 500);
    assert_eq!(get_api_key(&config).unwrap(), "test_api_key");

    // A rate that is no natural number counts as none.
    assert_eq!(configured("{\"theaudiodb\": {\"rate_limit_ms\": -1}}").1, 500);
    assert_eq!(configured("{\"theaudiodb\": {\"rate_limit_ms\": 2.5}}").1, 500);

    // A section without a key leaves the key that is there.
    let mut config = configured("{\"theaudiodb\": {\"api_key\": \"first\"}}").0;
    let section = parse_json("{\"enable\": true}").unwrap();
    initialize_from_config(&mut config, Some(&section));
    assert_eq!(get_api_key(&config).unwrap(), "first");
}

#[test]
fn placeholder_is_no_key() {
    let mut config = TheAudioDBConfig::new("YOUR_API_KEY_HERE".to_string());
    config.enabled = true;
    assert!(get_api_key(&config).is_none());
    let mut host = Host::default();
    let step = lookup_theaudiodb_by_artist_name(&config, "Radiohead");
    assert_eq!(
        host.look_up(&config, step).unwrap_err(),
        "No API key configured for TheAudioDB"
    );

    let mut config = TheAudioDBConfig::new(String::new());
    config.enabled = true;
    let step = lookup_theaudiodb_by_artist_name(&config, "Radiohead");
    assert_eq!(
        host.look_up(&config, step).unwrap_err(),
        "No API key configured for TheAudioDB"
    );
    assert!(host.fetched.is_empty());
}

#[test]
fn every_error_of_a_lookup() {
    let config = setup_test_config();
    let mbid = Target::Mbid("m".to_string());
    let name = Target::ArtistName("n".to_string());
    let albums = Target::AlbumsBy("n".to_string());
    let album = Target::Album("n".to_string(), "t".to_string());

    let error = |target: &Target, page: &str| target.judge(Ok(page.to_string())).0.unwrap_err();

    assert_eq!(error(&mbid, "{\"artists\": []}"), "No artist found with MBID m");
    assert_eq!(
        error(&mbid, "{\"artists\": [1, 2, 3]}"),
        "Found 3 artists for MBID m, expected exactly 1"
    );
    assert_eq!(error(&name, "{\"artists\": []}"), "No artist found with name 'n'");
    assert_eq!(error(&albums, "{\"album\": []}"), "No albums found for artist 'n'");
    assert_eq!(error(&album, "{\"album\": []}"), "No album 't' found for artist 'n'");
    assert_eq!(
        error(&name, "{\"artist\": []}"),
        "Invalid response format from TheAudioDB (no artists field)"
    );
    assert_eq!(
        error(&album, "{}"),
        "Invalid response format from TheAudioDB (no album field)"
    );
    assert_eq!(
        error(&mbid, "{\"artists\": 7}"),
        "Invalid response format from TheAudioDB (artists is not an array)"
    );
    assert_eq!(
        error(&albums, "{\"album\": {}}"),
        "Invalid response format from TheAudioDB (album is not an array)"
    );
    assert!(error(&name, "<html>").starts_with("Failed to parse TheAudioDB response: "));
    assert!(error(&name, "").starts_with("Failed to parse TheAudioDB response: EOF"));

    let mut host = Host::default();
    let step = lookup_theaudiodb_by_mbid(&config, "m");
    assert_eq!(
        host.look_up(&config, step).unwrap_err(),
        "Failed to send request to TheAudioDB: status code 404"
    );
}

#[test]
fn messages_from_the_attribute_cache() {
    let config = setup_test_config();
    let mut host = Host::default();
    for key in ["not_found::m", "artist_not_found::n", "albums_not_found::n", "album_not_found::n::t"] {
        host.flags.insert(format!("theaudiodb::{}", key), true);
    }
    let step = lookup_theaudiodb_by_mbid(&config, "m");
    assert_eq!(
        host.look_up(&config, step).unwrap_err(),
        "No artist found with MBID m (from cache)"
    );
    let step = lookup_theaudiodb_by_artist_name(&config, "n");
    assert_eq!(host.look_up(&config, step).unwrap_err(), "No artist found with name 'n'");
    let step = lookup_theaudiodb_albums_by_artist(&config, "n");
    assert_eq!(
        host.look_up(&config, step).unwrap_err(),
        "No albums found for artist 'n' (from cache)"
    );
    let step = lookup_theaudiodb_album_by_name(&config, "n", "t");
    assert_eq!(
        host.look_up(&config, step).unwrap_err(),
        "No album 't' found for artist 'n' (from cache)"
    );
    assert!(host.fetched.is_empty());
}

#[test]
fn failures_that_may_pass_are_not_kept() {
    let config = setup_test_config();
    let mut host = Host::default();
    for _ in 0..2 {
        let step = lookup_theaudiodb_by_artist_name(&config, "X");
        assert!(host.look_up(&config, step).is_err());
    }
    assert_eq!(host.fetched.len(), 2);
    assert!(host.flags.is_empty());
    assert!(host.values.is_empty());
}

#[test]
fn entries_of_the_attribute_cache() {
    let config = setup_test_config();
    let mut host = Host::default()
        .with_page("test_api_key/artist-mb.php?i=m", "{\"artists\": [{\"strGenre\": \"Rock\"}]}")
        .with_page("test_api_key/search.php?s=A%26B", "{\"artists\": [1]}")
        .with_page("test_api_key/searchalbum.php?s=A%26B", "{\"album\": []}")
        .with_page("test_api_key/searchalbum.php?s=A%26B&a=%C3%84", "{\"album\": [1]}");
    let step = lookup_theaudiodb_by_mbid(&config, "m");
    assert!(host.look_up(&config, step).is_ok());
    let step = lookup_theaudiodb_by_artist_name(&config, "A&B");
    assert!(host.look_up(&config, step).is_ok());
    let step = lookup_theaudiodb_albums_by_artist(&config, "A&B");
    assert!(host.look_up(&config, step).is_err());
    let step = lookup_theaudiodb_album_by_name(&config, "A&B", "Ä");
    assert!(host.look_up(&config, step).is_ok());

    let mut keys: Vec<&String> = host.values.keys().collect();
    keys.sort();
    assert_eq!(
        keys,
        vec!["theaudiodb::album::A&B::Ä", "theaudiodb::artist_name::A&B", "theaudiodb::mbid::m"]
    );
    assert_eq!(host.flags.get("theaudiodb::albums_not_found::A&B"), Some(&true));
    assert_eq!(host.lifetimes.get("theaudiodb::albums_not_found::A&B"), Some(&None));
    // Only the artist itself is kept, not the page around it.
    assert_eq!(host.values["theaudiodb::mbid::m"].get_str("strGenre").unwrap(), "Rock");
}

#[test]
fn cover_from_the_other_albums() {
    let config = setup_test_config();
    let mut host = Host::default()
        .with_page("test_api_key/searchalbum.php?s=Radiohead&a=ok%20computer", "{\"album\": null}")
        .with_page(
            "test_api_key/searchalbum.php?s=Radiohead",
            "{\"album\": [
                {\"strAlbum\": \"Kid A\", \"strAlbumThumb\": \"http://img/kid\"},
                {\"strAlbum\": \"OK Computer (Deluxe)\", \"strAlbumThumb\": \"http://img/ok\"},
                {\"strAlbum\": \"OK Computer\", \"strAlbumThumb\": \"http://img/late\"}]}",
        );
    let step = get_album_coverart(&config, "ok computer", "Radiohead", None);
    assert_eq!(host.album_art(&config, step), vec!["http://img/ok"]);
}

#[test]
fn picking_urls() {
    let outcome = |text: &str| Ok(parse_json(text).unwrap());
    assert!(pick_artist_urls(&Err("no".to_string())).is_empty());
    assert!(pick_artist_urls(&outcome("{\"artists\": 1}")).is_empty());
    assert_eq!(
        pick_artist_urls(&outcome(
            "{\"artists\": [{\"strArtistThumb\": \"t\", \"strArtistBanner\": \"b\",
              \"strArtistFanart\": \"f\", \"strArtistLogo\": \"l\"}]}"
        )),
        vec!["t", "b", "f", "l"]
    );
    assert_eq!(
        pick_album_urls(&outcome(
            "{\"album\": [{\"strAlbumThumb\": \"1\"}, {}, {\"strAlbumThumb\": \"2\"}]}"
        )),
        vec!["1", "2"]
    );
    // The first album that fits counts, even if it has no cover.
    let albums = outcome(
        "{\"album\": [{\"strAlbum\": \"Kid A\"}, {\"strAlbum\": \"Kid A\", \"strAlbumThumb\": \"2\"}]}",
    );
    assert!(pick_fallback_urls(&albums, "KID A").is_empty());
    // A title that is part of the wanted one fits too.
    let albums = outcome("{\"album\": [{\"strAlbum\": \"Kid\", \"strAlbumThumb\": \"1\"}]}");
    assert_eq!(pick_fallback_urls(&albums, "Kid A"), vec!["1"]);
    assert!(pick_fallback_urls(&albums, "Amnesiac").is_empty());
    // Case goes by Unicode, not by ASCII.
    let albums = outcome("{\"album\": [{\"strAlbum\": \"ÄGÄTIS\", \"strAlbumThumb\": \"1\"}]}");
    assert_eq!(pick_fallback_urls(&albums, "ägätis"), vec!["1"]);
}

#[test]
fn titles_that_fit() {
    assert!(titles_fit("ok computer (deluxe)", "ok computer"));
    assert!(titles_fit("kid", "kid a"));
    assert!(titles_fit("kid a", "kid a"));
    assert!(titles_fit("", "kid a"));
    assert!(!titles_fit("kid b", "kid a"));
    assert!(!titles_fit("Kid A", "kid a"));
}

#[test]
fn updating_an_artist() {
    let config = setup_test_config();
    let mut host = Host::default().with_page(
        "test_api_key/artist-mb.php?i=m1",
        "{\"artists\": [{\"strBiographyEN\": \"Born.\", \"strGenre\": \"Rock\",
          \"strArtistThumb\": \"http://img/thumb\"}]}",
    );
    let mut artist = test_artist();
    artist.ensure_metadata();
    if let Some(meta) = &mut artist.metadata {
        meta.mbid.push("m1".to_string());
        meta.mbid.push("m2".to_string());
        meta.genres.push("jazz".to_string());
    }
    let step = TheAudioDbUpdater::new().update_artist(&config, artist);
    let artist = host.update(&config, step);
    let meta = artist.metadata.as_ref().unwrap();
    assert_eq!(meta.biography.as_deref(), Some("Born."));
    assert_eq!(meta.biography_source.as_deref(), Some("TheAudioDB"));
    assert_eq!(meta.genres, vec!["jazz", "rock"]);
    assert_eq!(meta.mbid, vec!["m1", "m2"]);
    assert_eq!(meta.thumb_url, vec!["http://img/thumb"]);
    assert_eq!(artist.name, "Test Artist");
    assert!(matches!(&artist.id, Identifier::String(s) if s == "test_artist"));

    // A second update adds no genre and no thumbnail twice.
    let step = TheAudioDbUpdater::default().update_artist(&config, artist);
    let meta = host.update(&config, step).metadata.unwrap();
    assert_eq!(meta.genres, vec!["jazz", "rock"]);
    assert_eq!(meta.thumb_url, vec!["http://img/thumb"]);
    assert_eq!(host.fetched.len(), 1);
}

#[test]
fn update_without_data_changes_nothing() {
    let config = setup_test_config();
    let mut host = Host::default().with_page(
        "test_api_key/artist-mb.php?i=m1",
        "{\"artists\": [{\"strBiographyEN\": \"\", \"strGenre\": \"\", \"strArtistThumb\": \"\"}]}",
    );
    for mbid in ["m1", "unknown"] {
        let mut artist = test_artist();
        artist.ensure_metadata();
        artist.metadata.as_mut().unwrap().mbid.push(mbid.to_string());
        let step = TheAudioDbUpdater::new().update_artist(&config, artist);
        let meta = host.update(&config, step).metadata.unwrap();
        assert!(meta.biography.is_none());
        assert!(meta.biography_source.is_none());
        assert!(meta.genres.is_empty());
        assert!(meta.thumb_url.is_empty());
    }
}

#[test]
fn theaudiodb_provider() {
    let provider = TheAudioDbCoverartProvider::new();
    assert_eq!(provider.name(), "theaudiodb");
    assert_eq!(provider.display_name(), "TheAudioDB");
    let methods = provider.supported_methods();
    assert_eq!(methods.len(), 2);
    assert!(methods.contains(&CoverartMethod::Artist));
    assert!(methods.contains(&CoverartMethod::Album));
    assert!(!methods.contains(&CoverartMethod::Song));

    let config = setup_test_config();
    let mut host = Host::default()
        .with_page("test_api_key/search.php?s=A", "{\"artists\": [{\"strArtistThumb\": \"t\"}]}")
        .with_page(
            "test_api_key/searchalbum.php?s=A&a=B",
            "{\"album\": [{\"strAlbumThumb\": \"c\"}]}",
        );
    let step = provider.get_artist_coverart_impl(&config, "A");
    assert_eq!(host.artist_art(&config, step), vec!["t"]);
    let step = provider.get_album_coverart_impl(&config, "B", "A", None);
    assert_eq!(host.album_art(&config, step), vec!["c"]);
}

#[test]
fn reply_of_another_kind_brings_nothing() {
    let config = setup_test_config();
    let step = lookup_theaudiodb_by_mbid(&config, "m");
    match step {
        Step::Ask(lookup, Request::ReadValue(key)) => {
            assert_eq!(key, "theaudiodb::mbid::m");
            match lookup.resume(&config, Reply::Stored(true)) {
                Step::Ask(_, Request::ReadFlag(key)) => {
                    assert_eq!(key, "theaudiodb::not_found::m")
                }
                other => panic!("unexpected step {:?}", other),
            }
        }
        other => panic!("unexpected step {:?}", other),
    }
}

#[test]
fn json_documents() {
    let document = parse_json(
        "{\"a\": [1, -2, 0.5, true, null, \"x\"], \"b\": {\"c\": 18446744073709551615}}",
    )
    .unwrap();
    let list = document.get_array("a").unwrap();
    assert_eq!(list.len(), 6);
    assert_eq!(list[0].as_u64(), Some(1));
    assert_eq!(list[1].as_u64(), None);
    assert!(matches!(list[1], JsonValue::Number(JsonNumber::Negative(-2))));
    assert!(matches!(list[2], JsonValue::Number(JsonNumber::Float(bits)) if bits == 0.5f64.to_bits()));
    assert_eq!(list[3].as_bool(), Some(true));
    assert!(list[4].is_null());
    assert_eq!(list[5].as_str().unwrap(), "x");
    assert_eq!(document.get("b").unwrap().get_u64("c"), Some(u64::MAX));
    assert!(document.get("z").is_none());
    assert!(list[0].get("a").is_none());
    assert!(same(&document, &document.duplicate()));
    // The last of several members with one key is the one that stays.
    assert_eq!(parse_json("{\"a\": 1, \"a\": 2}").unwrap().get_u64("a"), Some(2));
    assert!(parse_json("{").unwrap_err().contains("EOF"));
}
