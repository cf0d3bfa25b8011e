use std::collections::HashMap;
use std::sync::{Arc, Mutex};

use coverart::coverart::{CoverartManager, CoverartMethod, CoverartMethods, CoverartProvider};
use coverart::fanarttv::{
    default_fanarttv_api_key, get_album_covers, get_api_key, get_artist_banners,
    get_artist_thumbnails, initialize_from_config, is_enabled, start_lookup, ArtLookup,
    ArtistMbid, CoverSearch, FailedMbidCache, FanarttvConfig, FanarttvCoverartProvider, Wanted,
};
use coverart::json::parse_json;
use coverart::musicbrainz::{
    ArtistReply, MusicBrainzArtist, MusicBrainzArtistSearchResponse, MusicBrainzConfig,
};
use coverart::protocol::{Reply, Request, Service, Step};

const KEY: &str = "749a8fca4f2d3b0462b287820ad6ab06";

fn config() -> FanarttvConfig {
    let mut config = FanarttvConfig::new();
    initialize_from_config(&mut config, None);
    config
}

fn page_url(mbid: &str) -> String {
    format!("http://webservice.fanart.tv/v3/music/{}?api_key={}", mbid, KEY)
}

/// Web services in memory.
#[derive(Default)]
struct Host {
    pages: HashMap<String, String>,
    asked: Vec<String>,
    mbid: Option<String>,
}

impl Host {
    fn with_page(mut self, url: String, page: &str) -> Host {
        self.pages.insert(url, page.to_string());
        self
    }

    fn answer(&mut self, request: Request) -> Reply {
        match request {
            Request::ReadText(_) => Reply::Text(None),
            Request::ReadList(_) => Reply::List(None),
            Request::ReadFlag(_) => Reply::Flag(None),
            Request::Fetch(service, url) => {
                let request = Request::Fetch(service, url.clone());
                assert_eq!(request.throttle().is_none(), service == Service::FanartTv);
                self.asked.push(url.clone());
                Reply::Page(self.pages.get(&url).cloned().ok_or("404".to_string()))
            }
            Request::SearchArtists(url) => {
                self.asked.push(url);
                let artists = match &self.mbid {
                    Some(id) => vec![MusicBrainzArtist {
                        id: id.clone(),
                        name: "Test Artist".to_string(),
                        aliases: Vec::new(),
                        artist_type: None,
                        score: None,
                    }],
                    None => Vec::new(),
                };
                Reply::Artists(ArtistReply::Found(MusicBrainzArtistSearchResponse {
                    count: 0,
                    offset: 0,
                    artists,
                }))
            }
            Request::StoreText(_, _) | Request::StoreFlag(_, _) => Reply::Stored(true),
            other => panic!("unexpected request {:?}", other),
        }
    }

    fn art(&mut self, failed: &mut FailedMbidCache, step: Step<ArtLookup, Vec<String>>) -> Vec<String> {
        let mut step = step;
        loop {
            match step {
                Step::Done(urls) => return urls,
                Step::Ask(lookup, request) => {
                    let reply = self.answer(request);
                    step = lookup.resume(failed, reply);
                }
            }
        }
    }

    fn mbid(
        &mut self,
        musicbrainz: &MusicBrainzConfig,
        step: Step<ArtistMbid, Option<String>>,
    ) -> Option<String> {
        let mut step = step;
        loop {
            match step {
                Step::Done(mbid) => return mbid,
                Step::Ask(search, request) => {
                    step = search.resume(musicbrainz, self.answer(request))
                }
            }
        }
    }

    fn cover(
        &mut self,
        musicbrainz: &MusicBrainzConfig,
        config: &FanarttvConfig,
        failed: &mut FailedMbidCache,
        step: Step<CoverSearch, Vec<String>>,
    ) -> Vec<String> {
        let mut step = step;
        loop {
            match step {
                Step::Done(urls) => return urls,
                Step::Ask(search, request) => {
                    let reply = self.answer(request);
                    step = search.resume(musicbrainz, config, failed, reply);
                }
            }
        }
    }
}

/// The provider with the services it needs.
struct Wired {
    musicbrainz: MusicBrainzConfig,
    config: FanarttvConfig,
    failed: Mutex<FailedMbidCache>,
    host: Mutex<Host>,
}

impl Wired {
    fn new(musicbrainz: MusicBrainzConfig, host: Host) -> Wired {
        Wired {
            musicbrainz,
            config: config(),
            failed: Mutex::new(FailedMbidCache::new()),
            host: Mutex::new(host),
        }
    }
}

impl CoverartProvider for Wired {
    fn name(&self) -> &str {
        FanarttvCoverartProvider::new().name()
    }

    fn display_name(&self) -> &str {
        FanarttvCoverartProvider::new().display_name()
    }

    fn supported_methods(&self) -> CoverartMethods {
        FanarttvCoverartProvider::new().supported_methods()
    }

    fn get_artist_coverart_impl(&self, artist: &str) -> Vec<String> {
        let mut failed = self.failed.lock().unwrap();
        let step = FanarttvCoverartProvider::new().get_artist_coverart_impl(
            &self.musicbrainz,
            &self.config,
            &failed,
            artist,
        );
        self.host.lock().unwrap().cover(&self.musicbrainz, &self.config, &mut failed, step)
    }

    fn get_album_coverart_impl(&self, title: &str, artist: &str, year: Option<i32>) -> Vec<String> {
        let mut failed = self.failed.lock().unwrap();
        let step = FanarttvCoverartProvider::new().get_album_coverart_impl(
            &self.musicbrainz,
            &self.config,
            &failed,
            title,
            artist,
            year,
        );
        self.host.lock().unwrap().cover(&self.musicbrainz, &self.config, &mut failed, step)
    }
}

#[test]
fn test_fanarttv_coverart_provider_name() {
    let provider = FanarttvCoverartProvider::new();
    assert_eq!(provider.name(), "fanarttv");
}

#[test]
fn test_fanarttv_coverart_provider_display_name() {
    let provider = FanarttvCoverartProvider::new();
    assert_eq!(provider.display_name(), "FanArt.tv");
}

#[test]
fn test_fanarttv_coverart_provider_supported_methods() {
    let provider = FanarttvCoverartProvider::new();
    let methods = provider.supported_methods();
    assert_eq!(methods.len(), 2);
    assert!(methods.contains(&CoverartMethod::Artist));
    assert!(methods.contains(&CoverartMethod::Album));
    assert!(!methods.contains(&CoverartMethod::Song));
    assert!(!methods.contains(&CoverartMethod::Url));
}

#[test]
fn test_fanarttv_coverart_provider_get_artist_coverart_impl() {
    let provider = Wired::new(MusicBrainzConfig::new(), Host::default());
    let result = provider.get_artist_coverart_impl("Test Artist");
    // Should return empty since MusicBrainz lookups are disabled by default in tests
    assert!(result.is_empty());
    assert!(provider.host.lock().unwrap().asked.is_empty());
}

#[test]
fn test_fanarttv_coverart_provider_get_album_coverart_impl() {
    let provider = Wired::new(MusicBrainzConfig::new(), Host::default());
    let result = provider.get_album_coverart_impl("Test Album", "Test Artist", None);
    // Should return empty since MusicBrainz lookups are disabled by default in tests
    assert!(result.is_empty());
    assert!(provider.host.lock().unwrap().asked.is_empty());
}

#[test]
fn test_fanarttv_coverart_provider_get_artist_mbid() {
    let provider = FanarttvCoverartProvider::new();
    let step = provider.get_artist_mbid(&MusicBrainzConfig::new(), "Test Artist");
    let result = Host::default().mbid(&MusicBrainzConfig::new(), step);
    // Should return None since MusicBrainz lookups are disabled by default
    assert!(result.is_none());
}

#[test]
fn test_coverart_manager_integration() {
    let mut manager = CoverartManager::new();

    // Register FanArt.tv coverart provider
    let fanarttv_coverart = Arc::new(Wired::new(MusicBrainzConfig::new(), Host::default()));

    manager.register_provider(fanarttv_coverart);

    // Test artist coverart retrieval (should return empty since no MusicBrainz lookup)
    let results = manager.get_artist_coverart("Test Artist");

    // Provider should be called but return no results
    assert_eq!(results.len(), 0);
}

#[test]
fn fanarttv_configuration() {
    let mut config = FanarttvConfig::default();
    assert!(!is_enabled(&config));
    assert_eq!(get_api_key(&config), None);
    assert_eq!(default_fanarttv_api_key(), KEY);

    assert_eq!(initialize_from_config(&mut config, None), 500);
    assert!(is_enabled(&config));
    assert_eq!(get_api_key(&config).unwrap(), KEY);

    let section =
        parse_json("{\"enable\": false, \"api_key\": \"mine\", \"rate_limit_ms\": 20}").unwrap();
    assert_eq!(initialize_from_config(&mut config, Some(&section)), 20);
    assert!(!is_enabled(&config));
    assert_eq!(get_api_key(&config).unwrap(), "mine");

    // An empty key and a missing one give way to the default.
    for text in ["{\"api_key\": \"\"}", "{}", "{\"api_key\": 5}"] {
        let section = parse_json(text).unwrap();
        assert_eq!(initialize_from_config(&mut config, Some(&section)), 500);
        assert!(is_enabled(&config));
        assert_eq!(get_api_key(&config).unwrap(), KEY);
    }
}

const THUMBS: &str = "{\"artistthumb\": [{\"url\": \"t1\"}, {\"id\": \"x\"}, {\"url\": \"t2\"}, {\"url\": \"t3\"}]}";

#[test]
fn thumbnails() {
    let config = config();
    let mut failed = FailedMbidCache::new();
    let mut host = Host::default().with_page(page_url("m"), THUMBS);
    let step = get_artist_thumbnails(&config, &failed, "m", None);
    assert_eq!(host.art(&mut failed, step), vec!["t1", "t2", "t3"]);
    assert_eq!(host.asked, vec![page_url("m")]);
    let step = get_artist_thumbnails(&config, &failed, "m", Some(2));
    assert_eq!(host.art(&mut failed, step), vec!["t1", "t2"]);
    let step = get_artist_thumbnails(&config, &failed, "m", Some(0));
    assert!(host.art(&mut failed, step).is_empty());
    assert!(!failed.contains("m"));
}

#[test]
fn at_most_ten_thumbnails_unless_told() {
    let list: Vec<String> = (0..12).map(|i| format!("{{\"url\": \"t{}\"}}", i)).collect();
    let page = format!("{{\"artistthumb\": [{}]}}", list.join(", "));
    let config = config();
    let mut failed = FailedMbidCache::new();
    let mut host = Host::default().with_page(page_url("m"), &page);
    let step = get_artist_thumbnails(&config, &failed, "m", None);
    assert_eq!(host.art(&mut failed, step).len(), 10);
    let step = get_artist_thumbnails(&config, &failed, "m", Some(11));
    assert_eq!(host.art(&mut failed, step).len(), 11);
}

#[test]
fn banners() {
    let config = config();
    let mut failed = FailedMbidCache::new();
    let mut host = Host::default().with_page(
        page_url("m"),
        "{\"musicbanner\": [{\"url\": \"b1\"}, {\"url\": \"b2\"}], \"artistthumb\": [{\"url\": \"t\"}]}",
    );
    let step = get_artist_banners(&config, &failed, "m");
    assert_eq!(host.art(&mut failed, step), vec!["b1", "b2"]);
}

#[test]
fn covers_of_an_album() {
    let config = config();
    let mut failed = FailedMbidCache::new();
    let mut host = Host::default().with_page(
        page_url("m"),
        "{\"albums\": {\"g\": {\"albumcover\": [{\"url\": \"c1\"}, {\"url\": \"c2\"}], \"cdart\": [{\"url\": \"cd\"}]}}}",
    );
    let step = get_album_covers(&config, &failed, "m", "g");
    assert_eq!(host.art(&mut failed, step), vec!["c1", "c2"]);
    // An album without covers is no failure.
    let step = get_album_covers(&config, &failed, "m", "other");
    assert!(host.art(&mut failed, step).is_empty());
    assert!(!failed.contains("m"));
}

#[test]
fn failed_lookups_are_remembered() {
    let config = config();
    let pages = ["{}", "{\"artistthumb\": []}", "{\"artistthumb\": [{}]}", "not json"];
    for page in pages {
        let mut failed = FailedMbidCache::new();
        let mut host = Host::default().with_page(page_url("m"), page);
        let step = get_artist_thumbnails(&config, &failed, "m", Some(5));
        assert!(host.art(&mut failed, step).is_empty());
        assert!(failed.contains("m"));
        assert!(!failed.contains("n"));
        // All lookups for this artist are refused from now on.
        assert!(matches!(get_artist_thumbnails(&config, &failed, "m", None), Step::Done(l) if l.is_empty()));
        assert!(matches!(get_artist_banners(&config, &failed, "m"), Step::Done(l) if l.is_empty()));
        assert!(matches!(get_album_covers(&config, &failed, "m", "g"), Step::Done(l) if l.is_empty()));
        assert!(matches!(get_artist_banners(&config, &failed, "n"), Step::Ask(_, _)));
    }
    // No page at all.
    let mut failed = FailedMbidCache::new();
    let step = get_album_covers(&config, &failed, "m", "g");
    assert!(Host::default().art(&mut failed, step).is_empty());
    assert!(failed.contains("m"));
}

#[test]
fn lookups_that_do_not_start() {
    let failed = FailedMbidCache::new();
    let off = FanarttvConfig { enabled: false, ..config() };
    assert!(matches!(get_artist_banners(&off, &failed, "m"), Step::Done(_)));
    let no_key = FanarttvConfig { enabled: true, api_key: String::new() };
    assert!(matches!(get_artist_banners(&no_key, &failed, "m"), Step::Done(_)));
    assert!(matches!(start_lookup(&config(), true, Wanted::Banners, "m"), Step::Done(_)));
    assert!(matches!(start_lookup(&config(), false, Wanted::Banners, "m"), Step::Ask(_, _)));
}

#[test]
fn artist_art_by_way_of_musicbrainz() {
    let list: Vec<String> = (0..9).map(|i| format!("{{\"url\": \"t{}\"}}", i)).collect();
    let page = format!("{{\"artistthumb\": [{}]}}", list.join(", "));
    let mut host = Host::default().with_page(page_url("m-1"), &page);
    host.mbid = Some("m-1".to_string());
    let provider = Wired::new(MusicBrainzConfig { enabled: true }, host);
    assert_eq!(
        provider.get_artist_coverart("Test Artist"),
        vec!["t0", "t1", "t2", "t3", "t4"]
    );
    assert_eq!(
        provider.host.lock().unwrap().asked,
        vec![
            "https://musicbrainz.org/ws/2/artist?query=artist:Test%20Artist&fmt=json&limit=3"
                .to_string(),
            page_url("m-1"),
        ]
    );
}

#[test]
fn album_art_by_way_of_musicbrainz() {
    let group = "https://musicbrainz.org/ws/2/release-group?query=artist%3A%22Test+Artist%22+AND+releasegroup%3A%22Test+Album%22&limit=1&fmt=json";
    let mut host = Host::default()
        .with_page(group.to_string(), "{\"release-groups\": [{\"id\": \"g\"}]}")
        .with_page(
            page_url("m-1"),
            "{\"albums\": {\"g\": {\"albumcover\": [{\"url\": \"c1\"}]}}}",
        );
    host.mbid = Some("m-1".to_string());
    let provider = Wired::new(MusicBrainzConfig { enabled: true }, host);
    assert_eq!(provider.get_album_coverart("Test Album", "Test Artist", Some(2000)), vec!["c1"]);
    // An album that MusicBrainz does not know has no covers.
    assert!(provider.get_album_coverart("Other", "Test Artist", None).is_empty());
    // Nor has one of an artist that it does not know.
    provider.host.lock().unwrap().mbid = None;
    assert!(provider.get_album_coverart("Test Album", "Test Artist", None).is_empty());
}

#[test]
fn remembered_failure_stops_the_search() {
    let mut host = Host::default();
    host.mbid = Some("m-1".to_string());
    let provider = Wired::new(MusicBrainzConfig { enabled: true }, host);
    assert!(provider.get_artist_coverart("Test Artist").is_empty());
    assert!(provider.failed.lock().unwrap().contains("m-1"));
    assert!(provider.get_artist_coverart("Test Artist").is_empty());
    let asked = provider.host.lock().unwrap().asked.clone();
    assert_eq!(asked.iter().filter(|u| u.contains("fanart")).count(), 1);
}

#[test]
fn album_is_not_searched_for_once_musicbrainz_is_disabled() {
    let off = MusicBrainzConfig::new();
    let on = MusicBrainzConfig { enabled: true };
    let mut host = Host::default();
    host.mbid = Some("m-1".to_string());
    let mut failed = FailedMbidCache::new();
    let mut step = FanarttvCoverartProvider::new().get_album_coverart_impl(
        &on,
        &config(),
        &failed,
        "Test Album",
        "Test Artist",
        None,
    );
    let urls = loop {
        match step {
            Step::Done(urls) => break urls,
            Step::Ask(search, request) => {
                let found = matches!(&request, Request::StoreText(_, _));
                let reply = host.answer(request);
                let musicbrainz = if found { &off } else { &on };
                step = search.resume(musicbrainz, &config(), &mut failed, reply);
            }
        }
    };
    assert!(urls.is_empty());
    assert!(!host.asked.iter().any(|url| url.contains("release-group")));
}
