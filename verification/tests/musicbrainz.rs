use std::collections::HashMap;

use coverart::json::parse_json;
use coverart::musicbrainz::{
    initialize_from_config, is_enabled, is_mbid, judge_artists, musicbrainz_api_get, pick_genres,
    pick_release_group, search_mbids_for_artist, search_musicbrainz_for_artist, search_recording,
    search_release_group_genres, search_release_group_mbid, split_artist, split_artist_names,
    ArtistReply, GenreSearch, GroupSearch, MbidSearch, MusicBrainzAlias, MusicBrainzArtist,
    MusicBrainzArtistSearchResponse, MusicBrainzConfig, MusicBrainzRecording,
    MusicBrainzRecordingSearchResponse, MusicBrainzSearchResult, Received, RecordingReply,
    SingleSearch,
};
use coverart::naming::{
    artist_names_match, close_enough, normalize_artist_name_for_comparison,
    sanitize_artist_name_for_search,
};
use coverart::protocol::{Reply, Request, Service, Step};
use MusicBrainzSearchResult::{Error, Found, FoundPartial, NotFound};

const BASE: &str = "https://musicbrainz.org/ws/2";

fn enabled() -> MusicBrainzConfig {
    MusicBrainzConfig { enabled: true }
}

fn texts(list: &[&str]) -> Vec<String> {
    list.iter().map(|s| s.to_string()).collect()
}

#[derive(Clone, Debug, PartialEq)]
enum Kept {
    Text(String),
    List(Vec<String>),
    Flag(bool),
}

/// An attribute cache and MusicBrainz in memory.
#[derive(Default)]
struct Host {
    cache: HashMap<String, Kept>,
    lifetimes: HashMap<String, Option<i64>>,
    artists: HashMap<String, (String, String, Vec<String>)>,
    broken: Vec<String>,
    pages: HashMap<String, String>,
    asked: Vec<String>,
    splits: usize,
    refuse: bool,
}

impl Host {
    /// MusicBrainz knows an artist under a query.
    fn knows(mut self, query: &str, id: &str, name: &str, aliases: &[&str]) -> Host {
        let url = format!("{}/artist?query=artist:{}&fmt=json&limit=3", BASE, query);
        self.artists.insert(url, (id.to_string(), name.to_string(), texts(aliases)));
        self
    }

    fn with_page(mut self, path: &str, page: &str) -> Host {
        self.pages.insert(format!("{}{}", BASE, path), page.to_string());
        self
    }

    fn answer(&mut self, request: Request) -> Reply {
        assert_eq!(
            request.throttle().is_some(),
            matches!(request, Request::SearchArtists(_) | Request::Fetch(_, _))
        );
        match request {
            Request::ReadText(key) => Reply::Text(match self.cache.get(&key) {
                Some(Kept::Text(s)) => Some(s.clone()),
                _ => None,
            }),
            Request::ReadList(key) => Reply::List(match self.cache.get(&key) {
                Some(Kept::List(l)) => Some(l.clone()),
                _ => None,
            }),
            Request::ReadFlag(key) => Reply::Flag(match self.cache.get(&key) {
                Some(Kept::Flag(b)) => Some(*b),
                _ => None,
            }),
            Request::StoreText(key, text) => self.store(key, Kept::Text(text), None),
            Request::StoreList(key, list) => self.store(key, Kept::List(list), None),
            Request::StoreFlag(key, lifetime) => self.store(key, Kept::Flag(true), lifetime),
            Request::SearchArtists(url) => {
                self.asked.push(url.clone());
                if self.broken.contains(&url) {
                    return Reply::Artists(ArtistReply::Failed("down".to_string()));
                }
                let artists = match self.artists.get(&url) {
                    Some((id, name, aliases)) => vec![artist(id, name, aliases)],
                    None => Vec::new(),
                };
                Reply::Artists(ArtistReply::Found(page(artists)))
            }
            Request::Fetch(Service::MusicBrainz, url) => {
                self.asked.push(url.clone());
                Reply::Page(self.pages.get(&url).cloned().ok_or("no page".to_string()))
            }
            Request::SplitArtist(name) => {
                self.splits += 1;
                Reply::Names(name.split(", ").map(|s| s.to_string()).collect())
            }
            other => panic!("unexpected request {:?}", other),
        }
    }

    fn store(&mut self, key: String, kept: Kept, lifetime: Option<i64>) -> Reply {
        if self.refuse {
            return Reply::Stored(false);
        }
        self.lifetimes.insert(key.clone(), lifetime);
        self.cache.insert(key, kept);
        Reply::Stored(true)
    }

    fn single(
        &mut self,
        step: Step<SingleSearch, MusicBrainzSearchResult>,
    ) -> MusicBrainzSearchResult {
        let mut step = step;
        loop {
            match step {
                Step::Done(result) => return result,
                Step::Ask(search, request) => step = search.resume(self.answer(request)),
            }
        }
    }

    fn mbids(&mut self, step: Step<MbidSearch, MusicBrainzSearchResult>) -> MusicBrainzSearchResult {
        let mut step = step;
        loop {
            match step {
                Step::Done(result) => return result,
                Step::Ask(search, request) => {
                    step = search.resume(&enabled(), self.answer(request))
                }
            }
        }
    }

    /// A search that takes a name for several artists.
    fn search(&mut self, name: &str) -> MusicBrainzSearchResult {
        self.mbids(search_mbids_for_artist(&enabled(), name, true, false, false))
    }

    fn group(&mut self, step: Step<GroupSearch, Option<String>>) -> Option<String> {
        let mut step = step;
        loop {
            match step {
                Step::Done(result) => return result,
                Step::Ask(search, request) => step = search.resume(self.answer(request)),
            }
        }
    }

    fn genres(&mut self, step: Step<GenreSearch, Vec<String>>) -> Vec<String> {
        let mut step = step;
        loop {
            match step {
                Step::Done(result) => return result,
                Step::Ask(search, request) => step = search.resume(self.answer(request)),
            }
        }
    }
}

fn artist(id: &str, name: &str, aliases: &[String]) -> MusicBrainzArtist {
    MusicBrainzArtist {
        id: id.to_string(),
        name: name.to_string(),
        aliases: aliases
            .iter()
            .map(|a| MusicBrainzAlias {
                name: a.clone(),
                sort_name: None,
                alias_type: None,
                locale: None,
            })
            .collect(),
        artist_type: None,
        score: Some(100),
    }
}

fn page(artists: Vec<MusicBrainzArtist>) -> MusicBrainzArtistSearchResponse {
    MusicBrainzArtistSearchResponse { count: artists.len() as u32, offset: 0, artists }
}

#[test]
fn configuration() {
    let mut config = MusicBrainzConfig::default();
    assert!(!is_enabled(&config));
    let section = parse_json("{\"enable\": true, \"rate_limit_ms\": 1000}").unwrap();
    assert_eq!(initialize_from_config(&mut config, Some(&section)), 1000);
    assert!(is_enabled(&config));
    // A section that does not say changes nothing.
    let section = parse_json("{\"enable\": \"no\"}").unwrap();
    assert_eq!(initialize_from_config(&mut config, Some(&section)), 500);
    assert!(is_enabled(&config));
    assert_eq!(initialize_from_config(&mut config, None), 500);
    assert!(!is_enabled(&config));
}

#[test]
fn disabled_searches_ask_nothing() {
    let off = MusicBrainzConfig::new();
    assert!(matches!(search_musicbrainz_for_artist(&off, "A", false), Step::Done(NotFound)));
    assert!(matches!(
        search_mbids_for_artist(&off, "A", true, false, true),
        Step::Done(NotFound)
    ));
    assert!(matches!(search_release_group_mbid(&off, "A", "B"), Step::Done(None)));
    assert!(matches!(search_release_group_genres(&off, "A", "B"), Step::Done(l) if l.is_empty()));
    match search_recording(&off, "A", "T") {
        Step::Done(Ok(page)) => {
            assert!(page.recordings.is_empty());
            assert_eq!((page.count, page.offset), (0, 0));
        }
        other => panic!("unexpected step {:?}", other),
    }
}

#[test]
fn search_for_one_artist() {
    let mut host = Host::default().knows("Simon%20and%20Garfunkel", "id-1", "Simon and Garfunkel", &[]);
    let search = |host: &mut Host| {
        host.single(search_musicbrainz_for_artist(&enabled(), "Simon & Garfunkel", false))
    };
    assert_eq!(search(&mut host), Found(texts(&["id-1"]), false));
    assert_eq!(
        host.asked,
        vec![format!("{}/artist?query=artist:Simon%20and%20Garfunkel&fmt=json&limit=3", BASE)]
    );
    assert_eq!(
        host.cache.get("artist::mbid::Simon & Garfunkel"),
        Some(&Kept::Text("id-1".to_string()))
    );
    assert_eq!(host.lifetimes.get("artist::mbid::Simon & Garfunkel"), Some(&None));
    // The second time it comes from the attribute cache.
    assert_eq!(search(&mut host), Found(texts(&["id-1"]), true));
    assert_eq!(host.asked.len(), 1);
}

#[test]
fn artist_that_is_not_found_is_remembered() {
    let mut host = Host::default().knows("Alpha", "id", "Something Else Entirely", &[]);
    for name in ["Alpha", "Nobody"] {
        let search = |host: &mut Host| {
            host.single(search_musicbrainz_for_artist(&enabled(), name, false))
        };
        let before = host.asked.len();
        assert_eq!(search(&mut host), NotFound);
        assert_eq!(search(&mut host), NotFound);
        assert_eq!(host.asked.len(), before + 1);
        let key = format!("artist::mbid_not_found::{}", name);
        assert_eq!(host.cache.get(&key), Some(&Kept::Flag(true)));
        assert_eq!(host.lifetimes.get(&key), Some(&Some(48 * 60 * 60)));
    }
}

#[test]
fn failed_search_is_not_repeated() {
    let url = format!("{}/artist?query=artist:A&fmt=json&limit=3", BASE);
    let mut host = Host { broken: vec![url], ..Host::default() };
    let search =
        |host: &mut Host| host.single(search_musicbrainz_for_artist(&enabled(), "A", false));
    assert_eq!(search(&mut host), Error("API request error: down".to_string()));
    assert_eq!(search(&mut host), NotFound);
    assert_eq!(host.asked.len(), 1);
    // The whole search hands the error on.
    let url = format!("{}/artist?query=artist:B%2C%20C&fmt=json&limit=3", BASE);
    host.broken.push(url);
    let error = Error("API request error: down".to_string());
    assert_eq!(host.search("B, C"), error);
    assert_eq!(host.cache.get("artist::mbid_not_found::B, C"), None);
    // It is kept where failures are.
    let step = search_mbids_for_artist(&enabled(), "B, C", true, false, true);
    assert_eq!(host.mbids(step), error);
    assert_eq!(host.cache.get("artist::mbid_not_found::B, C"), Some(&Kept::Flag(true)));
    let step = search_mbids_for_artist(&enabled(), "B, C", true, false, true);
    assert_eq!(host.mbids(step), NotFound);
}

#[test]
fn pages_that_cannot_be_read() {
    let judge = |length: usize| {
        judge_artists("A", ArtistReply::Malformed(length, "EOF".to_string())).0
    };
    assert_eq!(
        judge(49),
        Error("Response parse error: EOF (possibly truncated response)".to_string())
    );
    assert_eq!(judge(50), Error("Response parse error: EOF (check response format)".to_string()));
    match judge_artists("A", ArtistReply::Malformed(1, String::new())).1 {
        Request::StoreFlag(key, lifetime) => {
            assert_eq!(key, "artist::mbid_not_found::A");
            assert_eq!(lifetime, Some(172800));
        }
        other => panic!("unexpected request {:?}", other),
    }
}

#[test]
fn only_the_first_artist_of_a_page_counts() {
    let found = ArtistReply::Found(page(vec![
        artist("x", "Quite Different", &[]),
        artist("y", "Alpha", &[]),
    ]));
    assert_eq!(judge_artists("Alpha", found).0, NotFound);
    let found =
        ArtistReply::Found(page(vec![artist("x", "Prince", &texts(&["TAFKAP", "Symbol"]))]));
    assert_eq!(judge_artists("tafkap", found).0, Found(texts(&["x"]), false));
}

#[test]
fn several_artists_in_a_name() {
    let mut host = Host::default().knows("Ann", "id-a", "Ann", &[]).knows("Bob", "id-b", "Bob", &[]);
    assert_eq!(host.search("Ann, Bob"), Found(texts(&["id-a", "id-b"]), false));
    assert_eq!(
        host.cache.get("artist::mbid::Ann, Bob"),
        Some(&Kept::List(texts(&["id-a", "id-b"])))
    );
    assert_eq!(host.cache.get("artist::mbid_partial::Ann, Bob"), None);
    let asked = host.asked.len();
    assert_eq!(host.search("Ann, Bob"), Found(texts(&["id-a", "id-b"]), true));
    assert_eq!(host.asked.len(), asked);
}

#[test]
fn some_artists_in_a_name() {
    let mut host = Host::default().knows("Bob", "id-b", "Bob", &[]);
    assert_eq!(host.search("Zzyzx, Bob, Qwerty"), FoundPartial(texts(&["id-b"]), false));
    assert_eq!(
        host.cache.get("artist::mbid_partial::Zzyzx, Bob, Qwerty"),
        Some(&Kept::Flag(true))
    );
    assert_eq!(host.lifetimes.get("artist::mbid_partial::Zzyzx, Bob, Qwerty"), Some(&None));
    assert_eq!(host.search("Zzyzx, Bob, Qwerty"), FoundPartial(texts(&["id-b"]), true));
}

#[test]
fn result_does_not_hang_on_the_attribute_cache() {
    let mut host = Host::default().knows("Ann", "id-a", "Ann", &[]);
    host.refuse = true;
    assert_eq!(host.search("Ann, Qwerty"), FoundPartial(texts(&["id-a"]), false));
    assert!(host.cache.is_empty());
    let mut host = Host { refuse: true, ..Host::default() }
        .knows("Ann", "id-a", "Ann", &[])
        .knows("Bob", "id-b", "Bob", &[]);
    assert_eq!(host.search("Ann, Bob"), Found(texts(&["id-a", "id-b"]), false));
}

#[test]
fn name_is_split_only_if_allowed() {
    let mut host = Host::default().knows("Ann", "id-a", "Ann", &[]);
    let step = search_mbids_for_artist(&enabled(), "Ann, Bob", false, false, false);
    assert_eq!(host.mbids(step), NotFound);
    assert_eq!(host.splits, 0);
    // A name that splits into one part is not searched for again.
    assert_eq!(host.search("Solo"), NotFound);
    assert_eq!(host.splits, 1);
    assert_eq!(host.asked.len(), 2);
}

#[test]
fn lookups_disabled_meanwhile() {
    let off = MusicBrainzConfig::new();
    let mut host = Host::default().knows("Ann", "id-a", "Ann", &[]).knows("Bob", "id-b", "Bob", &[]);
    // Lookups are disabled once the first part is found.
    let mut step = search_mbids_for_artist(&enabled(), "Ann, Bob", true, false, false);
    let result = loop {
        match step {
            Step::Done(result) => break result,
            Step::Ask(search, request) => {
                let found = matches!(&request, Request::StoreText(key, _) if key == "artist::mbid::Ann");
                let reply = host.answer(request);
                let config = if found { off } else { enabled() };
                step = search.resume(&config, reply);
            }
        }
    };
    assert_eq!(result, FoundPartial(texts(&["id-a"]), false));
    assert!(!host.asked.iter().any(|url| url.contains("artist:Bob")));

    // Lookups are disabled before the name is searched for.
    let mut host = Host::default().knows("Ann", "id-a", "Ann", &[]);
    let mut step = search_mbids_for_artist(&enabled(), "Ann", true, false, false);
    let result = loop {
        match step {
            Step::Done(result) => break result,
            Step::Ask(search, request) => step = search.resume(&off, host.answer(request)),
        }
    };
    assert_eq!(result, NotFound);
    assert!(host.asked.is_empty());
}

#[test]
fn cache_only_asks_no_web_service() {
    let mut host = Host::default().knows("Ann", "id-a", "Ann", &[]);
    let search = |host: &mut Host, name: &str| {
        host.mbids(search_mbids_for_artist(&enabled(), name, true, true, false))
    };
    assert_eq!(search(&mut host, "Ann, Bob"), NotFound);
    assert!(host.asked.is_empty());
    host.cache.insert("artist::mbid::Bob".to_string(), Kept::Text("id-b".to_string()));
    // What comes from the attribute cache counts as cached.
    assert_eq!(search(&mut host, "Ann, Bob"), FoundPartial(texts(&["id-b"]), true));
    assert!(host.asked.is_empty());
}

#[test]
fn parts_from_the_cache_count_as_cached() {
    let mut host = Host::default();
    host.cache.insert("artist::mbid::Queen".to_string(), Kept::Text("q1".to_string()));
    host.cache.insert("artist::mbid::Abba".to_string(), Kept::Text("a1".to_string()));
    let step = search_mbids_for_artist(&enabled(), "Queen, Abba", true, true, false);
    assert_eq!(host.mbids(step), Found(texts(&["q1", "a1"]), true));
    assert!(host.asked.is_empty());
    // One part from MusicBrainz is enough for the others not to.
    let mut host = Host::default().knows("Ann", "id-a", "Ann", &[]);
    host.cache.insert("artist::mbid::Abba".to_string(), Kept::Text("a1".to_string()));
    assert_eq!(host.search("Ann, Abba"), Found(texts(&["id-a", "a1"]), false));
}

#[test]
fn failures_are_kept_if_wanted() {
    let mut host = Host::default();
    let search = |host: &mut Host| {
        host.mbids(search_mbids_for_artist(&enabled(), "Nobody", false, true, true))
    };
    assert_eq!(search(&mut host), NotFound);
    assert_eq!(host.cache.get("artist::mbid_not_found::Nobody"), Some(&Kept::Flag(true)));
    assert_eq!(host.lifetimes.get("artist::mbid_not_found::Nobody"), Some(&Some(172800)));
    // From now on the identifiers are not even looked at.
    host.cache.insert("artist::mbid::Nobody".to_string(), Kept::List(texts(&["id"])));
    assert_eq!(search(&mut host), NotFound);

    for name in ["Abba", "Ann, Bob"] {
        for cache_only in [false, true] {
            let mut host = Host::default();
            let step = search_mbids_for_artist(&enabled(), name, true, cache_only, false);
            assert_eq!(host.mbids(step), NotFound);
            assert!(host.cache.is_empty());
        }
    }
}

#[test]
fn name_that_its_parts_settle_is_no_failure() {
    let mut host = Host::default().knows("Ann", "id-a", "Ann", &[]);
    let search = |host: &mut Host| {
        host.mbids(search_mbids_for_artist(&enabled(), "Ann, Qwerty", true, false, true))
    };
    assert_eq!(search(&mut host), FoundPartial(texts(&["id-a"]), false));
    assert_eq!(host.cache.get("artist::mbid_not_found::Ann, Qwerty"), None);
    // The part that was not found is kept as such.
    assert_eq!(host.cache.get("artist::mbid_not_found::Qwerty"), Some(&Kept::Flag(true)));
    let asked = host.asked.len();
    assert_eq!(search(&mut host), FoundPartial(texts(&["id-a"]), true));
    assert_eq!(host.asked.len(), asked);
}

#[test]
fn names_for_comparison() {
    let form = |name: &str| normalize_artist_name_for_comparison(name);
    assert_eq!(form("The Beatles"), "beatles");
    assert_eq!(form("  Guns   N' Roses "), "gunsnroses");
    assert_eq!(form("Simon and Garfunkel"), "simongarfunkel");
    assert_eq!(form("Björk"), "bjork");
    assert_eq!(form("Sigur Rós"), "sigurros");
    assert_eq!(form("Therapy? Andes"), "therapyandes");
    assert_eq!(form("AC/DC"), "acdc");
    assert_eq!(form("!!!"), "");
    assert_eq!(form(""), "");
    // A form is its own form, and case makes no difference.
    for name in ["The Beatles", "Guns N' Roses", "Sigur Rós", "the", "AC/DC"] {
        assert_eq!(form(&form(name)), form(name));
        assert_eq!(form(&name.to_ascii_uppercase()), form(name));
    }
    // Common words stay if there are no others; spaces never do.
    assert_eq!(form("The  The"), "thethe");
    assert_eq!(form("and The"), "andthe");
    assert_eq!(form("The The"), form(&form("The The")));
    assert_eq!(form("the"), "the");
}

#[test]
fn names_for_search() {
    assert_eq!(sanitize_artist_name_for_search("A & B&C"), "A and BandC");
    assert_eq!(sanitize_artist_name_for_search("plain"), "plain");
}

#[test]
fn matching_names() {
    assert!(artist_names_match("The Beatles", "BEATLES", None));
    assert!(artist_names_match("Beyoncé", "Beyonce", None));
    assert!(artist_names_match("Metallica", "Metalica", None));
    assert!(!artist_names_match("Metallica", "Megadeth", None));
    let aliases = texts(&["The Artist", "TAFKAP"]);
    assert!(artist_names_match("tafkap", "Prince", Some(&aliases)));
    assert!(!artist_names_match("Madonna", "Prince", Some(&aliases)));
    assert!(!artist_names_match("TAFKAP", "Prince", None));
}

#[test]
fn resemblance_of_names() {
    // The least that counts is 0.9.
    assert!(close_enough(true, 0.0f64.to_bits()));
    assert!(close_enough(false, 0.9f64.to_bits()));
    assert!(close_enough(false, 1.0f64.to_bits()));
    assert!(!close_enough(false, 0.8999999999999999f64.to_bits()));
    assert!(!close_enough(false, 0.0f64.to_bits()));
    assert!(strsim::jaro_winkler("dixon", "dicksonx") < 0.9);
    assert!(!artist_names_match("dixon", "dicksonx", None));
    assert!(strsim::jaro_winkler("martha", "marhta") >= 0.9);
    assert!(artist_names_match("martha", "marhta", None));
}

#[test]
fn identifiers() {
    assert!(is_mbid("a74b1b7f-71a5-4011-9441-d0b5e4122711"));
    assert!(is_mbid("A74B1B7F-71A5-4011-9441-D0B5E4122711"));
    assert!(!is_mbid("a74b1b7f-71a5-4011-9441-d0b5e412271"));
    assert!(!is_mbid("g74b1b7f-71a5-4011-9441-d0b5e4122711"));
    assert!(!is_mbid("a74b1b7f071a5-4011-9441-d0b5e4122711"));
    assert!(!is_mbid("a74b1b7f-71a5-4011-9441-d0b5e412271é"));
    assert!(!is_mbid(""));
    // The dashes have their places.
    assert!(!is_mbid("----0123456789abcdef0123456789abcdef"));
    assert!(!is_mbid("a74b1b7f7-1a5-4011-9441-d0b5e4122711"));
    assert!(!is_mbid("a74b1b7f-71a5-4011-9441-d0b5e412271-"));
}

#[test]
fn responses_of_the_api() {
    assert_eq!(musicbrainz_api_get(Received::Body("x".to_string())), Ok("x".to_string()));
    assert_eq!(
        musicbrainz_api_get(Received::Body(String::new())),
        Err("Empty response from MusicBrainz API".to_string())
    );
    assert_eq!(
        musicbrainz_api_get(Received::RequestFailed("404".to_string())),
        Err("Request error: 404".to_string())
    );
    assert_eq!(
        musicbrainz_api_get(Received::ReadFailed("cut".to_string())),
        Err("Response error: cut".to_string())
    );
}

#[test]
fn release_groups() {
    let path = "/release-group?query=artist%3A%22A+\\%22B\\%22%22+AND+releasegroup%3A%22C%3A+D%22&limit=1&fmt=json";
    let mut host = Host::default()
        .with_page(path, "{\"release-groups\": [{\"id\": \"g-1\"}, {\"id\": \"g-2\"}]}");
    let step = search_release_group_mbid(&enabled(), "A \"B\"", "C: D");
    assert_eq!(host.group(step), Some("g-1".to_string()));
    assert_eq!(host.asked, vec![format!("{}{}", BASE, path)]);
    let step = search_release_group_mbid(&enabled(), "X", "Y");
    assert_eq!(host.group(step), None);

    let pick = |text: &str| pick_release_group(&parse_json(text).unwrap());
    assert_eq!(pick("{\"release-groups\": []}"), None);
    assert_eq!(pick("{\"release-groups\": {\"0\": {\"id\": \"x\"}}}"), None);
    assert_eq!(pick("{\"release-groups\": [{\"id\": 7}]}"), None);
    assert_eq!(pick("[]"), None);
    assert_eq!(pick("{\"release-groups\": [{\"id\": \"x\"}]}"), Some("x".to_string()));
}

#[test]
fn genres_of_a_release_group() {
    let path = "/release-group?query=artist%3A%22A%22+AND+releasegroup%3A%22B%22&limit=1&fmt=json";
    let mut host = Host::default()
        .with_page(path, "{\"release-groups\": [{\"id\": \"g-1\"}]}")
        .with_page(
            "/release-group/g-1?inc=genres&fmt=json",
            "{\"genres\": [{\"name\": \"Rock\"}, {\"name\": \"art Pop\"}, {\"count\": 1}, {\"name\": \"rock\"}]}",
        );
    let step = search_release_group_genres(&enabled(), "A", "B");
    assert_eq!(host.genres(step), vec!["art pop", "rock"]);
    assert_eq!(host.asked.len(), 2);
    let step = search_release_group_genres(&enabled(), "A", "C");
    assert!(host.genres(step).is_empty());

    let mut host = Host::default().with_page(path, "{\"release-groups\": [{\"id\": \"g-2\"}]}");
    let step = search_release_group_genres(&enabled(), "A", "B");
    assert!(host.genres(step).is_empty());
    let mut host = host.with_page("/release-group/g-2?inc=genres&fmt=json", "not json");
    let step = search_release_group_genres(&enabled(), "A", "B");
    assert!(host.genres(step).is_empty());
}

#[test]
fn genres_stand_in_order() {
    let pick = |text: &str| pick_genres(&parse_json(text).unwrap());
    assert!(pick("{\"genres\": 1}").is_empty());
    assert_eq!(
        pick("{\"genres\": [{\"name\": \"b\"}, {\"name\": \"ab\"}, {\"name\": \"É\"}, {\"name\": \"a\"}, {\"name\": \"B\"}]}"),
        vec!["a", "ab", "b", "é"]
    );
}

#[test]
fn recordings() {
    let (search, url) = match search_recording(&enabled(), "A", "T & U") {
        Step::Ask(search, Request::SearchRecordings(url)) => (search, url),
        other => panic!("unexpected step {:?}", other),
    };
    assert_eq!(
        url,
        format!(
            "{}/recording/?query=artist%3A%22A%22%20AND%20recording%3A%22T%20%26%20U%22&fmt=json&limit=5",
            BASE
        )
    );
    let page = MusicBrainzRecordingSearchResponse {
        count: 1,
        offset: 2,
        recordings: vec![MusicBrainzRecording {
            id: "r".to_string(),
            title: "T".to_string(),
            artist_credit: None,
            score: Some(90),
        }],
    };
    match search.resume(Reply::Recordings(RecordingReply::Found(page))) {
        Step::Done(Ok(page)) => {
            assert_eq!((page.count, page.offset), (1, 2));
            assert_eq!(page.recordings[0].id, "r");
        }
        other => panic!("unexpected step {:?}", other),
    }
    let failures = vec![
        RecordingReply::Failed("down".to_string()),
        RecordingReply::Malformed("EOF".to_string()),
    ];
    for failure in failures {
        match search_recording(&enabled(), "A", "T") {
            Step::Ask(search, _) => match search.resume(Reply::Recordings(failure)) {
                Step::Done(Ok(page)) => {
                    assert!(page.recordings.is_empty());
                    assert_eq!(page.count, 0);
                }
                other => panic!("unexpected step {:?}", other),
            },
            other => panic!("unexpected step {:?}", other),
        }
    }
}

#[test]
fn splitting_requests() {
    match split_artist("A, B") {
        Request::SplitArtist(name) => assert_eq!(name, "A, B"),
        other => panic!("unexpected request {:?}", other),
    }
    match split_artist_names("A; B", true, Some(texts(&[";"]).as_slice())) {
        Request::SplitNames(name, cache_only, separators) => {
            assert_eq!(name, "A; B");
            assert!(cache_only);
            assert_eq!(separators, Some(texts(&[";"])));
        }
        other => panic!("unexpected request {:?}", other),
    }
}
