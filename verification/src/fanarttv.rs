//! Artist and album images on FanArt.tv.

use vstd::prelude::*;
use crate::coverart::{CoverartMethod, CoverartMethods};
use crate::json::{json_parsed, parse_json, say_all, Json, JsonValue};
use crate::musicbrainz::{
    group_next, group_start, mbids_next, mbids_start, search_mbids_for_artist,
    search_release_group_mbid, Findings, GroupSearch, MbidSearch, MbidState, MusicBrainzConfig,
    MusicBrainzSearchResult, Terms,
};
use crate::protocol::{Answer, Asking, Modelled, Move, Reply, Request, Service, Step};
use crate::text::{join2, lemma_texts_push, no_texts, owned, texts};

verus! {

/// Settings for FanArt.tv: whether it is asked, and the API key.
#[derive(Debug, Clone)]
pub struct FanarttvConfig {
    pub enabled: bool,
    pub api_key: String,
}

/// The rate limit where the configuration sets none, in milliseconds.
pub const DEFAULT_RATE_LIMIT_MS: u64 = 500;

impl FanarttvConfig {
    /// The settings before any configuration: lookups are disabled, and there is no
    /// API key
    pub fn new() -> (r: Self)
        ensures
            !r.enabled,
            r.api_key@.len() == 0,
    {
        FanarttvConfig { enabled: false, api_key: String::new() }
    }

    /// The API key, if there is one.
    pub open spec fn key(&self) -> Option<Seq<char>> {
        if self.api_key@.len() > 0 {
            Some(self.api_key@)
        } else {
            None
        }
    }
}

impl Default for FanarttvConfig {
    fn default() -> (r: Self)
        ensures
            !r.enabled,
            r.api_key@.len() == 0,
    {
        FanarttvConfig::new()
    }
}

/// The API key that serves where the configuration has none.
pub fn default_fanarttv_api_key() -> (r: String)
    ensures
        r@ == "749a8fca4f2d3b0462b287820ad6ab06"@,
{
    owned("749a8fca4f2d3b0462b287820ad6ab06")
}

/// Initialize FanArt.tv from its section of the configuration. Without a section,
/// and in a section that does not say otherwise, lookups are enabled, with the
/// default API key. Returns the rate limit to register, in milliseconds.
pub fn initialize_from_config(config: &mut FanarttvConfig, section: Option<&JsonValue>) -> (r: u64)
    ensures
        final(config).enabled == match section {
            Some(s) => match s.says().field_truth("enable"@) {
                Some(b) => b,
                None => true,
            },
            None => true,
        },
        final(config).api_key@ == match section {
            Some(s) => match s.says().field_string("api_key"@) {
                Some(key) => if key.len() > 0 {
                    key
                } else {
                    "749a8fca4f2d3b0462b287820ad6ab06"@
                },
                None => "749a8fca4f2d3b0462b287820ad6ab06"@,
            },
            None => "749a8fca4f2d3b0462b287820ad6ab06"@,
        },
        r == match section {
            Some(s) => match s.says().field_natural("rate_limit_ms"@) {
                Some(n) => n,
                None => DEFAULT_RATE_LIMIT_MS,
            },
            None => DEFAULT_RATE_LIMIT_MS,
        },
        final(config).key() == Some(final(config).api_key@),
{
    proof {
        reveal_strlit("749a8fca4f2d3b0462b287820ad6ab06");
    }
    match section {
        Some(s) => {
            config.enabled = match s.get_bool("enable") {
                Some(b) => b,
                None => true,
            };
            config.api_key = match s.get_str("api_key") {
                Some(key) => {
                    if key.as_str().is_empty() {
                        default_fanarttv_api_key()
                    } else {
                        key.clone()
                    }
                },
                None => default_fanarttv_api_key(),
            };
            match s.get_u64("rate_limit_ms") {
                Some(n) => n,
                None => DEFAULT_RATE_LIMIT_MS,
            }
        },
        None => {
            config.enabled = true;
            config.api_key = default_fanarttv_api_key();
            DEFAULT_RATE_LIMIT_MS
        },
    }
}

/// Check if FanArt.tv lookups are enabled
pub fn is_enabled(config: &FanarttvConfig) -> (r: bool)
    ensures
        r == config.enabled,
{
    config.enabled
}

/// Get the configured API key
pub fn get_api_key(config: &FanarttvConfig) -> (r: Option<String>)
    ensures
        r.model() == config.key(),
{
    if config.api_key.as_str().is_empty() {
        None
    } else {
        Some(config.api_key.clone())
    }
}

/// [`moka::sync::Cache`]: a bounded cache whose entries expire.
#[verifier::external_type_specification]
#[verifier::external_body]
#[verifier::reject_recursive_types(K)]
#[verifier::reject_recursive_types(V)]
#[verifier::reject_recursive_types(S)]
pub struct ExCache<K, V, S>(moka::sync::Cache<K, V, S>);

/// What was inserted into a cache, under each key what came last. What the cache
/// still holds is a part of it: entries expire and are evicted.
pub uninterp spec fn inserted(cache: moka::sync::Cache<String, bool>) -> Map<Seq<char>, bool>;

/// How long a cache keeps an entry, in seconds.
pub uninterp spec fn lifetime(cache: moka::sync::Cache<String, bool>) -> nat;

/// How many entries a cache keeps.
pub uninterp spec fn capacity(cache: moka::sync::Cache<String, bool>) -> nat;

/// [`moka::sync::CacheBuilder`] with `time_to_live` and `max_capacity`: an empty
/// cache with these limits. A time to live of more than 1000 years would panic.
#[verifier::external_body]
fn build_cache(seconds: u64, entries: u64) -> (r: moka::sync::Cache<String, bool>)
    requires
        seconds <= 31_536_000_000,
    ensures
        inserted(r).dom() == Set::<Seq<char>>::empty(),
        lifetime(r) == seconds,
        capacity(r) == entries,
{
    moka::sync::Cache::builder()
        .time_to_live(std::time::Duration::from_secs(seconds))
        .max_capacity(entries)
        .build()
}

/// [`moka::sync::Cache::get`]: what comes back was inserted under this key, and
/// nothing since. When an entry is gone depends on the time and on the other
/// entries, and is left unsaid.
#[verifier::external_body]
fn cache_get(cache: &moka::sync::Cache<String, bool>, key: &str) -> (r: Option<bool>)
    ensures
        r matches Some(b) ==> inserted(*cache).dom().contains(key@) && inserted(*cache)[key@] == b,
{
    cache.get(key)
}

/// [`moka::sync::Cache::insert`]: puts an entry into the cache; one under the same
/// key is replaced. The limits stay.
#[verifier::external_body]
fn cache_insert(cache: &mut moka::sync::Cache<String, bool>, key: String, value: bool)
    ensures
        inserted(*final(cache)) == inserted(*old(cache)).insert(key@, value),
        lifetime(*final(cache)) == lifetime(*old(cache)),
        capacity(*final(cache)) == capacity(*old(cache)),
{
    cache.insert(key, value)
}

/// The MusicBrainz IDs for which a lookup failed, for a while.
pub struct FailedMbidCache {
    cache: moka::sync::Cache<String, bool>,
}

impl FailedMbidCache {
    /// The MusicBrainz IDs that were recorded.
    pub closed spec fn recorded(&self) -> Set<Seq<char>> {
        inserted(self.cache).dom()
    }

    /// How long a MusicBrainz ID is remembered, in seconds.
    pub closed spec fn seconds(&self) -> nat {
        lifetime(self.cache)
    }

    /// How many MusicBrainz IDs are remembered.
    pub closed spec fn entries(&self) -> nat {
        capacity(self.cache)
    }

    /// A cache that remembers 1000 MusicBrainz IDs for 24 hours
    pub fn new() -> (r: Self)
        ensures
            r.recorded() == Set::<Seq<char>>::empty(),
            r.seconds() == 86400,
            r.entries() == 1000,
    {
        let r = FailedMbidCache { cache: build_cache(86400, 1000) };
        assert(r.recorded() =~= Set::empty());
        r
    }

    /// Asked for a MusicBrainz ID, the cache had an entry or not.
    pub closed spec fn told(&self, mbid: &str, seen: bool) -> bool {
        exists|found: Option<bool>| #[trigger]
            call_ensures(cache_get, (&self.cache, mbid), found) && seen == (found is Some)
    }

    /// Whether a MusicBrainz ID is remembered. One that was never recorded is not;
    /// one that was may have been forgotten.
    pub fn contains(&self, mbid: &str) -> (r: bool)
        ensures
            self.told(mbid, r),
            r ==> self.recorded().contains(mbid@),
    {
        match cache_get(&self.cache, mbid) {
            Some(_) => true,
            None => false,
        }
    }

    /// Records a MusicBrainz ID.
    pub fn record(&mut self, mbid: String)
        ensures
            final(self).recorded() == old(self).recorded().insert(mbid@),
            final(self).seconds() == old(self).seconds(),
            final(self).entries() == old(self).entries(),
    {
        cache_insert(&mut self.cache, mbid, true);
        assert(self.recorded() =~= old(self).recorded().insert(mbid@));
    }
}

/// Whether a MusicBrainz ID is remembered is what the cache of entries that expire says of
/// it, and nothing else.
proof fn law_remembered_as_the_cache_says(failed: FailedMbidCache, mbid: &str, r: bool)
    requires
        call_ensures(FailedMbidCache::contains, (&failed, mbid), r),
    ensures
        exists|found: Option<bool>| #[trigger]
            call_ensures(cache_get, (&failed.cache, mbid), found) && (r <==> found is Some),
{
}

/// Asked whether it remembers a MusicBrainz ID, the cache said so or not.
pub open spec fn consulted(failed: FailedMbidCache, mbid: Seq<char>, seen: bool) -> bool {
    exists|key: &str|
        key@ == mbid && #[trigger] call_ensures(FailedMbidCache::contains, (&failed, key), seen)
}

/// Where the images of a MusicBrainz ID are to be looked up, the cache was asked for it;
/// elsewhere nothing was seen.
pub open spec fn settled(failed: FailedMbidCache, mbid: Option<Seq<char>>, seen: bool) -> bool {
    match mbid {
        Some(mbid) => consulted(failed, mbid, seen),
        None => !seen,
    }
}

/// What settles a case: without a MusicBrainz ID nothing is seen, and with one the answer
/// of the cache counts.
proof fn lemma_settled(failed: FailedMbidCache)
    ensures
        settled(failed, None, false),
        forall|mbid: Seq<char>, seen: bool| #[trigger]
            consulted(failed, mbid, seen) ==> settled(failed, Some(mbid), seen),
{
}

/// A MusicBrainz ID is remembered only if it was recorded.
pub proof fn law_remembered_was_recorded(failed: FailedMbidCache, mbid: Seq<char>)
    requires
        consulted(failed, mbid, true),
    ensures
        failed.recorded().contains(mbid),
{
    let key = choose|key: &str|
        key@ == mbid && #[trigger] call_ensures(FailedMbidCache::contains, (&failed, key), true);
    assert(call_ensures(FailedMbidCache::contains, (&failed, key), true));
}

/// What is looked up for an artist: thumbnails, up to a number of them, banners, or
/// the covers of an album.
#[verifier::ext_equal]
pub enum Images {
    Thumbnails(nat),
    Banners,
    Covers(Seq<char>),
}

/// What is looked up for an artist.
#[derive(Debug)]
pub enum Wanted {
    /// Thumbnails, up to this many.
    Thumbnails(usize),
    /// Banners.
    Banners,
    /// The covers of the album with this release-group ID.
    Covers(String),
}

impl Modelled for Wanted {
    type M = Images;

    open spec fn model(&self) -> Images {
        match self {
            Wanted::Thumbnails(max) => Images::Thumbnails(*max as nat),
            Wanted::Banners => Images::Banners,
            Wanted::Covers(album) => Images::Covers(album@),
        }
    }
}

/// The URLs of a list of images, without those that have none.
pub open spec fn urls_of(images: Seq<Json>) -> Seq<Seq<char>>
    decreases images.len(),
{
    if images.len() == 0 {
        Seq::empty()
    } else {
        let before = urls_of(images.drop_last());
        match images.last().field_string("url"@) {
            Some(url) => before.push(url),
            None => before,
        }
    }
}

/// The covers of an album on a page.
pub open spec fn album_section(page: Json, album: Seq<char>) -> Option<Seq<Json>> {
    match page.field("albums"@) {
        Some(albums) => match albums.field(album) {
            Some(entry) => entry.field_items("albumcover"@),
            None => None,
        },
        None => None,
    }
}

impl Images {
    /// The section of a page that holds the images.
    pub open spec fn section(self, page: Json) -> Option<Seq<Json>> {
        match self {
            Images::Thumbnails(_) => page.field_items("artistthumb"@),
            Images::Banners => page.field_items("musicbanner"@),
            Images::Covers(album) => album_section(page, album),
        }
    }

    /// The URLs that a page has on the images.
    pub open spec fn available(self, page: Json) -> Seq<Seq<char>> {
        match self.section(page) {
            Some(images) => urls_of(images),
            None => Seq::empty(),
        }
    }

    /// The URLs of a page that are handed out.
    pub open spec fn picked(self, page: Json) -> Seq<Seq<char>> {
        let all = self.available(page);
        match self {
            Images::Thumbnails(max) => if max < all.len() {
                all.take(max as int)
            } else {
                all
            },
            _ => all,
        }
    }

    /// The URLs that come of the reply to a request.
    pub open spec fn found(self, page: Result<Seq<char>, Seq<char>>) -> Seq<Seq<char>> {
        match page {
            Ok(text) => match json_parsed(text) {
                Ok(json) => self.picked(json),
                Err(_) => Seq::empty(),
            },
            Err(_) => Seq::empty(),
        }
    }

    /// A page shows that the lookup failed: it has no image of the artist. An album
    /// without covers is no failure.
    pub open spec fn lacking(self, page: Json) -> bool {
        match self {
            Images::Covers(_) => false,
            _ => self.available(page).len() == 0,
        }
    }

    /// The reply to a request shows that the lookup failed.
    pub open spec fn failed(self, page: Result<Seq<char>, Seq<char>>) -> bool {
        match page {
            Ok(text) => match json_parsed(text) {
                Ok(json) => self.lacking(json),
                Err(_) => true,
            },
            Err(_) => true,
        }
    }
}

/// The page on an artist.
pub open spec fn artist_page_url(mbid: Seq<char>, key: Seq<char>) -> Seq<char> {
    "http://webservice.fanart.tv/v3/music/"@ + mbid + "?api_key="@ + key
}

/// A lookup of images under way.
#[verifier::ext_equal]
pub struct ArtState {
    pub images: Images,
    pub mbid: Seq<char>,
}

/// A lookup of images under way.
#[derive(Debug)]
pub struct ArtLookup {
    wanted: Wanted,
    mbid: String,
}

impl Modelled for ArtLookup {
    type M = ArtState;

    closed spec fn model(&self) -> ArtState {
        ArtState { images: self.wanted.model(), mbid: self.mbid@ }
    }
}

/// The first step of a lookup of images, where it was seen or not that an earlier
/// one failed.
pub open spec fn art_start(
    config: FanarttvConfig,
    seen: bool,
    images: Images,
    mbid: Seq<char>,
) -> Move<ArtState, Seq<Seq<char>>> {
    match config.key() {
        Some(key) => if config.enabled && !seen {
            Move::Ask(
                ArtState { images, mbid },
                Asking::Fetch(Service::FanartTv, artist_page_url(mbid, key)),
            )
        } else {
            Move::Done(Seq::empty())
        },
        None => Move::Done(Seq::empty()),
    }
}

/// The next step of a lookup of images.
pub open spec fn art_next(state: ArtState, answer: Answer) -> Move<ArtState, Seq<Seq<char>>> {
    Move::Done(state.images.found(answer.page()))
}

/// The MusicBrainz IDs that are recorded after a lookup of images.
pub open spec fn recorded_after(
    recorded: Set<Seq<char>>,
    state: ArtState,
    answer: Answer,
) -> Set<Seq<char>> {
    if state.images.failed(answer.page()) {
        recorded.insert(state.mbid)
    } else {
        recorded
    }
}

/// Starts a lookup of images, where it was seen or not that an earlier one failed.
pub fn start_lookup(config: &FanarttvConfig, seen: bool, wanted: Wanted, mbid: &str) -> (r: Step<
    ArtLookup,
    Vec<String>,
>)
    ensures
        r.model() == art_start(*config, seen, wanted.model(), mbid@),
{
    if !is_enabled(config) {
        return Step::Done(no_texts());
    }
    let key = match get_api_key(config) {
        Some(key) => key,
        None => {
            return Step::Done(no_texts());
        },
    };
    if seen {
        return Step::Done(no_texts());
    }
    let mut url = join2("http://webservice.fanart.tv/v3/music/", mbid);
    url.append("?api_key=");
    url.append(key.as_str());
    Step::Ask(
        ArtLookup { wanted, mbid: owned(mbid) },
        Request::Fetch(Service::FanartTv, url),
    )
}

/// Get artist thumbnail URLs from FanArt.tv
///
/// # Arguments
/// * `artist_mbid` - MusicBrainz ID of the artist
/// * `max_images` - Maximum number of images to return (default: 10)
pub fn get_artist_thumbnails(
    config: &FanarttvConfig,
    failed: &FailedMbidCache,
    artist_mbid: &str,
    max_images: Option<usize>,
) -> (r: Step<ArtLookup, Vec<String>>)
    ensures
        ({
            let images = Images::Thumbnails(
                match max_images {
                    Some(max) => max as nat,
                    None => 10,
                },
            );
            exists|seen: bool| #[trigger]
                consulted(*failed, artist_mbid@, seen) && r.model() == art_start(
                    *config,
                    seen,
                    images,
                    artist_mbid@,
                )
        }),
{
    let max: usize = match max_images {
        Some(max) => max,
        None => 10,
    };
    let seen = failed.contains(artist_mbid);
    assert(consulted(*failed, artist_mbid@, seen));
    start_lookup(config, seen, Wanted::Thumbnails(max), artist_mbid)
}

/// Get artist banner URLs from FanArt.tv
///
/// # Arguments
/// * `artist_mbid` - MusicBrainz ID of the artist
pub fn get_artist_banners(config: &FanarttvConfig, failed: &FailedMbidCache, artist_mbid: &str) -> (r:
    Step<ArtLookup, Vec<String>>)
    ensures
        exists|seen: bool| #[trigger]
            consulted(*failed, artist_mbid@, seen) && r.model() == art_start(
                *config,
                seen,
                Images::Banners,
                artist_mbid@,
            ),
{
    let seen = failed.contains(artist_mbid);
    assert(consulted(*failed, artist_mbid@, seen));
    start_lookup(config, seen, Wanted::Banners, artist_mbid)
}

/// Get album cover URLs from FanArt.tv
///
/// FanArt.tv's music endpoint is keyed by artist MBID and returns all of that
/// artist's albums (keyed by release-group MBID) in one response, each with its
/// own `albumcover` and `cdart` arrays. This only reads `albumcover` - `cdart` is
/// a separate, round "CD art" image, not the album cover.
///
/// # Arguments
/// * `artist_mbid` - MusicBrainz ID of the artist
/// * `album_mbid` - MusicBrainz release-group ID of the album
pub fn get_album_covers(
    config: &FanarttvConfig,
    failed: &FailedMbidCache,
    artist_mbid: &str,
    album_mbid: &str,
) -> (r: Step<ArtLookup, Vec<String>>)
    ensures
        exists|seen: bool| #[trigger]
            consulted(*failed, artist_mbid@, seen) && r.model() == art_start(
                *config,
                seen,
                Images::Covers(album_mbid@),
                artist_mbid@,
            ),
{
    let seen = failed.contains(artist_mbid);
    assert(consulted(*failed, artist_mbid@, seen));
    start_lookup(config, seen, Wanted::Covers(owned(album_mbid)), artist_mbid)
}

/// The URLs of a list of images, without those that have none.
fn collect_urls(images: &Vec<JsonValue>) -> (r: Vec<String>)
    ensures
        texts(r@) == urls_of(say_all(images@)),
{
    let mut urls = no_texts();
    let ghost all = say_all(images@);
    let mut i: usize = 0;
    assert(all.take(0) =~= Seq::empty());
    while i < images.len()
        invariant
            i <= images.len(),
            all == say_all(images@),
            texts(urls@) == urls_of(all.take(i as int)),
        decreases images.len() - i,
    {
        assert(all.take(i + 1).drop_last() =~= all.take(i as int));
        match images[i].get_str("url") {
            Some(url) => {
                let url = url.clone();
                proof {
                    lemma_texts_push(urls@, url);
                }
                urls.push(url);
            },
            None => {},
        }
        i = i + 1;
    }
    assert(all.take(i as int) =~= all);
    urls
}

impl Wanted {
    /// The URLs that a page has on the images.
    pub fn list_available(&self, page: &JsonValue) -> (r: Vec<String>)
        ensures
            texts(r@) == self.model().available(page.says()),
    {
        let section = match self {
            Wanted::Thumbnails(_) => page.get_array("artistthumb"),
            Wanted::Banners => page.get_array("musicbanner"),
            Wanted::Covers(album) => match page.get("albums") {
                Some(albums) => match albums.get(album.as_str()) {
                    Some(entry) => entry.get_array("albumcover"),
                    None => None,
                },
                None => None,
            },
        };
        match section {
            Some(images) => collect_urls(images),
            None => no_texts(),
        }
    }

    /// Judges a page: the URLs that are handed out, and whether the lookup failed.
    pub fn judge(&self, page: &JsonValue) -> (r: (Vec<String>, bool))
        ensures
            texts(r.0@) == self.model().picked(page.says()),
            r.1 == self.model().lacking(page.says()),
    {
        let mut urls = self.list_available(page);
        let none = urls.len() == 0;
        match self {
            Wanted::Thumbnails(max) => {
                let ghost all = urls@;
                urls.truncate(*max);
                assert(texts(urls@) =~= if *max < all.len() {
                    texts(all).take(*max as int)
                } else {
                    texts(all)
                });
                (urls, none)
            },
            Wanted::Banners => (urls, none),
            Wanted::Covers(_) => (urls, false),
        }
    }
}

impl ArtLookup {
    /// Goes on with the reply to the request, and records the MusicBrainz ID if the
    /// lookup failed.
    pub fn resume(self, failed: &mut FailedMbidCache, reply: Reply) -> (r: Step<
        ArtLookup,
        Vec<String>,
    >)
        ensures
            r.model() == art_next(self.model(), reply.model()),
            final(failed).recorded() == recorded_after(
                old(failed).recorded(),
                self.model(),
                reply.model(),
            ),
            final(failed).seconds() == old(failed).seconds(),
            final(failed).entries() == old(failed).entries(),
    {
        match reply.page() {
            Ok(text) => match parse_json(text.as_str()) {
                Ok(json) => {
                    let (urls, none) = self.wanted.judge(&json);
                    if none {
                        failed.record(self.mbid);
                    }
                    Step::Done(urls)
                },
                Err(_) => {
                    failed.record(self.mbid);
                    Step::Done(no_texts())
                },
            },
            Err(_) => {
                failed.record(self.mbid);
                Step::Done(no_texts())
            },
        }
    }
}

/// The identifier that the result of a search gives an artist: the first.
pub open spec fn first_of(result: Findings) -> Option<Seq<char>> {
    match result {
        Findings::Found(mbids, _) => if mbids.len() > 0 {
            Some(mbids[0])
        } else {
            None
        },
        Findings::FoundPartial(mbids, _) => if mbids.len() > 0 {
            Some(mbids[0])
        } else {
            None
        },
        Findings::NotFound => None,
        Findings::Error(_) => None,
    }
}

/// Goes on from the search for the identifiers of an artist.
pub open spec fn mbid_of(step: Move<MbidState, Findings>) -> Move<MbidState, Option<Seq<char>>> {
    match step {
        Move::Ask(state, asking) => Move::Ask(state, asking),
        Move::Done(result) => Move::Done(first_of(result)),
    }
}

/// The search for the identifiers of an artist: the name is one artist, web services
/// may be asked, and failures are kept.
pub open spec fn artist_terms(artist: Seq<char>) -> Terms {
    Terms { artist, allow_multiple: false, cache_only: false, cache_failures: true }
}

/// A search for the identifier of an artist under way.
#[derive(Debug)]
pub struct ArtistMbid {
    search: MbidSearch,
}

impl Modelled for ArtistMbid {
    type M = MbidState;

    closed spec fn model(&self) -> MbidState {
        self.search.model()
    }
}

fn first_mbid(mbids: Vec<String>) -> (r: Option<String>)
    ensures
        r.model() == if mbids@.len() > 0 {
            Some(texts(mbids@)[0])
        } else {
            None
        },
{
    if mbids.len() > 0 {
        Some(mbids[0].clone())
    } else {
        None
    }
}

fn go_on_mbid(step: Step<MbidSearch, MusicBrainzSearchResult>) -> (r: Step<
    ArtistMbid,
    Option<String>,
>)
    ensures
        r.model() == mbid_of(step.model()),
{
    match step {
        Step::Ask(search, request) => Step::Ask(ArtistMbid { search }, request),
        Step::Done(result) => match result {
            MusicBrainzSearchResult::Found(mbids, _) => Step::Done(first_mbid(mbids)),
            MusicBrainzSearchResult::FoundPartial(mbids, _) => Step::Done(first_mbid(mbids)),
            MusicBrainzSearchResult::NotFound => Step::Done(None),
            MusicBrainzSearchResult::Error(_) => Step::Done(None),
        },
    }
}

impl ArtistMbid {
    /// Goes on with the reply to the request.
    pub fn resume(self, musicbrainz: &MusicBrainzConfig, reply: Reply) -> (r: Step<
        ArtistMbid,
        Option<String>,
    >)
        ensures
            r.model() == mbid_of(mbids_next(musicbrainz.enabled, self.model(), reply.model())),
    {
        go_on_mbid(self.search.resume(musicbrainz, reply))
    }
}

/// What a search for cover art is for: an artist, or an album of an artist.
#[verifier::ext_equal]
pub enum Aim {
    Artist,
    Album(Seq<char>, Seq<char>),
}

/// How far a search for cover art has come: it waits for the identifier of the
/// artist, for that of the album, or for the images.
#[verifier::ext_equal]
pub enum CoverStage {
    Artist(MbidState),
    Album(Seq<char>, GroupSearch),
    Art(ArtState),
}

/// A search for cover art under way.
#[verifier::ext_equal]
pub struct CoverState {
    pub aim: Aim,
    pub stage: CoverStage,
}

/// Goes on from the lookup of images.
pub open spec fn art_of(aim: Aim, step: Move<ArtState, Seq<Seq<char>>>) -> Move<
    CoverState,
    Seq<Seq<char>>,
> {
    match step {
        Move::Ask(art, asking) => Move::Ask(CoverState { aim, stage: CoverStage::Art(art) }, asking),
        Move::Done(urls) => Move::Done(urls),
    }
}

/// Goes on from the search for the album.
pub open spec fn album_of(
    config: FanarttvConfig,
    seen: bool,
    aim: Aim,
    mbid: Seq<char>,
    step: Move<GroupSearch, Option<Seq<char>>>,
) -> Move<CoverState, Seq<Seq<char>>> {
    match step {
        Move::Ask(group, asking) => Move::Ask(
            CoverState { aim, stage: CoverStage::Album(mbid, group) },
            asking,
        ),
        Move::Done(Some(album)) => art_of(
            aim,
            art_start(config, seen, Images::Covers(album), mbid),
        ),
        Move::Done(None) => Move::Done(Seq::empty()),
    }
}

/// Goes on from the search for the artist.
pub open spec fn artist_of(
    enabled: bool,
    config: FanarttvConfig,
    seen: bool,
    aim: Aim,
    step: Move<MbidState, Option<Seq<char>>>,
) -> Move<CoverState, Seq<Seq<char>>> {
    match step {
        Move::Ask(search, asking) => Move::Ask(
            CoverState { aim, stage: CoverStage::Artist(search) },
            asking,
        ),
        Move::Done(Some(mbid)) => match aim {
            Aim::Artist => art_of(aim, art_start(config, seen, Images::Thumbnails(5), mbid)),
            Aim::Album(artist, title) => album_of(
                config,
                seen,
                aim,
                mbid,
                group_start(enabled, artist, title),
            ),
        },
        Move::Done(None) => Move::Done(Seq::empty()),
    }
}

/// The next step of a search for cover art, where MusicBrainz is enabled or not, and it
/// was seen or not that an earlier lookup of images failed.
pub open spec fn cover_next(
    enabled: bool,
    config: FanarttvConfig,
    seen: bool,
    state: CoverState,
    answer: Answer,
) -> Move<CoverState, Seq<Seq<char>>> {
    let aim = state.aim;
    match state.stage {
        CoverStage::Artist(search) => artist_of(
            enabled,
            config,
            seen,
            aim,
            mbid_of(mbids_next(enabled, search, answer)),
        ),
        CoverStage::Album(mbid, group) => album_of(
            config,
            seen,
            aim,
            mbid,
            group_next(group, answer),
        ),
        CoverStage::Art(art) => art_of(aim, art_next(art, answer)),
    }
}

/// The MusicBrainz ID whose images a step of the search for the artist leads to.
pub open spec fn artist_looked_up(aim: Aim, step: Move<MbidState, Option<Seq<char>>>) -> Option<
    Seq<char>,
> {
    match (step, aim) {
        (Move::Done(mbid), Aim::Artist) => mbid,
        _ => None,
    }
}

/// The MusicBrainz ID whose images a step of the search for the album leads to.
pub open spec fn album_looked_up(
    mbid: Seq<char>,
    step: Move<GroupSearch, Option<Seq<char>>>,
) -> Option<Seq<char>> {
    match step {
        Move::Done(Some(_)) => Some(mbid),
        _ => None,
    }
}

/// The MusicBrainz ID whose images the next step looks up.
pub open spec fn looked_up(enabled: bool, state: CoverState, answer: Answer) -> Option<Seq<char>> {
    match state.stage {
        CoverStage::Artist(search) => artist_looked_up(
            state.aim,
            mbid_of(mbids_next(enabled, search, answer)),
        ),
        CoverStage::Album(mbid, group) => album_looked_up(mbid, group_next(group, answer)),
        CoverStage::Art(_) => None,
    }
}

/// How far a search for cover art has come.
#[derive(Debug)]
enum CoverWait {
    Artist(ArtistMbid),
    Album(String, GroupSearch),
    Art(ArtLookup),
}

/// What a search for cover art is for.
#[derive(Debug)]
enum Purpose {
    Artist,
    Album(String, String),
}

/// A search for cover art under way.
#[derive(Debug)]
pub struct CoverSearch {
    purpose: Purpose,
    wait: CoverWait,
}

impl Purpose {
    spec fn says(&self) -> Aim {
        match self {
            Purpose::Artist => Aim::Artist,
            Purpose::Album(artist, title) => Aim::Album(artist@, title@),
        }
    }
}

impl Modelled for CoverSearch {
    type M = CoverState;

    closed spec fn model(&self) -> CoverState {
        CoverState {
            aim: self.purpose.says(),
            stage: match self.wait {
                CoverWait::Artist(search) => CoverStage::Artist(search.model()),
                CoverWait::Album(mbid, group) => CoverStage::Album(mbid@, group),
                CoverWait::Art(art) => CoverStage::Art(art.model()),
            },
        }
    }
}

fn go_on_art(purpose: Purpose, step: Step<ArtLookup, Vec<String>>) -> (r: Step<
    CoverSearch,
    Vec<String>,
>)
    ensures
        r.model() == art_of(purpose.says(), step.model()),
{
    match step {
        Step::Ask(art, request) => Step::Ask(
            CoverSearch { purpose, wait: CoverWait::Art(art) },
            request,
        ),
        Step::Done(urls) => Step::Done(urls),
    }
}

fn go_on_album(
    config: &FanarttvConfig,
    failed: &FailedMbidCache,
    purpose: Purpose,
    mbid: String,
    step: Step<GroupSearch, Option<String>>,
) -> (r: Step<CoverSearch, Vec<String>>)
    ensures
        exists|seen: bool| #[trigger]
            settled(*failed, album_looked_up(mbid@, step.model()), seen) && r.model() == album_of(
                *config,
                seen,
                purpose.says(),
                mbid@,
                step.model(),
            ),
{
    proof {
        lemma_settled(*failed);
    }
    match step {
        Step::Ask(group, request) => Step::Ask(
            CoverSearch { purpose, wait: CoverWait::Album(mbid, group) },
            request,
        ),
        Step::Done(Some(album)) => go_on_art(
            purpose,
            get_album_covers(config, failed, mbid.as_str(), album.as_str()),
        ),
        Step::Done(None) => Step::Done(no_texts()),
    }
}

fn go_on_artist(
    musicbrainz: &MusicBrainzConfig,
    config: &FanarttvConfig,
    failed: &FailedMbidCache,
    purpose: Purpose,
    step: Step<ArtistMbid, Option<String>>,
) -> (r: Step<CoverSearch, Vec<String>>)
    ensures
        exists|seen: bool| #[trigger]
            settled(*failed, artist_looked_up(purpose.says(), step.model()), seen) && r.model()
                == artist_of(
                musicbrainz.enabled,
                *config,
                seen,
                purpose.says(),
                step.model(),
            ),
{
    proof {
        lemma_settled(*failed);
    }
    match step {
        Step::Ask(search, request) => Step::Ask(
            CoverSearch { purpose, wait: CoverWait::Artist(search) },
            request,
        ),
        Step::Done(Some(mbid)) => {
            let step = match &purpose {
                Purpose::Artist => {
                    let lookup = get_artist_thumbnails(config, failed, mbid.as_str(), Some(5));
                    return go_on_art(purpose, lookup);
                },
                Purpose::Album(artist, title) => {
                    search_release_group_mbid(musicbrainz, artist.as_str(), title.as_str())
                },
            };
            go_on_album(config, failed, purpose, mbid, step)
        },
        Step::Done(None) => Step::Done(no_texts()),
    }
}

impl CoverSearch {
    /// Goes on with the reply to the request, and records the MusicBrainz ID if the
    /// lookup of its images failed.
    pub fn resume(
        self,
        musicbrainz: &MusicBrainzConfig,
        config: &FanarttvConfig,
        failed: &mut FailedMbidCache,
        reply: Reply,
    ) -> (r: Step<CoverSearch, Vec<String>>)
        ensures
            exists|seen: bool| #[trigger]
                settled(
                    *old(failed),
                    looked_up(musicbrainz.enabled, self.model(), reply.model()),
                    seen,
                ) && r.model() == cover_next(
                    musicbrainz.enabled,
                    *config,
                    seen,
                    self.model(),
                    reply.model(),
                ),
            final(failed).recorded() == match self.model().stage {
                CoverStage::Art(art) => recorded_after(
                    old(failed).recorded(),
                    art,
                    reply.model(),
                ),
                _ => old(failed).recorded(),
            },
            final(failed).seconds() == old(failed).seconds(),
            final(failed).entries() == old(failed).entries(),
    {
        proof {
            lemma_settled(*failed);
        }
        match self.wait {
            CoverWait::Artist(search) => go_on_artist(
                musicbrainz,
                config,
                failed,
                self.purpose,
                search.resume(musicbrainz, reply),
            ),
            CoverWait::Album(mbid, group) => go_on_album(
                config,
                failed,
                self.purpose,
                mbid,
                group.resume(reply),
            ),
            CoverWait::Art(art) => go_on_art(self.purpose, art.resume(failed, reply)),
        }
    }
}

/// A dedicated CoverArt provider for FanArt.tv that includes MusicBrainz integration
#[derive(Debug, Clone, Copy)]
pub struct FanarttvCoverartProvider;

impl Default for FanarttvCoverartProvider {
    fn default() -> (r: Self)
        ensures
            r == FanarttvCoverartProvider,
    {
        FanarttvCoverartProvider::new()
    }
}

impl FanarttvCoverartProvider {
    pub fn new() -> (r: Self)
        ensures
            r == FanarttvCoverartProvider,
    {
        FanarttvCoverartProvider
    }

    /// Helper function to get artist MusicBrainz ID by name
    /// This integrates with the MusicBrainz lookup service
    pub fn get_artist_mbid(&self, musicbrainz: &MusicBrainzConfig, artist_name: &str) -> (r: Step<
        ArtistMbid,
        Option<String>,
    >)
        ensures
            r.model() == mbid_of(mbids_start(musicbrainz.enabled, artist_terms(artist_name@))),
    {
        go_on_mbid(search_mbids_for_artist(musicbrainz, artist_name, false, false, true))
    }

    /// Returns the internal name identifier for this provider
    pub fn name(&self) -> (r: &'static str)
        ensures
            r@ == "fanarttv"@,
    {
        "fanarttv"
    }

    /// Returns the human-readable display name for this provider
    pub fn display_name(&self) -> (r: &'static str)
        ensures
            r@ == "FanArt.tv"@,
    {
        "FanArt.tv"
    }

    /// Returns the set of cover art methods this provider supports
    pub fn supported_methods(&self) -> (r: CoverartMethods)
        ensures
            r@ == set![CoverartMethod::Artist, CoverartMethod::Album],
    {
        let mut methods = CoverartMethods::new();
        methods.insert(CoverartMethod::Artist);
        methods.insert(CoverartMethod::Album);
        methods
    }

    /// Implementation for artist cover art retrieval
    /// Returns thumbnail URLs for the given artist by looking up their MusicBrainz ID
    pub fn get_artist_coverart_impl(
        &self,
        musicbrainz: &MusicBrainzConfig,
        config: &FanarttvConfig,
        failed: &FailedMbidCache,
        artist: &str,
    ) -> (r: Step<CoverSearch, Vec<String>>)
        ensures
            r.model() == artist_of(
                musicbrainz.enabled,
                *config,
                false,
                Aim::Artist,
                mbid_of(mbids_start(musicbrainz.enabled, artist_terms(artist@))),
            ),
    {
        go_on_artist(
            musicbrainz,
            config,
            failed,
            Purpose::Artist,
            self.get_artist_mbid(musicbrainz, artist),
        )
    }

    /// Implementation for album cover art retrieval
    /// Resolves the artist and release-group (album) MusicBrainz IDs, then looks up
    /// the album cover on FanArt.tv
    pub fn get_album_coverart_impl(
        &self,
        musicbrainz: &MusicBrainzConfig,
        config: &FanarttvConfig,
        failed: &FailedMbidCache,
        title: &str,
        artist: &str,
        _year: Option<i32>,
    ) -> (r: Step<CoverSearch, Vec<String>>)
        ensures
            r.model() == artist_of(
                musicbrainz.enabled,
                *config,
                false,
                Aim::Album(artist@, title@),
                mbid_of(mbids_start(musicbrainz.enabled, artist_terms(artist@))),
            ),
    {
        go_on_artist(
            musicbrainz,
            config,
            failed,
            Purpose::Album(owned(artist), owned(title)),
            self.get_artist_mbid(musicbrainz, artist),
        )
    }
}

} // verus!
