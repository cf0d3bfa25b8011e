//! Artists and albums on TheAudioDB.

use vstd::prelude::*;
use crate::artist::{Artist, ArtistMeta, ArtistRecord, Profile};
use crate::coverart::{CoverartMethod, CoverartMethods};
use crate::json::{json_parsed, parse_json, say_all, Json, JsonValue};
use crate::protocol::{Answer, Asking, Modelled, Move, Reply, Request, Service, Step};
use crate::text::{
    contains_text, decimal, join2, join3, lemma_texts_push, lowercased, no_texts, occurs, owned, texts,
    to_decimal, to_lowercase, url_encode, url_encoded,
};

verus! {

/// Settings for TheAudioDB: whether it is asked, the API key of the configuration,
/// and the API key that the program was built with.
#[derive(Debug, Clone)]
pub struct TheAudioDBConfig {
    pub enabled: bool,
    pub api_key: String,
    pub default_key: String,
}

/// The API key that stands for none.
pub open spec fn placeholder_key() -> Seq<char> {
    "YOUR_API_KEY_HERE"@
}

/// The rate limit where the configuration sets none, in milliseconds.
pub const DEFAULT_RATE_LIMIT_MS: u64 = 500;

impl TheAudioDBConfig {
    /// The settings before any configuration: lookups are disabled
    pub fn new(default_key: String) -> (r: Self)
        ensures
            !r.enabled,
            r.api_key@ == Seq::<char>::empty(),
            r.default_key == default_key,
    {
        TheAudioDBConfig { enabled: false, api_key: String::new(), default_key }
    }

    /// The API key to use.
    pub open spec fn key(self) -> Option<Seq<char>> {
        if self.api_key@.len() > 0 {
            Some(self.api_key@)
        } else if self.default_key@ != placeholder_key() {
            Some(self.default_key@)
        } else {
            None
        }
    }

    /// The API key to use, if it is not empty.
    pub open spec fn usable_key(self) -> Option<Seq<char>> {
        match self.key() {
            Some(key) => if key.len() > 0 {
                Some(key)
            } else {
                None
            },
            None => None,
        }
    }
}

/// Default API key that the program was built with
pub fn default_theaudiodb_api_key(config: &TheAudioDBConfig) -> (r: String)
    ensures
        r@ == config.default_key@,
{
    config.default_key.clone()
}

/// Initialize TheAudioDB from its section of the configuration. Without a section
/// lookups are disabled; in a section they are enabled unless it says otherwise.
/// Returns the rate limit to register, in milliseconds.
pub fn initialize_from_config(config: &mut TheAudioDBConfig, section: Option<&JsonValue>) -> (r: u64)
    ensures
        final(config).default_key == old(config).default_key,
        match section {
            Some(s) => {
                &&& final(config).enabled == match s.says().field_truth("enable"@) {
                    Some(b) => b,
                    None => true,
                }
                &&& final(config).api_key@ == match s.says().field_string("api_key"@) {
                    Some(key) => key,
                    None => old(config).api_key@,
                }
                &&& r == match s.says().field_natural("rate_limit_ms"@) {
                    Some(n) => n,
                    None => DEFAULT_RATE_LIMIT_MS,
                }
            },
            None => {
                &&& !final(config).enabled
                &&& final(config).api_key == old(config).api_key
                &&& r == DEFAULT_RATE_LIMIT_MS
            },
        },
{
    match section {
        Some(s) => {
            config.enabled = match s.get_bool("enable") {
                Some(b) => b,
                None => true,
            };
            match s.get_str("api_key") {
                Some(key) => {
                    config.api_key = key.clone();
                },
                None => {},
            }
            match s.get_u64("rate_limit_ms") {
                Some(n) => n,
                None => DEFAULT_RATE_LIMIT_MS,
            }
        },
        None => {
            config.enabled = false;
            DEFAULT_RATE_LIMIT_MS
        },
    }
}

/// Check if TheAudioDB lookups are enabled
pub fn is_enabled(config: &TheAudioDBConfig) -> (r: bool)
    ensures
        r == config.enabled,
{
    config.enabled
}

/// Get the configured API key, or the default one where none is configured
pub fn get_api_key(config: &TheAudioDBConfig) -> (r: Option<String>)
    ensures
        r.model() == config.key(),
{
    if config.api_key.as_str().is_empty() {
        let default_key = default_theaudiodb_api_key(config);
        if default_key != owned("YOUR_API_KEY_HERE") {
            return Some(default_key);
        }
        None
    } else {
        Some(config.api_key.clone())
    }
}

/// Without a key in the configuration the placeholder is never used.
pub proof fn law_placeholder_is_no_key(config: TheAudioDBConfig)
    requires
        config.api_key@.len() == 0,
    ensures
        config.key() != Some(placeholder_key()),
{
}

/// What is looked up.
#[derive(Debug)]
pub enum Target {
    Mbid(String),
    ArtistName(String),
    AlbumsBy(String),
    Album(String, String),
}

/// What is looked up: an artist by MusicBrainz identifier or by name, the albums of
/// an artist, or one album of an artist.
#[verifier::ext_equal]
pub enum Subject {
    Mbid(Seq<char>),
    ArtistName(Seq<char>),
    AlbumsBy(Seq<char>),
    Album(Seq<char>, Seq<char>),
}

impl Modelled for Target {
    type M = Subject;

    open spec fn model(&self) -> Subject {
        match self {
            Target::Mbid(mbid) => Subject::Mbid(mbid@),
            Target::ArtistName(name) => Subject::ArtistName(name@),
            Target::AlbumsBy(artist) => Subject::AlbumsBy(artist@),
            Target::Album(artist, album) => Subject::Album(artist@, album@),
        }
    }
}

impl Subject {
    /// The key under which what was found is kept.
    pub open spec fn found_key(self) -> Seq<char> {
        match self {
            Subject::Mbid(mbid) => "theaudiodb::mbid::"@ + mbid,
            Subject::ArtistName(name) => "theaudiodb::artist_name::"@ + name,
            Subject::AlbumsBy(artist) => "theaudiodb::albums_by_artist::"@ + artist,
            Subject::Album(artist, album) => "theaudiodb::album::"@ + artist + "::"@ + album,
        }
    }

    /// The key under which it is kept that nothing was found.
    pub open spec fn missing_key(self) -> Seq<char> {
        match self {
            Subject::Mbid(mbid) => "theaudiodb::not_found::"@ + mbid,
            Subject::ArtistName(name) => "theaudiodb::artist_not_found::"@ + name,
            Subject::AlbumsBy(artist) => "theaudiodb::albums_not_found::"@ + artist,
            Subject::Album(artist, album) => "theaudiodb::album_not_found::"@ + artist + "::"@
                + album,
        }
    }

    /// The page that has the answer.
    pub open spec fn url(self, api_key: Seq<char>) -> Seq<char> {
        let base = "https://www.theaudiodb.com/api/v1/json/"@ + api_key;
        match self {
            Subject::Mbid(mbid) => base + "/artist-mb.php?i="@ + mbid,
            Subject::ArtistName(name) => base + "/search.php?s="@ + url_encoded(name),
            Subject::AlbumsBy(artist) => base + "/searchalbum.php?s="@ + url_encoded(artist),
            Subject::Album(artist, album) => base + "/searchalbum.php?s="@ + url_encoded(artist)
                + "&a="@ + url_encoded(album),
        }
    }

    /// The message that nothing was found.
    pub open spec fn missing_message(self) -> Seq<char> {
        match self {
            Subject::Mbid(mbid) => "No artist found with MBID "@ + mbid,
            Subject::ArtistName(name) => "No artist found with name '"@ + name + "'"@,
            Subject::AlbumsBy(artist) => "No albums found for artist '"@ + artist + "'"@,
            Subject::Album(artist, album) => "No album '"@ + album + "' found for artist '"@
                + artist + "'"@,
        }
    }

    /// The message that nothing was found, as the attribute cache has it. A lookup of an
    /// artist by name fails with the same message each time.
    pub open spec fn cached_message(self) -> Seq<char> {
        match self {
            Subject::ArtistName(_) => self.missing_message(),
            _ => self.missing_message() + " (from cache)"@,
        }
    }

    /// The member of the page that has the answer.
    pub open spec fn member(self) -> Seq<char> {
        match self {
            Subject::Mbid(_) => "artists"@,
            Subject::ArtistName(_) => "artists"@,
            Subject::AlbumsBy(_) => "album"@,
            Subject::Album(_, _) => "album"@,
        }
    }

    /// What a page says on the subject.
    pub open spec fn verdict(self, page: Json) -> Verdict {
        match page.field(self.member()) {
            None => Verdict::Unusable(
                "Invalid response format from TheAudioDB (no "@ + self.member() + " field)"@,
            ),
            Some(Json::Null) => Verdict::Missing,
            Some(Json::Array(items)) => if items.len() == 0 {
                Verdict::Missing
            } else {
                match self {
                    Subject::Mbid(mbid) => if items.len() == 1 {
                        Verdict::Found(items[0])
                    } else {
                        Verdict::Unusable(
                            "Found "@ + decimal(items.len()) + " artists for MBID "@ + mbid
                                + ", expected exactly 1"@,
                        )
                    },
                    _ => Verdict::Found(page),
                }
            },
            Some(_) => Verdict::Unusable(
                "Invalid response format from TheAudioDB ("@ + self.member() + " is not an array)"@,
            ),
        }
    }

    /// What comes of asking for the page: the outcome, and the entry that the
    /// attribute cache gets.
    pub open spec fn judged(self, page: Result<Seq<char>, Seq<char>>) -> (
        Result<Json, Seq<char>>,
        Option<Asking>,
    ) {
        match page {
            Err(reason) => (Err("Failed to send request to TheAudioDB: "@ + reason), None),
            Ok(text) => match json_parsed(text) {
                Err(reason) => (Err("Failed to parse TheAudioDB response: "@ + reason), None),
                Ok(json) => match self.verdict(json) {
                    Verdict::Found(v) => (Ok(v), Some(Asking::StoreValue(self.found_key(), v))),
                    Verdict::Missing => (
                        Err(self.missing_message()),
                        Some(Asking::StoreFlag(self.missing_key(), None)),
                    ),
                    Verdict::Unusable(message) => (Err(message), None),
                },
            },
        }
    }
}

/// What a page says.
#[verifier::ext_equal]
pub enum Verdict {
    /// This is what was looked for.
    Found(Json),
    /// There is nothing of the kind.
    Missing,
    /// The page cannot be used, for this reason.
    Unusable(Seq<char>),
}

impl Target {
    fn found_key(&self) -> (r: String)
        ensures
            r@ == self.model().found_key(),
    {
        match self {
            Target::Mbid(mbid) => join2("theaudiodb::mbid::", mbid.as_str()),
            Target::ArtistName(name) => join2("theaudiodb::artist_name::", name.as_str()),
            Target::AlbumsBy(artist) => join2("theaudiodb::albums_by_artist::", artist.as_str()),
            Target::Album(artist, album) => {
                let mut key = join3("theaudiodb::album::", artist.as_str(), "::");
                key.append(album.as_str());
                key
            },
        }
    }

    fn missing_key(&self) -> (r: String)
        ensures
            r@ == self.model().missing_key(),
    {
        match self {
            Target::Mbid(mbid) => join2("theaudiodb::not_found::", mbid.as_str()),
            Target::ArtistName(name) => join2("theaudiodb::artist_not_found::", name.as_str()),
            Target::AlbumsBy(artist) => join2("theaudiodb::albums_not_found::", artist.as_str()),
            Target::Album(artist, album) => {
                let mut key = join3("theaudiodb::album_not_found::", artist.as_str(), "::");
                key.append(album.as_str());
                key
            },
        }
    }

    fn url(&self, api_key: &str) -> (r: String)
        ensures
            r@ == self.model().url(api_key@),
    {
        let mut url = join2("https://www.theaudiodb.com/api/v1/json/", api_key);
        match self {
            Target::Mbid(mbid) => {
                url.append("/artist-mb.php?i=");
                url.append(mbid.as_str());
            },
            Target::ArtistName(name) => {
                url.append("/search.php?s=");
                url.append(url_encode(name.as_str()).as_str());
            },
            Target::AlbumsBy(artist) => {
                url.append("/searchalbum.php?s=");
                url.append(url_encode(artist.as_str()).as_str());
            },
            Target::Album(artist, album) => {
                url.append("/searchalbum.php?s=");
                url.append(url_encode(artist.as_str()).as_str());
                url.append("&a=");
                url.append(url_encode(album.as_str()).as_str());
            },
        }
        url
    }

    fn missing_message(&self) -> (r: String)
        ensures
            r@ == self.model().missing_message(),
    {
        match self {
            Target::Mbid(mbid) => join2("No artist found with MBID ", mbid.as_str()),
            Target::ArtistName(name) => join3("No artist found with name '", name.as_str(), "'"),
            Target::AlbumsBy(artist) => join3("No albums found for artist '", artist.as_str(), "'"),
            Target::Album(artist, album) => {
                let mut message = join3("No album '", album.as_str(), "' found for artist '");
                message.append(artist.as_str());
                message.append("'");
                message
            },
        }
    }

    fn cached_message(&self) -> (r: String)
        ensures
            r@ == self.model().cached_message(),
    {
        let mut message = self.missing_message();
        match self {
            Target::ArtistName(_) => {},
            _ => {
                message.append(" (from cache)");
            },
        }
        message
    }

    fn member(&self) -> (r: &'static str)
        ensures
            r@ == self.model().member(),
    {
        match self {
            Target::Mbid(_) => "artists",
            Target::ArtistName(_) => "artists",
            Target::AlbumsBy(_) => "album",
            Target::Album(_, _) => "album",
        }
    }

    /// Judges what came of asking for the page: the outcome, and what the attribute
    /// cache is to keep of it.
    pub fn judge(&self, page: Result<String, String>) -> (r: (
        Result<JsonValue, String>,
        Option<Request>,
    ))
        ensures
            r.0.model() == self.model().judged(page.model()).0,
            match r.1 {
                Some(request) => self.model().judged(page.model()).1 == Some(request.model()),
                None => self.model().judged(page.model()).1 is None,
            },
    {
        let text = match page {
            Ok(text) => text,
            Err(reason) => {
                return (
                    Err(join2("Failed to send request to TheAudioDB: ", reason.as_str())),
                    None,
                );
            },
        };
        match parse_json(text.as_str()) {
            Ok(json) => self.judge_json(json),
            Err(reason) => (
                Err(join2("Failed to parse TheAudioDB response: ", reason.as_str())),
                None,
            ),
        }
    }

    /// Judges the page itself.
    pub fn judge_json(&self, json: JsonValue) -> (r: (Result<JsonValue, String>, Option<Request>))
        ensures
            match self.model().verdict(json.says()) {
                Verdict::Found(v) => {
                    &&& r.0 matches Ok(found) && found.says() == v
                    &&& r.1 matches Some(request) && request.model() == Asking::StoreValue(
                        self.model().found_key(),
                        v,
                    )
                },
                Verdict::Missing => {
                    &&& r.0 matches Err(message) && message@ == self.model().missing_message()
                    &&& r.1 matches Some(request) && request.model() == Asking::StoreFlag(
                        self.model().missing_key(),
                        None,
                    )
                },
                Verdict::Unusable(text) => {
                    &&& r.0 matches Err(message) && message@ == text
                    &&& r.1 is None
                },
            },
    {
        let member = match json.get(self.member()) {
            Some(v) => v,
            None => {
                let message = join3(
                    "Invalid response format from TheAudioDB (no ",
                    self.member(),
                    " field)",
                );
                return (Err(message), None);
            },
        };
        if member.is_null() {
            return (
                Err(self.missing_message()),
                Some(Request::StoreFlag(self.missing_key(), None)),
            );
        }
        let items = match member.as_array() {
            Some(items) => items,
            None => {
                let message = join3(
                    "Invalid response format from TheAudioDB (",
                    self.member(),
                    " is not an array)",
                );
                return (Err(message), None);
            },
        };
        if items.len() == 0 {
            return (
                Err(self.missing_message()),
                Some(Request::StoreFlag(self.missing_key(), None)),
            );
        }
        match self {
            Target::Mbid(mbid) => {
                if items.len() == 1 {
                    let found = items[0].duplicate();
                    let kept = items[0].duplicate();
                    (Ok(found), Some(Request::StoreValue(self.found_key(), kept)))
                } else {
                    let mut message = join3(
                        "Found ",
                        to_decimal(items.len()).as_str(),
                        " artists for MBID ",
                    );
                    message.append(mbid.as_str());
                    message.append(", expected exactly 1");
                    (Err(message), None)
                }
            },
            _ => {
                let kept = json.duplicate();
                (Ok(json), Some(Request::StoreValue(self.found_key(), kept)))
            },
        }
    }
}

/// How far a lookup has come.
#[derive(Debug)]
enum Stage {
    Value,
    Flag,
    Page,
    Stored(Result<JsonValue, String>),
}

/// A lookup under way.
#[derive(Debug)]
pub struct Lookup {
    target: Target,
    stage: Stage,
}

/// How far a lookup has come: it waits for the document that may be cached, for the
/// flag that nothing was found, for the page, or for the attribute cache to take
/// the outcome.
#[verifier::ext_equal]
pub enum LookupStage {
    Value,
    Flag,
    Page,
    Stored(Result<Json, Seq<char>>),
}

/// A lookup under way.
#[verifier::ext_equal]
pub struct LookupState {
    pub subject: Subject,
    pub stage: LookupStage,
}

impl Modelled for Lookup {
    type M = LookupState;

    closed spec fn model(&self) -> LookupState {
        LookupState {
            subject: self.target.model(),
            stage: match self.stage {
                Stage::Value => LookupStage::Value,
                Stage::Flag => LookupStage::Flag,
                Stage::Page => LookupStage::Page,
                Stage::Stored(outcome) => LookupStage::Stored(outcome.model()),
            },
        }
    }
}

/// The message that lookups are disabled.
pub open spec fn disabled_message() -> Seq<char> {
    "TheAudioDB lookups are disabled"@
}

/// The message that there is no API key.
pub open spec fn no_key_message() -> Seq<char> {
    "No API key configured for TheAudioDB"@
}

/// The first step of a lookup.
pub open spec fn lookup_start(config: TheAudioDBConfig, subject: Subject) -> Move<
    LookupState,
    Result<Json, Seq<char>>,
> {
    if config.enabled {
        Move::Ask(
            LookupState { subject, stage: LookupStage::Value },
            Asking::ReadValue(subject.found_key()),
        )
    } else {
        Move::Done(Err(disabled_message()))
    }
}

/// The next step of a lookup.
pub open spec fn lookup_next(config: TheAudioDBConfig, state: LookupState, answer: Answer) -> Move<
    LookupState,
    Result<Json, Seq<char>>,
> {
    let subject = state.subject;
    match state.stage {
        LookupStage::Value => match answer.value() {
            Some(v) => Move::Done(Ok(v)),
            None => Move::Ask(
                LookupState { subject, stage: LookupStage::Flag },
                Asking::ReadFlag(subject.missing_key()),
            ),
        },
        LookupStage::Flag => if answer.flagged() {
            Move::Done(Err(subject.cached_message()))
        } else {
            match config.usable_key() {
                Some(key) => Move::Ask(
                    LookupState { subject, stage: LookupStage::Page },
                    Asking::Fetch(Service::TheAudioDb, subject.url(key)),
                ),
                None => Move::Done(Err(no_key_message())),
            }
        },
        LookupStage::Page => {
            let (outcome, keep) = subject.judged(answer.page());
            match keep {
                Some(asking) => Move::Ask(
                    LookupState { subject, stage: LookupStage::Stored(outcome) },
                    asking,
                ),
                None => Move::Done(outcome),
            }
        },
        LookupStage::Stored(outcome) => Move::Done(outcome),
    }
}

impl Lookup {
    fn start(config: &TheAudioDBConfig, target: Target) -> (r: Step<
        Lookup,
        Result<JsonValue, String>,
    >)
        ensures
            r.model() == lookup_start(*config, target.model()),
    {
        if !is_enabled(config) {
            return Step::Done(Err(owned("TheAudioDB lookups are disabled")));
        }
        let key = target.found_key();
        Step::Ask(Lookup { target, stage: Stage::Value }, Request::ReadValue(key))
    }

    /// Goes on with the reply to the request.
    pub fn resume(self, config: &TheAudioDBConfig, reply: Reply) -> (r: Step<
        Lookup,
        Result<JsonValue, String>,
    >)
        ensures
            r.model() == lookup_next(*config, self.model(), reply.model()),
    {
        let target = self.target;
        match self.stage {
            Stage::Value => {
                match reply.value() {
                    Some(v) => Step::Done(Ok(v)),
                    None => {
                        let key = target.missing_key();
                        Step::Ask(Lookup { target, stage: Stage::Flag }, Request::ReadFlag(key))
                    },
                }
            },
            Stage::Flag => {
                if reply.flagged() {
                    return Step::Done(Err(target.cached_message()));
                }
                match get_api_key(config) {
                    Some(key) => {
                        if key.as_str().is_empty() {
                            return Step::Done(Err(owned("No API key configured for TheAudioDB")));
                        }
                        let url = target.url(key.as_str());
                        Step::Ask(
                            Lookup { target, stage: Stage::Page },
                            Request::Fetch(Service::TheAudioDb, url),
                        )
                    },
                    None => Step::Done(Err(owned("No API key configured for TheAudioDB"))),
                }
            },
            Stage::Page => {
                let (outcome, keep) = target.judge(reply.page());
                match keep {
                    Some(request) => Step::Ask(
                        Lookup { target, stage: Stage::Stored(outcome) },
                        request,
                    ),
                    None => Step::Done(outcome),
                }
            },
            Stage::Stored(outcome) => Step::Done(outcome),
        }
    }
}

/// Look up artist information from TheAudioDB by MusicBrainz ID
pub fn lookup_theaudiodb_by_mbid(config: &TheAudioDBConfig, mbid: &str) -> (r: Step<
    Lookup,
    Result<JsonValue, String>,
>)
    ensures
        r.model() == lookup_start(*config, Subject::Mbid(mbid@)),
{
    Lookup::start(config, Target::Mbid(owned(mbid)))
}

/// Look up artist information from TheAudioDB by artist name
pub fn lookup_theaudiodb_by_artist_name(config: &TheAudioDBConfig, artist_name: &str) -> (r: Step<
    Lookup,
    Result<JsonValue, String>,
>)
    ensures
        r.model() == lookup_start(*config, Subject::ArtistName(artist_name@)),
{
    Lookup::start(config, Target::ArtistName(owned(artist_name)))
}

/// Look up albums by artist name from TheAudioDB
pub fn lookup_theaudiodb_albums_by_artist(
    config: &TheAudioDBConfig,
    artist_name: &str,
) -> (r: Step<Lookup, Result<JsonValue, String>>)
    ensures
        r.model() == lookup_start(*config, Subject::AlbumsBy(artist_name@)),
{
    Lookup::start(config, Target::AlbumsBy(owned(artist_name)))
}

/// Look up a specific album by artist and album name from TheAudioDB
pub fn lookup_theaudiodb_album_by_name(
    config: &TheAudioDBConfig,
    artist_name: &str,
    album_name: &str,
) -> (r: Step<Lookup, Result<JsonValue, String>>)
    ensures
        r.model() == lookup_start(*config, Subject::Album(artist_name@, album_name@)),
{
    Lookup::start(config, Target::Album(owned(artist_name), owned(album_name)))
}

/// The URL that an object holds under a key, if there is one and it is not empty.
pub open spec fn picture(object: Json, key: Seq<char>) -> Seq<Seq<char>> {
    match object.field_string(key) {
        Some(url) => if url.len() > 0 {
            seq![url]
        } else {
            Seq::empty()
        },
        None => Seq::empty(),
    }
}

/// The images of an artist: thumbnail, banner, fan art and logo.
pub open spec fn artist_pictures(artist: Json) -> Seq<Seq<char>> {
    picture(artist, "strArtistThumb"@) + picture(artist, "strArtistBanner"@) + picture(
        artist,
        "strArtistFanart"@,
    ) + picture(artist, "strArtistLogo"@)
}

/// The images of all artists, in order.
pub open spec fn all_artist_pictures(artists: Seq<Json>) -> Seq<Seq<char>>
    decreases artists.len(),
{
    if artists.len() == 0 {
        Seq::empty()
    } else {
        all_artist_pictures(artists.drop_last()) + artist_pictures(artists.last())
    }
}

/// The covers of all albums, in order.
pub open spec fn all_covers(albums: Seq<Json>) -> Seq<Seq<char>>
    decreases albums.len(),
{
    if albums.len() == 0 {
        Seq::empty()
    } else {
        all_covers(albums.drop_last()) + picture(albums.last(), "strAlbumThumb"@)
    }
}

/// One of two texts contains the other.
pub open spec fn overlap(a: Seq<char>, b: Seq<char>) -> bool {
    occurs(a, b) || occurs(b, a)
}

/// An album has a title that contains the wanted one or is contained in it, whatever
/// the case.
pub open spec fn title_fits(album: Json, wanted: Seq<char>) -> bool {
    match album.field_string("strAlbum"@) {
        Some(title) => overlap(lowercased(title), lowercased(wanted)),
        None => false,
    }
}

/// The cover of the first album whose title fits.
pub open spec fn fitting_cover(albums: Seq<Json>, wanted: Seq<char>) -> Seq<Seq<char>>
    decreases albums.len(),
{
    if albums.len() == 0 {
        Seq::empty()
    } else if title_fits(albums[0], wanted) {
        picture(albums[0], "strAlbumThumb"@)
    } else {
        fitting_cover(albums.drop_first(), wanted)
    }
}

/// The images in the outcome of a lookup of an artist by name.
pub open spec fn artist_urls(outcome: Result<Json, Seq<char>>) -> Seq<Seq<char>> {
    match outcome {
        Ok(found) => match found.field_items("artists"@) {
            Some(artists) => all_artist_pictures(artists),
            None => Seq::empty(),
        },
        Err(_) => Seq::empty(),
    }
}

/// The covers in the outcome of a lookup of an album.
pub open spec fn album_urls(outcome: Result<Json, Seq<char>>) -> Seq<Seq<char>> {
    match outcome {
        Ok(found) => match found.field_items("album"@) {
            Some(albums) => all_covers(albums),
            None => Seq::empty(),
        },
        Err(_) => Seq::empty(),
    }
}

/// The cover of the wanted album in the outcome of a lookup of an artist's albums.
pub open spec fn fallback_urls(outcome: Result<Json, Seq<char>>, wanted: Seq<char>) -> Seq<
    Seq<char>,
> {
    match outcome {
        Ok(found) => match found.field_items("album"@) {
            Some(albums) => fitting_cover(albums, wanted),
            None => Seq::empty(),
        },
        Err(_) => Seq::empty(),
    }
}

/// Adds the URL that an object holds under a key.
fn push_picture(urls: &mut Vec<String>, object: &JsonValue, key: &str)
    ensures
        texts(final(urls)@) == texts(old(urls)@) + picture(object.says(), key@),
{
    match object.get_str(key) {
        Some(url) => {
            if !url.as_str().is_empty() {
                let copy = url.clone();
                proof {
                    lemma_texts_push(urls@, copy);
                }
                urls.push(copy);
                assert(texts(urls@) =~= texts(old(urls)@) + seq![url@]);
            } else {
                assert(texts(urls@) =~= texts(old(urls)@) + Seq::<Seq<char>>::empty());
            }
        },
        None => {
            assert(texts(urls@) =~= texts(old(urls)@) + Seq::<Seq<char>>::empty());
        },
    }
}

/// Picks the images out of the outcome of a lookup of an artist by name.
pub fn pick_artist_urls(outcome: &Result<JsonValue, String>) -> (r: Vec<String>)
    ensures
        texts(r@) == artist_urls(outcome.model()),
{
    let mut urls = no_texts();
    let found = match outcome {
        Ok(found) => found,
        Err(_) => {
            return urls;
        },
    };
    let artists = match found.get_array("artists") {
        Some(artists) => artists,
        None => {
            return urls;
        },
    };
    let ghost all = say_all(artists@);
    let mut i: usize = 0;
    assert(all.take(0) =~= Seq::empty());
    while i < artists.len()
        invariant
            i <= artists.len(),
            all == say_all(artists@),
            texts(urls@) == all_artist_pictures(all.take(i as int)),
        decreases artists.len() - i,
    {
        let ghost before = texts(urls@);
        let ghost a = artists@[i as int].says();
        assert(all.take(i + 1).drop_last() =~= all.take(i as int));
        push_picture(&mut urls, &artists[i], "strArtistThumb");
        push_picture(&mut urls, &artists[i], "strArtistBanner");
        push_picture(&mut urls, &artists[i], "strArtistFanart");
        push_picture(&mut urls, &artists[i], "strArtistLogo");
        assert(texts(urls@) =~= before + artist_pictures(a));
        i = i + 1;
    }
    assert(all.take(i as int) =~= all);
    urls
}

/// Picks the covers out of the outcome of a lookup of an album.
///
/// Only the actual album cover. TheAudioDB also exposes strAlbumThumb3D (3D box
/// render), strAlbumSpine (case spine), and strAlbumCDart (round CD art) for the
/// same album, but none of those are the album cover, and a grader that ranks by
/// resolution and size would let a larger one of them outrank the real cover.
pub fn pick_album_urls(outcome: &Result<JsonValue, String>) -> (r: Vec<String>)
    ensures
        texts(r@) == album_urls(outcome.model()),
{
    let mut urls = no_texts();
    let found = match outcome {
        Ok(found) => found,
        Err(_) => {
            return urls;
        },
    };
    let albums = match found.get_array("album") {
        Some(albums) => albums,
        None => {
            return urls;
        },
    };
    let ghost all = say_all(albums@);
    let mut i: usize = 0;
    assert(all.take(0) =~= Seq::empty());
    while i < albums.len()
        invariant
            i <= albums.len(),
            all == say_all(albums@),
            texts(urls@) == all_covers(all.take(i as int)),
        decreases albums.len() - i,
    {
        assert(all.take(i + 1).drop_last() =~= all.take(i as int));
        push_picture(&mut urls, &albums[i], "strAlbumThumb");
        i = i + 1;
    }
    assert(all.take(i as int) =~= all);
    urls
}

/// Whether a title in lowercase contains the wanted one in lowercase or is contained in
/// it.
pub fn titles_fit(title_lower: &str, wanted_lower: &str) -> (r: bool)
    ensures
        r == overlap(title_lower@, wanted_lower@),
{
    contains_text(title_lower, wanted_lower) || contains_text(wanted_lower, title_lower)
}

/// Picks the cover of the wanted album out of the outcome of a lookup of an artist's
/// albums: that of the first album whose title fits, whatever the case.
pub fn pick_fallback_urls(outcome: &Result<JsonValue, String>, wanted: &str) -> (r: Vec<String>)
    ensures
        texts(r@) == fallback_urls(outcome.model(), wanted@),
{
    let mut urls = no_texts();
    let found = match outcome {
        Ok(found) => found,
        Err(_) => {
            return urls;
        },
    };
    let albums = match found.get_array("album") {
        Some(albums) => albums,
        None => {
            return urls;
        },
    };
    let wanted_lower = to_lowercase(wanted);
    let ghost all = say_all(albums@);
    let mut i: usize = 0;
    assert(all.skip(0) =~= all);
    while i < albums.len()
        invariant
            i <= albums.len(),
            all == say_all(albums@),
            outcome.model() == Ok::<Json, Seq<char>>(found.says()),
            found.says().field_items("album"@) == Some(all),
            wanted_lower@ == lowercased(wanted@),
            texts(urls@) == Seq::<Seq<char>>::empty(),
            fitting_cover(all, wanted@) == fitting_cover(all.skip(i as int), wanted@),
        decreases albums.len() - i,
    {
        assert(all.skip(i as int)[0] == albums@[i as int].says());
        assert(all.skip(i as int).drop_first() =~= all.skip(i + 1));
        match albums[i].get_str("strAlbum") {
            Some(title) => {
                let title_lower = to_lowercase(title.as_str());
                if titles_fit(title_lower.as_str(), wanted_lower.as_str()) {
                    push_picture(&mut urls, &albums[i], "strAlbumThumb");
                    assert(texts(urls@) =~= picture(albums@[i as int].says(), "strAlbumThumb"@));
                    return urls;
                }
            },
            None => {},
        }
        i = i + 1;
    }
    urls
}

/// A search for the images of an artist under way.
#[derive(Debug)]
pub struct ArtistCoverart {
    lookup: Lookup,
}

impl Modelled for ArtistCoverart {
    type M = LookupState;

    closed spec fn model(&self) -> LookupState {
        self.lookup.model()
    }
}

/// The images that a step of the lookup comes to.
pub open spec fn artist_art_of(step: Move<LookupState, Result<Json, Seq<char>>>) -> Move<
    LookupState,
    Seq<Seq<char>>,
> {
    match step {
        Move::Ask(state, asking) => Move::Ask(state, asking),
        Move::Done(outcome) => Move::Done(artist_urls(outcome)),
    }
}

/// Get artist cover art URLs from TheAudioDB
pub fn get_artist_coverart(config: &TheAudioDBConfig, artist_name: &str) -> (r: Step<
    ArtistCoverart,
    Vec<String>,
>)
    ensures
        r.model() == artist_art_of(lookup_start(*config, Subject::ArtistName(artist_name@))),
{
    ArtistCoverart::from_step(lookup_theaudiodb_by_artist_name(config, artist_name))
}

impl ArtistCoverart {
    fn from_step(step: Step<Lookup, Result<JsonValue, String>>) -> (r: Step<
        ArtistCoverart,
        Vec<String>,
    >)
        ensures
            r.model() == artist_art_of(step.model()),
    {
        match step {
            Step::Ask(lookup, request) => Step::Ask(ArtistCoverart { lookup }, request),
            Step::Done(outcome) => Step::Done(pick_artist_urls(&outcome)),
        }
    }

    /// Goes on with the reply to the request.
    pub fn resume(self, config: &TheAudioDBConfig, reply: Reply) -> (r: Step<
        ArtistCoverart,
        Vec<String>,
    >)
        ensures
            r.model() == artist_art_of(lookup_next(*config, self.model(), reply.model())),
    {
        ArtistCoverart::from_step(self.lookup.resume(config, reply))
    }
}

/// A search for the cover of an album under way.
#[derive(Debug)]
pub struct AlbumCoverart {
    artist: String,
    album: String,
    fallback: bool,
    lookup: Lookup,
}

/// A search for the cover of an album under way: the album is looked up or, in the
/// fallback, all albums of the artist.
#[verifier::ext_equal]
pub struct AlbumArtState {
    pub artist: Seq<char>,
    pub album: Seq<char>,
    pub fallback: bool,
    pub lookup: LookupState,
}

impl Modelled for AlbumCoverart {
    type M = AlbumArtState;

    closed spec fn model(&self) -> AlbumArtState {
        AlbumArtState {
            artist: self.artist@,
            album: self.album@,
            fallback: self.fallback,
            lookup: self.lookup.model(),
        }
    }
}

/// What a step of the lookup of all albums comes to.
pub open spec fn fallback_art_of(
    artist: Seq<char>,
    album: Seq<char>,
    step: Move<LookupState, Result<Json, Seq<char>>>,
) -> Move<AlbumArtState, Seq<Seq<char>>> {
    match step {
        Move::Ask(lookup, asking) => Move::Ask(
            AlbumArtState { artist, album, fallback: true, lookup },
            asking,
        ),
        Move::Done(outcome) => Move::Done(fallback_urls(outcome, album)),
    }
}

/// What a step of the lookup of the album comes to: where it brings no cover, all
/// albums of the artist are looked up.
pub open spec fn album_art_of(
    config: TheAudioDBConfig,
    artist: Seq<char>,
    album: Seq<char>,
    step: Move<LookupState, Result<Json, Seq<char>>>,
) -> Move<AlbumArtState, Seq<Seq<char>>> {
    match step {
        Move::Ask(lookup, asking) => Move::Ask(
            AlbumArtState { artist, album, fallback: false, lookup },
            asking,
        ),
        Move::Done(outcome) => if album_urls(outcome).len() > 0 {
            Move::Done(album_urls(outcome))
        } else {
            fallback_art_of(artist, album, lookup_start(config, Subject::AlbumsBy(artist)))
        },
    }
}

/// The first step of a search for the cover of an album.
pub open spec fn album_art_start(
    config: TheAudioDBConfig,
    artist: Seq<char>,
    album: Seq<char>,
) -> Move<AlbumArtState, Seq<Seq<char>>> {
    album_art_of(config, artist, album, lookup_start(config, Subject::Album(artist, album)))
}

/// The next step of a search for the cover of an album.
pub open spec fn album_art_next(
    config: TheAudioDBConfig,
    state: AlbumArtState,
    answer: Answer,
) -> Move<AlbumArtState, Seq<Seq<char>>> {
    let step = lookup_next(config, state.lookup, answer);
    if state.fallback {
        fallback_art_of(state.artist, state.album, step)
    } else {
        album_art_of(config, state.artist, state.album, step)
    }
}

/// Get album cover art URLs from TheAudioDB: first by a search for the album, then
/// by a search for all albums of the artist. The year is not used by TheAudioDB.
pub fn get_album_coverart(
    config: &TheAudioDBConfig,
    album_name: &str,
    artist_name: &str,
    _year: Option<i32>,
) -> (r: Step<AlbumCoverart, Vec<String>>)
    ensures
        r.model() == album_art_start(*config, artist_name@, album_name@),
{
    AlbumCoverart::from_step(
        config,
        owned(artist_name),
        owned(album_name),
        lookup_theaudiodb_album_by_name(config, artist_name, album_name),
    )
}

impl AlbumCoverart {
    fn from_fallback(
        artist: String,
        album: String,
        step: Step<Lookup, Result<JsonValue, String>>,
    ) -> (r: Step<AlbumCoverart, Vec<String>>)
        ensures
            r.model() == fallback_art_of(artist@, album@, step.model()),
    {
        match step {
            Step::Ask(lookup, request) => Step::Ask(
                AlbumCoverart { artist, album, fallback: true, lookup },
                request,
            ),
            Step::Done(outcome) => Step::Done(pick_fallback_urls(&outcome, album.as_str())),
        }
    }

    fn from_step(
        config: &TheAudioDBConfig,
        artist: String,
        album: String,
        step: Step<Lookup, Result<JsonValue, String>>,
    ) -> (r: Step<AlbumCoverart, Vec<String>>)
        ensures
            r.model() == album_art_of(*config, artist@, album@, step.model()),
    {
        match step {
            Step::Ask(lookup, request) => Step::Ask(
                AlbumCoverart { artist, album, fallback: false, lookup },
                request,
            ),
            Step::Done(outcome) => {
                let urls = pick_album_urls(&outcome);
                if urls.len() > 0 {
                    Step::Done(urls)
                } else {
                    let next = lookup_theaudiodb_albums_by_artist(config, artist.as_str());
                    AlbumCoverart::from_fallback(artist, album, next)
                }
            },
        }
    }

    /// Goes on with the reply to the request.
    pub fn resume(self, config: &TheAudioDBConfig, reply: Reply) -> (r: Step<
        AlbumCoverart,
        Vec<String>,
    >)
        ensures
            r.model() == album_art_next(*config, self.model(), reply.model()),
    {
        let step = self.lookup.resume(config, reply);
        if self.fallback {
            AlbumCoverart::from_fallback(self.artist, self.album, step)
        } else {
            AlbumCoverart::from_step(config, self.artist, self.album, step)
        }
    }
}

/// The first MusicBrainz identifier of an artist.
pub open spec fn first_mbid(artist: ArtistRecord) -> Option<Seq<char>> {
    match artist.metadata {
        Some(profile) => if profile.mbid.len() > 0 {
            Some(profile.mbid[0])
        } else {
            None
        },
        None => None,
    }
}

/// The text that an object holds under a key, if it is not empty.
pub open spec fn filled(object: Json, key: Seq<char>) -> Option<Seq<char>> {
    match object.field_string(key) {
        Some(s) => if s.len() > 0 {
            Some(s)
        } else {
            None
        },
        None => None,
    }
}

/// The artist with the thumbnail of the document, if it has one, among the thumbnails.
pub open spec fn with_thumbnail(artist: ArtistRecord, data: Json) -> ArtistRecord {
    match (artist.metadata, filled(data, "strArtistThumb"@)) {
        (Some(profile), Some(url)) => ArtistRecord {
            metadata: Some(
                Profile { thumb_url: listed(profile.thumb_url, url), ..profile },
            ),
            ..artist
        },
        _ => artist,
    }
}

/// The artist with the biography of the document, if it has one.
pub open spec fn with_biography(artist: ArtistRecord, data: Json) -> ArtistRecord {
    match (artist.metadata, filled(data, "strBiographyEN"@)) {
        (Some(profile), Some(biography)) => ArtistRecord {
            metadata: Some(
                Profile {
                    biography: Some(biography),
                    biography_source: Some("TheAudioDB"@),
                    ..profile
                },
            ),
            ..artist
        },
        _ => artist,
    }
}

/// A list with one more text at its end, unless it is there.
pub open spec fn listed(list: Seq<Seq<char>>, text: Seq<char>) -> Seq<Seq<char>> {
    if list.contains(text) {
        list
    } else {
        list.push(text)
    }
}

/// The genres with those of another list that are not among them yet.
pub open spec fn genres_joined(genres: Seq<Seq<char>>, more: Seq<Seq<char>>) -> Seq<Seq<char>>
    decreases more.len(),
{
    if more.len() == 0 {
        genres
    } else {
        listed(genres_joined(genres, more.drop_last()), more.last())
    }
}

/// The artist with more genres.
pub open spec fn with_genres(artist: ArtistRecord, more: Seq<Seq<char>>) -> ArtistRecord {
    match artist.metadata {
        Some(profile) => ArtistRecord {
            metadata: Some(Profile { genres: genres_joined(profile.genres, more), ..profile }),
            ..artist
        },
        None => artist,
    }
}

/// How far an update has come.
#[derive(Debug)]
enum UpdateWait {
    Data(Lookup),
    Genres,
}

/// An update of an artist under way.
#[derive(Debug)]
pub struct ArtistUpdate {
    artist: Artist,
    wait: UpdateWait,
}

/// How far an update has come: it waits for the data of the artist or for the genres
/// in their clean form.
#[verifier::ext_equal]
pub enum UpdateStage {
    Data(LookupState),
    Genres,
}

/// An update of an artist under way.
#[verifier::ext_equal]
pub struct UpdateState {
    pub artist: ArtistRecord,
    pub stage: UpdateStage,
}

impl Modelled for ArtistUpdate {
    type M = UpdateState;

    closed spec fn model(&self) -> UpdateState {
        UpdateState {
            artist: self.artist.model(),
            stage: match self.wait {
                UpdateWait::Data(lookup) => UpdateStage::Data(lookup.model()),
                UpdateWait::Genres => UpdateStage::Genres,
            },
        }
    }
}

/// What a step of the lookup comes to for the artist.
pub open spec fn update_of(
    artist: ArtistRecord,
    step: Move<LookupState, Result<Json, Seq<char>>>,
) -> Move<UpdateState, ArtistRecord> {
    match step {
        Move::Ask(lookup, asking) => Move::Ask(
            UpdateState { artist, stage: UpdateStage::Data(lookup) },
            asking,
        ),
        Move::Done(Ok(data)) => {
            let told = with_biography(with_thumbnail(artist, data), data);
            match filled(data, "strGenre"@) {
                Some(genre) => Move::Ask(
                    UpdateState { artist: told, stage: UpdateStage::Genres },
                    Asking::CleanGenres(seq![genre]),
                ),
                None => Move::Done(told),
            }
        },
        Move::Done(Err(_)) => Move::Done(artist),
    }
}

/// The first step of an update.
pub open spec fn update_start(config: TheAudioDBConfig, artist: ArtistRecord) -> Move<
    UpdateState,
    ArtistRecord,
> {
    match first_mbid(artist) {
        Some(mbid) => if config.enabled {
            update_of(artist, lookup_start(config, Subject::Mbid(mbid)))
        } else {
            Move::Done(artist)
        },
        None => Move::Done(artist),
    }
}

/// The next step of an update.
pub open spec fn update_next(config: TheAudioDBConfig, state: UpdateState, answer: Answer) -> Move<
    UpdateState,
    ArtistRecord,
> {
    match state.stage {
        UpdateStage::Data(lookup) => update_of(state.artist, lookup_next(config, lookup, answer)),
        UpdateStage::Genres => Move::Done(with_genres(state.artist, answer.names())),
    }
}

/// Updates artists with what TheAudioDB has on them
#[derive(Debug, Clone, Copy)]
pub struct TheAudioDbUpdater;

impl Default for TheAudioDbUpdater {
    fn default() -> (r: Self)
        ensures
            r == TheAudioDbUpdater,
    {
        TheAudioDbUpdater::new()
    }
}

impl TheAudioDbUpdater {
    pub fn new() -> (r: Self)
        ensures
            r == TheAudioDbUpdater,
    {
        TheAudioDbUpdater
    }

    /// Updates artist information using TheAudioDB service
    ///
    /// This function fetches artist information from TheAudioDB using the MusicBrainz
    /// ID from the artist's metadata and updates the artist with thumbnail URLs and other
    /// available metadata: the biography and the genres. Where that fails the artist
    /// stays as it is.
    pub fn update_artist(&self, config: &TheAudioDBConfig, artist: Artist) -> (r: Step<
        ArtistUpdate,
        Artist,
    >)
        ensures
            r.model() == update_start(*config, artist.model()),
    {
        if !is_enabled(config) {
            return Step::Done(artist);
        }
        let mbid = match &artist.metadata {
            Some(meta) => if meta.mbid.len() > 0 {
                Some(meta.mbid[0].clone())
            } else {
                None
            },
            None => None,
        };
        match mbid {
            Some(mbid) => {
                let step = lookup_theaudiodb_by_mbid(config, mbid.as_str());
                ArtistUpdate::from_step(artist, step)
            },
            None => Step::Done(artist),
        }
    }
}

/// The text that an object holds under a key, if it is not empty.
fn filled_text(object: &JsonValue, key: &str) -> (r: Option<String>)
    ensures
        r.model() == filled(object.says(), key@),
{
    match object.get_str(key) {
        Some(s) => if s.as_str().is_empty() {
            None
        } else {
            Some(s.clone())
        },
        None => None,
    }
}

/// Whether a list of texts holds a text.
fn lists(list: &Vec<String>, text: &String) -> (r: bool)
    ensures
        r == texts(list@).contains(text@),
{
    let ghost all = texts(list@);
    let mut i: usize = 0;
    while i < list.len()
        invariant
            i <= list.len(),
            all == texts(list@),
            forall|k: int| 0 <= k < i ==> #[trigger] all[k] != text@,
        decreases list.len() - i,
    {
        assert(all[i as int] == list@[i as int]@);
        if list[i] == *text {
            return true;
        }
        i = i + 1;
    }
    false
}

/// Adds a text to a list, unless it is there.
fn enlist(list: &mut Vec<String>, text: String)
    ensures
        texts(final(list)@) == listed(texts(old(list)@), text@),
{
    if !lists(list, &text) {
        proof {
            lemma_texts_push(list@, text);
        }
        list.push(text);
    }
}

/// Adds the thumbnail of the document to the metadata.
pub fn add_thumbnail(meta: &mut ArtistMeta, data: &JsonValue)
    ensures
        final(meta).model() == match filled(data.says(), "strArtistThumb"@) {
            Some(url) => Profile {
                thumb_url: listed(old(meta).model().thumb_url, url),
                ..old(meta).model()
            },
            None => old(meta).model(),
        },
{
    match filled_text(data, "strArtistThumb") {
        Some(url) => enlist(&mut meta.thumb_url, url),
        None => {},
    }
}

/// Adds the biography of the document to the metadata.
pub fn add_biography(meta: &mut ArtistMeta, data: &JsonValue)
    ensures
        final(meta).model() == match filled(data.says(), "strBiographyEN"@) {
            Some(biography) => Profile {
                biography: Some(biography),
                biography_source: Some("TheAudioDB"@),
                ..old(meta).model()
            },
            None => old(meta).model(),
        },
{
    match filled_text(data, "strBiographyEN") {
        Some(biography) => {
            meta.biography = Some(biography);
            meta.biography_source = Some(owned("TheAudioDB"));
        },
        None => {},
    }
}

/// Adds the genres that the metadata do not have yet.
pub fn add_genres(meta: &mut ArtistMeta, more: Vec<String>)
    ensures
        final(meta).model() == (Profile {
            genres: genres_joined(old(meta).model().genres, texts(more@)),
            ..old(meta).model()
        }),
{
    let ghost all = texts(more@);
    let ghost first = meta.model();
    let mut i: usize = 0;
    assert(all.take(0) =~= Seq::empty());
    while i < more.len()
        invariant
            i <= more.len(),
            all == texts(more@),
            meta.model() == (Profile {
                genres: genres_joined(first.genres, all.take(i as int)),
                ..first
            }),
        decreases more.len() - i,
    {
        assert(all.take(i + 1).drop_last() =~= all.take(i as int));
        assert(all.take(i + 1).last() == more@[i as int]@);
        let genre = more[i].clone();
        enlist(&mut meta.genres, genre);
        i = i + 1;
    }
    assert(all.take(i as int) =~= all);
}

impl ArtistUpdate {
    fn from_step(artist: Artist, step: Step<Lookup, Result<JsonValue, String>>) -> (r: Step<
        ArtistUpdate,
        Artist,
    >)
        ensures
            r.model() == update_of(artist.model(), step.model()),
    {
        let mut artist = artist;
        match step {
            Step::Ask(lookup, request) => Step::Ask(
                ArtistUpdate { artist, wait: UpdateWait::Data(lookup) },
                request,
            ),
            Step::Done(Ok(data)) => {
                match artist.metadata {
                    Some(meta) => {
                        let mut meta = meta;
                        add_thumbnail(&mut meta, &data);
                        add_biography(&mut meta, &data);
                        artist.metadata = Some(meta);
                    },
                    None => {
                        artist.metadata = None;
                    },
                }
                match filled_text(&data, "strGenre") {
                    Some(genre) => {
                        let mut genres: Vec<String> = Vec::new();
                        genres.push(genre);
                        assert(texts(genres@) =~= seq![genre@]);
                        Step::Ask(
                            ArtistUpdate { artist, wait: UpdateWait::Genres },
                            Request::CleanGenres(genres),
                        )
                    },
                    None => Step::Done(artist),
                }
            },
            Step::Done(Err(_)) => Step::Done(artist),
        }
    }

    /// Goes on with the reply to the request.
    pub fn resume(self, config: &TheAudioDBConfig, reply: Reply) -> (r: Step<ArtistUpdate, Artist>)
        ensures
            r.model() == update_next(*config, self.model(), reply.model()),
    {
        match self.wait {
            UpdateWait::Data(lookup) => ArtistUpdate::from_step(
                self.artist,
                lookup.resume(config, reply),
            ),
            UpdateWait::Genres => {
                let mut artist = self.artist;
                match artist.metadata {
                    Some(meta) => {
                        let mut meta = meta;
                        add_genres(&mut meta, reply.names());
                        artist.metadata = Some(meta);
                    },
                    None => {
                        artist.metadata = None;
                    },
                }
                Step::Done(artist)
            },
        }
    }
}

/// Cover Art Provider implementation for TheAudioDB
#[derive(Debug, Clone, Copy)]
pub struct TheAudioDbCoverartProvider;

impl Default for TheAudioDbCoverartProvider {
    fn default() -> (r: Self)
        ensures
            r == TheAudioDbCoverartProvider,
    {
        TheAudioDbCoverartProvider::new()
    }
}

impl TheAudioDbCoverartProvider {
    pub fn new() -> (r: Self)
        ensures
            r == TheAudioDbCoverartProvider,
    {
        TheAudioDbCoverartProvider
    }

    /// Returns the internal name identifier for this provider
    pub fn name(&self) -> (r: &'static str)
        ensures
            r@ == "theaudiodb"@,
    {
        "theaudiodb"
    }

    /// Returns the human-readable display name for this provider
    pub fn display_name(&self) -> (r: &'static str)
        ensures
            r@ == "TheAudioDB"@,
    {
        "TheAudioDB"
    }

    /// Returns the set of cover art methods this provider supports
    pub fn supported_methods(&self) -> (r: CoverartMethods)
        ensures
            r@ == set![CoverartMethod::Artist, CoverartMethod::Album],
    {
        let mut methods = CoverartMethods::new();
        methods.insert(CoverartMethod::Artist);
        methods.insert(CoverartMethod::Album);
        methods
    }

    /// Implementation for artist cover art retrieval
    pub fn get_artist_coverart_impl(&self, config: &TheAudioDBConfig, artist: &str) -> (r: Step<
        ArtistCoverart,
        Vec<String>,
    >)
        ensures
            r.model() == artist_art_of(lookup_start(*config, Subject::ArtistName(artist@))),
    {
        get_artist_coverart(config, artist)
    }

    /// Implementation for album cover art retrieval
    pub fn get_album_coverart_impl(
        &self,
        config: &TheAudioDBConfig,
        album: &str,
        artist: &str,
        year: Option<i32>,
    ) -> (r: Step<AlbumCoverart, Vec<String>>)
        ensures
            r.model() == album_art_start(*config, artist@, album@),
    {
        get_album_coverart(config, album, artist, year)
    }
}

} // verus!
