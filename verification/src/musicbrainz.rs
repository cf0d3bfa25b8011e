//! Artists, albums and recordings on MusicBrainz.

use vstd::prelude::*;
use crate::json::{json_parsed, parse_json, say_all, Json, JsonValue};
pub use crate::naming::is_mbid;
use crate::naming::{artist_names_match, names_match, sanitize_artist_name_for_search};
use crate::protocol::{Answer, Asking, Modelled, Move, Reply, Request, Service, Step};
use crate::text::{
    characters, join2, join3, lemma_sorts_irreflexive, lemma_sorts_total, lemma_sorts_transitive,
    lemma_texts_push, lowercased, no_texts, owned, precedes, replace_char, replaced, sorts_before, texts,
    to_lowercase, url_encode, url_encoded,
};

verus! {

/// A page of artists from MusicBrainz
#[derive(Debug)]
pub struct MusicBrainzArtistSearchResponse {
    pub count: u32,
    pub offset: u32,
    pub artists: Vec<MusicBrainzArtist>,
}

#[derive(Debug)]
pub struct MusicBrainzArtist {
    pub id: String,
    pub name: String,
    pub aliases: Vec<MusicBrainzAlias>,
    pub artist_type: Option<String>,
    pub score: Option<u32>,
}

#[derive(Debug)]
pub struct MusicBrainzAlias {
    pub name: String,
    pub sort_name: Option<String>,
    pub alias_type: Option<String>,
    pub locale: Option<String>,
}

/// What came of a search for artists.
#[derive(Debug)]
pub enum ArtistReply {
    /// There is no page, for this reason.
    Failed(String),
    /// The page, of this many bytes, could not be read, for this reason.
    Malformed(usize, String),
    /// The page.
    Found(MusicBrainzArtistSearchResponse),
}

/// An artist as a page of artists describes it.
#[verifier::ext_equal]
pub struct ArtistEntry {
    pub id: Seq<char>,
    pub name: Seq<char>,
    pub aliases: Seq<Seq<char>>,
}

/// What an [`ArtistReply`] brings.
#[verifier::ext_equal]
pub enum Artists {
    Failed(Seq<char>),
    Malformed(nat, Seq<char>),
    Found(Seq<ArtistEntry>),
}

/// The names of a list of aliases.
pub open spec fn alias_names(aliases: Seq<MusicBrainzAlias>) -> Seq<Seq<char>> {
    aliases.map_values(|a: MusicBrainzAlias| a.name@)
}

impl Modelled for ArtistReply {
    type M = Artists;

    open spec fn model(&self) -> Artists {
        match self {
            ArtistReply::Failed(reason) => Artists::Failed(reason@),
            ArtistReply::Malformed(length, reason) => Artists::Malformed(*length as nat, reason@),
            ArtistReply::Found(page) => Artists::Found(
                page.artists@.map_values(
                    |a: MusicBrainzArtist|
                        ArtistEntry { id: a.id@, name: a.name@, aliases: alias_names(a.aliases@) },
                ),
            ),
        }
    }
}

/// Settings for MusicBrainz: whether it is asked.
#[derive(Debug, Clone, Copy, PartialEq, Eq, Structural)]
pub struct MusicBrainzConfig {
    pub enabled: bool,
}

/// The rate limit where the configuration sets none, in milliseconds.
pub const DEFAULT_RATE_LIMIT_MS: u64 = 500;

/// The prefix of the keys under which the identifiers of an artist are kept.
pub const ARTIST_MBID_CACHE_PREFIX: &'static str = "artist::mbid::";

/// The prefix of the keys under which it is kept that the identifiers are not those
/// of all artists in a name.
pub const ARTIST_MBID_PARTIAL_CACHE_PREFIX: &'static str = "artist::mbid_partial::";

/// The prefix of the keys under which it is kept that an artist was not found.
pub const ARTIST_NOT_FOUND_CACHE_PREFIX: &'static str = "artist::mbid_not_found::";

/// How long it is kept that an artist was not found: 48 hours in seconds.
pub const NOT_FOUND_CACHE_TIMEOUT_SECONDS: i64 = 172800;

impl MusicBrainzConfig {
    /// The settings before any configuration: lookups are disabled
    pub fn new() -> (r: Self)
        ensures
            !r.enabled,
    {
        MusicBrainzConfig { enabled: false }
    }
}

impl Default for MusicBrainzConfig {
    fn default() -> (r: Self)
        ensures
            !r.enabled,
    {
        MusicBrainzConfig::new()
    }
}

/// Initialize MusicBrainz from its section of the configuration. Without a section
/// lookups are disabled; a section that does not say whether they are enabled
/// changes nothing. Returns the rate limit to register, in milliseconds.
pub fn initialize_from_config(config: &mut MusicBrainzConfig, section: Option<&JsonValue>) -> (r:
    u64)
    ensures
        match section {
            Some(s) => {
                &&& final(config).enabled == match s.says().field_truth("enable"@) {
                    Some(b) => b,
                    None => old(config).enabled,
                }
                &&& r == match s.says().field_natural("rate_limit_ms"@) {
                    Some(n) => n,
                    None => DEFAULT_RATE_LIMIT_MS,
                }
            },
            None => !final(config).enabled && r == DEFAULT_RATE_LIMIT_MS,
        },
{
    match section {
        Some(s) => {
            match s.get_bool("enable") {
                Some(b) => {
                    config.enabled = b;
                },
                None => {},
            }
            match s.get_u64("rate_limit_ms") {
                Some(n) => n,
                None => DEFAULT_RATE_LIMIT_MS,
            }
        },
        None => {
            config.enabled = false;
            DEFAULT_RATE_LIMIT_MS
        },
    }
}

/// Check if MusicBrainz lookups are enabled
pub fn is_enabled(config: &MusicBrainzConfig) -> (r: bool)
    ensures
        r == config.enabled,
{
    config.enabled
}

/// Result type for MusicBrainz artist search
#[derive(Debug, Clone, PartialEq)]
pub enum MusicBrainzSearchResult {
    /// Artist(s) found with their MusicBrainz ID(s)
    /// First parameter is the list of MusicBrainz IDs
    /// Second parameter indicates whether result was cached (true) or from API (false)
    Found(Vec<String>, bool),
    /// Partial match - some artists in a multi-artist name were found, but not all
    /// First parameter is the list of found MusicBrainz IDs
    /// Second parameter indicates whether result was cached (true) or from API (false)
    FoundPartial(Vec<String>, bool),
    /// Artist couldn't be found in MusicBrainz
    NotFound,
    /// Error occurred during the search
    Error(String),
}

/// What a [`MusicBrainzSearchResult`] says.
#[verifier::ext_equal]
pub enum Findings {
    Found(Seq<Seq<char>>, bool),
    FoundPartial(Seq<Seq<char>>, bool),
    NotFound,
    Error(Seq<char>),
}

impl Modelled for MusicBrainzSearchResult {
    type M = Findings;

    open spec fn model(&self) -> Findings {
        match self {
            MusicBrainzSearchResult::Found(mbids, cached) => Findings::Found(texts(mbids@), *cached),
            MusicBrainzSearchResult::FoundPartial(mbids, cached) => Findings::FoundPartial(
                texts(mbids@),
                *cached,
            ),
            MusicBrainzSearchResult::NotFound => Findings::NotFound,
            MusicBrainzSearchResult::Error(message) => Findings::Error(message@),
        }
    }
}

/// The key under which the identifiers of an artist are kept.
pub open spec fn mbid_key(artist: Seq<char>) -> Seq<char> {
    ARTIST_MBID_CACHE_PREFIX@ + artist
}

/// The key under which it is kept that the identifiers are only some.
pub open spec fn partial_key(artist: Seq<char>) -> Seq<char> {
    ARTIST_MBID_PARTIAL_CACHE_PREFIX@ + artist
}

/// The key under which it is kept that an artist was not found.
pub open spec fn missing_key(artist: Seq<char>) -> Seq<char> {
    ARTIST_NOT_FOUND_CACHE_PREFIX@ + artist
}

/// Keeps for a while that an artist was not found.
pub open spec fn remember_missing(artist: Seq<char>) -> Asking {
    Asking::StoreFlag(missing_key(artist), Some(NOT_FOUND_CACHE_TIMEOUT_SECONDS))
}

/// The page of artists for a name.
pub open spec fn artist_url(artist: Seq<char>) -> Seq<char> {
    "https://musicbrainz.org/ws/2/artist?query=artist:"@ + url_encoded(
        replaced(artist, '&', "and"@),
    ) + "&fmt=json&limit=3"@
}

/// What a page of artists comes to for a name: the first artist counts, if its name
/// or an alias matches. Either way the attribute cache keeps it.
pub open spec fn judged(artist: Seq<char>, page: Artists) -> (Findings, Asking) {
    match page {
        Artists::Failed(reason) => (
            Findings::Error("API request error: "@ + reason),
            remember_missing(artist),
        ),
        Artists::Malformed(length, reason) => (
            Findings::Error(
                "Response parse error: "@ + reason + " ("@ + (if length < 50 {
                    "possibly truncated response"@
                } else {
                    "check response format"@
                }) + ")"@,
            ),
            remember_missing(artist),
        ),
        Artists::Found(list) => if list.len() > 0 && names_match(
            artist,
            list[0].name,
            list[0].aliases,
        ) {
            (
                Findings::Found(seq![list[0].id], false),
                Asking::StoreText(mbid_key(artist), list[0].id),
            )
        } else {
            (Findings::NotFound, remember_missing(artist))
        },
    }
}

fn key_of_mbid(artist: &str) -> (r: String)
    ensures
        r@ == mbid_key(artist@),
{
    join2(ARTIST_MBID_CACHE_PREFIX, artist)
}

fn key_of_partial(artist: &str) -> (r: String)
    ensures
        r@ == partial_key(artist@),
{
    join2(ARTIST_MBID_PARTIAL_CACHE_PREFIX, artist)
}

fn key_of_missing(artist: &str) -> (r: String)
    ensures
        r@ == missing_key(artist@),
{
    join2(ARTIST_NOT_FOUND_CACHE_PREFIX, artist)
}

fn remember(artist: &str) -> (r: Request)
    ensures
        r.model() == remember_missing(artist@),
{
    Request::StoreFlag(key_of_missing(artist), Some(NOT_FOUND_CACHE_TIMEOUT_SECONDS))
}

fn one(mbid: String) -> (r: Vec<String>)
    ensures
        texts(r@) == seq![mbid@],
{
    let mut list: Vec<String> = Vec::new();
    list.push(mbid);
    assert(texts(list@) =~= seq![mbid@]);
    list
}

/// The names of the aliases of an artist.
fn names_of_aliases(aliases: &Vec<MusicBrainzAlias>) -> (r: Vec<String>)
    ensures
        texts(r@) == alias_names(aliases@),
{
    let mut names: Vec<String> = Vec::new();
    let mut i: usize = 0;
    assert(texts(names@) =~= alias_names(aliases@).take(0));
    while i < aliases.len()
        invariant
            i <= aliases.len(),
            texts(names@) == alias_names(aliases@).take(i as int),
        decreases aliases.len() - i,
    {
        let name = aliases[i].name.clone();
        proof {
            lemma_texts_push(names@, name);
            assert(alias_names(aliases@).take(i + 1) =~= alias_names(aliases@).take(i as int).push(
                name@,
            ));
        }
        names.push(name);
        i = i + 1;
    }
    assert(alias_names(aliases@).take(i as int) =~= alias_names(aliases@));
    names
}

/// Judges a page of artists: the result, and what the attribute cache is to keep.
pub fn judge_artists(artist: &str, page: ArtistReply) -> (r: (MusicBrainzSearchResult, Request))
    ensures
        (r.0.model(), r.1.model()) == judged(artist@, page.model()),
{
    match page {
        ArtistReply::Failed(reason) => (
            MusicBrainzSearchResult::Error(join2("API request error: ", reason.as_str())),
            remember(artist),
        ),
        ArtistReply::Malformed(length, reason) => {
            let mut message = join3("Response parse error: ", reason.as_str(), " (");
            if length < 50 {
                message.append("possibly truncated response");
            } else {
                message.append("check response format");
            }
            message.append(")");
            (MusicBrainzSearchResult::Error(message), remember(artist))
        },
        ArtistReply::Found(results) => {
            if results.artists.len() > 0 {
                let first = &results.artists[0];
                let aliases = names_of_aliases(&first.aliases);
                let matching = artist_names_match(
                    artist,
                    first.name.as_str(),
                    if aliases.len() == 0 {
                        None
                    } else {
                        Some(&aliases)
                    },
                );
                proof {
                    if aliases.len() == 0 {
                        assert(alias_names(first.aliases@) =~= Seq::empty());
                    }
                }
                if matching {
                    let mbid = first.id.clone();
                    let kept = first.id.clone();
                    return (
                        MusicBrainzSearchResult::Found(one(mbid), false),
                        Request::StoreText(key_of_mbid(artist), kept),
                    );
                }
            }
            (MusicBrainzSearchResult::NotFound, remember(artist))
        },
    }
}

/// How far a search for one artist has come.
#[derive(Debug)]
enum SingleWait {
    Cached,
    Missing,
    Page,
    Stored(MusicBrainzSearchResult),
}

/// A search for one artist under way.
#[derive(Debug)]
pub struct SingleSearch {
    artist: String,
    cache_only: bool,
    keep_failure: bool,
    wait: SingleWait,
}

/// How far a search for one artist has come: it waits for the identifier that may be
/// cached, for the flag that the artist was not found, for the page of artists, or
/// for the attribute cache to take the outcome.
#[verifier::ext_equal]
pub enum SingleStage {
    Cached,
    Missing,
    Page,
    Stored(Findings),
}

/// A search for one artist under way, of which a failure is to be kept or not.
#[verifier::ext_equal]
pub struct SingleState {
    pub artist: Seq<char>,
    pub cache_only: bool,
    pub keep_failure: bool,
    pub stage: SingleStage,
}

impl Modelled for SingleSearch {
    type M = SingleState;

    closed spec fn model(&self) -> SingleState {
        SingleState {
            artist: self.artist@,
            cache_only: self.cache_only,
            keep_failure: self.keep_failure,
            stage: match self.wait {
                SingleWait::Cached => SingleStage::Cached,
                SingleWait::Missing => SingleStage::Missing,
                SingleWait::Page => SingleStage::Page,
                SingleWait::Stored(result) => SingleStage::Stored(result.model()),
            },
        }
    }
}

/// The first step of a search for one artist.
pub open spec fn single_start(
    enabled: bool,
    artist: Seq<char>,
    cache_only: bool,
    keep_failure: bool,
) -> Move<SingleState, Findings> {
    if enabled {
        Move::Ask(
            SingleState { artist, cache_only, keep_failure, stage: SingleStage::Cached },
            Asking::ReadText(mbid_key(artist)),
        )
    } else {
        Move::Done(Findings::NotFound)
    }
}

/// The next step of a search for one artist.
pub open spec fn single_next(state: SingleState, answer: Answer) -> Move<SingleState, Findings> {
    let artist = state.artist;
    match state.stage {
        SingleStage::Cached => match answer.text() {
            Some(mbid) => Move::Done(Findings::Found(seq![mbid], true)),
            None => if state.cache_only {
                Move::Done(Findings::NotFound)
            } else {
                Move::Ask(
                    SingleState { stage: SingleStage::Missing, ..state },
                    Asking::ReadFlag(missing_key(artist)),
                )
            },
        },
        SingleStage::Missing => if answer.flagged() {
            Move::Done(Findings::NotFound)
        } else {
            Move::Ask(
                SingleState { stage: SingleStage::Page, ..state },
                Asking::SearchArtists(artist_url(artist)),
            )
        },
        SingleStage::Page => {
            let (result, keep) = judged(artist, answer.artists());
            if result is Found || state.keep_failure {
                Move::Ask(SingleState { stage: SingleStage::Stored(result), ..state }, keep)
            } else {
                Move::Done(result)
            }
        },
        SingleStage::Stored(result) => Move::Done(result),
    }
}

/// Search MusicBrainz API for an artist and return their MBID if found
///
/// # Arguments
/// * `artist_name` - The name of the artist to search for
/// * `cache_only` - If true, only check the cache and don't make API calls
pub fn search_musicbrainz_for_artist(
    config: &MusicBrainzConfig,
    artist_name: &str,
    cache_only: bool,
) -> (r: Step<SingleSearch, MusicBrainzSearchResult>)
    ensures
        r.model() == single_start(config.enabled, artist_name@, cache_only, true),
{
    SingleSearch::start(config, owned(artist_name), cache_only, true)
}

impl SingleSearch {
    fn start(
        config: &MusicBrainzConfig,
        artist: String,
        cache_only: bool,
        keep_failure: bool,
    ) -> (r: Step<SingleSearch, MusicBrainzSearchResult>)
        ensures
            r.model() == single_start(config.enabled, artist@, cache_only, keep_failure),
    {
        if !is_enabled(config) {
            return Step::Done(MusicBrainzSearchResult::NotFound);
        }
        let key = key_of_mbid(artist.as_str());
        Step::Ask(
            SingleSearch { artist, cache_only, keep_failure, wait: SingleWait::Cached },
            Request::ReadText(key),
        )
    }

    /// Goes on with the reply to the request.
    pub fn resume(self, reply: Reply) -> (r: Step<SingleSearch, MusicBrainzSearchResult>)
        ensures
            r.model() == single_next(self.model(), reply.model()),
    {
        let artist = self.artist;
        let cache_only = self.cache_only;
        let keep_failure = self.keep_failure;
        match self.wait {
            SingleWait::Cached => {
                match reply.text() {
                    Some(mbid) => Step::Done(MusicBrainzSearchResult::Found(one(mbid), true)),
                    None => {
                        if cache_only {
                            return Step::Done(MusicBrainzSearchResult::NotFound);
                        }
                        let key = key_of_missing(artist.as_str());
                        Step::Ask(
                            SingleSearch { artist, cache_only, keep_failure, wait: SingleWait::Missing },
                            Request::ReadFlag(key),
                        )
                    },
                }
            },
            SingleWait::Missing => {
                if reply.flagged() {
                    return Step::Done(MusicBrainzSearchResult::NotFound);
                }
                let sanitized = sanitize_artist_name_for_search(artist.as_str());
                let url = join3(
                    "https://musicbrainz.org/ws/2/artist?query=artist:",
                    url_encode(sanitized.as_str()).as_str(),
                    "&fmt=json&limit=3",
                );
                Step::Ask(
                    SingleSearch { artist, cache_only, keep_failure, wait: SingleWait::Page },
                    Request::SearchArtists(url),
                )
            },
            SingleWait::Page => {
                let (result, keep) = judge_artists(artist.as_str(), reply.artists());
                let found = match &result {
                    MusicBrainzSearchResult::Found(_, _) => true,
                    _ => false,
                };
                if !found && !keep_failure {
                    return Step::Done(result);
                }
                Step::Ask(
                    SingleSearch {
                        artist,
                        cache_only,
                        keep_failure,
                        wait: SingleWait::Stored(result),
                    },
                    keep,
                )
            },
            SingleWait::Stored(result) => Step::Done(result),
        }
    }
}

/// What a search for the identifiers of an artist is about.
#[verifier::ext_equal]
pub struct Terms {
    pub artist: Seq<char>,
    pub allow_multiple: bool,
    pub cache_only: bool,
    pub cache_failures: bool,
}

/// How far a search for the identifiers of an artist has come: it waits for the flag
/// that the artist was not found, for the identifiers that may be cached, for the
/// flag that these are only some, for the name as a single artist, for the name to
/// be split, for one of its parts, or for the attribute cache to take the
/// identifiers, that they are only some, or that the search failed.
///
/// With the parts go those that are left, the identifiers so far, whether all parts
/// so far were found, and whether all that were found came from the attribute cache.
#[verifier::ext_equal]
pub enum MbidStage {
    Missing,
    Cached,
    Partial(Seq<Seq<char>>),
    Whole(SingleState),
    Split,
    Part(Seq<Seq<char>>, Seq<Seq<char>>, bool, bool, SingleState),
    ListStored(Seq<Seq<char>>, bool, bool),
    PartialStored(Seq<Seq<char>>, bool),
    FailureStored(Findings),
}

/// A search for the identifiers of an artist under way.
#[verifier::ext_equal]
pub struct MbidState {
    pub terms: Terms,
    pub stage: MbidStage,
}

/// The result for a name that holds several artists, all of which or only some were
/// found, all of these in the attribute cache or not.
pub open spec fn gathered(mbids: Seq<Seq<char>>, all: bool, cached: bool) -> Findings {
    if all {
        Findings::Found(mbids, cached)
    } else {
        Findings::FoundPartial(mbids, cached)
    }
}

/// The search failed: the attribute cache keeps that if it is to.
pub open spec fn failed(terms: Terms, result: Findings) -> Move<MbidState, Findings> {
    if terms.cache_failures {
        Move::Ask(
            MbidState { terms, stage: MbidStage::FailureStored(result) },
            remember_missing(terms.artist),
        )
    } else {
        Move::Done(result)
    }
}

/// Goes on from the name as a single artist: a name that was not found is split, if
/// that is allowed; any other result is the result of all.
pub open spec fn whole_of(terms: Terms, step: Move<SingleState, Findings>) -> Move<
    MbidState,
    Findings,
> {
    match step {
        Move::Ask(single, asking) => Move::Ask(
            MbidState { terms, stage: MbidStage::Whole(single) },
            asking,
        ),
        Move::Done(Findings::NotFound) => if terms.allow_multiple {
            Move::Ask(
                MbidState { terms, stage: MbidStage::Split },
                Asking::SplitArtist(terms.artist),
            )
        } else {
            failed(terms, Findings::NotFound)
        },
        Move::Done(Findings::Error(message)) => failed(terms, Findings::Error(message)),
        Move::Done(result) => Move::Done(result),
    }
}

/// The failure of a search for a part of the name is kept. A part that is the whole
/// name is another matter: that is settled at the end.
pub open spec fn keeps_part(terms: Terms, part: Seq<char>) -> bool {
    terms.cache_failures && part != terms.artist
}

/// Sums up what the search for the parts of a name found.
pub open spec fn summed(terms: Terms, mbids: Seq<Seq<char>>, all: bool, cached: bool) -> Move<
    MbidState,
    Findings,
> {
    if mbids.len() > 0 {
        Move::Ask(
            MbidState { terms, stage: MbidStage::ListStored(mbids, all, cached) },
            Asking::StoreList(mbid_key(terms.artist), mbids),
        )
    } else {
        failed(terms, Findings::NotFound)
    }
}

/// Goes on to the next of the parts that are left, or sums up when none is. While
/// lookups are disabled no part is found.
pub open spec fn parts_left(
    enabled: bool,
    terms: Terms,
    rest: Seq<Seq<char>>,
    mbids: Seq<Seq<char>>,
    all: bool,
    cached: bool,
) -> Move<MbidState, Findings> {
    if rest.len() == 0 {
        summed(terms, mbids, all, cached)
    } else if enabled {
        part_of(
            terms,
            rest.drop_first(),
            mbids,
            all,
            cached,
            SingleState {
                artist: rest[0],
                cache_only: terms.cache_only,
                keep_failure: keeps_part(terms, rest[0]),
                stage: SingleStage::Cached,
            },
            Asking::ReadText(mbid_key(rest[0])),
        )
    } else {
        summed(terms, mbids, false, cached)
    }
}

/// Waits in the search for a part.
pub open spec fn part_of(
    terms: Terms,
    rest: Seq<Seq<char>>,
    mbids: Seq<Seq<char>>,
    all: bool,
    cached: bool,
    single: SingleState,
    asking: Asking,
) -> Move<MbidState, Findings> {
    Move::Ask(
        MbidState { terms, stage: MbidStage::Part(rest, mbids, all, cached, single) },
        asking,
    )
}

/// The first step of a search for the identifiers of an artist.
pub open spec fn mbids_start(enabled: bool, terms: Terms) -> Move<MbidState, Findings> {
    if !enabled {
        Move::Done(Findings::NotFound)
    } else if terms.cache_failures {
        Move::Ask(
            MbidState { terms, stage: MbidStage::Missing },
            Asking::ReadFlag(missing_key(terms.artist)),
        )
    } else {
        Move::Ask(
            MbidState { terms, stage: MbidStage::Cached },
            Asking::ReadList(mbid_key(terms.artist)),
        )
    }
}

/// The next step of a search for the identifiers of an artist. Whether lookups are
/// enabled counts anew for each artist that it searches for.
pub open spec fn mbids_next(enabled: bool, state: MbidState, answer: Answer) -> Move<
    MbidState,
    Findings,
> {
    let terms = state.terms;
    match state.stage {
        MbidStage::Missing => if answer.flagged() {
            Move::Done(Findings::NotFound)
        } else {
            Move::Ask(
                MbidState { terms, stage: MbidStage::Cached },
                Asking::ReadList(mbid_key(terms.artist)),
            )
        },
        MbidStage::Cached => match answer.list() {
            Some(mbids) => Move::Ask(
                MbidState { terms, stage: MbidStage::Partial(mbids) },
                Asking::ReadFlag(partial_key(terms.artist)),
            ),
            None => whole_of(terms, single_start(enabled, terms.artist, terms.cache_only, false)),
        },
        MbidStage::Partial(mbids) => Move::Done(
            if answer.flagged() {
                Findings::FoundPartial(mbids, true)
            } else {
                Findings::Found(mbids, true)
            },
        ),
        MbidStage::Whole(single) => whole_of(terms, single_next(single, answer)),
        MbidStage::Split => if answer.names().len() > 1 {
            parts_left(enabled, terms, answer.names(), Seq::empty(), true, true)
        } else {
            failed(terms, Findings::NotFound)
        },
        MbidStage::Part(rest, mbids, all, cached, single) => match single_next(single, answer) {
            Move::Ask(next, asking) => part_of(terms, rest, mbids, all, cached, next, asking),
            Move::Done(Findings::Found(more, known)) => parts_left(
                enabled,
                terms,
                rest,
                mbids + more,
                all,
                cached && known,
            ),
            Move::Done(_) => parts_left(enabled, terms, rest, mbids, false, cached),
        },
        MbidStage::ListStored(mbids, all, cached) => if answer.stored() && !all {
            Move::Ask(
                MbidState { terms, stage: MbidStage::PartialStored(mbids, cached) },
                Asking::StoreFlag(partial_key(terms.artist), None),
            )
        } else {
            Move::Done(gathered(mbids, all, cached))
        },
        MbidStage::PartialStored(mbids, cached) => Move::Done(gathered(mbids, false, cached)),
        MbidStage::FailureStored(result) => Move::Done(result),
    }
}

/// How far a search for the identifiers of an artist has come.
#[derive(Debug)]
enum MbidWait {
    Missing,
    Cached,
    Partial(Vec<String>),
    Whole(SingleSearch),
    Split,
    Part(Vec<String>, Vec<String>, bool, bool, SingleSearch),
    ListStored(Vec<String>, bool, bool),
    PartialStored(Vec<String>, bool),
    FailureStored(MusicBrainzSearchResult),
}

/// What a search for the identifiers of an artist is about.
#[derive(Debug)]
struct MbidTerms {
    artist: String,
    allow_multiple: bool,
    cache_only: bool,
    cache_failures: bool,
}

/// A search for the identifiers of an artist under way.
#[derive(Debug)]
pub struct MbidSearch {
    terms: MbidTerms,
    wait: MbidWait,
}

impl MbidTerms {
    spec fn says(&self) -> Terms {
        Terms {
            artist: self.artist@,
            allow_multiple: self.allow_multiple,
            cache_only: self.cache_only,
            cache_failures: self.cache_failures,
        }
    }
}

impl Modelled for MbidSearch {
    type M = MbidState;

    closed spec fn model(&self) -> MbidState {
        MbidState {
            terms: self.terms.says(),
            stage: match self.wait {
                MbidWait::Missing => MbidStage::Missing,
                MbidWait::Cached => MbidStage::Cached,
                MbidWait::Partial(mbids) => MbidStage::Partial(texts(mbids@)),
                MbidWait::Whole(single) => MbidStage::Whole(single.model()),
                MbidWait::Split => MbidStage::Split,
                MbidWait::Part(rest, mbids, all, cached, single) => MbidStage::Part(
                    texts(rest@),
                    texts(mbids@),
                    all,
                    cached,
                    single.model(),
                ),
                MbidWait::ListStored(mbids, all, cached) => MbidStage::ListStored(
                    texts(mbids@),
                    all,
                    cached,
                ),
                MbidWait::PartialStored(mbids, cached) => MbidStage::PartialStored(
                    texts(mbids@),
                    cached,
                ),
                MbidWait::FailureStored(result) => MbidStage::FailureStored(result.model()),
            },
        }
    }
}

fn duplicate_all(list: &[String]) -> (r: Vec<String>)
    ensures
        texts(r@) == texts(list@),
{
    let mut copy: Vec<String> = Vec::new();
    let mut i: usize = 0;
    assert(texts(copy@) =~= texts(list@).take(0));
    while i < list.len()
        invariant
            i <= list.len(),
            texts(copy@) == texts(list@).take(i as int),
        decreases list.len() - i,
    {
        let item = list[i].clone();
        proof {
            lemma_texts_push(copy@, item);
            assert(texts(list@).take(i + 1) =~= texts(list@).take(i as int).push(item@));
        }
        copy.push(item);
        i = i + 1;
    }
    assert(texts(list@).take(i as int) =~= texts(list@));
    copy
}

fn gather(mbids: Vec<String>, all: bool, cached: bool) -> (r: MusicBrainzSearchResult)
    ensures
        r.model() == gathered(texts(mbids@), all, cached),
{
    if all {
        MusicBrainzSearchResult::Found(mbids, cached)
    } else {
        MusicBrainzSearchResult::FoundPartial(mbids, cached)
    }
}

fn give_up(terms: MbidTerms, result: MusicBrainzSearchResult) -> (r: Step<
    MbidSearch,
    MusicBrainzSearchResult,
>)
    ensures
        r.model() == failed(terms.says(), result.model()),
{
    if terms.cache_failures {
        let keep = remember(terms.artist.as_str());
        Step::Ask(MbidSearch { terms, wait: MbidWait::FailureStored(result) }, keep)
    } else {
        Step::Done(result)
    }
}

fn go_on_whole(terms: MbidTerms, step: Step<SingleSearch, MusicBrainzSearchResult>) -> (r: Step<
    MbidSearch,
    MusicBrainzSearchResult,
>)
    ensures
        r.model() == whole_of(terms.says(), step.model()),
{
    match step {
        Step::Ask(single, request) => Step::Ask(
            MbidSearch { terms, wait: MbidWait::Whole(single) },
            request,
        ),
        Step::Done(MusicBrainzSearchResult::NotFound) => {
            if terms.allow_multiple {
                let request = split_artist(terms.artist.as_str());
                Step::Ask(MbidSearch { terms, wait: MbidWait::Split }, request)
            } else {
                give_up(terms, MusicBrainzSearchResult::NotFound)
            }
        },
        Step::Done(MusicBrainzSearchResult::Error(message)) => give_up(
            terms,
            MusicBrainzSearchResult::Error(message),
        ),
        Step::Done(result) => Step::Done(result),
    }
}

fn sum_up(terms: MbidTerms, mbids: Vec<String>, all: bool, cached: bool) -> (r: Step<
    MbidSearch,
    MusicBrainzSearchResult,
>)
    ensures
        r.model() == summed(terms.says(), texts(mbids@), all, cached),
{
    if mbids.len() > 0 {
        let key = key_of_mbid(terms.artist.as_str());
        let kept = duplicate_all(mbids.as_slice());
        Step::Ask(
            MbidSearch { terms, wait: MbidWait::ListStored(mbids, all, cached) },
            Request::StoreList(key, kept),
        )
    } else {
        give_up(terms, MusicBrainzSearchResult::NotFound)
    }
}

fn go_on_parts(
    config: &MusicBrainzConfig,
    terms: MbidTerms,
    rest: Vec<String>,
    mbids: Vec<String>,
    all: bool,
    cached: bool,
) -> (r: Step<MbidSearch, MusicBrainzSearchResult>)
    ensures
        r.model() == parts_left(
            config.enabled,
            terms.says(),
            texts(rest@),
            texts(mbids@),
            all,
            cached,
        ),
{
    if rest.len() == 0 {
        return sum_up(terms, mbids, all, cached);
    }
    if !is_enabled(config) {
        return sum_up(terms, mbids, false, cached);
    }
    let mut rest = rest;
    let ghost before = rest@;
    let artist = rest.remove(0);
    assert(texts(rest@) =~= texts(before).drop_first());
    let key = key_of_mbid(artist.as_str());
    let keep_failure = terms.cache_failures && artist != terms.artist;
    let single = SingleSearch {
        artist,
        cache_only: terms.cache_only,
        keep_failure,
        wait: SingleWait::Cached,
    };
    Step::Ask(
        MbidSearch { terms, wait: MbidWait::Part(rest, mbids, all, cached, single) },
        Request::ReadText(key),
    )
}

/// Split an artist name that might contain multiple artists: the request for it
///
/// # Arguments
/// * `artist_name` - The artist name to split
pub fn split_artist(artist_name: &str) -> (r: Request)
    ensures
        r.model() == Asking::SplitArtist(artist_name@),
{
    Request::SplitArtist(owned(artist_name))
}

/// Check if an artist name contains multiple artists by looking up MBIDs and
/// splitting the name if multiple MBIDs are found: the request for it
///
/// # Arguments
/// * `artist_name` - The name of the artist to check
/// * `cache_only` - If true, only check the cache and don't make API calls
/// * `custom_separators` - Optional list of custom separators to use instead of the default
pub fn split_artist_names(
    artist_name: &str,
    cache_only: bool,
    custom_separators: Option<&[String]>,
) -> (r: Request)
    ensures
        r.model() == Asking::SplitNames(
            artist_name@,
            cache_only,
            match custom_separators {
                Some(list) => Some(texts(list@)),
                None => None,
            },
        ),
{
    let separators = match custom_separators {
        Some(list) => Some(duplicate_all(list)),
        None => None,
    };
    Request::SplitNames(owned(artist_name), cache_only, separators)
}

/// Search for MusicBrainz IDs for an artist, handling multiple artists if needed
///
/// The artist is first looked up by the whole name. If that fails and
/// `allow_multiple` is true, the name is split, and if it holds multiple artists,
/// each of them is looked up individually.
///
/// # Arguments
/// * `artist_name` - The name of the artist to search for
/// * `allow_multiple` - If true, handle potential multiple artists in the name
/// * `cache_only` - If true, only check the cache and don't make API calls
/// * `cache_failures` - If true, cache artists that are not found to avoid repeated lookups
pub fn search_mbids_for_artist(
    config: &MusicBrainzConfig,
    artist_name: &str,
    allow_multiple: bool,
    cache_only: bool,
    cache_failures: bool,
) -> (r: Step<MbidSearch, MusicBrainzSearchResult>)
    ensures
        r.model() == mbids_start(
            config.enabled,
            Terms { artist: artist_name@, allow_multiple, cache_only, cache_failures },
        ),
{
    if !is_enabled(config) {
        return Step::Done(MusicBrainzSearchResult::NotFound);
    }
    let terms = MbidTerms {
        artist: owned(artist_name),
        allow_multiple,
        cache_only,
        cache_failures,
    };
    if cache_failures {
        Step::Ask(
            MbidSearch { terms, wait: MbidWait::Missing },
            Request::ReadFlag(key_of_missing(artist_name)),
        )
    } else {
        Step::Ask(
            MbidSearch { terms, wait: MbidWait::Cached },
            Request::ReadList(key_of_mbid(artist_name)),
        )
    }
}

impl MbidSearch {
    /// Goes on with the reply to the request.
    pub fn resume(self, config: &MusicBrainzConfig, reply: Reply) -> (r: Step<
        MbidSearch,
        MusicBrainzSearchResult,
    >)
        ensures
            r.model() == mbids_next(config.enabled, self.model(), reply.model()),
    {
        let terms = self.terms;
        match self.wait {
            MbidWait::Missing => {
                if reply.flagged() {
                    return Step::Done(MusicBrainzSearchResult::NotFound);
                }
                let key = key_of_mbid(terms.artist.as_str());
                Step::Ask(MbidSearch { terms, wait: MbidWait::Cached }, Request::ReadList(key))
            },
            MbidWait::Cached => {
                match reply.list() {
                    Some(mbids) => {
                        let key = key_of_partial(terms.artist.as_str());
                        Step::Ask(
                            MbidSearch { terms, wait: MbidWait::Partial(mbids) },
                            Request::ReadFlag(key),
                        )
                    },
                    None => {
                        let step = SingleSearch::start(
                            config,
                            terms.artist.clone(),
                            terms.cache_only,
                            false,
                        );
                        go_on_whole(terms, step)
                    },
                }
            },
            MbidWait::Partial(mbids) => {
                if reply.flagged() {
                    Step::Done(MusicBrainzSearchResult::FoundPartial(mbids, true))
                } else {
                    Step::Done(MusicBrainzSearchResult::Found(mbids, true))
                }
            },
            MbidWait::Whole(single) => {
                let step = single.resume(reply);
                go_on_whole(terms, step)
            },
            MbidWait::Split => {
                let names = reply.names();
                if names.len() > 1 {
                    go_on_parts(config, terms, names, no_texts(), true, true)
                } else {
                    give_up(terms, MusicBrainzSearchResult::NotFound)
                }
            },
            MbidWait::Part(rest, mbids, all, cached, single) => {
                match single.resume(reply) {
                    Step::Ask(next, request) => Step::Ask(
                        MbidSearch { terms, wait: MbidWait::Part(rest, mbids, all, cached, next) },
                        request,
                    ),
                    Step::Done(MusicBrainzSearchResult::Found(more, known)) => {
                        let mut mbids = mbids;
                        let mut more = more;
                        let ghost before = mbids@;
                        let ghost added = more@;
                        mbids.append(&mut more);
                        assert(texts(mbids@) =~= texts(before) + texts(added));
                        go_on_parts(config, terms, rest, mbids, all, cached && known)
                    },
                    Step::Done(_) => go_on_parts(config, terms, rest, mbids, false, cached),
                }
            },
            MbidWait::ListStored(mbids, all, cached) => {
                if reply.stored() && !all {
                    let key = key_of_partial(terms.artist.as_str());
                    Step::Ask(
                        MbidSearch { terms, wait: MbidWait::PartialStored(mbids, cached) },
                        Request::StoreFlag(key, None),
                    )
                } else {
                    Step::Done(gather(mbids, all, cached))
                }
            },
            MbidWait::PartialStored(mbids, cached) => Step::Done(gather(mbids, false, cached)),
            MbidWait::FailureStored(result) => Step::Done(result),
        }
    }
}

/// What came of a GET request to the MusicBrainz API.
#[derive(Debug)]
pub enum Received {
    /// The request failed, for this reason.
    RequestFailed(String),
    /// The response could not be read, for this reason.
    ReadFailed(String),
    /// The body of the response.
    Body(String),
}

/// What a response of the MusicBrainz API comes to: its body, unless that is empty.
pub open spec fn response_of(received: Received) -> Result<Seq<char>, Seq<char>> {
    match received {
        Received::RequestFailed(reason) => Err("Request error: "@ + reason@),
        Received::ReadFailed(reason) => Err("Response error: "@ + reason@),
        Received::Body(body) => if body@.len() == 0 {
            Err("Empty response from MusicBrainz API"@)
        } else {
            Ok(body@)
        },
    }
}

/// Takes the response to a GET request to the MusicBrainz API
pub fn musicbrainz_api_get(received: Received) -> (r: Result<String, String>)
    ensures
        r.model() == response_of(received),
{
    match received {
        Received::RequestFailed(reason) => Err(join2("Request error: ", reason.as_str())),
        Received::ReadFailed(reason) => Err(join2("Response error: ", reason.as_str())),
        Received::Body(body) => {
            if body.as_str().is_empty() {
                Err(owned("Empty response from MusicBrainz API"))
            } else {
                Ok(body)
            }
        },
    }
}

/// How a character of a query for a release group is written in a URL.
pub open spec fn query_char(c: char) -> Seq<char> {
    if c == ' ' {
        "+"@
    } else if c == '"' {
        "%22"@
    } else if c == ':' {
        "%3A"@
    } else {
        seq![c]
    }
}

/// How a query for a release group is written in a URL.
pub open spec fn query_coded(query: Seq<char>) -> Seq<char>
    decreases query.len(),
{
    if query.len() == 0 {
        Seq::empty()
    } else {
        query_coded(query.drop_last()) + query_char(query.last())
    }
}

/// The query for the release group of an album.
pub open spec fn group_query(artist: Seq<char>, album: Seq<char>) -> Seq<char> {
    "artist:\""@ + replaced(artist, '"', "\\\""@) + "\" AND releasegroup:\""@ + replaced(
        album,
        '"',
        "\\\""@,
    ) + "\""@
}

/// The page of release groups for an album.
pub open spec fn group_url(artist: Seq<char>, album: Seq<char>) -> Seq<char> {
    "https://musicbrainz.org/ws/2/release-group?query="@ + query_coded(group_query(artist, album))
        + "&limit=1&fmt=json"@
}

/// The identifier of the first release group of a page.
pub open spec fn first_group(page: Json) -> Option<Seq<char>> {
    match page.field_items("release-groups"@) {
        Some(groups) => if groups.len() > 0 {
            groups[0].field_string("id"@)
        } else {
            None
        },
        None => None,
    }
}

/// The identifier of the release group that the reply to a search names.
pub open spec fn group_found(page: Result<Seq<char>, Seq<char>>) -> Option<Seq<char>> {
    match page {
        Ok(text) => match json_parsed(text) {
            Ok(json) => first_group(json),
            Err(_) => None,
        },
        Err(_) => None,
    }
}

/// The page with the genres of a release group.
pub open spec fn genres_url(mbid: Seq<char>) -> Seq<char> {
    "https://musicbrainz.org/ws/2/release-group/"@ + mbid + "?inc=genres&fmt=json"@
}

fn code_query(query: &str) -> (r: String)
    ensures
        r@ == query_coded(query@),
{
    let chars = characters(query);
    let mut out = String::new();
    let mut i: usize = 0;
    assert(query@.take(0) =~= Seq::empty());
    while i < chars.len()
        invariant
            i <= chars.len(),
            chars@ == query@,
            out@ == query_coded(query@.take(i as int)),
        decreases chars.len() - i,
    {
        let c = chars[i];
        assert(query@.take(i + 1).drop_last() =~= query@.take(i as int));
        if c == ' ' {
            out.append("+");
        } else if c == '"' {
            out.append("%22");
        } else if c == ':' {
            out.append("%3A");
        } else {
            out.push(c);
            assert(out@ =~= query_coded(query@.take(i as int)) + seq![c]);
        }
        i = i + 1;
    }
    assert(query@.take(i as int) =~= query@);
    out
}

/// The identifier of the first release group of a page.
pub fn pick_release_group(page: &JsonValue) -> (r: Option<String>)
    ensures
        r.model() == first_group(page.says()),
{
    match page.get_array("release-groups") {
        Some(groups) => {
            if groups.len() > 0 {
                assert(say_all(groups@)[0] == groups@[0].says());
                match groups[0].get_str("id") {
                    Some(id) => Some(id.clone()),
                    None => None,
                }
            } else {
                None
            }
        },
        None => None,
    }
}

/// A search for a release group under way.
#[derive(Debug)]
pub struct GroupSearch;

impl Modelled for GroupSearch {
    type M = GroupSearch;

    open spec fn model(&self) -> GroupSearch {
        *self
    }
}

/// The first step of a search for a release group.
pub open spec fn group_start(enabled: bool, artist: Seq<char>, album: Seq<char>) -> Move<
    GroupSearch,
    Option<Seq<char>>,
> {
    if enabled {
        Move::Ask(GroupSearch, Asking::Fetch(Service::MusicBrainz, group_url(artist, album)))
    } else {
        Move::Done(None)
    }
}

/// The next step of a search for a release group.
pub open spec fn group_next(state: GroupSearch, answer: Answer) -> Move<
    GroupSearch,
    Option<Seq<char>>,
> {
    Move::Done(group_found(answer.page()))
}

/// Search MusicBrainz for the release-group (album) MBID matching an artist/album name
pub fn search_release_group_mbid(config: &MusicBrainzConfig, artist: &str, album: &str) -> (r: Step<
    GroupSearch,
    Option<String>,
>)
    ensures
        r.model() == group_start(config.enabled, artist@, album@),
{
    if !is_enabled(config) {
        return Step::Done(None);
    }
    let mut query = join2("artist:\"", replace_char(artist, '"', "\\\"").as_str());
    query.append("\" AND releasegroup:\"");
    query.append(replace_char(album, '"', "\\\"").as_str());
    query.append("\"");
    let url = join3(
        "https://musicbrainz.org/ws/2/release-group?query=",
        code_query(query.as_str()).as_str(),
        "&limit=1&fmt=json",
    );
    Step::Ask(GroupSearch, Request::Fetch(Service::MusicBrainz, url))
}

impl GroupSearch {
    /// Goes on with the reply to the request.
    pub fn resume(self, reply: Reply) -> (r: Step<GroupSearch, Option<String>>)
        ensures
            r.model() == group_next(self.model(), reply.model()),
    {
        match reply.page() {
            Ok(text) => match parse_json(text.as_str()) {
                Ok(json) => Step::Done(pick_release_group(&json)),
                Err(_) => Step::Done(None),
            },
            Err(_) => Step::Done(None),
        }
    }
}

/// The lowercase names of a list of genres, without those that have no name.
pub open spec fn genre_names(genres: Seq<Json>) -> Seq<Seq<char>>
    decreases genres.len(),
{
    if genres.len() == 0 {
        Seq::empty()
    } else {
        let before = genre_names(genres.drop_last());
        match genres.last().field_string("name"@) {
            Some(name) => before.push(lowercased(name)),
            None => before,
        }
    }
}

/// An ordered list of texts with one more text in its place, unless it is there.
pub open spec fn placed(list: Seq<Seq<char>>, text: Seq<char>) -> Seq<Seq<char>>
    decreases list.len(),
{
    if list.len() == 0 {
        seq![text]
    } else if list[0] == text {
        list
    } else if sorts_before(text, list[0]) {
        seq![text] + list
    } else {
        seq![list[0]] + placed(list.drop_first(), text)
    }
}

/// The texts of a list in order, each of them once.
pub open spec fn in_order(list: Seq<Seq<char>>) -> Seq<Seq<char>>
    decreases list.len(),
{
    if list.len() == 0 {
        Seq::empty()
    } else {
        placed(in_order(list.drop_last()), list.last())
    }
}

/// Each text of a list stands before the next.
pub open spec fn ascending(list: Seq<Seq<char>>) -> bool {
    forall|i: int, j: int| 0 <= i < j < list.len() ==> sorts_before(list[i], list[j])
}

/// The genres of a page on a release group.
pub open spec fn page_genres(page: Json) -> Seq<Seq<char>> {
    match page.field_items("genres"@) {
        Some(genres) => in_order(genre_names(genres)),
        None => Seq::empty(),
    }
}

/// The genres that the reply to a request for a release group names.
pub open spec fn genres_found(page: Result<Seq<char>, Seq<char>>) -> Seq<Seq<char>> {
    match page {
        Ok(text) => match json_parsed(text) {
            Ok(json) => page_genres(json),
            Err(_) => Seq::empty(),
        },
        Err(_) => Seq::empty(),
    }
}

proof fn lemma_placed(list: Seq<Seq<char>>, text: Seq<char>)
    requires
        ascending(list),
    ensures
        ascending(placed(list, text)),
        forall|t: Seq<char>| #[trigger]
            placed(list, text).contains(t) <==> list.contains(t) || t == text,
    decreases list.len(),
{
    let all = placed(list, text);
    if list.len() == 0 {
        assert forall|t: Seq<char>| #[trigger] all.contains(t) <==> list.contains(t) || t == text by {
            assert(all[0] == text);
        }
    } else if list[0] == text {
        assert(list.contains(list[0]));
    } else if sorts_before(text, list[0]) {
        assert forall|i: int, j: int| 0 <= i < j < all.len() implies sorts_before(all[i], all[j]) by {
            if i == 0 && j > 1 {
                lemma_sorts_transitive(text, list[0], list[j - 1]);
            }
        }
        assert forall|t: Seq<char>| #[trigger] all.contains(t) <==> list.contains(t) || t == text by {
            assert(all[0] == text);
            if list.contains(t) {
                let k = choose|k: int| 0 <= k < list.len() && list[k] == t;
                assert(all[k + 1] == t);
            }
            if all.contains(t) && t != text {
                let k = choose|k: int| 0 <= k < all.len() && all[k] == t;
                assert(list[k - 1] == t);
            }
        }
    } else {
        let rest = list.drop_first();
        let more = placed(rest, text);
        lemma_placed(rest, text);
        lemma_sorts_total(text, list[0]);
        assert forall|t: Seq<char>| #[trigger] all.contains(t) <==> list.contains(t) || t == text by {
            assert(all[0] == list[0]);
            if list.contains(t) {
                let k = choose|k: int| 0 <= k < list.len() && list[k] == t;
                if k > 0 {
                    assert(rest[k - 1] == t);
                }
            }
            if more.contains(t) {
                let k = choose|k: int| 0 <= k < more.len() && more[k] == t;
                assert(all[k + 1] == t);
                if t != text {
                    let n = choose|n: int| 0 <= n < rest.len() && rest[n] == t;
                    assert(list[n + 1] == t);
                }
            }
            if all.contains(t) {
                let k = choose|k: int| 0 <= k < all.len() && all[k] == t;
                if k > 0 {
                    assert(more[k - 1] == t);
                } else {
                    assert(list[0] == t);
                }
            }
        }
        assert forall|i: int, j: int| 0 <= i < j < all.len() implies sorts_before(all[i], all[j]) by {
            if i == 0 {
                assert(more.contains(more[j - 1]));
                if more[j - 1] != text {
                    let n = choose|n: int| 0 <= n < rest.len() && rest[n] == more[j - 1];
                    assert(list[n + 1] == more[j - 1]);
                }
            } else {
                assert(all[i] == more[i - 1] && all[j] == more[j - 1]);
            }
        }
    }
}

/// The genres of a release group stand in order, none of them twice, and are those
/// that the page names.
pub proof fn law_genres_in_order(list: Seq<Seq<char>>)
    ensures
        ascending(in_order(list)),
        in_order(list).no_duplicates(),
        forall|t: Seq<char>| #[trigger] in_order(list).contains(t) <==> list.contains(t),
    decreases list.len(),
{
    let all = in_order(list);
    if list.len() > 0 {
        law_genres_in_order(list.drop_last());
        lemma_placed(in_order(list.drop_last()), list.last());
        assert forall|t: Seq<char>| #[trigger] all.contains(t) <==> list.contains(t) by {
            assert(list.contains(list.last()));
            if list.contains(t) && t != list.last() {
                let k = choose|k: int| 0 <= k < list.len() && list[k] == t;
                assert(list.drop_last()[k] == t);
            }
            if list.drop_last().contains(t) {
                let k = choose|k: int| 0 <= k < list.drop_last().len() && list.drop_last()[k] == t;
                assert(list[k] == t);
            }
        }
    }
    assert forall|i: int, j: int| 0 <= i < all.len() && 0 <= j < all.len() && i != j implies all[i]
        != all[j] by {
        lemma_sorts_irreflexive(all[i]);
        if i < j {
            assert(sorts_before(all[i], all[j]));
        } else {
            assert(sorts_before(all[j], all[i]));
        }
    }
}

/// Puts a text into its place in an ordered list, unless it is there.
fn place(list: &mut Vec<String>, text: String)
    ensures
        texts(final(list)@) == placed(texts(old(list)@), text@),
{
    let ghost before = texts(list@);
    let mut i: usize = 0;
    assert(before.take(0) + placed(before.skip(0), text@) =~= placed(before, text@)) by {
        assert(before.skip(0) =~= before);
    }
    while i < list.len()
        invariant
            i <= list.len(),
            before == texts(list@),
            before == texts(old(list)@),
            placed(before, text@) == before.take(i as int) + placed(before.skip(i as int), text@),
        decreases list.len() - i,
    {
        let ghost here = before.skip(i as int);
        assert(here[0] == before[i as int]);
        if list[i] == text {
            assert(before =~= before.take(i as int) + here);
            return;
        }
        if precedes(text.as_str(), list[i].as_str()) {
            let ghost kept = list@;
            list.insert(i, text);
            assert(texts(list@) =~= before.take(i as int) + (seq![text@] + here));
            return;
        }
        assert(here.drop_first() =~= before.skip(i + 1));
        assert(before.take(i as int) + (seq![here[0]] + placed(before.skip(i + 1), text@))
            =~= before.take(i + 1) + placed(before.skip(i + 1), text@));
        i = i + 1;
    }
    list.push(text);
    assert(before.skip(i as int) =~= Seq::empty());
    assert(texts(list@) =~= before.take(i as int) + seq![text@]);
}

/// The genres of a page on a release group.
pub fn pick_genres(page: &JsonValue) -> (r: Vec<String>)
    ensures
        texts(r@) == page_genres(page.says()),
{
    let mut found: Vec<String> = Vec::new();
    assert(texts(found@) =~= Seq::empty());
    match page.get_array("genres") {
        Some(genres) => {
            let ghost all = say_all(genres@);
            let mut i: usize = 0;
            assert(all.take(0) =~= Seq::empty());
            while i < genres.len()
                invariant
                    i <= genres.len(),
                    all == say_all(genres@),
                    texts(found@) == in_order(genre_names(all.take(i as int))),
                decreases genres.len() - i,
            {
                assert(all.take(i + 1).drop_last() =~= all.take(i as int));
                match genres[i].get_str("name") {
                    Some(name) => {
                        let genre = to_lowercase(name.as_str());
                        proof {
                            let names = genre_names(all.take(i as int));
                            assert(names.push(genre@).drop_last() =~= names);
                        }
                        place(&mut found, genre);
                    },
                    None => {},
                }
                i = i + 1;
            }
            assert(all.take(i as int) =~= all);
        },
        None => {},
    }
    found
}

/// How far a search for the genres of a release group has come: it waits for the
/// release group, or for its genres.
#[derive(Debug)]
pub enum GenreSearch {
    Group(GroupSearch),
    Genres,
}

impl Modelled for GenreSearch {
    type M = GenreSearch;

    open spec fn model(&self) -> GenreSearch {
        *self
    }
}

/// Goes on from the search for the release group.
pub open spec fn genres_of(step: Move<GroupSearch, Option<Seq<char>>>) -> Move<
    GenreSearch,
    Seq<Seq<char>>,
> {
    match step {
        Move::Ask(group, asking) => Move::Ask(GenreSearch::Group(group), asking),
        Move::Done(Some(mbid)) => Move::Ask(
            GenreSearch::Genres,
            Asking::Fetch(Service::MusicBrainz, genres_url(mbid)),
        ),
        Move::Done(None) => Move::Done(Seq::empty()),
    }
}

/// The next step of a search for the genres of a release group.
pub open spec fn genres_next(state: GenreSearch, answer: Answer) -> Move<
    GenreSearch,
    Seq<Seq<char>>,
> {
    match state {
        GenreSearch::Group(group) => genres_of(group_next(group, answer)),
        GenreSearch::Genres => Move::Done(genres_found(answer.page())),
    }
}

fn go_on_genres(step: Step<GroupSearch, Option<String>>) -> (r: Step<GenreSearch, Vec<String>>)
    ensures
        r.model() == genres_of(step.model()),
{
    match step {
        Step::Ask(group, request) => Step::Ask(GenreSearch::Group(group), request),
        Step::Done(Some(mbid)) => {
            let url = join3(
                "https://musicbrainz.org/ws/2/release-group/",
                mbid.as_str(),
                "?inc=genres&fmt=json",
            );
            Step::Ask(GenreSearch::Genres, Request::Fetch(Service::MusicBrainz, url))
        },
        Step::Done(None) => Step::Done(no_texts()),
    }
}

/// Search MusicBrainz for the genres tagged on an artist's album (release group)
pub fn search_release_group_genres(config: &MusicBrainzConfig, artist: &str, album: &str) -> (r:
    Step<GenreSearch, Vec<String>>)
    ensures
        r.model() == genres_of(group_start(config.enabled, artist@, album@)),
{
    go_on_genres(search_release_group_mbid(config, artist, album))
}

impl GenreSearch {
    /// Goes on with the reply to the request.
    pub fn resume(self, reply: Reply) -> (r: Step<GenreSearch, Vec<String>>)
        ensures
            r.model() == genres_next(self.model(), reply.model()),
    {
        match self {
            GenreSearch::Group(group) => go_on_genres(group.resume(reply)),
            GenreSearch::Genres => {
                match reply.page() {
                    Ok(text) => match parse_json(text.as_str()) {
                        Ok(json) => Step::Done(pick_genres(&json)),
                        Err(_) => Step::Done(no_texts()),
                    },
                    Err(_) => Step::Done(no_texts()),
                }
            },
        }
    }
}

/// A page of recordings (songs) from MusicBrainz
#[derive(Debug)]
pub struct MusicBrainzRecordingSearchResponse {
    pub count: u32,
    pub offset: u32,
    pub recordings: Vec<MusicBrainzRecording>,
}

#[derive(Debug)]
pub struct MusicBrainzRecording {
    pub id: String,
    pub title: String,
    pub artist_credit: Option<Vec<MusicBrainzArtistCredit>>,
    pub score: Option<u32>,
}

#[derive(Debug)]
pub struct MusicBrainzArtistCredit {
    pub name: String,
    pub artist: MusicBrainzArtistRef,
}

#[derive(Debug)]
pub struct MusicBrainzArtistRef {
    pub id: String,
    pub name: String,
}

/// What came of a search for recordings.
#[derive(Debug)]
pub enum RecordingReply {
    /// There is no page, for this reason.
    Failed(String),
    /// The page could not be read, for this reason.
    Malformed(String),
    /// The page.
    Found(MusicBrainzRecordingSearchResponse),
}

/// An artist credited for a recording.
#[verifier::ext_equal]
pub struct Credit {
    pub name: Seq<char>,
    pub artist_id: Seq<char>,
    pub artist_name: Seq<char>,
}

/// A recording as a page of recordings describes it.
#[verifier::ext_equal]
pub struct RecordingEntry {
    pub id: Seq<char>,
    pub title: Seq<char>,
    pub artist_credit: Option<Seq<Credit>>,
    pub score: Option<u32>,
}

/// What a page of recordings says.
#[verifier::ext_equal]
pub struct RecordingPage {
    pub count: u32,
    pub offset: u32,
    pub recordings: Seq<RecordingEntry>,
}

/// What an artist credit says.
pub open spec fn credit_says(credit: MusicBrainzArtistCredit) -> Credit {
    Credit { name: credit.name@, artist_id: credit.artist.id@, artist_name: credit.artist.name@ }
}

/// What a recording says.
pub open spec fn recording_says(recording: MusicBrainzRecording) -> RecordingEntry {
    RecordingEntry {
        id: recording.id@,
        title: recording.title@,
        artist_credit: match recording.artist_credit {
            Some(credits) => Some(
                credits@.map_values(|c: MusicBrainzArtistCredit| credit_says(c)),
            ),
            None => None,
        },
        score: recording.score,
    }
}

impl MusicBrainzRecordingSearchResponse {
    /// What the page says.
    pub open spec fn says(&self) -> RecordingPage {
        RecordingPage {
            count: self.count,
            offset: self.offset,
            recordings: self.recordings@.map_values(|r: MusicBrainzRecording| recording_says(r)),
        }
    }
}

impl Modelled for RecordingReply {
    type M = Option<RecordingPage>;

    open spec fn model(&self) -> Option<RecordingPage> {
        match self {
            RecordingReply::Found(page) => Some(page.says()),
            _ => None,
        }
    }
}

impl Modelled for Result<MusicBrainzRecordingSearchResponse, String> {
    type M = Result<RecordingPage, Seq<char>>;

    open spec fn model(&self) -> Result<RecordingPage, Seq<char>> {
        match self {
            Ok(page) => Ok(page.says()),
            Err(message) => Err(message@),
        }
    }
}

/// The page without recordings.
pub open spec fn no_recordings() -> RecordingPage {
    RecordingPage { count: 0, offset: 0, recordings: Seq::empty() }
}

/// The page of recordings for an artist and a title.
pub open spec fn recording_url(artist: Seq<char>, title: Seq<char>) -> Seq<char> {
    "https://musicbrainz.org/ws/2/recording/?query="@ + url_encoded(
        "artist:\""@ + artist + "\" AND recording:\""@ + title + "\""@,
    ) + "&fmt=json&limit=5"@
}

/// A search for recordings under way.
#[derive(Debug)]
pub struct RecordingSearch;

impl Modelled for RecordingSearch {
    type M = RecordingSearch;

    open spec fn model(&self) -> RecordingSearch {
        *self
    }
}

/// The first step of a search for recordings.
pub open spec fn recording_start(enabled: bool, artist: Seq<char>, title: Seq<char>) -> Move<
    RecordingSearch,
    Result<RecordingPage, Seq<char>>,
> {
    if enabled {
        Move::Ask(RecordingSearch, Asking::SearchRecordings(recording_url(artist, title)))
    } else {
        Move::Done(Ok(no_recordings()))
    }
}

/// The next step of a search for recordings: a search that fails found none.
pub open spec fn recording_next(state: RecordingSearch, answer: Answer) -> Move<
    RecordingSearch,
    Result<RecordingPage, Seq<char>>,
> {
    Move::Done(
        Ok(
            match answer.recordings() {
                Some(page) => page,
                None => no_recordings(),
            },
        ),
    )
}

fn empty_page() -> (r: MusicBrainzRecordingSearchResponse)
    ensures
        r.says() == no_recordings(),
{
    let page = MusicBrainzRecordingSearchResponse { recordings: Vec::new(), count: 0, offset: 0 };
    assert(page.says().recordings =~= Seq::empty());
    page
}

/// Search for recordings (songs) by artist and title
///
/// Performs an exact match search for recordings in MusicBrainz.
///
/// # Arguments
/// * `artist` - The artist name to search for
/// * `title` - The recording title to search for
pub fn search_recording(config: &MusicBrainzConfig, artist: &str, title: &str) -> (r: Step<
    RecordingSearch,
    Result<MusicBrainzRecordingSearchResponse, String>,
>)
    ensures
        r.model() == recording_start(config.enabled, artist@, title@),
{
    if !is_enabled(config) {
        return Step::Done(Ok(empty_page()));
    }
    let mut query = join3("artist:\"", artist, "\" AND recording:\"");
    query.append(title);
    query.append("\"");
    let url = join3(
        "https://musicbrainz.org/ws/2/recording/?query=",
        url_encode(query.as_str()).as_str(),
        "&fmt=json&limit=5",
    );
    Step::Ask(RecordingSearch, Request::SearchRecordings(url))
}

impl RecordingSearch {
    /// Goes on with the reply to the request.
    pub fn resume(self, reply: Reply) -> (r: Step<
        RecordingSearch,
        Result<MusicBrainzRecordingSearchResponse, String>,
    >)
        ensures
            r.model() == recording_next(self.model(), reply.model()),
            reply matches Reply::Recordings(RecordingReply::Found(page)) ==> r == Step::<
                RecordingSearch,
                Result<MusicBrainzRecordingSearchResponse, String>,
            >::Done(Ok(page)),
    {
        match reply {
            Reply::Recordings(RecordingReply::Found(page)) => Step::Done(Ok(page)),
            _ => Step::Done(Ok(empty_page())),
        }
    }
}

} // verus!
