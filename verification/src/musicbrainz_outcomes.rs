//! What searches on MusicBrainz ask for and find, in terms of the pages of MusicBrainz and
//! of the attribute cache.

use vstd::prelude::*;
use crate::json::{json_parsed, Json, JsonNumber, JsonValue};
use crate::json_laws::{holds, holds_array, holds_text, law_members};
use crate::musicbrainz::{
    alias_names, artist_url, first_group, genre_names, genres_of, group_start, in_order,
    initialize_from_config, judge_artists, keeps_part, law_genres_in_order, mbid_key, mbids_next,
    mbids_start, missing_key, musicbrainz_api_get, page_genres, partial_key, pick_genres,
    pick_release_group, query_coded, recording_start, search_mbids_for_artist,
    search_musicbrainz_for_artist, search_recording, search_release_group_genres,
    search_release_group_mbid, single_next, single_start, split_artist, split_artist_names,
    ArtistEntry, ArtistReply, Artists, Findings, GenreSearch, GroupSearch, MbidSearch, MbidStage,
    MbidState, MusicBrainzArtist, MusicBrainzConfig, MusicBrainzRecordingSearchResponse,
    MusicBrainzSearchResult, Received, RecordingReply, RecordingSearch, SingleSearch, SingleStage,
    SingleState, Terms,
};
use crate::musicbrainz_laws::{
    genre_searches, genres_in, group_in, group_searches, law_genre_search, law_group_search,
    law_keys_apart, law_mbid_search, law_single_search, mbid_searches, mbids_in, parts_in,
    single_in, singles,
};
use crate::naming::names_match;
use crate::naming_laws::alike;
use crate::protocol::{Answer, Asking, Modelled, Move, Reply, Request, Service, Step};
use crate::text::{
    comes_before, encodes, law_order_of_texts, lemma_encodes, lowercased, replaced, texts,
};
use crate::world::{comes_to, law_outcome_is_unique, lemma_done, Entry, World};

verus! {

/// The artist of a page is the one that was searched for: the name is like that of the
/// artist or like an alias.
pub open spec fn is_the_artist(query: Seq<char>, artist: MusicBrainzArtist) -> bool {
    ||| alike(query, artist.name@)
    ||| exists|i: int|
        0 <= i < artist.aliases@.len() && alike(query, (#[trigger] artist.aliases@[i]).name@)
}

/// A page of artists finds the artist exactly if its first artist is the one that was
/// searched for. The identifier is that of this artist, and the attribute cache gets it;
/// otherwise it gets for two days that the artist was not found.
pub proof fn law_judged_artists(
    artist: &str,
    page: ArtistReply,
    r: (MusicBrainzSearchResult, Request),
)
    requires
        call_ensures(judge_artists, (artist, page), r),
    ensures
        ({
            let found = page matches ArtistReply::Found(list) && list.artists@.len() > 0
                && is_the_artist(artist@, list.artists@[0]);
            let missing = Asking::StoreFlag(
                "artist::mbid_not_found::"@ + artist@,
                Some(172800i64),
            );
            &&& found ==> {
                let id = page->Found_0.artists@[0].id@;
                &&& r.0.model() == Findings::Found(seq![id], false)
                &&& r.1.model() == Asking::StoreText("artist::mbid::"@ + artist@, id)
            }
            &&& !found ==> r.1.model() == missing
            &&& page is Found && !found ==> r.0 is NotFound
            &&& page matches ArtistReply::Failed(reason) ==> r.0.model() == Findings::Error(
                "API request error: "@ + reason@,
            )
            &&& page matches ArtistReply::Malformed(length, reason) ==> r.0.model()
                == Findings::Error(
                "Response parse error: "@ + reason@ + " ("@ + (if length < 50 {
                    "possibly truncated response"@
                } else {
                    "check response format"@
                }) + ")"@,
            )
        }),
{
    if let ArtistReply::Found(list) = page {
        let entries = page.model()->Found_0;
        assert(entries.len() == list.artists@.len());
        if list.artists@.len() > 0 {
            let first = list.artists@[0];
            assert(entries[0] == ArtistEntry {
                id: first.id@,
                name: first.name@,
                aliases: alias_names(first.aliases@),
            });
            lemma_is_the_artist(artist@, first);
        }
    }
}

proof fn lemma_is_the_artist(query: Seq<char>, artist: MusicBrainzArtist)
    ensures
        is_the_artist(query, artist) == names_match(
            query,
            artist.name@,
            alias_names(artist.aliases@),
        ),
{
    let names = alias_names(artist.aliases@);
    assert(names.len() == artist.aliases@.len());
    if is_the_artist(query, artist) && !alike(query, artist.name@) {
        let i = choose|i: int|
            0 <= i < artist.aliases@.len() && alike(query, (#[trigger] artist.aliases@[i]).name@);
        assert(names[i] == artist.aliases@[i].name@);
    }
    if names_match(query, artist.name@, names) && !alike(query, artist.name@) {
        let i = choose|i: int| 0 <= i < names.len() && alike(query, #[trigger] names[i]);
        assert(names[i] == artist.aliases@[i].name@);
        assert(alike(query, artist.aliases@[i].name@));
    }
}

/// The artist described by a page is the one that was searched for.
pub open spec fn is_this(query: Seq<char>, artist: ArtistEntry) -> bool {
    ||| alike(query, artist.name)
    ||| exists|i: int| 0 <= i < artist.aliases.len() && alike(query, #[trigger] artist.aliases[i])
}

proof fn lemma_is_this(query: Seq<char>, artist: ArtistEntry)
    ensures
        is_this(query, artist) == names_match(query, artist.name, artist.aliases),
{
    if is_this(query, artist) && !alike(query, artist.name) {
        let i = choose|i: int|
            0 <= i < artist.aliases.len() && alike(query, #[trigger] artist.aliases[i]);
        assert(artist.aliases[i] == artist.aliases[i]);
    }
    if names_match(query, artist.name, artist.aliases) && !alike(query, artist.name) {
        let i = choose|i: int|
            0 <= i < artist.aliases.len() && alike(query, #[trigger] artist.aliases[i]);
        assert(alike(query, artist.aliases[i]));
    }
}

/// The URL asks MusicBrainz for an artist: its query decodes to the name, with "and" for
/// each ampersand.
pub open spec fn asks_for_artist(artist: Seq<char>, url: Seq<char>) -> bool {
    let name = replaced(artist, '&', seq!['a', 'n', 'd']);
    exists|q: Seq<char>|
        url == "https://musicbrainz.org/ws/2/artist?query=artist:"@ + q + "&fmt=json&limit=3"@
            && #[trigger] encodes(q, name)
}

proof fn lemma_asks_for_artist(artist: Seq<char>)
    ensures
        asks_for_artist(artist, artist_url(artist)),
{
    reveal_strlit("and");
    assert("and"@ =~= seq!['a', 'n', 'd']);
    lemma_encodes(replaced(artist, '&', seq!['a', 'n', 'd']));
}

/// The page finds this identifier for the name: its first artist has it, and is the one
/// that was searched for.
pub open spec fn page_finds(page: Artists, artist: Seq<char>, id: Seq<char>) -> bool {
    page matches Artists::Found(list) && list.len() > 0 && is_this(artist, list[0]) && list[0].id
        == id
}

/// What a search for one artist comes to. An identifier in the attribute cache is the
/// result; without one, and if it is not known that the artist is missing, one page is
/// asked for. It finds the identifier of its first artist, if this is the one searched
/// for, and nothing otherwise, and what it finds is kept.
pub open spec fn single_outcome(
    artist: Seq<char>,
    cache_only: bool,
    keep_failure: bool,
    world: World,
    outcome: (Findings, World),
) -> bool {
    let key = "artist::mbid::"@ + artist;
    let missing = "artist::mbid_not_found::"@ + artist;
    let known = world.entry(key);
    if known is Some && known->0 is Text {
        outcome == (Findings::Found(seq![known->0->Text_0], true), world)
    } else if cache_only || world.entry(missing) == Some(Entry::Flag(true)) {
        outcome == (Findings::NotFound, world)
    } else {
        exists|url: Seq<char>|
            {
                let page = (world.artists)(url);
                let lost = if keep_failure {
                    world.entries.insert(missing, Entry::Flag(true))
                } else {
                    world.entries
                };
                &&& #[trigger] asks_for_artist(artist, url)
                &&& outcome.1.sent == world.sent.push(Asking::SearchArtists(url))
                &&& forall|id: Seq<char>| #[trigger]
                    page_finds(page, artist, id) ==> {
                        &&& outcome.0 == Findings::Found(seq![id], false)
                        &&& outcome.1.entries == world.entries.insert(key, Entry::Text(id))
                    }
                &&& (forall|id: Seq<char>| !#[trigger] page_finds(page, artist, id)) ==> {
                    &&& outcome.1.entries == lost
                    &&& page is Found ==> outcome.0 is NotFound
                    &&& page !is Found ==> outcome.0 is Error
                }
            }
    }
}

proof fn lemma_single_outcome(
    artist: Seq<char>,
    cache_only: bool,
    keep_failure: bool,
    world: World,
)
    ensures
        single_outcome(
            artist,
            cache_only,
            keep_failure,
            world,
            single_in(artist, cache_only, keep_failure, world),
        ),
{
    let url = artist_url(artist);
    lemma_asks_for_artist(artist);
    let page = (world.artists)(url);
    if let Artists::Found(list) = page {
        if list.len() > 0 {
            lemma_is_this(artist, list[0]);
            if is_this(artist, list[0]) {
                assert(page_finds(page, artist, list[0].id));
            }
        }
    }
}

proof fn lemma_single_comes_to(
    artist: Seq<char>,
    cache_only: bool,
    keep_failure: bool,
    world: World,
    outcome: (Findings, World),
)
    requires
        comes_to(singles(), single_start(true, artist, cache_only, keep_failure), world, outcome),
    ensures
        single_outcome(artist, cache_only, keep_failure, world, outcome),
{
    law_single_search(artist, cache_only, keep_failure, world);
    law_outcome_is_unique(
        singles(),
        single_start(true, artist, cache_only, keep_failure),
        world,
        single_in(artist, cache_only, keep_failure, world),
        outcome,
    );
    lemma_single_outcome(artist, cache_only, keep_failure, world);
}

/// A search for one artist finds the artist that MusicBrainz lists first, and only if that
/// is the one searched for; a failure is kept.
pub proof fn law_one_artist(
    config: MusicBrainzConfig,
    artist: &str,
    cache_only: bool,
    first: Step<SingleSearch, MusicBrainzSearchResult>,
    world: World,
    outcome: (Findings, World),
)
    requires
        call_ensures(search_musicbrainz_for_artist, (&config, artist, cache_only), first),
        comes_to(singles(), first.model(), world, outcome),
    ensures
        !config.enabled ==> outcome == (Findings::NotFound, world),
        config.enabled ==> single_outcome(artist@, cache_only, true, world, outcome),
{
    if config.enabled {
        lemma_single_comes_to(artist@, cache_only, true, world, outcome);
    } else {
        lemma_done(singles(), Findings::NotFound, world);
        law_outcome_is_unique(
            singles(),
            first.model(),
            world,
            (Findings::NotFound, world),
            outcome,
        );
    }
}

/// Where the attribute cache says nothing of an artist, and MusicBrainz lists no artist, or
/// lists first one whose name and aliases all differ from the name searched for and
/// resemble it by less than 0.9, the search does not come back as found.
pub proof fn law_unlike_is_not_found(
    config: MusicBrainzConfig,
    artist: &str,
    allow_multiple: bool,
    cache_only: bool,
    cache_failures: bool,
    first: Step<MbidSearch, MusicBrainzSearchResult>,
    world: World,
    outcome: (Findings, World),
)
    requires
        call_ensures(
            search_mbids_for_artist,
            (&config, artist, allow_multiple, cache_only, cache_failures),
            first,
        ),
        comes_to(mbid_searches(), first.model(), world, outcome),
        !allow_multiple || (world.splits)(artist@).len() <= 1,
        world.entry("artist::mbid::"@ + artist@) is None,
        forall|url: Seq<char>| #[trigger]
            asks_for_artist(artist@, url) ==> match (world.artists)(url) {
                Artists::Found(list) => list.len() > 0 ==> {
                    &&& !alike(artist@, list[0].name)
                    &&& forall|i: int|
                        0 <= i < list[0].aliases.len() ==> !alike(
                            artist@,
                            #[trigger] list[0].aliases[i],
                        )
                },
                _ => false,
            },
    ensures
        outcome.0 is NotFound,
{
    let terms = Terms { artist: artist@, allow_multiple, cache_only, cache_failures };
    lemma_mbids_comes_to(config.enabled, terms, world, outcome);
    let url = artist_url(artist@);
    lemma_asks_for_artist(artist@);
    if let Artists::Found(list) = (world.artists)(url) {
        if list.len() > 0 {
            lemma_is_this(artist@, list[0]);
        }
    }
}

proof fn lemma_mbids_comes_to(
    enabled: bool,
    terms: Terms,
    world: World,
    outcome: (Findings, World),
)
    requires
        comes_to(mbid_searches(), mbids_start(enabled, terms), world, outcome),
    ensures
        outcome == mbids_in(enabled, terms, world),
{
    law_mbid_search(enabled, terms, world);
    law_outcome_is_unique(
        mbid_searches(),
        mbids_start(enabled, terms),
        world,
        mbids_in(enabled, terms, world),
        outcome,
    );
}

/// The identifier of a name has a source: the attribute cache had it, or the page of that
/// name finds it.
pub open spec fn sourced(world: World, name: Seq<char>, id: Seq<char>) -> bool {
    ||| world.entry("artist::mbid::"@ + name) == Some(Entry::Text(id))
    ||| exists|url: Seq<char>| #[trigger]
        asks_for_artist(name, url) && page_finds((world.artists)(url), name, id)
}

/// The identifier of a name can be had: the attribute cache has it, or web services may be
/// asked, it is not known that the artist is missing, and the page of that name finds one.
pub open spec fn can_be_had(world: World, cache_only: bool, name: Seq<char>) -> bool {
    let known = world.entry("artist::mbid::"@ + name);
    ||| known is Some && known->0 is Text
    ||| {
        &&& !cache_only
        &&& world.entry("artist::mbid_not_found::"@ + name) != Some(Entry::Flag(true))
        &&& forall|url: Seq<char>| #[trigger]
            asks_for_artist(name, url) ==> exists|id: Seq<char>| #[trigger]
                page_finds((world.artists)(url), name, id)
    }
}

/// The identifiers are those of some of the names, one each and in order; `from` says of
/// which. Each has a source, and no name whose identifier can be had is left out.
pub open spec fn identifiers_of(
    world: World,
    cache_only: bool,
    names: Seq<Seq<char>>,
    ids: Seq<Seq<char>>,
    from: Seq<int>,
) -> bool {
    &&& from.len() == ids.len()
    &&& forall|k: int|
        0 <= k < from.len() ==> {
            &&& 0 <= #[trigger] from[k] < names.len()
            &&& sourced(world, names[from[k]], ids[k])
        }
    &&& forall|i: int, j: int| 0 <= i < j < from.len() ==> #[trigger] from[i] < #[trigger] from[j]
    &&& forall|i: int|
        0 <= i < names.len() && can_be_had(world, cache_only, #[trigger] names[i])
            ==> from.contains(i)
}

/// A world that came of another one by searches for artists: what was cached stays, what
/// is new has a source, and an artist became known as missing only where the page does not
/// find it.
spec fn comes_of(first: World, now: World) -> bool {
    &&& now.artists == first.artists
    &&& forall|name: Seq<char>|
        #![trigger mbid_key(name)]
        {
            &&& first.text(mbid_key(name)) is Some ==> now.text(mbid_key(name)) == first.text(
                mbid_key(name),
            )
            &&& now.text(mbid_key(name)) matches Some(id) ==> sourced(first, name, id)
        }
    &&& forall|name: Seq<char>|
        #![trigger missing_key(name)]
        now.flagged(missing_key(name)) ==> first.flagged(missing_key(name)) || forall|id: Seq<char>|
            !#[trigger] page_finds((first.artists)(artist_url(name)), name, id)
}

proof fn lemma_single_comes_of(
    first: World,
    name: Seq<char>,
    cache_only: bool,
    keep: bool,
    now: World,
)
    requires
        comes_of(first, now),
    ensures
        ({
            let (result, after) = single_in(name, cache_only, keep, now);
            &&& comes_of(first, after)
            &&& result matches Findings::Found(ids, _) ==> ids.len() == 1 && sourced(
                first,
                name,
                ids[0],
            )
            &&& can_be_had(first, cache_only, name) ==> result is Found
            &&& result !is FoundPartial
        }),
{
    let (result, after) = single_in(name, cache_only, keep, now);
    let url = artist_url(name);
    let page = (now.artists)(url);
    lemma_asks_for_artist(name);
    lemma_single_outcome(name, cache_only, keep, now);
    law_keys_apart(name, name);
    assert(mbid_key(name) == "artist::mbid::"@ + name);
    assert(missing_key(name) == "artist::mbid_not_found::"@ + name);
    if let Artists::Found(list) = page {
        if list.len() > 0 {
            lemma_is_this(name, list[0]);
            if is_this(name, list[0]) {
                assert(page_finds(page, name, list[0].id));
            }
        }
    }
    assert forall|other: Seq<char>|
        #![trigger mbid_key(other)]
        {
            &&& first.text(mbid_key(other)) is Some ==> after.text(mbid_key(other)) == first.text(
                mbid_key(other),
            )
            &&& after.text(mbid_key(other)) matches Some(id) ==> sourced(first, other, id)
        } by {
        law_keys_apart(other, name);
        law_keys_apart(name, other);
    }
    assert forall|other: Seq<char>|
        #![trigger missing_key(other)]
        after.flagged(missing_key(other)) implies first.flagged(missing_key(other)) || forall|
        id: Seq<char>,
    | !#[trigger] page_finds((first.artists)(artist_url(other)), other, id) by {
        law_keys_apart(other, name);
        law_keys_apart(name, other);
    }
}

/// Names that are done: the identifiers so far are those of the names before the rest.
spec fn done_so_far(
    first: World,
    cache_only: bool,
    names: Seq<Seq<char>>,
    done: int,
    ids: Seq<Seq<char>>,
    all: bool,
    from: Seq<int>,
) -> bool {
    &&& 0 <= done <= names.len()
    &&& from.len() == ids.len()
    &&& all <==> from.len() == done
    &&& from.len() <= done
    &&& forall|k: int|
        0 <= k < from.len() ==> {
            &&& 0 <= #[trigger] from[k] < done
            &&& sourced(first, names[from[k]], ids[k])
        }
    &&& forall|i: int, j: int| 0 <= i < j < from.len() ==> #[trigger] from[i] < #[trigger] from[j]
    &&& forall|i: int|
        0 <= i < done && can_be_had(first, cache_only, #[trigger] names[i]) ==> from.contains(i)
}

/// What the search for the artists in a name comes to: all of them, some of them or none
/// were found. What was found is kept under the whole name, and that it is only some;
/// that nothing was found is kept if failures are.
pub open spec fn parts_outcome(
    terms: Terms,
    world: World,
    names: Seq<Seq<char>>,
    outcome: (Findings, World),
) -> bool {
    let artist = terms.artist;
    exists|ids: Seq<Seq<char>>, from: Seq<int>|
        {
            &&& #[trigger] identifiers_of(world, terms.cache_only, names, ids, from)
            &&& match outcome.0 {
                Findings::Found(found, _) => {
                    &&& found == ids
                    &&& ids.len() == names.len()
                    &&& outcome.1.entry("artist::mbid::"@ + artist) == Some(Entry::List(ids))
                },
                Findings::FoundPartial(found, _) => {
                    &&& found == ids
                    &&& 0 < ids.len() < names.len()
                    &&& outcome.1.entry("artist::mbid::"@ + artist) == Some(Entry::List(ids))
                    &&& outcome.1.entry("artist::mbid_partial::"@ + artist) == Some(
                        Entry::Flag(true),
                    )
                },
                Findings::NotFound => {
                    &&& ids.len() == 0
                    &&& terms.cache_failures ==> outcome.1.entry(
                        "artist::mbid_not_found::"@ + artist,
                    ) == Some(Entry::Flag(true))
                },
                Findings::Error(_) => false,
            }
        }
}

proof fn lemma_parts_outcome(
    terms: Terms,
    first: World,
    names: Seq<Seq<char>>,
    rest: Seq<Seq<char>>,
    ids: Seq<Seq<char>>,
    all: bool,
    cached: bool,
    now: World,
    from: Seq<int>,
)
    requires
        names.len() > 0,
        rest.len() <= names.len(),
        rest == names.skip(names.len() - rest.len()),
        comes_of(first, now),
        done_so_far(
            first,
            terms.cache_only,
            names,
            names.len() - rest.len(),
            ids,
            all,
            from,
        ),
    ensures
        parts_outcome(terms, first, names, parts_in(terms, rest, ids, all, cached, now)),
    decreases rest.len(),
{
    let outcome = parts_in(terms, rest, ids, all, cached, now);
    let done = names.len() - rest.len();
    if rest.len() > 0 {
        let keep = keeps_part(terms, rest[0]);
        let (result, after) = single_in(rest[0], terms.cache_only, keep, now);
        lemma_single_comes_of(first, rest[0], terms.cache_only, keep, now);
        assert(rest[0] == names[done]);
        assert(rest.drop_first() =~= names.skip(done + 1));
        match result {
            Findings::Found(more, known) => {
                let next = from.push(done);
                let list = ids + more;
                assert forall|i: int|
                    0 <= i < done + 1 && can_be_had(
                        first,
                        terms.cache_only,
                        #[trigger] names[i],
                    ) implies next.contains(i) by {
                    if i < done {
                        assert(from.contains(i));
                        let k = choose|k: int| 0 <= k < from.len() && from[k] == i;
                        assert(next[k] == i);
                    } else {
                        assert(next[from.len() as int] == done);
                    }
                }
                assert forall|k: int| 0 <= k < next.len() implies {
                    &&& 0 <= #[trigger] next[k] < done + 1
                    &&& sourced(first, names[next[k]], list[k])
                } by {
                    if k < from.len() {
                        assert(next[k] == from[k]);
                        assert(list[k] == ids[k]);
                    } else {
                        assert(list[k] == more[0]);
                    }
                }
                assert(done_so_far(first, terms.cache_only, names, done + 1, list, all, next));
                lemma_parts_outcome(
                    terms,
                    first,
                    names,
                    rest.drop_first(),
                    list,
                    all,
                    cached && known,
                    after,
                    next,
                );
            },
            _ => {
                assert(!can_be_had(first, terms.cache_only, names[done]));
                assert(done_so_far(first, terms.cache_only, names, done + 1, ids, false, from));
                lemma_parts_outcome(
                    terms,
                    first,
                    names,
                    rest.drop_first(),
                    ids,
                    false,
                    cached,
                    after,
                    from,
                );
            },
        }
    } else {
        law_keys_apart(terms.artist, terms.artist);
        assert(identifiers_of(first, terms.cache_only, names, ids, from));
    }
}

/// What a search for the identifiers of an artist comes to. While lookups are disabled,
/// and where it is known that the artist was not found and such knowledge counts, it finds
/// nothing and asks nobody. Identifiers in the attribute cache come back as they are, as
/// all or as only some. Otherwise the whole name is searched for and, where it is not found
/// and may stand for several artists, each of these.
pub open spec fn mbids_outcome(
    enabled: bool,
    terms: Terms,
    world: World,
    outcome: (Findings, World),
) -> bool {
    let artist = terms.artist;
    let missing = world.entry("artist::mbid_not_found::"@ + artist);
    let known = world.entry("artist::mbid::"@ + artist);
    let partial = world.entry("artist::mbid_partial::"@ + artist);
    if !enabled || (terms.cache_failures && missing == Some(Entry::Flag(true))) {
        outcome == (Findings::NotFound, world)
    } else if known is Some && known->0 is List {
        &&& outcome.1 == world
        &&& outcome.0 == if partial == Some(Entry::Flag(true)) {
            Findings::FoundPartial(known->0->List_0, true)
        } else {
            Findings::Found(known->0->List_0, true)
        }
    } else {
        exists|result: Findings, between: World|
            {
                &&& #[trigger] single_outcome(
                    artist,
                    terms.cache_only,
                    false,
                    world,
                    (result, between),
                )
                &&& result is Found ==> outcome == (result, between)
                &&& result is Error || (result is NotFound && (!terms.allow_multiple || (
                world.splits)(artist).len() <= 1)) ==> {
                    &&& outcome.0 == result
                    &&& outcome.1.sent == between.sent
                    &&& outcome.1.entries == if terms.cache_failures {
                        between.entries.insert(
                            "artist::mbid_not_found::"@ + artist,
                            Entry::Flag(true),
                        )
                    } else {
                        between.entries
                    }
                }
                &&& result is NotFound && terms.allow_multiple && (world.splits)(artist).len() > 1
                    ==> parts_outcome(terms, between, (world.splits)(artist), outcome)
                &&& result !is FoundPartial
            }
    }
}

/// A search for the identifiers of an artist comes to what the pages and the attribute cache
/// say.
pub proof fn lemma_mbids_outcome(enabled: bool, terms: Terms, world: World)
    ensures
        mbids_outcome(enabled, terms, world, mbids_in(enabled, terms, world)),
{
    let artist = terms.artist;
    assert(mbid_key(artist) == "artist::mbid::"@ + artist);
    assert(missing_key(artist) == "artist::mbid_not_found::"@ + artist);
    assert(partial_key(artist) == "artist::mbid_partial::"@ + artist);
    if enabled && !(terms.cache_failures && world.flagged(missing_key(artist))) && world.list(
        mbid_key(artist),
    ) is None {
        let (result, between) = single_in(artist, terms.cache_only, false, world);
        lemma_single_outcome(artist, terms.cache_only, false, world);
        assert(single_outcome(artist, terms.cache_only, false, world, (result, between)));
        let names = (world.splits)(artist);
        if result is NotFound && terms.allow_multiple && names.len() > 1 {
            assert(names =~= names.skip(0));
            assert(done_so_far(
                between,
                terms.cache_only,
                names,
                0,
                Seq::empty(),
                true,
                Seq::empty(),
            ));
            assert(comes_of(between, between));
            lemma_parts_outcome(
                terms,
                between,
                names,
                names,
                Seq::empty(),
                true,
                true,
                between,
                Seq::empty(),
            );
        }
    }
}

/// A search for the identifiers of an artist finds those of the artists it is about, each
/// of them from the attribute cache or from the page of that very artist.
pub proof fn law_identifiers(
    config: MusicBrainzConfig,
    artist: &str,
    allow_multiple: bool,
    cache_only: bool,
    cache_failures: bool,
    first: Step<MbidSearch, MusicBrainzSearchResult>,
    world: World,
    outcome: (Findings, World),
)
    requires
        call_ensures(
            search_mbids_for_artist,
            (&config, artist, allow_multiple, cache_only, cache_failures),
            first,
        ),
        comes_to(mbid_searches(), first.model(), world, outcome),
    ensures
        mbids_outcome(
            config.enabled,
            (Terms { artist: artist@, allow_multiple, cache_only, cache_failures }),
            world,
            outcome,
        ),
{
    let terms = Terms { artist: artist@, allow_multiple, cache_only, cache_failures };
    lemma_mbids_comes_to(config.enabled, terms, world, outcome);
    lemma_mbids_outcome(config.enabled, terms, world);
}

/// Keeping that an artist was not found is for two days, and keeping that identifiers are
/// only some is for good, whatever the search stands at.
pub proof fn law_lifetimes(
    enabled: bool,
    state: MbidState,
    single: SingleState,
    answer: Answer,
    key: Seq<char>,
    lifetime: Option<i64>,
)
    ensures
        mbids_next(enabled, state, answer) matches Move::Ask(_, asking) ==> asking
            == Asking::StoreFlag(key, lifetime) ==> {
            ||| key == "artist::mbid_partial::"@ + state.terms.artist && lifetime is None
            ||| lifetime == Some(172800i64) && exists|name: Seq<char>|
                key == #[trigger] ("artist::mbid_not_found::"@ + name)
        },
        single_next(single, answer) matches Move::Ask(_, asking) ==> asking == Asking::StoreFlag(
            key,
            lifetime,
        ) ==> key == "artist::mbid_not_found::"@ + single.artist && lifetime == Some(172800i64),
{
}

/// The identifier was in the attribute cache, under one of the names.
pub open spec fn was_cached(world: World, names: Seq<Seq<char>>, id: Seq<char>) -> bool {
    exists|i: int|
        0 <= i < names.len() && world.entry("artist::mbid::"@ + #[trigger] names[i]) == Some(
            Entry::Text(id),
        )
}

/// Every identifier was in the attribute cache, under one of the names.
pub open spec fn from_cache(world: World, names: Seq<Seq<char>>, ids: Seq<Seq<char>>) -> bool {
    forall|k: int| 0 <= k < ids.len() ==> was_cached(world, names, #[trigger] ids[k])
}

/// The identifiers of a result that counts as cached were in the attribute cache.
spec fn cached_so_far(
    first: World,
    now: World,
    names: Seq<Seq<char>>,
    ids: Seq<Seq<char>>,
) -> bool {
    &&& forall|name: Seq<char>|
        #![trigger mbid_key(name)]
        now.text(mbid_key(name)) == first.text(mbid_key(name))
    &&& from_cache(first, names, ids)
}

proof fn lemma_parts_were_cached(
    terms: Terms,
    first: World,
    names: Seq<Seq<char>>,
    rest: Seq<Seq<char>>,
    ids: Seq<Seq<char>>,
    all: bool,
    cached: bool,
    now: World,
)
    requires
        rest.len() <= names.len(),
        rest == names.skip(names.len() - rest.len()),
        cached ==> cached_so_far(first, now, names, ids),
    ensures
        ({
            let found = parts_in(terms, rest, ids, all, cached, now).0;
            found matches Findings::Found(list, true) ==> from_cache(first, names, list)
        }),
        ({
            let found = parts_in(terms, rest, ids, all, cached, now).0;
            found matches Findings::FoundPartial(list, true) ==> from_cache(first, names, list)
        }),
    decreases rest.len(),
{
    if rest.len() > 0 {
        let done = names.len() - rest.len();
        let keep = keeps_part(terms, rest[0]);
        let (result, after) = single_in(rest[0], terms.cache_only, keep, now);
        assert(rest[0] == names[done]);
        assert(rest.drop_first() =~= names.skip(done + 1));
        assert(mbid_key(rest[0]) == "artist::mbid::"@ + names[done]);
        assert forall|name: Seq<char>|
            #![trigger mbid_key(name)]
            !(result is Found && !result->Found_1) implies after.text(mbid_key(name)) == now.text(
            mbid_key(name),
        ) by {
            law_keys_apart(name, rest[0]);
        }
        match result {
            Findings::Found(more, known) => {
                let list = ids + more;
                if cached && known {
                    assert forall|k: int| 0 <= k < list.len() implies was_cached(
                        first,
                        names,
                        #[trigger] list[k],
                    ) by {
                        if k < ids.len() {
                            assert(list[k] == ids[k]);
                        } else {
                            assert(list[k] == more[0]);
                            assert(first.entry("artist::mbid::"@ + names[done]) == Some(
                                Entry::Text(list[k]),
                            ));
                        }
                    }
                }
                lemma_parts_were_cached(
                    terms,
                    first,
                    names,
                    rest.drop_first(),
                    list,
                    all,
                    cached && known,
                    after,
                );
            },
            _ => {
                lemma_parts_were_cached(
                    terms,
                    first,
                    names,
                    rest.drop_first(),
                    ids,
                    false,
                    cached,
                    after,
                );
            },
        }
    }
}

/// Identifiers that count as cached were in the attribute cache before the search: as the
/// list or the identifier of the whole name, or as those of the artists in it.
pub proof fn law_cached_identifiers(
    config: MusicBrainzConfig,
    artist: &str,
    allow_multiple: bool,
    cache_only: bool,
    cache_failures: bool,
    first: Step<MbidSearch, MusicBrainzSearchResult>,
    world: World,
    outcome: (Findings, World),
)
    requires
        call_ensures(
            search_mbids_for_artist,
            (&config, artist, allow_multiple, cache_only, cache_failures),
            first,
        ),
        comes_to(mbid_searches(), first.model(), world, outcome),
    ensures
        forall|ids: Seq<Seq<char>>|
            outcome.0 == Findings::Found(ids, true) || outcome.0 == Findings::FoundPartial(ids, true)
                ==> {
                ||| world.entry("artist::mbid::"@ + artist@) == Some(Entry::List(ids))
                ||| #[trigger] from_cache(world, seq![artist@], ids)
                ||| from_cache(world, (world.splits)(artist@), ids)
            },
{
    let terms = Terms { artist: artist@, allow_multiple, cache_only, cache_failures };
    lemma_mbids_comes_to(config.enabled, terms, world, outcome);
    let name = terms.artist;
    assert(mbid_key(name) == "artist::mbid::"@ + name);
    let (result, between) = single_in(name, cache_only, false, world);
    let names = (world.splits)(name);
    let whole = seq![name];
    assert(whole[0] == name);
    if result is NotFound && names.len() > 1 {
        assert(names =~= names.skip(0));
        lemma_parts_were_cached(
            terms,
            between,
            names,
            names,
            Seq::empty(),
            true,
            true,
            between,
        );
        assert(between.entries == world.entries);
        assert forall|ids: Seq<Seq<char>>| from_cache(between, names, ids) implies #[trigger] from_cache(
            world,
            names,
            ids,
        ) by {
            assert forall|k: int| 0 <= k < ids.len() implies was_cached(
                world,
                names,
                #[trigger] ids[k],
            ) by {
                assert(was_cached(between, names, ids[k]));
                let i = choose|i: int|
                    0 <= i < names.len() && between.entry("artist::mbid::"@ + #[trigger] names[i])
                        == Some(Entry::Text(ids[k]));
                assert(world.entry("artist::mbid::"@ + names[i]) == Some(Entry::Text(ids[k])));
            }
        }
    }
    if let Findings::Found(ids, true) = result {
        assert(from_cache(world, whole, ids)) by {
            assert(world.entry("artist::mbid::"@ + whole[0]) == Some(Entry::Text(ids[0])));
        }
    }
}

/// The key is one of those under which the attribute cache keeps what is known of an
/// artist.
pub open spec fn is_key_of(key: Seq<char>, artist: Seq<char>) -> bool {
    ||| key == "artist::mbid::"@ + artist
    ||| key == "artist::mbid_partial::"@ + artist
    ||| key == "artist::mbid_not_found::"@ + artist
}

proof fn lemma_parts_touch(
    terms: Terms,
    rest: Seq<Seq<char>>,
    ids: Seq<Seq<char>>,
    all: bool,
    cached: bool,
    now: World,
    key: Seq<char>,
)
    requires
        !is_key_of(key, terms.artist),
        forall|i: int| 0 <= i < rest.len() ==> !is_key_of(key, #[trigger] rest[i]),
    ensures
        parts_in(terms, rest, ids, all, cached, now).1.entry(key) == now.entry(key),
    decreases rest.len(),
{
    if rest.len() > 0 {
        let keep = keeps_part(terms, rest[0]);
        let (result, after) = single_in(rest[0], terms.cache_only, keep, now);
        let left = rest.drop_first();
        assert forall|i: int| 0 <= i < left.len() implies !is_key_of(key, #[trigger] left[i]) by {
            assert(left[i] == rest[i + 1]);
        }
        assert(!is_key_of(key, rest[0]));
        match result {
            Findings::Found(more, known) => {
                lemma_parts_touch(terms, left, ids + more, all, cached && known, after, key);
            },
            _ => {
                lemma_parts_touch(terms, left, ids, false, cached, after, key);
            },
        }
    }
}

/// A search for an artist leaves what the attribute cache has on others, and anything else
/// in it, as it is.
pub proof fn law_others_untouched(
    config: MusicBrainzConfig,
    artist: &str,
    allow_multiple: bool,
    cache_only: bool,
    cache_failures: bool,
    first: Step<MbidSearch, MusicBrainzSearchResult>,
    world: World,
    outcome: (Findings, World),
    key: Seq<char>,
)
    requires
        call_ensures(
            search_mbids_for_artist,
            (&config, artist, allow_multiple, cache_only, cache_failures),
            first,
        ),
        comes_to(mbid_searches(), first.model(), world, outcome),
        !is_key_of(key, artist@),
        allow_multiple ==> forall|i: int|
            0 <= i < (world.splits)(artist@).len() ==> !is_key_of(
                key,
                #[trigger] (world.splits)(artist@)[i],
            ),
    ensures
        outcome.1.entry(key) == world.entry(key),
{
    let terms = Terms { artist: artist@, allow_multiple, cache_only, cache_failures };
    lemma_mbids_comes_to(config.enabled, terms, world, outcome);
    let (result, between) = single_in(artist@, cache_only, false, world);
    let names = (world.splits)(artist@);
    if allow_multiple {
        lemma_parts_touch(terms, names, Seq::empty(), true, true, between, key);
    }
}

/// The request to split a name names it, and what goes with it, as given.
pub proof fn law_split_requests(
    artist: &str,
    cache_only: bool,
    separators: Option<&[String]>,
    one: Request,
    several: Request,
)
    requires
        call_ensures(split_artist, (artist,), one),
        call_ensures(split_artist_names, (artist, cache_only, separators), several),
    ensures
        one matches Request::SplitArtist(name) && name@ == artist@,
        several matches Request::SplitNames(name, only, list) && {
            &&& name@ == artist@
            &&& only == cache_only
            &&& list is Some <==> separators is Some
            &&& list matches Some(l) ==> texts(l@) == texts(separators->0@)
        },
{
}

/// A response is its body, unless that is empty; a request or a response that failed gives
/// its reason.
pub proof fn law_responses(received: Received, r: Result<String, String>)
    requires
        call_ensures(musicbrainz_api_get, (received,), r),
    ensures
        received matches Received::Body(body) ==> {
            &&& r is Ok <==> body@.len() > 0
            &&& r matches Ok(text) ==> text@ == body@
        },
        received !is Body ==> r is Err,
        received matches Received::RequestFailed(reason) ==> r->Err_0@ == "Request error: "@
            + reason@,
        received matches Received::ReadFailed(reason) ==> r->Err_0@ == "Response error: "@ + reason@,
        received is Body && r is Err ==> r->Err_0@ == "Empty response from MusicBrainz API"@,
{
    if let Ok(text) = r {
        assert(r.model() == Ok::<Seq<char>, Seq<char>>(text@));
    }
}

/// A query is written character by character: a space becomes a plus, and quotes and colons
/// are percent-encoded.
pub proof fn law_query_characters(a: Seq<char>, b: Seq<char>, c: char)
    ensures
        query_coded(a + b) == query_coded(a) + query_coded(b),
        query_coded(seq![' ']) == seq!['+'],
        query_coded(seq!['"']) == seq!['%', '2', '2'],
        query_coded(seq![':']) == seq!['%', '3', 'A'],
        c != ' ' && c != '"' && c != ':' ==> query_coded(seq![c]) == seq![c],
        query_coded(Seq::empty()) == Seq::<char>::empty(),
{
    reveal_strlit("+");
    reveal_strlit("%22");
    reveal_strlit("%3A");
    reveal_with_fuel(query_coded, 2);
    lemma_query_add(a, b);
    let none = Seq::<char>::empty();
    assert(seq![' '].drop_last() =~= none);
    assert(seq!['"'].drop_last() =~= none);
    assert(seq![':'].drop_last() =~= none);
    assert(seq![c].drop_last() =~= none);
    assert(query_coded(seq![' ']) =~= seq!['+']);
    assert(query_coded(seq!['"']) =~= seq!['%', '2', '2']);
    assert(query_coded(seq![':']) =~= seq!['%', '3', 'A']);
    if c != ' ' && c != '"' && c != ':' {
        assert(query_coded(seq![c]) =~= seq![c]);
    }
}

proof fn lemma_query_add(a: Seq<char>, b: Seq<char>)
    ensures
        query_coded(a + b) == query_coded(a) + query_coded(b),
    decreases b.len(),
{
    if b.len() == 0 {
        assert(a + b =~= a);
        assert(query_coded(a) + query_coded(b) =~= query_coded(a));
    } else {
        lemma_query_add(a, b.drop_last());
        assert((a + b).drop_last() =~= a + b.drop_last());
        assert(query_coded(a + b) =~= query_coded(a) + query_coded(b));
    }
}

/// The URL asks MusicBrainz for the release group of an album by an artist; a quote in
/// either name has a backslash before it.
pub open spec fn asks_for_group(artist: Seq<char>, album: Seq<char>, url: Seq<char>) -> bool {
    let quoted = seq!['\\', '"'];
    url == "https://musicbrainz.org/ws/2/release-group?query="@ + query_coded(
        "artist:\""@ + replaced(artist, '"', quoted) + "\" AND releasegroup:\""@ + replaced(
            album,
            '"',
            quoted,
        ) + "\""@,
    ) + "&limit=1&fmt=json"@
}

/// The page names this release group: it is the first one, and this is its identifier.
pub open spec fn names_group(page: Json, id: Seq<char>) -> bool {
    exists|groups: Seq<Json>| #[trigger]
        holds_array(page, "release-groups"@, groups) && groups.len() > 0 && holds_text(
            groups[0],
            "id"@,
            id,
        )
}

proof fn lemma_names_group(page: Json)
    ensures
        forall|id: Seq<char>| #[trigger] names_group(page, id) <==> first_group(page) == Some(id),
{
    law_members(page, "release-groups"@);
    if let Some(groups) = page.field_items("release-groups"@) {
        assert(holds_array(page, "release-groups"@, groups));
        if groups.len() > 0 {
            law_members(groups[0], "id"@);
        }
    }
}

/// The release group that is picked is the first one of the page.
pub proof fn law_picked_group(page: JsonValue, r: Option<String>)
    requires
        call_ensures(pick_release_group, (&page,), r),
    ensures
        r matches Some(id) ==> names_group(page.says(), id@),
        r is None ==> forall|id: Seq<char>| !#[trigger] names_group(page.says(), id),
{
    lemma_names_group(page.says());
}

/// A reply names this release group, or none.
pub open spec fn reply_names(
    reply: Result<Seq<char>, Seq<char>>,
    group: Option<Seq<char>>,
) -> bool {
    match reply {
        Ok(text) => match json_parsed(text) {
            Ok(page) => match group {
                Some(id) => names_group(page, id),
                None => forall|id: Seq<char>| !names_group(page, id),
            },
            Err(_) => group is None,
        },
        Err(_) => group is None,
    }
}

/// What a search for a release group comes to: one page is asked for, and its first
/// release group is the result.
pub open spec fn group_outcome(
    enabled: bool,
    artist: Seq<char>,
    album: Seq<char>,
    world: World,
    outcome: (Option<Seq<char>>, World),
) -> bool {
    if !enabled {
        outcome == (None::<Seq<char>>, world)
    } else {
        exists|url: Seq<char>|
            {
                &&& #[trigger] asks_for_group(artist, album, url)
                &&& outcome.1.sent == world.sent.push(Asking::Fetch(Service::MusicBrainz, url))
                &&& outcome.1.entries == world.entries
                &&& reply_names((world.pages)(Service::MusicBrainz, url), outcome.0)
            }
    }
}

/// A search for a release group comes to what its page names.
pub proof fn lemma_group_outcome(enabled: bool, artist: Seq<char>, album: Seq<char>, world: World)
    ensures
        group_outcome(enabled, artist, album, world, group_in(enabled, artist, album, world)),
{
    if enabled {
        let url = crate::musicbrainz::group_url(artist, album);
        reveal_strlit("\\\"");
        assert("\\\""@ =~= seq!['\\', '"']);
        assert(asks_for_group(artist, album, url));
        if let Ok(text) = (world.pages)(Service::MusicBrainz, url) {
            if let Ok(page) = json_parsed(text) {
                lemma_names_group(page);
            }
        }
    }
}

/// A search for a release group asks for that album by that artist and takes the first one
/// that the page lists.
pub proof fn law_release_group(
    config: MusicBrainzConfig,
    artist: &str,
    album: &str,
    first: Step<GroupSearch, Option<String>>,
    world: World,
    outcome: (Option<Seq<char>>, World),
)
    requires
        call_ensures(search_release_group_mbid, (&config, artist, album), first),
        comes_to(group_searches(), first.model(), world, outcome),
    ensures
        group_outcome(config.enabled, artist@, album@, world, outcome),
{
    law_group_search(config.enabled, artist@, album@, world);
    law_outcome_is_unique(
        group_searches(),
        group_start(config.enabled, artist@, album@),
        world,
        group_in(config.enabled, artist@, album@, world),
        outcome,
    );
    lemma_group_outcome(config.enabled, artist@, album@, world);
}

/// A genre is the name of one of the items, in lowercase.
pub open spec fn names_one(items: Seq<Json>, genre: Seq<char>) -> bool {
    exists|i: int, name: Seq<char>|
        0 <= i < items.len() && #[trigger] holds_text(items[i], "name"@, name) && genre
            == lowercased(name)
}

/// The genres are the names of the items in lowercase, in the order of code points, each of
/// them once; an item without a name counts for nothing.
pub open spec fn genres_of_items(items: Seq<Json>, genres: Seq<Seq<char>>) -> bool {
    &&& forall|i: int, j: int|
        0 <= i < j < genres.len() ==> comes_before(#[trigger] genres[i], #[trigger] genres[j])
    &&& forall|i: int, name: Seq<char>|
        0 <= i < items.len() && #[trigger] holds_text(items[i], "name"@, name) ==> genres.contains(
            lowercased(name),
        )
    &&& forall|k: int| 0 <= k < genres.len() ==> names_one(items, #[trigger] genres[k])
}

proof fn lemma_genre_names(items: Seq<Json>)
    ensures
        forall|i: int, name: Seq<char>|
            0 <= i < items.len() && #[trigger] holds_text(items[i], "name"@, name) ==> genre_names(
                items,
            ).contains(lowercased(name)),
        forall|genre: Seq<char>| #[trigger]
            genre_names(items).contains(genre) ==> names_one(items, genre),
    decreases items.len(),
{
    if items.len() > 0 {
        let earlier = items.drop_last();
        let n = items.len() - 1;
        let before = genre_names(earlier);
        let all = genre_names(items);
        lemma_genre_names(earlier);
        law_members(items[n], "name"@);
        assert forall|i: int, name: Seq<char>|
            0 <= i < items.len() && #[trigger] holds_text(
                items[i],
                "name"@,
                name,
            ) implies all.contains(lowercased(name)) by {
            if i < n {
                assert(earlier[i] == items[i]);
                assert(before.contains(lowercased(name)));
                let k = choose|k: int| 0 <= k < before.len() && before[k] == lowercased(name);
                assert(all[k] == lowercased(name));
            } else {
                assert(items[n].field_string("name"@) == Some(name));
                assert(all[before.len() as int] == lowercased(name));
            }
        }
        assert forall|genre: Seq<char>| #[trigger] all.contains(genre) implies names_one(
            items,
            genre,
        ) by {
            let k = choose|k: int| 0 <= k < all.len() && all[k] == genre;
            if k < before.len() {
                assert(before[k] == genre);
                assert(before.contains(genre));
                let (i, name) = choose|i: int, name: Seq<char>|
                    0 <= i < earlier.len() && #[trigger] holds_text(earlier[i], "name"@, name)
                        && genre == lowercased(name);
                assert(holds_text(items[i], "name"@, name));
            } else {
                let name = items[n].field_string("name"@)->0;
                assert(holds_text(items[n], "name"@, name));
            }
        }
    }
}

proof fn lemma_genres_of_items(items: Seq<Json>)
    ensures
        genres_of_items(items, in_order(genre_names(items))),
{
    let names = genre_names(items);
    let genres = in_order(names);
    lemma_genre_names(items);
    law_genres_in_order(names);
    assert forall|i: int, j: int| 0 <= i < j < genres.len() implies comes_before(
        #[trigger] genres[i],
        #[trigger] genres[j],
    ) by {
        law_order_of_texts(genres[i], genres[j]);
    }
    assert forall|i: int, name: Seq<char>|
        0 <= i < items.len() && #[trigger] holds_text(
            items[i],
            "name"@,
            name,
        ) implies genres.contains(lowercased(name)) by {
        assert(names.contains(lowercased(name)));
    }
    assert forall|k: int| 0 <= k < genres.len() implies names_one(items, #[trigger] genres[k]) by {
        assert(genres.contains(genres[k]));
        assert(names.contains(genres[k]));
    }
}

/// The genres that are picked are those of the page, in lowercase and in order.
pub proof fn law_picked_genres(page: JsonValue, r: Vec<String>)
    requires
        call_ensures(pick_genres, (&page,), r),
    ensures
        forall|items: Seq<Json>| #[trigger]
            holds_array(page.says(), "genres"@, items) ==> genres_of_items(items, texts(r@)),
        r.len() > 0 ==> exists|items: Seq<Json>| holds_array(page.says(), "genres"@, items),
{
    lemma_page_genres(page.says());
    assert(texts(r@).len() == r.len());
}

proof fn lemma_page_genres(page: Json)
    ensures
        forall|items: Seq<Json>| #[trigger]
            holds_array(page, "genres"@, items) ==> genres_of_items(items, page_genres(page)),
        page_genres(page).len() > 0 ==> exists|items: Seq<Json>|
            holds_array(page, "genres"@, items),
{
    law_members(page, "genres"@);
    if let Some(items) = page.field_items("genres"@) {
        assert(holds_array(page, "genres"@, items));
        lemma_genres_of_items(items);
    }
}

/// A search for the genres of an album finds those of the release group that the search
/// for the album finds, and none where that finds none.
pub proof fn law_album_genres(
    config: MusicBrainzConfig,
    artist: &str,
    album: &str,
    first: Step<GenreSearch, Vec<String>>,
    world: World,
    outcome: (Seq<Seq<char>>, World),
)
    requires
        call_ensures(search_release_group_genres, (&config, artist, album), first),
        comes_to(genre_searches(), first.model(), world, outcome),
    ensures
        exists|group: Option<Seq<char>>, between: World|
            {
                &&& #[trigger] group_outcome(
                    config.enabled,
                    artist@,
                    album@,
                    world,
                    (group, between),
                )
                &&& group is None ==> outcome.0.len() == 0 && outcome.1 == between
                &&& group matches Some(id) ==> {
                    let url = "https://musicbrainz.org/ws/2/release-group/"@ + id
                        + "?inc=genres&fmt=json"@;
                    let page = (world.pages)(Service::MusicBrainz, url);
                    let json = json_parsed(page->Ok_0);
                    &&& outcome.1.sent == between.sent.push(
                        Asking::Fetch(Service::MusicBrainz, url),
                    )
                    &&& outcome.1.entries == world.entries
                    &&& page is Err || json is Err ==> outcome.0.len() == 0
                    &&& page is Ok && json is Ok ==> {
                        &&& forall|items: Seq<Json>| #[trigger]
                            holds_array(json->Ok_0, "genres"@, items) ==> genres_of_items(
                                items,
                                outcome.0,
                            )
                        &&& outcome.0.len() > 0 ==> exists|items: Seq<Json>|
                            holds_array(json->Ok_0, "genres"@, items)
                    }
                }
            },
{
    law_genre_search(config.enabled, artist@, album@, world);
    law_outcome_is_unique(
        genre_searches(),
        genres_of(group_start(config.enabled, artist@, album@)),
        world,
        genres_in(config.enabled, artist@, album@, world),
        outcome,
    );
    let (group, between) = group_in(config.enabled, artist@, album@, world);
    lemma_group_outcome(config.enabled, artist@, album@, world);
    assert(group_outcome(config.enabled, artist@, album@, world, (group, between)));
    if let Some(id) = group {
        let url = "https://musicbrainz.org/ws/2/release-group/"@ + id + "?inc=genres&fmt=json"@;
        if let Ok(text) = (world.pages)(Service::MusicBrainz, url) {
            if let Ok(page) = json_parsed(text) {
                lemma_page_genres(page);
            }
        }
    }
}

/// A search for recordings asks for that title by that artist: the query decodes to both
/// names in quotes. While lookups are disabled nobody is asked, and no recording is found.
pub proof fn law_recording_search(
    config: MusicBrainzConfig,
    artist: &str,
    title: &str,
    first: Step<RecordingSearch, Result<MusicBrainzRecordingSearchResponse, String>>,
)
    requires
        call_ensures(search_recording, (&config, artist, title), first),
    ensures
        config.enabled ==> (first matches Step::Ask(_, Request::SearchRecordings(url)) && exists|
            q: Seq<char>,
        |
            url@ == "https://musicbrainz.org/ws/2/recording/?query="@ + q + "&fmt=json&limit=5"@
                && #[trigger] encodes(
                q,
                "artist:\""@ + artist@ + "\" AND recording:\""@ + title@ + "\""@,
            )),
        !config.enabled ==> (first matches Step::Done(Ok(page)) && page.count == 0 && page.offset
            == 0 && page.recordings@.len() == 0),
{
    lemma_encodes("artist:\""@ + artist@ + "\" AND recording:\""@ + title@ + "\""@);
    if config.enabled {
        assert(first.model() is Ask);
    } else {
        assert(first.model() == recording_start(false, artist@, title@));
        assert(first is Done);
        let result = first->Done_0;
        assert(result.model() is Ok);
        let page = result->Ok_0;
        assert(page.says().recordings.len() == page.recordings@.len());
    }
}

/// The page of recordings is the result, as it is; where there is none there are no
/// recordings, and it is never an error.
pub proof fn law_recordings(
    search: RecordingSearch,
    reply: Reply,
    r: Step<RecordingSearch, Result<MusicBrainzRecordingSearchResponse, String>>,
)
    requires
        call_ensures(RecordingSearch::resume, (search, reply), r),
    ensures
        r is Done,
        r->Done_0 is Ok,
        match reply {
            Reply::Recordings(RecordingReply::Found(page)) => r->Done_0->Ok_0 == page,
            _ => {
                let page = r->Done_0->Ok_0;
                page.count == 0 && page.offset == 0 && page.recordings@.len() == 0
            },
        },
{
    assert(r.model() is Done);
    let result = r->Done_0;
    assert(result.model() is Ok);
    let page = result->Ok_0;
    assert(page.says().recordings.len() == page.recordings@.len());
}

/// What a search found does not depend on whether the attribute cache takes it: the result
/// is that of the stage that waits for the cache, whatever the reply. Only where the cache
/// took the identifiers is it told that they are only some.
pub proof fn law_storing_changes_no_result(
    enabled: bool,
    terms: Terms,
    single: SingleState,
    answer: Answer,
    result: Findings,
    ids: Seq<Seq<char>>,
    all: bool,
    cached: bool,
)
    ensures
        single.stage == SingleStage::Stored(result) ==> single_next(single, answer) == Move::<
            SingleState,
            Findings,
        >::Done(result),
        mbids_next(
            enabled,
            (MbidState { terms, stage: MbidStage::FailureStored(result) }),
            answer,
        ) == Move::<MbidState, Findings>::Done(result),
        mbids_next(
            enabled,
            (MbidState { terms, stage: MbidStage::PartialStored(ids, cached) }),
            answer,
        ) == Move::<MbidState, Findings>::Done(Findings::FoundPartial(ids, cached)),
        ({
            let next = mbids_next(
                enabled,
                (MbidState { terms, stage: MbidStage::ListStored(ids, all, cached) }),
                answer,
            );
            if all {
                next == Move::<MbidState, Findings>::Done(Findings::Found(ids, cached))
            } else if answer == Answer::Stored(true) {
                next == Move::<MbidState, Findings>::Ask(
                    MbidState { terms, stage: MbidStage::PartialStored(ids, cached) },
                    Asking::StoreFlag("artist::mbid_partial::"@ + terms.artist, None),
                )
            } else {
                next == Move::<MbidState, Findings>::Done(Findings::FoundPartial(ids, cached))
            }
        }),
{
}

/// Where lookups are disabled while artists in a name are left to search for, the search
/// ends with those that were found so far, and they count as only some.
pub proof fn law_disabled_on_the_way(
    terms: Terms,
    rest: Seq<Seq<char>>,
    ids: Seq<Seq<char>>,
    all: bool,
    cached: bool,
    single: SingleState,
    answer: Answer,
)
    requires
        rest.len() > 0,
        single_next(single, answer) is Done,
    ensures
        ({
            let found = single_next(single, answer)->Done_0;
            let so_far = if found is Found {
                ids + found->Found_0
            } else {
                ids
            };
            let next = mbids_next(
                false,
                (MbidState { terms, stage: MbidStage::Part(rest, ids, all, cached, single) }),
                answer,
            );
            if so_far.len() > 0 {
                &&& next matches Move::Ask(state, asking) && {
                    &&& asking == Asking::StoreList("artist::mbid::"@ + terms.artist, so_far)
                    &&& state.stage matches MbidStage::ListStored(kept, false, _) && kept == so_far
                }
            } else if terms.cache_failures {
                &&& next matches Move::Ask(state, asking) && {
                    &&& asking == Asking::StoreFlag(
                        "artist::mbid_not_found::"@ + terms.artist,
                        Some(172800i64),
                    )
                    &&& state.stage == MbidStage::FailureStored(Findings::NotFound)
                }
            } else {
                next == Move::<MbidState, Findings>::Done(Findings::NotFound)
            }
        }),
{
}

/// MusicBrainz is disabled at first and without a section in the configuration; a section
/// enables or disables it only if it says so. The rate limit is that of the section, and
/// half a second where it has none.
pub proof fn law_configuration(
    config: &mut MusicBrainzConfig,
    section: Option<&JsonValue>,
    r: u64,
    fresh: MusicBrainzConfig,
)
    requires
        call_ensures(MusicBrainzConfig::new, (), fresh),
        call_ensures(initialize_from_config, (config, section), r),
    ensures
        !fresh.enabled,
        section is None ==> !final(config).enabled && r == 500,
        section matches Some(s) ==> {
            &&& forall|b: bool| #[trigger]
                holds(s.says(), "enable"@, Json::Bool(b)) ==> final(config).enabled == b
            &&& (forall|b: bool| !#[trigger] holds(s.says(), "enable"@, Json::Bool(b)))
                ==> final(config).enabled == old(config).enabled
            &&& forall|n: u64| #[trigger]
                holds(s.says(), "rate_limit_ms"@, Json::Number(JsonNumber::Unsigned(n))) ==> r == n
            &&& (forall|n: u64|
                !#[trigger] holds(
                    s.says(),
                    "rate_limit_ms"@,
                    Json::Number(JsonNumber::Unsigned(n)),
                )) ==> r == 500
        },
{
    if let Some(s) = section {
        law_members(s.says(), "enable"@);
        law_members(s.says(), "rate_limit_ms"@);
        if let Some(b) = s.says().field_truth("enable"@) {
            assert(holds(s.says(), "enable"@, Json::Bool(b)));
        }
        if let Some(n) = s.says().field_natural("rate_limit_ms"@) {
            assert(holds(s.says(), "rate_limit_ms"@, Json::Number(JsonNumber::Unsigned(n))));
        }
    }
}

} // verus!
