//! What searches on TheAudioDB come to as a whole.

use vstd::prelude::*;
use crate::artist::ArtistRecord;
use crate::json::Json;
use crate::protocol::{Answer, Asking, Move, Service};
use crate::theaudiodb::{
    album_art_next, album_art_of, album_art_start, album_urls, artist_art_of, artist_urls,
    disabled_message, fallback_art_of, fallback_urls, filled, first_mbid, genres_joined,
    lookup_next, lookup_start, no_key_message, update_next, update_of, update_start,
    listed, with_biography, with_genres, with_thumbnail, AlbumArtState, LookupStage, LookupState, Subject,
    TheAudioDBConfig, UpdateStage, UpdateState,
};
use crate::world::{comes_to, lemma_ask, lemma_done, lemma_within, World};

verus! {

/// The steps of a lookup.
pub open spec fn lookups(config: TheAudioDBConfig) -> spec_fn(LookupState, Answer) -> Move<
    LookupState,
    Result<Json, Seq<char>>,
> {
    |state: LookupState, answer: Answer| lookup_next(config, state, answer)
}

/// What a lookup comes to in a world, and the world after it: what the attribute
/// cache has counts first, then what TheAudioDB says, which the attribute cache
/// keeps.
pub open spec fn lookup_in(config: TheAudioDBConfig, subject: Subject, world: World) -> (
    Result<Json, Seq<char>>,
    World,
) {
    if !config.enabled {
        (Err(disabled_message()), world)
    } else {
        match (world.value(subject.found_key()), config.usable_key()) {
            (Some(v), _) => (Ok(v), world),
            (None, key) => if world.flagged(subject.missing_key()) {
                (Err(subject.cached_message()), world)
            } else {
                match key {
                    None => (Err(no_key_message()), world),
                    Some(key) => {
                        let asked = Asking::Fetch(Service::TheAudioDb, subject.url(key));
                        let (outcome, keep) = subject.judged(
                            (world.pages)(Service::TheAudioDb, subject.url(key)),
                        );
                        match keep {
                            Some(entry) => (outcome, world.having_sent(asked).after(entry)),
                            None => (outcome, world.having_sent(asked)),
                        }
                    },
                }
            },
        }
    }
}

/// A lookup looks into the attribute cache first, asks TheAudioDB only where that
/// has nothing, and then leaves the answer there.
pub proof fn law_lookup(config: TheAudioDBConfig, subject: Subject, world: World)
    ensures
        comes_to(
            lookups(config),
            lookup_start(config, subject),
            world,
            lookup_in(config, subject, world),
        ),
{
    let next = lookups(config);
    let outcome = lookup_in(config, subject, world);
    let value = LookupState { subject, stage: LookupStage::Value };
    let flag = LookupState { subject, stage: LookupStage::Flag };
    let page = LookupState { subject, stage: LookupStage::Page };
    if !config.enabled || world.value(subject.found_key()) is Some {
        lemma_done(next, outcome.0, world);
    } else if world.flagged(subject.missing_key()) || config.usable_key() is None {
        lemma_done(next, outcome.0, world);
        lemma_ask(next, flag, Asking::ReadFlag(subject.missing_key()), world, outcome);
    } else {
        let url = subject.url(config.usable_key()->0);
        let asked = Asking::Fetch(Service::TheAudioDb, url);
        let (told, keep) = subject.judged((world.pages)(Service::TheAudioDb, url));
        lemma_done(next, outcome.0, outcome.1);
        if keep is Some {
            let stored = LookupState { subject, stage: LookupStage::Stored(told) };
            lemma_ask(next, stored, keep->0, world.having_sent(asked), outcome);
        }
        lemma_ask(next, page, asked, world, outcome);
        lemma_ask(next, flag, Asking::ReadFlag(subject.missing_key()), world, outcome);
    }
    if config.enabled {
        lemma_ask(next, value, Asking::ReadValue(subject.found_key()), world, outcome);
    }
}

/// A lookup that is repeated comes to the same; where it found that there is nothing, the
/// message says the second time that the attribute cache has it so, except for an artist
/// by name, where it is the same. Where it found something, or found that there is
/// nothing, it asks nobody the second time and leaves the world as it is.
pub proof fn law_lookup_repeats(config: TheAudioDBConfig, subject: Subject, world: World)
    ensures
        ({
            let (first, after) = lookup_in(config, subject, world);
            let (second, later) = lookup_in(config, subject, after);
            let missing = Err::<Json, Seq<char>>(subject.missing_message());
            let cached = Err::<Json, Seq<char>>(subject.cached_message());
            &&& second == if first == missing {
                cached
            } else {
                first
            }
            &&& subject is ArtistName ==> second == first
            &&& first is Ok || first == missing || first == cached ==> later == after
        }),
{
    let (first, after) = lookup_in(config, subject, world);
    lemma_first_letters(subject);
    if config.enabled && world.value(subject.found_key()) is None {
        if world.flagged(subject.missing_key()) {
            if subject !is ArtistName {
                reveal_strlit(" (from cache)");
                assert(subject.cached_message().len() == subject.missing_message().len() + 13);
            }
        } else if config.usable_key() is Some {
            let url = subject.url(config.usable_key()->0);
            let page = (world.pages)(Service::TheAudioDb, url);
            if subject.judged(page).1 is None {
                lemma_other_message(subject, page);
            }
        }
    }
}

/// The letters by which the message that nothing was found is told from others.
proof fn lemma_first_letters(subject: Subject)
    ensures
        subject.missing_message().len() > 3,
        subject.missing_message()[0] == 'N',
        subject.missing_message()[3] == 'a',
        subject.cached_message().len() > 3,
        subject.cached_message()[0] == 'N',
        disabled_message()[0] == 'T',
        no_key_message().len() > 3,
        no_key_message()[3] == 'A',
{
    reveal_strlit("No artist found with MBID ");
    reveal_strlit("No artist found with name '");
    reveal_strlit("No albums found for artist '");
    reveal_strlit("No album '");
    reveal_strlit("TheAudioDB lookups are disabled");
    reveal_strlit("No API key configured for TheAudioDB");
}

/// A message that is not kept is another one than that nothing was found.
proof fn lemma_other_message(subject: Subject, page: Result<Seq<char>, Seq<char>>)
    requires
        subject.judged(page).1 is None,
    ensures
        subject.judged(page).0 is Err,
        subject.judged(page).0->Err_0 != subject.missing_message(),
        subject.judged(page).0->Err_0 != subject.cached_message(),
{
    lemma_first_letters(subject);
    reveal_strlit("Failed to send request to TheAudioDB: ");
    reveal_strlit("Failed to parse TheAudioDB response: ");
    reveal_strlit("Invalid response format from TheAudioDB (no ");
    reveal_strlit("Invalid response format from TheAudioDB (");
    reveal_strlit("Found ");
    let message = subject.judged(page).0->Err_0;
    assert(message[0] == 'F' || message[0] == 'I');
}

/// While TheAudioDB is disabled, nothing is asked, and nothing is found or changed.
pub proof fn law_disabled_asks_nothing(
    config: TheAudioDBConfig,
    subject: Subject,
    artist_name: Seq<char>,
    album: Seq<char>,
    artist: ArtistRecord,
)
    requires
        !config.enabled,
    ensures
        lookup_start(config, subject) == Move::<LookupState, Result<Json, Seq<char>>>::Done(
            Err(disabled_message()),
        ),
        artist_art_of(lookup_start(config, Subject::ArtistName(artist_name))) == Move::<
            LookupState,
            Seq<Seq<char>>,
        >::Done(Seq::empty()),
        album_art_start(config, artist_name, album) == Move::<AlbumArtState, Seq<Seq<char>>>::Done(
            Seq::empty(),
        ),
        update_start(config, artist) == Move::<UpdateState, ArtistRecord>::Done(artist),
{
}

/// The steps of a search for the images of an artist.
pub open spec fn artist_arts(config: TheAudioDBConfig) -> spec_fn(LookupState, Answer) -> Move<
    LookupState,
    Seq<Seq<char>>,
> {
    |state: LookupState, answer: Answer| artist_art_of(lookup_next(config, state, answer))
}

/// The images of an artist are those in what the lookup by name comes to.
pub proof fn law_artist_coverart(config: TheAudioDBConfig, artist: Seq<char>, world: World)
    ensures
        ({
            let (outcome, after) = lookup_in(config, Subject::ArtistName(artist), world);
            comes_to(
                artist_arts(config),
                artist_art_of(lookup_start(config, Subject::ArtistName(artist))),
                world,
                (artist_urls(outcome), after),
            )
        }),
{
    let subject = Subject::ArtistName(artist);
    let (outcome, after) = lookup_in(config, subject, world);
    law_lookup(config, subject, world);
    lemma_done(artist_arts(config), artist_urls(outcome), after);
    lemma_within(
        lookups(config),
        artist_arts(config),
        |step: Move<LookupState, Result<Json, Seq<char>>>| artist_art_of(step),
        |state: LookupState| state,
        lookup_start(config, subject),
        world,
        (outcome, after),
        (artist_urls(outcome), after),
    );
}

/// The steps of a search for the cover of an album.
pub open spec fn album_arts(config: TheAudioDBConfig) -> spec_fn(AlbumArtState, Answer) -> Move<
    AlbumArtState,
    Seq<Seq<char>>,
> {
    |state: AlbumArtState, answer: Answer| album_art_next(config, state, answer)
}

/// What a search for the cover of an album comes to in a world, and the world after
/// it: the covers of the album, or else that of the album of the artist whose title
/// fits.
pub open spec fn album_art_in(
    config: TheAudioDBConfig,
    artist: Seq<char>,
    album: Seq<char>,
    world: World,
) -> (Seq<Seq<char>>, World) {
    let (outcome, after) = lookup_in(config, Subject::Album(artist, album), world);
    if album_urls(outcome).len() > 0 {
        (album_urls(outcome), after)
    } else {
        let (others, later) = lookup_in(config, Subject::AlbumsBy(artist), after);
        (fallback_urls(others, album), later)
    }
}

/// The cover of an album is looked up by its name, and where that brings none, among
/// all albums of the artist.
pub proof fn law_album_coverart(
    config: TheAudioDBConfig,
    artist: Seq<char>,
    album: Seq<char>,
    world: World,
)
    ensures
        comes_to(
            album_arts(config),
            album_art_start(config, artist, album),
            world,
            album_art_in(config, artist, album, world),
        ),
{
    let next = album_arts(config);
    let first = Subject::Album(artist, album);
    let second = Subject::AlbumsBy(artist);
    let between = lookup_in(config, first, world);
    let outcome = album_art_in(config, artist, album, world);
    lemma_done(next, outcome.0, outcome.1);
    if album_urls(between.0).len() == 0 {
        law_lookup(config, second, between.1);
        lemma_within(
            lookups(config),
            next,
            |step: Move<LookupState, Result<Json, Seq<char>>>| fallback_art_of(artist, album, step),
            |lookup: LookupState| AlbumArtState { artist, album, fallback: true, lookup },
            lookup_start(config, second),
            between.1,
            lookup_in(config, second, between.1),
            outcome,
        );
    }
    law_lookup(config, first, world);
    lemma_within(
        lookups(config),
        next,
        |step: Move<LookupState, Result<Json, Seq<char>>>| album_art_of(config, artist, album, step),
        |lookup: LookupState| AlbumArtState { artist, album, fallback: false, lookup },
        lookup_start(config, first),
        world,
        between,
        outcome,
    );
}

/// The steps of an update of an artist.
pub open spec fn updates(config: TheAudioDBConfig) -> spec_fn(UpdateState, Answer) -> Move<
    UpdateState,
    ArtistRecord,
> {
    |state: UpdateState, answer: Answer| update_next(config, state, answer)
}

/// What an update of an artist comes to in a world, and the world after it.
pub open spec fn update_in(config: TheAudioDBConfig, artist: ArtistRecord, world: World) -> (
    ArtistRecord,
    World,
) {
    match first_mbid(artist) {
        Some(mbid) => {
            let (outcome, after) = lookup_in(config, Subject::Mbid(mbid), world);
            match outcome {
                Ok(data) => {
                    let told = with_biography(with_thumbnail(artist, data), data);
                    match filled(data, "strGenre"@) {
                        Some(genre) => (
                            with_genres(told, (world.cleaned)(seq![genre])),
                            after,
                        ),
                        None => (told, after),
                    }
                },
                Err(_) => (artist, after),
            }
        },
        None => (artist, world),
    }
}

/// An artist with a MusicBrainz identifier gets the thumbnail, the biography and the
/// cleaned up genres of what the lookup by the first identifier finds.
pub proof fn law_update(config: TheAudioDBConfig, artist: ArtistRecord, world: World)
    ensures
        comes_to(
            updates(config),
            update_start(config, artist),
            world,
            update_in(config, artist, world),
        ),
{
    let next = updates(config);
    let outcome = update_in(config, artist, world);
    lemma_done(next, outcome.0, outcome.1);
    if config.enabled && first_mbid(artist) is Some {
        let subject = Subject::Mbid(first_mbid(artist)->0);
        let between = lookup_in(config, subject, world);
        if between.0 is Ok && filled(between.0->Ok_0, "strGenre"@) is Some {
            let state = UpdateState {
                artist: with_biography(
                    with_thumbnail(artist, between.0->Ok_0),
                    between.0->Ok_0,
                ),
                stage: UpdateStage::Genres,
            };
            let genre = filled(between.0->Ok_0, "strGenre"@)->0;
            lemma_ask(next, state, Asking::CleanGenres(seq![genre]), between.1, outcome);
        }
        law_lookup(config, subject, world);
        lemma_within(
            lookups(config),
            next,
            |step: Move<LookupState, Result<Json, Seq<char>>>| update_of(artist, step),
            |lookup: LookupState| UpdateState { artist, stage: UpdateStage::Data(lookup) },
            lookup_start(config, subject),
            world,
            between,
            outcome,
        );
    }
}

/// Joining genres keeps those that are there, in front and in their order, adds only
/// genres of the other list, and leaves none of them out; nothing is added twice.
pub proof fn law_genres_joined(genres: Seq<Seq<char>>, more: Seq<Seq<char>>)
    ensures
        genres.is_prefix_of(genres_joined(genres, more)),
        forall|g: Seq<char>| #[trigger]
            genres_joined(genres, more).contains(g) <==> genres.contains(g) || more.contains(g),
        genres.no_duplicates() ==> genres_joined(genres, more).no_duplicates(),
    decreases more.len(),
{
    let all = genres_joined(genres, more);
    if more.len() > 0 {
        let rest = more.drop_last();
        let before = genres_joined(genres, rest);
        let last = more.last();
        law_genres_joined(genres, rest);
        assert(more.contains(last));
        assert forall|g: Seq<char>| #[trigger] all.contains(g) <==> genres.contains(g)
            || more.contains(g) by {
            if more.contains(g) && g != last {
                let k = choose|k: int| 0 <= k < more.len() && more[k] == g;
                assert(rest[k] == g);
            }
            if rest.contains(g) {
                let k = choose|k: int| 0 <= k < rest.len() && rest[k] == g;
                assert(more[k] == g);
            }
            if before.contains(g) {
                let k = choose|k: int| 0 <= k < before.len() && before[k] == g;
                assert(all[k] == g);
            }
            if !before.contains(last) {
                assert(all[all.len() - 1] == last);
            }
            if all.contains(g) && g != last {
                let k = choose|k: int| 0 <= k < all.len() && all[k] == g;
                assert(before[k] == g);
            }
        }
        assert(genres =~= all.take(genres.len() as int));
    } else {
        assert(genres =~= all.take(genres.len() as int));
    }
}

/// An update keeps the identity of an artist, its MusicBrainz identifiers, its
/// thumbnails and its genres, has the thumbnail that was found among them, gives no metadata to an artist without any, and changes an artist only
/// where the lookup finds something.
pub proof fn law_update_keeps(config: TheAudioDBConfig, artist: ArtistRecord, world: World)
    ensures
        ({
            let updated = update_in(config, artist, world).0;
            &&& updated.id == artist.id
            &&& updated.name == artist.name
            &&& updated.is_multi == artist.is_multi
            &&& updated.metadata is Some <==> artist.metadata is Some
            &&& artist.metadata matches Some(profile) ==> {
                &&& updated.metadata->0.mbid == profile.mbid
                &&& profile.thumb_url.is_prefix_of(updated.metadata->0.thumb_url)
                &&& profile.genres.is_prefix_of(updated.metadata->0.genres)
            }
            &&& first_mbid(artist) matches Some(mbid) ==> (lookup_in(
                config,
                Subject::Mbid(mbid),
                world,
            ).0 matches Ok(data) ==> (filled(data, "strArtistThumb"@) matches Some(url)
                ==> updated.metadata->0.thumb_url.contains(url)))
            &&& (first_mbid(artist) matches Some(mbid) ==> lookup_in(
                config,
                Subject::Mbid(mbid),
                world,
            ).0 is Err) ==> updated == artist
        }),
{
    if let Some(profile) = artist.metadata {
        assert(profile.genres =~= profile.genres.take(profile.genres.len() as int));
        let thumbs = profile.thumb_url;
        assert(thumbs =~= thumbs.take(thumbs.len() as int));
        if let Some(mbid) = first_mbid(artist) {
            let outcome = lookup_in(config, Subject::Mbid(mbid), world).0;
            if let Ok(data) = outcome {
                if let Some(url) = filled(data, "strArtistThumb"@) {
                    let more = listed(thumbs, url);
                    assert(thumbs =~= more.take(thumbs.len() as int));
                    assert(more.contains(url)) by {
                        if !thumbs.contains(url) {
                            assert(more[thumbs.len() as int] == url);
                        }
                    }
                }
                if let Some(genre) = filled(data, "strGenre"@) {
                    law_genres_joined(profile.genres, (world.cleaned)(seq![genre]));
                }
            }
        }
    }
}

/// No two things that are looked up share an entry of the attribute cache, except
/// albums: the key of an album runs the two names together, so that albums whose
/// names come to the same share one.
pub proof fn law_keys_apart(a: Subject, b: Subject)
    ensures
        a.found_key() != b.missing_key(),
        a.found_key() == b.found_key() ==> a == b || (a is Album && b is Album),
        a.missing_key() == b.missing_key() ==> a == b || (a is Album && b is Album),
{
    reveal_strlit("theaudiodb::mbid::");
    reveal_strlit("theaudiodb::artist_name::");
    reveal_strlit("theaudiodb::albums_by_artist::");
    reveal_strlit("theaudiodb::album::");
    reveal_strlit("theaudiodb::not_found::");
    reveal_strlit("theaudiodb::artist_not_found::");
    reveal_strlit("theaudiodb::albums_not_found::");
    reveal_strlit("theaudiodb::album_not_found::");
    lemma_key_letters(a);
    lemma_key_letters(b);
    if a.found_key() == b.found_key() {
        match (a, b) {
            (Subject::Mbid(x), Subject::Mbid(y)) => {
                lemma_same_rest("theaudiodb::mbid::"@, x, y);
            },
            (Subject::ArtistName(x), Subject::ArtistName(y)) => {
                lemma_same_rest("theaudiodb::artist_name::"@, x, y);
            },
            (Subject::AlbumsBy(x), Subject::AlbumsBy(y)) => {
                lemma_same_rest("theaudiodb::albums_by_artist::"@, x, y);
            },
            _ => {},
        }
    }
    if a.missing_key() == b.missing_key() {
        match (a, b) {
            (Subject::Mbid(x), Subject::Mbid(y)) => {
                lemma_same_rest("theaudiodb::not_found::"@, x, y);
            },
            (Subject::ArtistName(x), Subject::ArtistName(y)) => {
                lemma_same_rest("theaudiodb::artist_not_found::"@, x, y);
            },
            (Subject::AlbumsBy(x), Subject::AlbumsBy(y)) => {
                lemma_same_rest("theaudiodb::albums_not_found::"@, x, y);
            },
            _ => {},
        }
    }
}

/// The letters by which the keys differ.
proof fn lemma_key_letters(a: Subject)
    ensures
        a.found_key().len() >= 18,
        a.missing_key().len() >= 21,
        match a {
            Subject::Mbid(_) => a.found_key()[12] == 'm' && a.missing_key()[12] == 'n',
            Subject::ArtistName(_) => {
                &&& a.found_key()[12] == 'a' && a.found_key()[13] == 'r'
                &&& a.found_key().len() >= 21 && a.found_key()[20] == 'a'
                &&& a.missing_key()[12] == 'a' && a.missing_key()[13] == 'r'
                &&& a.missing_key()[20] == 'o'
            },
            Subject::AlbumsBy(_) => {
                &&& a.found_key()[12] == 'a' && a.found_key()[13] == 'l' && a.found_key()[17] == 's'
                &&& a.found_key().len() >= 20 && a.found_key()[19] == 'b'
                &&& a.missing_key()[12] == 'a' && a.missing_key()[13] == 'l'
                &&& a.missing_key()[17] == 's' && a.missing_key()[19] == 'n'
            },
            Subject::Album(_, _) => {
                &&& a.found_key()[12] == 'a' && a.found_key()[13] == 'l' && a.found_key()[17] == ':'
                &&& a.missing_key()[12] == 'a' && a.missing_key()[13] == 'l'
                &&& a.missing_key()[17] == '_'
            },
        },
{
    reveal_strlit("theaudiodb::mbid::");
    reveal_strlit("theaudiodb::artist_name::");
    reveal_strlit("theaudiodb::albums_by_artist::");
    reveal_strlit("theaudiodb::album::");
    reveal_strlit("theaudiodb::not_found::");
    reveal_strlit("theaudiodb::artist_not_found::");
    reveal_strlit("theaudiodb::albums_not_found::");
    reveal_strlit("theaudiodb::album_not_found::");
    reveal_strlit("::");
}

/// Texts with the same beginning and the same whole have the same rest.
proof fn lemma_same_rest(beginning: Seq<char>, x: Seq<char>, y: Seq<char>)
    requires
        beginning + x == beginning + y,
    ensures
        x == y,
{
    let n = beginning.len() as int;
    assert((beginning + x).skip(n) =~= x);
    assert((beginning + y).skip(n) =~= y);
}

} // verus!
