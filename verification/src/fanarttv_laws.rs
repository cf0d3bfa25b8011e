//! What searches on FanArt.tv come to as a whole.

use vstd::prelude::*;
use crate::fanarttv::{
    album_of, art_next, art_of, art_start, artist_of, artist_page_url, artist_terms, cover_next,
    first_of, mbid_of, recorded_after, Aim, ArtState, CoverStage, CoverState, FanarttvConfig,
    Images,
};
use crate::json::{json_parsed, Json};
use crate::musicbrainz::{group_start, mbids_start, Findings, GroupSearch, MbidState};
use crate::musicbrainz_laws::{
    group_in, group_searches, law_group_search, law_mbid_search, mbid_searches, mbids_in,
};
use crate::protocol::{Answer, Asking, Move, Service};
use crate::world::{comes_to, lemma_ask, lemma_done, lemma_within, World};

verus! {

/// No more thumbnails are handed out than wanted, and they are the first of those
/// that the page has.
pub proof fn law_thumbnails_limited(max: nat, page: Json)
    ensures
        Images::Thumbnails(max).picked(page).len() <= max,
        Images::Thumbnails(max).picked(page).is_prefix_of(
            Images::Thumbnails(max).available(page),
        ),
        Images::Thumbnails(max).available(page).len() <= max ==> Images::Thumbnails(max).picked(
            page,
        ) == Images::Thumbnails(max).available(page),
{
    let all = Images::Thumbnails(max).available(page);
    let picked = Images::Thumbnails(max).picked(page);
    assert(picked =~= all.take(picked.len() as int));
}

/// A lookup that is disabled, has no API key, or was seen to fail asks nobody and
/// finds nothing.
pub proof fn law_lookup_refused(
    config: FanarttvConfig,
    seen: bool,
    images: Images,
    mbid: Seq<char>,
)
    requires
        !config.enabled || config.key() is None || seen,
    ensures
        art_start(config, seen, images, mbid) == Move::<ArtState, Seq<Seq<char>>>::Done(
            Seq::empty(),
        ),
{
}

/// A lookup of an artist's own images that finds none is recorded as failed; one that
/// finds some is not. A lookup of album covers is recorded only where there is no
/// page to read.
pub proof fn law_failures_recorded(recorded: Set<Seq<char>>, state: ArtState, answer: Answer)
    ensures
        ({
            let after = recorded_after(recorded, state, answer);
            let available = match answer.page() {
                Ok(text) => match json_parsed(text) {
                    Ok(page) => Some(state.images.available(page)),
                    Err(_) => None,
                },
                Err(_) => None,
            };
            match available {
                None => after == recorded.insert(state.mbid),
                Some(urls) => if urls.len() == 0 && state.images !is Covers {
                    after == recorded.insert(state.mbid)
                } else {
                    after == recorded
                },
            }
        }),
{
}

/// The steps of a lookup of images.
pub open spec fn lookups() -> spec_fn(ArtState, Answer) -> Move<ArtState, Seq<Seq<char>>> {
    |state: ArtState, answer: Answer| art_next(state, answer)
}

/// What a lookup of images of which no failure is remembered comes to in a world, and
/// the world after it.
pub open spec fn art_in(config: FanarttvConfig, images: Images, mbid: Seq<char>, world: World) -> (
    Seq<Seq<char>>,
    World,
) {
    match config.key() {
        Some(key) => if config.enabled {
            let url = artist_page_url(mbid, key);
            (
                images.found((world.pages)(Service::FanartTv, url)),
                world.having_sent(Asking::Fetch(Service::FanartTv, url)),
            )
        } else {
            (Seq::empty(), world)
        },
        None => (Seq::empty(), world),
    }
}

/// A lookup of images asks FanArt.tv once.
pub proof fn law_lookup(config: FanarttvConfig, images: Images, mbid: Seq<char>, world: World)
    ensures
        comes_to(
            lookups(),
            art_start(config, false, images, mbid),
            world,
            art_in(config, images, mbid, world),
        ),
{
    let next = lookups();
    let outcome = art_in(config, images, mbid, world);
    lemma_done(next, outcome.0, outcome.1);
    if config.enabled && config.key() is Some {
        let asked = Asking::Fetch(Service::FanartTv, artist_page_url(mbid, config.key()->0));
        lemma_ask(next, ArtState { images, mbid }, asked, world, outcome);
    }
}

/// The steps of a search for cover art while MusicBrainz stays enabled and no failure is
/// remembered.
pub open spec fn cover_searches(config: FanarttvConfig) -> spec_fn(CoverState, Answer) -> Move<
    CoverState,
    Seq<Seq<char>>,
> {
    |state: CoverState, answer: Answer| cover_next(true, config, false, state, answer)
}

/// What a search for cover art comes to in a world while no failure is remembered,
/// and the world after it: the artist's identifier comes from MusicBrainz, for an
/// album also the album's, and with these FanArt.tv is asked.
pub open spec fn cover_in(
    enabled: bool,
    config: FanarttvConfig,
    aim: Aim,
    artist: Seq<char>,
    world: World,
) -> (Seq<Seq<char>>, World) {
    let (found, after) = mbids_in(enabled, artist_terms(artist), world);
    match (first_of(found), aim) {
        (None, _) => (Seq::empty(), after),
        (Some(mbid), Aim::Artist) => art_in(config, Images::Thumbnails(5), mbid, after),
        (Some(mbid), Aim::Album(name, title)) => {
            let (group, later) = group_in(true, name, title, after);
            match group {
                Some(album) => art_in(config, Images::Covers(album), mbid, later),
                None => (Seq::empty(), later),
            }
        },
    }
}

proof fn lemma_art(
    config: FanarttvConfig,
    aim: Aim,
    images: Images,
    mbid: Seq<char>,
    world: World,
)
    ensures
        comes_to(
            cover_searches(config),
            art_of(aim, art_start(config, false, images, mbid)),
            world,
            art_in(config, images, mbid, world),
        ),
{
    let next = cover_searches(config);
    let outcome = art_in(config, images, mbid, world);
    lemma_done(next, outcome.0, outcome.1);
    law_lookup(config, images, mbid, world);
    lemma_within(
        lookups(),
        next,
        |step: Move<ArtState, Seq<Seq<char>>>| art_of(aim, step),
        |art: ArtState| CoverState { aim, stage: CoverStage::Art(art) },
        art_start(config, false, images, mbid),
        world,
        outcome,
        outcome,
    );
}


/// A search for cover art resolves the identifiers on MusicBrainz and then looks up
/// the images on FanArt.tv.
pub proof fn law_cover_search(
    enabled: bool,
    config: FanarttvConfig,
    aim: Aim,
    artist: Seq<char>,
    world: World,
)
    ensures
        comes_to(
            cover_searches(config),
            artist_of(
                enabled,
                config,
                false,
                aim,
                mbid_of(mbids_start(enabled, artist_terms(artist))),
            ),
            world,
            cover_in(enabled, config, aim, artist, world),
        ),
{
    let next = cover_searches(config);
    let terms = artist_terms(artist);
    let between = mbids_in(enabled, terms, world);
    let outcome = cover_in(enabled, config, aim, artist, world);
    lemma_done(next, outcome.0, outcome.1);
    match (first_of(between.0), aim) {
        (None, _) => {},
        (Some(mbid), Aim::Artist) => {
            lemma_art(config, aim, Images::Thumbnails(5), mbid, between.1);
        },
        (Some(mbid), Aim::Album(name, title)) => {
            let middle = group_in(true, name, title, between.1);
            if middle.0 is Some {
                lemma_art(config, aim, Images::Covers(middle.0->0), mbid, middle.1);
            }
            law_group_search(true, name, title, between.1);
            lemma_within(
                group_searches(),
                next,
                |step: Move<GroupSearch, Option<Seq<char>>>|
                    album_of(config, false, aim, mbid, step),
                |group: GroupSearch| CoverState { aim, stage: CoverStage::Album(mbid, group) },
                group_start(true, name, title),
                between.1,
                middle,
                outcome,
            );
        },
    }
    law_mbid_search(enabled, terms, world);
    lemma_within(
        mbid_searches(),
        next,
        |step: Move<MbidState, Findings>| artist_of(true, config, false, aim, mbid_of(step)),
        |search: MbidState| CoverState { aim, stage: CoverStage::Artist(search) },
        mbids_start(enabled, terms),
        world,
        between,
        outcome,
    );
}

} // verus!
