//! What lookups on FanArt.tv ask for and hand out, in terms of the pages of FanArt.tv.

use vstd::prelude::*;
use crate::coverart::{CoverartMethod, CoverartMethods};
use crate::fanarttv::{
    art_start, consulted, cover_next, default_fanarttv_api_key, get_album_covers, get_api_key,
    get_artist_banners, get_artist_thumbnails, initialize_from_config, law_remembered_was_recorded,
    looked_up, mbid_of, recorded_after, settled, urls_of, Aim, ArtLookup, ArtState, ArtistMbid,
    CoverSearch, CoverState, FailedMbidCache, FanarttvConfig, FanarttvCoverartProvider, Images,
    Wanted,
};
use crate::fanarttv_laws::{art_in, cover_in, cover_searches, law_cover_search, law_lookup, lookups};
use crate::json::{json_parsed, Json, JsonNumber, JsonValue};
use crate::json_laws::{holds, holds_array, holds_text, law_members};
use crate::musicbrainz::{mbids_next, mbids_start, Findings, MbidState, MusicBrainzConfig, Terms};
use crate::musicbrainz_laws::{group_in, law_mbid_search, mbid_searches, mbids_in};
use crate::musicbrainz_outcomes::{
    group_outcome, lemma_group_outcome, lemma_mbids_outcome, mbids_outcome,
};
use crate::protocol::{Answer, Asking, Modelled, Move, Reply, Service, Step};
use crate::text::texts;
use crate::world::{comes_to, law_outcome_is_unique, lemma_done, lemma_within, World};

verus! {

/// The URLs are those of the items, in order: each is the text `url` of the item that
/// `from` names, and no such text is left out.
pub open spec fn urls_in(items: Seq<Json>, urls: Seq<Seq<char>>, from: Seq<int>) -> bool {
    &&& from.len() == urls.len()
    &&& forall|k: int|
        0 <= k < from.len() ==> {
            &&& 0 <= #[trigger] from[k] < items.len()
            &&& holds_text(items[from[k]], "url"@, urls[k])
        }
    &&& forall|i: int, j: int| 0 <= i < j < from.len() ==> #[trigger] from[i] < #[trigger] from[j]
    &&& forall|i: int, url: Seq<char>|
        0 <= i < items.len() && #[trigger] holds_text(items[i], "url"@, url) ==> from.contains(i)
}

proof fn lemma_urls_in(items: Seq<Json>)
    ensures
        exists|from: Seq<int>| #[trigger] urls_in(items, urls_of(items), from),
    decreases items.len(),
{
    if items.len() == 0 {
        assert(urls_in(items, urls_of(items), Seq::empty()));
    } else {
        let earlier = items.drop_last();
        let n = items.len() - 1;
        let key = "url"@;
        lemma_urls_in(earlier);
        let before = choose|from: Seq<int>| #[trigger] urls_in(earlier, urls_of(earlier), from);
        law_members(items[n], key);
        let urls = urls_of(items);
        let from = if items[n].field_string(key) is Some {
            before.push(n)
        } else {
            before
        };
        assert forall|i: int, url: Seq<char>|
            0 <= i < items.len() && #[trigger] holds_text(items[i], key, url) implies from.contains(
            i,
        ) by {
            if i < n {
                assert(earlier[i] == items[i]);
                assert(before.contains(i));
                let k = choose|k: int| 0 <= k < before.len() && before[k] == i;
                assert(from[k] == i);
            } else {
                assert(items[n].field_string(key) == Some(url));
                assert(from[before.len() as int] == n);
            }
        }
        assert forall|k: int| 0 <= k < from.len() implies {
            &&& 0 <= #[trigger] from[k] < items.len()
            &&& holds_text(items[from[k]], key, urls[k])
        } by {
            if k < before.len() {
                assert(before[k] == from[k]);
                assert(urls[k] == urls_of(earlier)[k]);
            }
        }
        assert(urls_in(items, urls, from));
    }
}

/// The items are those that the page has for the images: the array `artistthumb` for
/// thumbnails, the array `musicbanner` for banners, and for covers the array `albumcover`
/// of that album among the `albums`.
pub open spec fn section_of(images: Images, page: Json, items: Seq<Json>) -> bool {
    match images {
        Images::Thumbnails(_) => holds_array(page, "artistthumb"@, items),
        Images::Banners => holds_array(page, "musicbanner"@, items),
        Images::Covers(album) => exists|albums: Json, entry: Json|
            #![trigger holds(page, "albums"@, albums), holds(albums, album, entry)]
            holds(page, "albums"@, albums) && holds(albums, album, entry) && holds_array(
                entry,
                "albumcover"@,
                items,
            ),
    }
}

proof fn lemma_section(images: Images, page: Json, items: Seq<Json>)
    ensures
        section_of(images, page, items) <==> images.section(page) == Some(items),
{
    match images {
        Images::Thumbnails(_) => {
            law_members(page, "artistthumb"@);
        },
        Images::Banners => {
            law_members(page, "musicbanner"@);
        },
        Images::Covers(album) => {
            law_members(page, "albums"@);
            if images.section(page) == Some(items) {
                let albums = page.field("albums"@)->0;
                let entry = albums.field(album)->0;
                law_members(albums, album);
                law_members(entry, "albumcover"@);
                assert(holds(page, "albums"@, albums));
                assert(holds(albums, album, entry));
            }
            if section_of(images, page, items) {
                let (albums, entry) = choose|albums: Json, entry: Json|
                    #![trigger holds(page, "albums"@, albums), holds(albums, album, entry)]
                    holds(page, "albums"@, albums) && holds(albums, album, entry) && holds_array(
                        entry,
                        "albumcover"@,
                        items,
                    );
                law_members(albums, album);
                law_members(entry, "albumcover"@);
                assert(page.field("albums"@) == Some(albums));
                assert(albums.field(album) == Some(entry));
            }
        },
    }
}

/// The URLs are all that the page has for the images, and none where it has no section for
/// them.
pub open spec fn all_urls(images: Images, page: Json, urls: Seq<Seq<char>>) -> bool {
    &&& forall|items: Seq<Json>| #[trigger]
        section_of(images, page, items) ==> exists|from: Seq<int>| #[trigger]
            urls_in(items, urls, from)
    &&& urls.len() > 0 ==> exists|items: Seq<Json>| #[trigger] section_of(images, page, items)
}

proof fn lemma_all_urls(images: Images, page: Json)
    ensures
        all_urls(images, page, images.available(page)),
{
    let urls = images.available(page);
    assert forall|items: Seq<Json>| #[trigger] section_of(images, page, items) implies exists|
        from: Seq<int>,
    | #[trigger] urls_in(items, urls, from) by {
        lemma_section(images, page, items);
        lemma_urls_in(items);
    }
    if urls.len() > 0 {
        let items = images.section(page)->0;
        lemma_section(images, page, items);
        assert(section_of(images, page, items));
    }
}

/// What is listed for thumbnails, banners or an album's covers is exactly what the page has
/// for them. An album without an `albumcover` array has no covers, whatever else it has.
pub proof fn law_listed_images(wanted: Wanted, page: JsonValue, r: Vec<String>)
    requires
        call_ensures(Wanted::list_available, (&wanted, &page), r),
    ensures
        all_urls(wanted.model(), page.says(), texts(r@)),
{
    lemma_all_urls(wanted.model(), page.says());
}

/// Every URL that is handed out for an album's covers is the text `url` of an item of the
/// `albumcover` array of that album. Where the album is not on the page, or has no such
/// array, nothing is handed out.
pub proof fn law_covers_come_from_albumcover(
    album: String,
    page: JsonValue,
    listed: Vec<String>,
    judged: (Vec<String>, bool),
)
    requires
        call_ensures(Wanted::list_available, (&Wanted::Covers(album), &page), listed),
        call_ensures(Wanted::judge, (&Wanted::Covers(album), &page), judged),
    ensures
        texts(judged.0@) == texts(listed@),
        forall|k: int|
            0 <= k < listed@.len() ==> in_albumcover(page.says(), album@, (#[trigger] listed@[k])@),
        (forall|albums: Json, entry: Json, items: Seq<Json>|
            holds(page.says(), "albums"@, albums) && #[trigger] holds(albums, album@, entry)
                ==> !#[trigger] holds_array(entry, "albumcover"@, items)) ==> listed@.len() == 0,
{
    let wanted = Wanted::Covers(album);
    let images = wanted.model();
    let urls = texts(listed@);
    lemma_all_urls(images, page.says());
    assert(urls.len() == listed@.len());
    if urls.len() > 0 {
        let items = choose|items: Seq<Json>| #[trigger] section_of(images, page.says(), items);
        let from = choose|from: Seq<int>| #[trigger] urls_in(items, urls, from);
        let (albums, entry) = choose|albums: Json, entry: Json|
            #![trigger holds(page.says(), "albums"@, albums), holds(albums, album@, entry)]
            holds(page.says(), "albums"@, albums) && holds(albums, album@, entry) && holds_array(
                entry,
                "albumcover"@,
                items,
            );
        assert(holds_array(entry, "albumcover"@, items));
        assert forall|k: int| 0 <= k < listed@.len() implies in_albumcover(
            page.says(),
            album@,
            (#[trigger] listed@[k])@,
        ) by {
            assert(urls[k] == listed@[k]@);
            assert(0 <= from[k] < items.len());
            assert(in_items(items, listed@[k]@));
        }
    }
}

/// The URL is that of one of the items.
pub open spec fn in_items(items: Seq<Json>, url: Seq<char>) -> bool {
    exists|j: int| 0 <= j < items.len() && holds_text(#[trigger] items[j], "url"@, url)
}

/// The URL is that of an item of the `albumcover` array of the album on the page.
pub open spec fn in_albumcover(page: Json, album: Seq<char>, url: Seq<char>) -> bool {
    exists|albums: Json, entry: Json, items: Seq<Json>|
        holds(page, "albums"@, albums) && #[trigger] holds(albums, album, entry)
            && #[trigger] holds_array(entry, "albumcover"@, items) && in_items(items, url)
}

/// The URLs of a page that are handed out: all of them, but of thumbnails no more than
/// wanted, the first ones.
pub open spec fn handed_out(images: Images, page: Json, urls: Seq<Seq<char>>) -> bool {
    exists|all: Seq<Seq<char>>| #[trigger]
        all_urls(images, page, all) && urls == match images {
            Images::Thumbnails(max) => if max < all.len() {
                all.take(max as int)
            } else {
                all
            },
            _ => all,
        }
}

proof fn lemma_handed_out(images: Images, page: Json)
    ensures
        handed_out(images, page, images.picked(page)),
{
    lemma_all_urls(images, page);
    assert(all_urls(images, page, images.available(page)));
}

/// The page has a URL for the images.
pub open spec fn some_url(images: Images, page: Json) -> bool {
    exists|items: Seq<Json>, i: int, url: Seq<char>|
        #![trigger section_of(images, page, items), holds_text(items[i], "url"@, url)]
        section_of(images, page, items) && 0 <= i < items.len() && holds_text(
            items[i],
            "url"@,
            url,
        )
}

proof fn lemma_some_url(images: Images, page: Json)
    ensures
        some_url(images, page) <==> images.available(page).len() > 0,
{
    let urls = images.available(page);
    if urls.len() > 0 {
        let items = images.section(page)->0;
        lemma_section(images, page, items);
        lemma_urls_in(items);
        let from = choose|from: Seq<int>| #[trigger] urls_in(items, urls, from);
        assert(0 <= from[0] < items.len());
        assert(holds_text(items[from[0]], "url"@, urls[0]));
    }
    if some_url(images, page) {
        let (items, i, url) = choose|items: Seq<Json>, i: int, url: Seq<char>|
            #![trigger section_of(images, page, items), holds_text(items[i], "url"@, url)]
            section_of(images, page, items) && 0 <= i < items.len() && holds_text(
                items[i],
                "url"@,
                url,
            );
        lemma_section(images, page, items);
        lemma_urls_in(items);
        let from = choose|from: Seq<int>| #[trigger] urls_in(items, urls, from);
        assert(from.contains(i));
    }
}

/// Every URL that is handed out is one that the page has for the images; where an artist
/// has no image of the kind the lookup failed, while an album without covers is no failure.
pub proof fn law_judged_page(wanted: Wanted, page: JsonValue, r: (Vec<String>, bool))
    requires
        call_ensures(Wanted::judge, (&wanted, &page), r),
    ensures
        handed_out(wanted.model(), page.says(), texts(r.0@)),
        wanted matches Wanted::Thumbnails(max) ==> r.0.len() <= max,
        wanted is Covers ==> !r.1,
        wanted !is Covers ==> (r.1 <==> !some_url(wanted.model(), page.says())),
{
    lemma_handed_out(wanted.model(), page.says());
    lemma_some_url(wanted.model(), page.says());
    assert(texts(r.0@).len() == r.0.len());
}

/// The MusicBrainz ID is recorded as failed where there is no page, the page is no JSON, or
/// it has no image of the artist; a page without covers for an album is no failure.
pub proof fn law_recorded_failures(
    recorded: Set<Seq<char>>,
    state: ArtState,
    page: Result<Seq<char>, Seq<char>>,
)
    ensures
        ({
            let after = recorded_after(recorded, state, Answer::Page(page));
            match page {
                Err(_) => after == recorded.insert(state.mbid),
                Ok(text) => match json_parsed(text) {
                    Err(_) => after == recorded.insert(state.mbid),
                    Ok(json) => {
                        &&& state.images is Covers || some_url(state.images, json) ==> after
                            == recorded
                        &&& state.images !is Covers && !some_url(state.images, json) ==> after
                            == recorded.insert(state.mbid)
                    },
                },
            }
        }),
{
    if let Ok(text) = page {
        if let Ok(json) = json_parsed(text) {
            lemma_some_url(state.images, json);
        }
    }
}

/// The key that is handed out is the one of the configuration, if it has one.
pub proof fn law_api_key(config: FanarttvConfig, r: Option<String>)
    requires
        call_ensures(get_api_key, (&config,), r),
    ensures
        r is Some <==> config.api_key@.len() > 0,
        r matches Some(key) ==> key@ == config.api_key@,
{
}

/// What a lookup of the images of a MusicBrainz ID comes to where no failure is remembered:
/// one page is asked for, that of this ID, and what it has is handed out.
pub open spec fn images_found(
    config: FanarttvConfig,
    images: Images,
    mbid: Seq<char>,
    before: World,
    urls: Seq<Seq<char>>,
    after: World,
) -> bool {
    if !config.enabled || config.api_key@.len() == 0 {
        urls.len() == 0 && after == before
    } else {
        let url = "http://webservice.fanart.tv/v3/music/"@ + mbid + "?api_key="@ + config.api_key@;
        &&& after.sent == before.sent.push(Asking::Fetch(Service::FanartTv, url))
        &&& after.entries == before.entries
        &&& match (before.pages)(Service::FanartTv, url) {
            Ok(text) => match json_parsed(text) {
                Ok(page) => handed_out(images, page, urls),
                Err(_) => urls.len() == 0,
            },
            Err(_) => urls.len() == 0,
        }
    }
}

proof fn lemma_images_found(config: FanarttvConfig, images: Images, mbid: Seq<char>, world: World)
    ensures
        ({
            let (urls, after) = art_in(config, images, mbid, world);
            images_found(config, images, mbid, world, urls, after)
        }),
{
    if config.enabled && config.api_key@.len() > 0 {
        let url = "http://webservice.fanart.tv/v3/music/"@ + mbid + "?api_key="@ + config.api_key@;
        if let Ok(text) = (world.pages)(Service::FanartTv, url) {
            if let Ok(page) = json_parsed(text) {
                lemma_handed_out(images, page);
            }
        }
    }
}

/// What a lookup of images comes to. The record of failures is asked whether it remembers
/// the ID: if it does, then the ID was recorded, nothing is handed out and nobody is asked.
pub open spec fn images_or_refused(
    config: FanarttvConfig,
    failed: FailedMbidCache,
    images: Images,
    mbid: Seq<char>,
    before: World,
    urls: Seq<Seq<char>>,
    after: World,
) -> bool {
    exists|seen: bool|
        {
            &&& #[trigger] consulted(failed, mbid, seen)
            &&& seen ==> failed.recorded().contains(mbid) && urls.len() == 0 && after == before
            &&& !seen ==> images_found(config, images, mbid, before, urls, after)
        }
}

proof fn lemma_images_or_refused(
    config: FanarttvConfig,
    failed: FailedMbidCache,
    seen: bool,
    images: Images,
    mbid: Seq<char>,
    world: World,
    outcome: (Seq<Seq<char>>, World),
)
    requires
        consulted(failed, mbid, seen),
        comes_to(lookups(), art_start(config, seen, images, mbid), world, outcome),
    ensures
        images_or_refused(config, failed, images, mbid, world, outcome.0, outcome.1),
{
    if seen {
        law_remembered_was_recorded(failed, mbid);
        lemma_done(lookups(), Seq::<Seq<char>>::empty(), world);
        law_outcome_is_unique(
            lookups(),
            art_start(config, seen, images, mbid),
            world,
            (Seq::<Seq<char>>::empty(), world),
            outcome,
        );
    } else {
        law_lookup(config, images, mbid, world);
        law_outcome_is_unique(
            lookups(),
            art_start(config, seen, images, mbid),
            world,
            art_in(config, images, mbid, world),
            outcome,
        );
        lemma_images_found(config, images, mbid, world);
    }
}

/// A lookup of an album's covers hands out the URLs in the `albumcover` array of that album
/// on the page of that artist.
pub proof fn law_album_covers(
    config: FanarttvConfig,
    failed: FailedMbidCache,
    artist_mbid: &str,
    album_mbid: &str,
    first: Step<ArtLookup, Vec<String>>,
    world: World,
    outcome: (Seq<Seq<char>>, World),
)
    requires
        call_ensures(get_album_covers, (&config, &failed, artist_mbid, album_mbid), first),
        comes_to(lookups(), first.model(), world, outcome),
    ensures
        images_or_refused(
            config,
            failed,
            Images::Covers(album_mbid@),
            artist_mbid@,
            world,
            outcome.0,
            outcome.1,
        ),
{
    let images = Images::Covers(album_mbid@);
    let seen = choose|seen: bool| #[trigger]
        consulted(failed, artist_mbid@, seen) && first.model() == art_start(
            config,
            seen,
            images,
            artist_mbid@,
        );
    lemma_images_or_refused(config, failed, seen, images, artist_mbid@, world, outcome);
}

/// A lookup of an artist's thumbnails hands out those of that artist, no more than wanted
/// and, where nothing is said, no more than ten.
pub proof fn law_artist_thumbnails(
    config: FanarttvConfig,
    failed: FailedMbidCache,
    artist_mbid: &str,
    max_images: Option<usize>,
    first: Step<ArtLookup, Vec<String>>,
    world: World,
    outcome: (Seq<Seq<char>>, World),
)
    requires
        call_ensures(get_artist_thumbnails, (&config, &failed, artist_mbid, max_images), first),
        comes_to(lookups(), first.model(), world, outcome),
    ensures
        images_or_refused(
            config,
            failed,
            Images::Thumbnails(
                if max_images is Some {
                    max_images->0 as nat
                } else {
                    10
                },
            ),
            artist_mbid@,
            world,
            outcome.0,
            outcome.1,
        ),
        max_images matches Some(max) ==> outcome.0.len() <= max,
        max_images is None ==> outcome.0.len() <= 10,
{
    let max = if max_images is Some {
        max_images->0 as nat
    } else {
        10nat
    };
    let images = Images::Thumbnails(max);
    let seen = choose|seen: bool| #[trigger]
        consulted(failed, artist_mbid@, seen) && first.model() == art_start(
            config,
            seen,
            images,
            artist_mbid@,
        );
    lemma_images_or_refused(config, failed, seen, images, artist_mbid@, world, outcome);
}

/// A lookup of an artist's banners hands out those of that artist.
pub proof fn law_artist_banners(
    config: FanarttvConfig,
    failed: FailedMbidCache,
    artist_mbid: &str,
    first: Step<ArtLookup, Vec<String>>,
    world: World,
    outcome: (Seq<Seq<char>>, World),
)
    requires
        call_ensures(get_artist_banners, (&config, &failed, artist_mbid), first),
        comes_to(lookups(), first.model(), world, outcome),
    ensures
        images_or_refused(
            config,
            failed,
            Images::Banners,
            artist_mbid@,
            world,
            outcome.0,
            outcome.1,
        ),
{
    let seen = choose|seen: bool| #[trigger]
        consulted(failed, artist_mbid@, seen) && first.model() == art_start(
            config,
            seen,
            Images::Banners,
            artist_mbid@,
        );
    lemma_images_or_refused(config, failed, seen, Images::Banners, artist_mbid@, world, outcome);
}

/// The identifier by which an artist's images are looked up: the first that was found.
pub open spec fn identifier_in(found: Findings) -> Option<Seq<char>> {
    match found {
        Findings::Found(ids, _) | Findings::FoundPartial(ids, _) => if ids.len() > 0 {
            Some(ids[0])
        } else {
            None
        },
        _ => None,
    }
}

/// The steps of a search for the identifier of an artist while lookups stay enabled.
pub open spec fn mbid_lookups() -> spec_fn(MbidState, Answer) -> Move<MbidState, Option<Seq<char>>> {
    |state: MbidState, answer: Answer| mbid_of(mbids_next(true, state, answer))
}

/// The identifier of an artist is the first that MusicBrainz, or the attribute cache, has
/// for the whole name; the name is never taken for several artists, and a failure is kept.
pub proof fn law_artist_identifier(
    provider: FanarttvCoverartProvider,
    musicbrainz: MusicBrainzConfig,
    artist: &str,
    first: Step<ArtistMbid, Option<String>>,
    world: World,
    outcome: (Option<Seq<char>>, World),
)
    requires
        call_ensures(
            FanarttvCoverartProvider::get_artist_mbid,
            (&provider, &musicbrainz, artist),
            first,
        ),
        comes_to(mbid_lookups(), first.model(), world, outcome),
    ensures
        exists|found: Findings|
            {
                &&& #[trigger] mbids_outcome(
                    musicbrainz.enabled,
                    (Terms {
                        artist: artist@,
                        allow_multiple: false,
                        cache_only: false,
                        cache_failures: true,
                    }),
                    world,
                    (found, outcome.1),
                )
                &&& outcome.0 == identifier_in(found)
            },
{
    let terms = Terms {
        artist: artist@,
        allow_multiple: false,
        cache_only: false,
        cache_failures: true,
    };
    let enabled = musicbrainz.enabled;
    let (found, after) = mbids_in(enabled, terms, world);
    let next = mbid_lookups();
    law_mbid_search(enabled, terms, world);
    lemma_done(next, identifier_in(found), after);
    lemma_within(
        mbid_searches(),
        next,
        |step: Move<MbidState, Findings>| mbid_of(step),
        |state: MbidState| state,
        mbids_start(enabled, terms),
        world,
        (found, after),
        (identifier_in(found), after),
    );
    law_outcome_is_unique(next, first.model(), world, (identifier_in(found), after), outcome);
    lemma_mbids_outcome(enabled, terms, world);
    assert(mbids_outcome(enabled, terms, world, (found, outcome.1)));
}

/// A search for an artist's images finds the identifier of the artist and hands out up to
/// five of its thumbnails; without an identifier FanArt.tv is not asked.
pub proof fn law_artist_image_search(
    provider: FanarttvCoverartProvider,
    musicbrainz: MusicBrainzConfig,
    config: FanarttvConfig,
    failed: FailedMbidCache,
    artist: &str,
    first: Step<CoverSearch, Vec<String>>,
    world: World,
    outcome: (Seq<Seq<char>>, World),
)
    requires
        call_ensures(
            FanarttvCoverartProvider::get_artist_coverart_impl,
            (&provider, &musicbrainz, &config, &failed, artist),
            first,
        ),
        comes_to(cover_searches(config), first.model(), world, outcome),
    ensures
        exists|found: Findings, between: World|
            {
                &&& #[trigger] mbids_outcome(
                    musicbrainz.enabled,
                    (Terms {
                        artist: artist@,
                        allow_multiple: false,
                        cache_only: false,
                        cache_failures: true,
                    }),
                    world,
                    (found, between),
                )
                &&& match identifier_in(found) {
                    Some(mbid) => images_found(
                        config,
                        Images::Thumbnails(5),
                        mbid,
                        between,
                        outcome.0,
                        outcome.1,
                    ),
                    None => outcome.0.len() == 0 && outcome.1 == between,
                }
            },
{
    let terms = Terms {
        artist: artist@,
        allow_multiple: false,
        cache_only: false,
        cache_failures: true,
    };
    let enabled = musicbrainz.enabled;
    law_cover_search(enabled, config, Aim::Artist, artist@, world);
    law_outcome_is_unique(
        cover_searches(config),
        first.model(),
        world,
        cover_in(enabled, config, Aim::Artist, artist@, world),
        outcome,
    );
    let (found, between) = mbids_in(enabled, terms, world);
    lemma_mbids_outcome(enabled, terms, world);
    assert(mbids_outcome(enabled, terms, world, (found, between)));
    if let Some(mbid) = identifier_in(found) {
        lemma_images_found(config, Images::Thumbnails(5), mbid, between);
    }
}

/// A search for an album's cover finds the identifiers of the artist and of the album, and
/// hands out the covers of that album; without either identifier FanArt.tv is not asked.
pub proof fn law_album_cover_search(
    provider: FanarttvCoverartProvider,
    musicbrainz: MusicBrainzConfig,
    config: FanarttvConfig,
    failed: FailedMbidCache,
    title: &str,
    artist: &str,
    year: Option<i32>,
    first: Step<CoverSearch, Vec<String>>,
    world: World,
    outcome: (Seq<Seq<char>>, World),
)
    requires
        call_ensures(
            FanarttvCoverartProvider::get_album_coverart_impl,
            (&provider, &musicbrainz, &config, &failed, title, artist, year),
            first,
        ),
        comes_to(cover_searches(config), first.model(), world, outcome),
    ensures
        exists|found: Findings, between: World|
            {
                &&& #[trigger] mbids_outcome(
                    musicbrainz.enabled,
                    (Terms {
                        artist: artist@,
                        allow_multiple: false,
                        cache_only: false,
                        cache_failures: true,
                    }),
                    world,
                    (found, between),
                )
                &&& match identifier_in(found) {
                    Some(mbid) => covers_found(
                        config,
                        artist@,
                        title@,
                        mbid,
                        between,
                        outcome.0,
                        outcome.1,
                    ),
                    None => outcome.0.len() == 0 && outcome.1 == between,
                }
            },
{
    let terms = Terms {
        artist: artist@,
        allow_multiple: false,
        cache_only: false,
        cache_failures: true,
    };
    let enabled = musicbrainz.enabled;
    let aim = Aim::Album(artist@, title@);
    law_cover_search(enabled, config, aim, artist@, world);
    law_outcome_is_unique(
        cover_searches(config),
        first.model(),
        world,
        cover_in(enabled, config, aim, artist@, world),
        outcome,
    );
    let (found, between) = mbids_in(enabled, terms, world);
    lemma_mbids_outcome(enabled, terms, world);
    assert(mbids_outcome(enabled, terms, world, (found, between)));
    if let Some(mbid) = identifier_in(found) {
        let (group, later) = group_in(true, artist@, title@, between);
        lemma_group_outcome(true, artist@, title@, between);
        assert(group_outcome(true, artist@, title@, between, (group, later)));
        if let Some(album) = group {
            lemma_images_found(config, Images::Covers(album), mbid, later);
        }
    }
}

/// What becomes of an album by an artist with this identifier: the release group of that
/// title by that artist is searched for, and its covers are looked up.
pub open spec fn covers_found(
    config: FanarttvConfig,
    artist: Seq<char>,
    title: Seq<char>,
    mbid: Seq<char>,
    before: World,
    urls: Seq<Seq<char>>,
    after: World,
) -> bool {
    exists|group: Option<Seq<char>>, between: World|
        {
            &&& #[trigger] group_outcome(true, artist, title, before, (group, between))
            &&& match group {
                Some(album) => images_found(
                    config,
                    Images::Covers(album),
                    mbid,
                    between,
                    urls,
                    after,
                ),
                None => urls.len() == 0 && after == between,
            }
        }
}

/// A lookup goes on with its page: it is done, hands out what the page has, and records the
/// MusicBrainz ID if there is no page, it cannot be read, or it has no image of the artist.
/// How long and how many IDs are remembered stays.
pub proof fn law_resumed_lookup(
    lookup: ArtLookup,
    failed: &mut FailedMbidCache,
    page: Result<String, String>,
    r: Step<ArtLookup, Vec<String>>,
)
    requires
        call_ensures(ArtLookup::resume, (lookup, failed, Reply::Page(page)), r),
    ensures
        ({
            let state = lookup.model();
            let json = json_parsed(page->Ok_0@);
            &&& r is Done
            &&& page is Ok && json is Ok ==> handed_out(state.images, json->Ok_0, r.model()->Done_0)
            &&& page is Err || json is Err ==> r.model()->Done_0.len() == 0
            &&& final(failed).recorded() == if page is Err || json is Err || (
            state.images !is Covers && !some_url(state.images, json->Ok_0)) {
                old(failed).recorded().insert(state.mbid)
            } else {
                old(failed).recorded()
            }
            &&& final(failed).seconds() == old(failed).seconds()
            &&& final(failed).entries() == old(failed).entries()
        }),
{
    let state = lookup.model();
    let reply = Reply::Page(page);
    assert(reply.model().page() == page.model());
    assert(r.model() is Done);
    if let Ok(text) = page {
        if let Ok(json) = json_parsed(text@) {
            lemma_handed_out(state.images, json);
        }
    }
    law_recorded_failures(old(failed).recorded(), state, page.model());
}

/// Where it was seen that an earlier lookup failed, no search for cover art asks FanArt.tv.
pub proof fn law_remembered_failures_are_not_asked(
    enabled: bool,
    config: FanarttvConfig,
    state: CoverState,
    answer: Answer,
    mbid: Seq<char>,
    images: Images,
)
    ensures
        cover_next(enabled, config, true, state, answer) matches Move::Ask(_, asking)
            ==> !(asking is Fetch && asking->Fetch_0 == Service::FanartTv),
        art_start(config, true, images, mbid) matches Move::Done(urls) && urls.len() == 0,
{
}

/// A new record of failures is empty and remembers a thousand IDs for a day; recording an ID
/// adds it and no other.
pub proof fn law_record_of_failures(
    failed: &mut FailedMbidCache,
    mbid: String,
    done: (),
    fresh: FailedMbidCache,
)
    requires
        call_ensures(FailedMbidCache::new, (), fresh),
        call_ensures(FailedMbidCache::record, (failed, mbid), done),
    ensures
        forall|id: Seq<char>| !#[trigger] fresh.recorded().contains(id),
        fresh.seconds() == 24 * 60 * 60,
        fresh.entries() == 1000,
        forall|id: Seq<char>| #[trigger]
            final(failed).recorded().contains(id) <==> old(failed).recorded().contains(id) || id
                == mbid@,
        final(failed).seconds() == old(failed).seconds(),
        final(failed).entries() == old(failed).entries(),
{
}

/// FanArt.tv is disabled at first. The configuration enables it unless it says otherwise,
/// with the key that it has or, where it has none or an empty one, with a key of the
/// program's own. The rate limit is that of the section, and half a second where it has
/// none.
pub proof fn law_configuration(
    config: &mut FanarttvConfig,
    section: Option<&JsonValue>,
    r: u64,
    fresh: FanarttvConfig,
    own_key: String,
)
    requires
        call_ensures(FanarttvConfig::new, (), fresh),
        call_ensures(default_fanarttv_api_key, (), own_key),
        call_ensures(initialize_from_config, (config, section), r),
    ensures
        !fresh.enabled,
        fresh.api_key@.len() == 0,
        own_key@.len() > 0,
        section is None ==> final(config).enabled && final(config).api_key@ == own_key@ && r == 500,
        section matches Some(s) ==> {
            &&& final(config).enabled <==> !holds(s.says(), "enable"@, Json::Bool(false))
            &&& forall|key: Seq<char>| #[trigger]
                holds_text(s.says(), "api_key"@, key) && key.len() > 0 ==> final(config).api_key@
                    == key
            &&& (forall|key: Seq<char>| #[trigger]
                holds_text(s.says(), "api_key"@, key) ==> key.len() == 0)
                ==> final(config).api_key@ == own_key@
            &&& forall|n: u64| #[trigger]
                holds(s.says(), "rate_limit_ms"@, Json::Number(JsonNumber::Unsigned(n))) ==> r == n
            &&& (forall|n: u64|
                !#[trigger] holds(
                    s.says(),
                    "rate_limit_ms"@,
                    Json::Number(JsonNumber::Unsigned(n)),
                )) ==> r == 500
        },
{
    reveal_strlit("749a8fca4f2d3b0462b287820ad6ab06");
    if let Some(s) = section {
        law_members(s.says(), "enable"@);
        law_members(s.says(), "api_key"@);
        law_members(s.says(), "rate_limit_ms"@);
        if let Some(b) = s.says().field_truth("enable"@) {
            assert(holds(s.says(), "enable"@, Json::Bool(b)));
        }
        if let Some(key) = s.says().field_string("api_key"@) {
            assert(holds_text(s.says(), "api_key"@, key));
        }
        if let Some(n) = s.says().field_natural("rate_limit_ms"@) {
            assert(holds(s.says(), "rate_limit_ms"@, Json::Number(JsonNumber::Unsigned(n))));
        }
    }
}

/// FanArt.tv is a provider of images of artists and of covers of albums, and of nothing
/// else.
pub proof fn law_provider(
    provider: FanarttvCoverartProvider,
    name: &'static str,
    display_name: &'static str,
    methods: CoverartMethods,
    method: CoverartMethod,
)
    requires
        call_ensures(FanarttvCoverartProvider::name, (&provider,), name),
        call_ensures(FanarttvCoverartProvider::display_name, (&provider,), display_name),
        call_ensures(FanarttvCoverartProvider::supported_methods, (&provider,), methods),
    ensures
        name@ == "fanarttv"@,
        display_name@ == "FanArt.tv"@,
        methods@.contains(method) <==> method == CoverartMethod::Artist || method
            == CoverartMethod::Album,
{
}

/// A search for cover art that asks FanArt.tv asks for the page of an ID for which the
/// record of failures was asked and remembers none. The record changes only with the page:
/// before that it stays as it is.
pub proof fn law_resumed_search(
    search: CoverSearch,
    musicbrainz: MusicBrainzConfig,
    config: FanarttvConfig,
    failed: &mut FailedMbidCache,
    reply: Reply,
    r: Step<CoverSearch, Vec<String>>,
)
    requires
        call_ensures(CoverSearch::resume, (search, &musicbrainz, &config, failed, reply), r),
    ensures
        r.model() matches Move::Ask(_, asking) ==> asking is Fetch && asking->Fetch_0
            == Service::FanartTv ==> config.enabled && config.api_key@.len() > 0 && exists|
            mbid: Seq<char>,
        |
            {
                &&& #[trigger] consulted(*old(failed), mbid, false)
                &&& asking->Fetch_1 == "http://webservice.fanart.tv/v3/music/"@ + mbid
                    + "?api_key="@ + config.api_key@
            },
        search.model().stage !is Art ==> final(failed).recorded() == old(failed).recorded(),
        final(failed).seconds() == old(failed).seconds(),
        final(failed).entries() == old(failed).entries(),
{
    let enabled = musicbrainz.enabled;
    let state = search.model();
    let answer = reply.model();
    let seen = choose|seen: bool| #[trigger]
        settled(*old(failed), looked_up(enabled, state, answer), seen) && r.model() == cover_next(
            enabled,
            config,
            seen,
            state,
            answer,
        );
    if let Move::Ask(_, asking) = r.model() {
        if asking is Fetch && asking->Fetch_0 == Service::FanartTv {
            let mbid = looked_up(enabled, state, answer);
            assert(!seen);
            assert(mbid is Some);
            assert(consulted(*old(failed), mbid->0, false));
        }
    }
}

} // verus!
