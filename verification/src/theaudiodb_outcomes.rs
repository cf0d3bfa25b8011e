//! What searches on TheAudioDB ask for and hand out, in terms of the pages of TheAudioDB
//! and of the attribute cache.

use vstd::prelude::*;
use crate::artist::{Artist, ArtistMeta, ArtistRecord, Profile};
use crate::coverart::{CoverartMethod, CoverartMethods};
use crate::json::{json_parsed, Json, JsonNumber, JsonValue};
use crate::json_laws::{holds, holds_array, holds_text, law_members};
use crate::protocol::{Answer, Asking, Modelled, Move, Request, Service, Step};
use crate::text::{decimal, encodes, lemma_encodes, lemma_utf8_tells_apart, lowercased, texts};
use crate::text_laws::{lemma_within, within};
use crate::theaudiodb::{
    add_biography, add_genres, add_thumbnail, album_urls, all_artist_pictures, all_covers,
    artist_urls, fallback_urls, filled, first_mbid, fitting_cover, genres_joined,
    get_album_coverart, get_api_key, get_artist_coverart, initialize_from_config, lookup_next,
    lookup_start, lookup_theaudiodb_album_by_name, lookup_theaudiodb_albums_by_artist,
    lookup_theaudiodb_by_artist_name, lookup_theaudiodb_by_mbid, pick_album_urls, pick_artist_urls,
    pick_fallback_urls, picture, title_fits, titles_fit, update_start, with_biography, with_genres,
    with_thumbnail, AlbumCoverart, ArtistCoverart, ArtistUpdate, Lookup, LookupStage, LookupState,
    Subject, Target, TheAudioDBConfig, TheAudioDbCoverartProvider, TheAudioDbUpdater, Verdict,
};
use crate::theaudiodb_laws::{
    album_art_in, album_arts, artist_arts, law_album_coverart, law_artist_coverart,
    law_genres_joined, law_lookup, law_update, lookup_in, lookups, update_in, updates,
};
use crate::world::{comes_to, law_outcome_is_unique, Entry, World};

verus! {

/// The URLs are the covers of the albums, in order: each is the text `strAlbumThumb` of
/// the album that `from` names and is not empty, and no such text is left out.
pub open spec fn covers_of(albums: Seq<Json>, urls: Seq<Seq<char>>, from: Seq<int>) -> bool {
    &&& from.len() == urls.len()
    &&& forall|k: int|
        0 <= k < from.len() ==> {
            &&& 0 <= #[trigger] from[k] < albums.len()
            &&& urls[k].len() > 0
            &&& holds_text(albums[from[k]], "strAlbumThumb"@, urls[k])
        }
    &&& forall|i: int, j: int| 0 <= i < j < from.len() ==> #[trigger] from[i] < #[trigger] from[j]
    &&& forall|i: int, url: Seq<char>|
        0 <= i < albums.len() && url.len() > 0 && #[trigger] holds_text(
            albums[i],
            "strAlbumThumb"@,
            url,
        ) ==> from.contains(i)
}

proof fn lemma_covers_of(albums: Seq<Json>)
    ensures
        exists|from: Seq<int>| #[trigger] covers_of(albums, all_covers(albums), from),
    decreases albums.len(),
{
    if albums.len() == 0 {
        assert(covers_of(albums, all_covers(albums), Seq::empty()));
    } else {
        let earlier = albums.drop_last();
        let n = albums.len() - 1;
        let key = "strAlbumThumb"@;
        lemma_covers_of(earlier);
        let before = choose|from: Seq<int>| #[trigger]
            covers_of(earlier, all_covers(earlier), from);
        law_members(albums[n], key);
        let urls = all_covers(albums);
        let from = if picture(albums[n], key).len() > 0 {
            before.push(n)
        } else {
            before
        };
        assert forall|i: int, url: Seq<char>|
            0 <= i < albums.len() && url.len() > 0 && #[trigger] holds_text(
                albums[i],
                key,
                url,
            ) implies from.contains(i) by {
            if i < n {
                assert(earlier[i] == albums[i]);
                assert(before.contains(i));
                let k = choose|k: int| 0 <= k < before.len() && before[k] == i;
                assert(from[k] == i);
            } else {
                assert(albums[n].field_string(key) == Some(url));
                assert(from[before.len() as int] == n);
            }
        }
        assert forall|k: int| 0 <= k < from.len() implies {
            &&& 0 <= #[trigger] from[k] < albums.len()
            &&& urls[k].len() > 0
            &&& holds_text(albums[from[k]], key, urls[k])
        } by {
            if k < before.len() {
                assert(before[k] == from[k]);
                assert(urls[k] == all_covers(earlier)[k]);
            } else {
                assert(urls[k] == picture(albums[n], key)[0]);
            }
        }
        assert(covers_of(albums, urls, from));
    }
}

/// Every URL that is picked out of the answer to a search for an album is the cover of an
/// album in it, and every cover is picked, in order. Nothing else that the album has is
/// taken for a cover.
pub proof fn law_picked_covers(outcome: Result<JsonValue, String>, r: Vec<String>)
    requires
        call_ensures(pick_album_urls, (&outcome,), r),
    ensures
        outcome is Err ==> r.len() == 0,
        outcome matches Ok(found) ==> {
            &&& forall|albums: Seq<Json>|
                holds_array(found.says(), "album"@, albums) ==> exists|from: Seq<int>| #[trigger]
                    covers_of(albums, texts(r@), from)
            &&& r.len() > 0 ==> exists|albums: Seq<Json>| holds_array(found.says(), "album"@, albums)
        },
{
    assert(texts(r@).len() == r.len());
    if let Ok(found) = outcome {
        law_members(found.says(), "album"@);
        assert forall|albums: Seq<Json>| holds_array(found.says(), "album"@, albums) implies exists|
            from: Seq<int>,
        | #[trigger] covers_of(albums, texts(r@), from) by {
            lemma_covers_of(albums);
        }
        if r.len() > 0 {
            assert(holds_array(
                found.says(),
                "album"@,
                found.says().field_items("album"@)->0,
            ));
        }
    }
}

/// Titles fit if one stands somewhere in the other; both are in lowercase here.
pub proof fn law_fitting_titles(title_lower: &str, wanted_lower: &str, r: bool)
    requires
        call_ensures(titles_fit, (title_lower, wanted_lower), r),
    ensures
        r <==> within(wanted_lower@, title_lower@) || within(title_lower@, wanted_lower@),
{
    lemma_within(title_lower@, wanted_lower@);
    lemma_within(wanted_lower@, title_lower@);
}

/// The album has a title and, in lowercase, the title or the wanted one stands somewhere in
/// the other.
pub open spec fn fits(album: Json, wanted: Seq<char>) -> bool {
    exists|title: Seq<char>| #[trigger]
        holds_text(album, "strAlbum"@, title) && (within(lowercased(wanted), lowercased(title))
            || within(lowercased(title), lowercased(wanted)))
}

proof fn lemma_fits(album: Json, wanted: Seq<char>)
    ensures
        fits(album, wanted) == title_fits(album, wanted),
{
    law_members(album, "strAlbum"@);
    if let Some(title) = album.field_string("strAlbum"@) {
        assert(holds_text(album, "strAlbum"@, title));
        lemma_within(lowercased(title), lowercased(wanted));
        lemma_within(lowercased(wanted), lowercased(title));
    }
}

/// The album at this place is the first whose title fits.
pub open spec fn first_fit(albums: Seq<Json>, wanted: Seq<char>, i: int) -> bool {
    &&& 0 <= i < albums.len()
    &&& fits(albums[i], wanted)
    &&& forall|j: int| 0 <= j < i ==> !fits(#[trigger] albums[j], wanted)
}

/// The URLs are the cover of the first album whose title fits, if there is such an album
/// and it has one, and nothing otherwise.
pub open spec fn cover_of_first_fit(
    albums: Seq<Json>,
    wanted: Seq<char>,
    urls: Seq<Seq<char>>,
) -> bool {
    &&& urls.len() <= 1
    &&& urls.len() == 1 ==> urls[0].len() > 0 && exists|i: int|
        first_fit(albums, wanted, i) && #[trigger] holds_text(albums[i], "strAlbumThumb"@, urls[0])
    &&& forall|i: int, url: Seq<char>|
        first_fit(albums, wanted, i) && url.len() > 0 && #[trigger] holds_text(
            albums[i],
            "strAlbumThumb"@,
            url,
        ) ==> urls == seq![url]
}

proof fn lemma_cover_of_first_fit(albums: Seq<Json>, wanted: Seq<char>)
    ensures
        cover_of_first_fit(albums, wanted, fitting_cover(albums, wanted)),
    decreases albums.len(),
{
    let key = "strAlbumThumb"@;
    let urls = fitting_cover(albums, wanted);
    if albums.len() > 0 {
        let rest = albums.drop_first();
        lemma_fits(albums[0], wanted);
        if title_fits(albums[0], wanted) {
            law_members(albums[0], key);
            assert(first_fit(albums, wanted, 0));
            if urls.len() == 1 {
                assert(holds_text(albums[0], key, urls[0]));
            }
            assert forall|i: int, url: Seq<char>|
                first_fit(albums, wanted, i) && url.len() > 0 && #[trigger] holds_text(
                    albums[i],
                    key,
                    url,
                ) implies urls == seq![url] by {
                if i > 0 {
                    assert(!fits(albums[0], wanted));
                }
                assert(i == 0);
            }
        } else {
            lemma_cover_of_first_fit(rest, wanted);
            if urls.len() == 1 {
                let i = choose|i: int|
                    first_fit(rest, wanted, i) && #[trigger] holds_text(rest[i], key, urls[0]);
                lemma_first_fit_later(albums, wanted, i);
                assert(holds_text(albums[i + 1], key, urls[0]));
            }
            assert forall|i: int, url: Seq<char>|
                first_fit(albums, wanted, i) && url.len() > 0 && #[trigger] holds_text(
                    albums[i],
                    key,
                    url,
                ) implies urls == seq![url] by {
                assert(i > 0);
                assert(rest[i - 1] == albums[i]);
                assert forall|j: int| 0 <= j < i - 1 implies !fits(#[trigger] rest[j], wanted) by {
                    assert(rest[j] == albums[j + 1]);
                }
                assert(first_fit(rest, wanted, i - 1));
                assert(holds_text(rest[i - 1], key, url));
            }
        }
    }
}

proof fn lemma_first_fit_later(albums: Seq<Json>, wanted: Seq<char>, i: int)
    requires
        albums.len() > 0,
        !fits(albums[0], wanted),
        first_fit(albums.drop_first(), wanted, i),
    ensures
        first_fit(albums, wanted, i + 1),
{
    let rest = albums.drop_first();
    assert(albums[i + 1] == rest[i]);
    assert forall|j: int| 0 <= j < i + 1 implies !fits(#[trigger] albums[j], wanted) by {
        if j > 0 {
            assert(albums[j] == rest[j - 1]);
        }
    }
}

/// Among all albums of an artist at most one cover is picked: that of the first album whose
/// title fits the wanted one.
pub proof fn law_picked_fallback(
    outcome: Result<JsonValue, String>,
    wanted: &str,
    r: Vec<String>,
)
    requires
        call_ensures(pick_fallback_urls, (&outcome, wanted), r),
    ensures
        r.len() <= 1,
        outcome is Err ==> r.len() == 0,
        outcome matches Ok(found) ==> {
            &&& forall|albums: Seq<Json>|
                holds_array(found.says(), "album"@, albums) ==> cover_of_first_fit(
                    albums,
                    wanted@,
                    texts(r@),
                )
            &&& r.len() > 0 ==> exists|albums: Seq<Json>| holds_array(found.says(), "album"@, albums)
        },
{
    assert(texts(r@).len() == r.len());
    if let Ok(found) = outcome {
        law_members(found.says(), "album"@);
        if let Some(albums) = found.says().field_items("album"@) {
            lemma_cover_of_first_fit(albums, wanted@);
            assert(holds_array(found.says(), "album"@, albums));
        }
    }
}

/// The members of an artist that are images, in the order in which they are taken.
pub open spec fn image_member(n: int) -> Seq<char> {
    if n == 0 {
        "strArtistThumb"@
    } else if n == 1 {
        "strArtistBanner"@
    } else if n == 2 {
        "strArtistFanart"@
    } else {
        "strArtistLogo"@
    }
}

/// The URLs are the images of the artists, artist by artist and in the order of their
/// members; `from` names the artist and the member of each. None is empty, and none is
/// left out.
pub open spec fn images_of(
    artists: Seq<Json>,
    urls: Seq<Seq<char>>,
    from: Seq<(int, int)>,
) -> bool {
    &&& from.len() == urls.len()
    &&& forall|k: int|
        0 <= k < from.len() ==> {
            &&& 0 <= (#[trigger] from[k]).0 < artists.len()
            &&& 0 <= from[k].1 < 4
            &&& urls[k].len() > 0
            &&& holds_text(artists[from[k].0], image_member(from[k].1), urls[k])
        }
    &&& forall|i: int, j: int|
        0 <= i < j < from.len() ==> (#[trigger] from[i]).0 < (#[trigger] from[j]).0 || (from[i].0
            == from[j].0 && from[i].1 < from[j].1)
    &&& forall|i: int, n: int, url: Seq<char>|
        0 <= i < artists.len() && 0 <= n < 4 && url.len() > 0 && #[trigger] holds_text(
            artists[i],
            image_member(n),
            url,
        ) ==> from.contains((i, n))
}

/// The images of the artists, and of the last one only those of its first members.
spec fn images_so_far(
    artists: Seq<Json>,
    last: int,
    members: int,
    urls: Seq<Seq<char>>,
    from: Seq<(int, int)>,
) -> bool {
    &&& from.len() == urls.len()
    &&& forall|k: int|
        0 <= k < from.len() ==> {
            &&& 0 <= (#[trigger] from[k]).0 <= last < artists.len()
            &&& 0 <= from[k].1 < 4
            &&& from[k].0 == last ==> from[k].1 < members
            &&& urls[k].len() > 0
            &&& holds_text(artists[from[k].0], image_member(from[k].1), urls[k])
        }
    &&& forall|i: int, j: int|
        0 <= i < j < from.len() ==> (#[trigger] from[i]).0 < (#[trigger] from[j]).0 || (from[i].0
            == from[j].0 && from[i].1 < from[j].1)
    &&& forall|i: int, n: int, url: Seq<char>|
        0 <= i <= last && 0 <= n < 4 && (i == last ==> n < members) && url.len() > 0
            && #[trigger] holds_text(artists[i], image_member(n), url) ==> from.contains((i, n))
}

proof fn lemma_one_more_image(
    artists: Seq<Json>,
    last: int,
    members: int,
    urls: Seq<Seq<char>>,
    from: Seq<(int, int)>,
) -> (r: Seq<(int, int)>)
    requires
        0 <= last < artists.len(),
        0 <= members < 4,
        images_so_far(artists, last, members, urls, from),
    ensures
        images_so_far(
            artists,
            last,
            members + 1,
            urls + picture(artists[last], image_member(members)),
            r,
        ),
{
    let key = image_member(members);
    let more = picture(artists[last], key);
    let all = urls + more;
    law_members(artists[last], key);
    let r = if more.len() > 0 {
        from.push((last, members))
    } else {
        from
    };
    assert forall|i: int, n: int, url: Seq<char>|
        0 <= i <= last && 0 <= n < 4 && (i == last ==> n < members + 1) && url.len() > 0
            && #[trigger] holds_text(artists[i], image_member(n), url) implies r.contains((i, n)) by {
        if i == last && n == members {
            assert(artists[last].field_string(key) == Some(url));
            assert(r[from.len() as int] == (last, members));
        } else {
            assert(from.contains((i, n)));
            let k = choose|k: int| 0 <= k < from.len() && from[k] == (i, n);
            assert(r[k] == (i, n));
        }
    }
    assert forall|k: int| 0 <= k < r.len() implies {
        &&& 0 <= (#[trigger] r[k]).0 <= last < artists.len()
        &&& 0 <= r[k].1 < 4
        &&& r[k].0 == last ==> r[k].1 < members + 1
        &&& all[k].len() > 0
        &&& holds_text(artists[r[k].0], image_member(r[k].1), all[k])
    } by {
        if k < from.len() {
            assert(r[k] == from[k]);
            assert(all[k] == urls[k]);
        } else {
            assert(all[k] == more[0]);
        }
    }
    r
}

proof fn lemma_images_of(artists: Seq<Json>)
    ensures
        exists|from: Seq<(int, int)>| #[trigger]
            images_of(artists, all_artist_pictures(artists), from),
    decreases artists.len(),
{
    if artists.len() == 0 {
        assert(images_of(artists, all_artist_pictures(artists), Seq::empty()));
    } else {
        let earlier = artists.drop_last();
        let n = artists.len() - 1;
        lemma_images_of(earlier);
        let before = choose|from: Seq<(int, int)>| #[trigger]
            images_of(earlier, all_artist_pictures(earlier), from);
        let urls = all_artist_pictures(earlier);
        assert(images_so_far(artists, n, 0, urls, before)) by {
            assert forall|i: int, m: int, url: Seq<char>|
                0 <= i <= n && 0 <= m < 4 && (i == n ==> m < 0) && url.len() > 0
                    && #[trigger] holds_text(artists[i], image_member(m), url) implies before.contains(
                (i, m),
            ) by {
                assert(earlier[i] == artists[i]);
                assert(holds_text(earlier[i], image_member(m), url));
            }
        }
        let a = artists[n];
        let first = lemma_one_more_image(artists, n, 0, urls, before);
        let urls1 = urls + picture(a, "strArtistThumb"@);
        let second = lemma_one_more_image(artists, n, 1, urls1, first);
        let urls2 = urls1 + picture(a, "strArtistBanner"@);
        let third = lemma_one_more_image(artists, n, 2, urls2, second);
        let urls3 = urls2 + picture(a, "strArtistFanart"@);
        let fourth = lemma_one_more_image(artists, n, 3, urls3, third);
        let urls4 = urls3 + picture(a, "strArtistLogo"@);
        assert(urls4 =~= all_artist_pictures(artists));
        assert(images_of(artists, all_artist_pictures(artists), fourth));
    }
}

/// The URLs that are picked out of the answer to a search for an artist are the thumbnail,
/// banner, fan art and logo of each artist in it, in this order.
pub proof fn law_picked_images(outcome: Result<JsonValue, String>, r: Vec<String>)
    requires
        call_ensures(pick_artist_urls, (&outcome,), r),
    ensures
        outcome is Err ==> r.len() == 0,
        outcome matches Ok(found) ==> {
            &&& forall|artists: Seq<Json>|
                holds_array(found.says(), "artists"@, artists) ==> exists|from: Seq<(int, int)>| #[trigger]
                    images_of(artists, texts(r@), from)
            &&& r.len() > 0 ==> exists|artists: Seq<Json>|
                holds_array(found.says(), "artists"@, artists)
        },
{
    assert(texts(r@).len() == r.len());
    if let Ok(found) = outcome {
        law_members(found.says(), "artists"@);
        assert forall|artists: Seq<Json>| holds_array(found.says(), "artists"@, artists) implies exists|
            from: Seq<(int, int)>,
        | #[trigger] images_of(artists, texts(r@), from) by {
            lemma_images_of(artists);
        }
        if r.len() > 0 {
            assert(holds_array(
                found.says(),
                "artists"@,
                found.says().field_items("artists"@)->0,
            ));
        }
    }
}

/// The API key that goes into a URL: that of the configuration or, where it has none, the
/// one the program was built with.
pub open spec fn key_in_use(config: TheAudioDBConfig) -> Seq<char> {
    if config.api_key@.len() > 0 {
        config.api_key@
    } else {
        config.default_key@
    }
}

/// There is an API key: the configuration has one, or the program was built with one.
pub open spec fn has_key(config: TheAudioDBConfig) -> bool {
    config.api_key@.len() > 0 || (config.default_key@.len() > 0 && config.default_key@
        != "YOUR_API_KEY_HERE"@)
}

/// The key that is handed out is the one in use, and none is handed out where the program
/// was built without one and none is configured.
pub proof fn law_api_key(config: TheAudioDBConfig, r: Option<String>)
    requires
        call_ensures(get_api_key, (&config,), r),
    ensures
        r matches Some(key) ==> key@ == key_in_use(config),
        has_key(config) ==> r is Some,
        r is None ==> config.api_key@.len() == 0 && config.default_key@ == "YOUR_API_KEY_HERE"@,
{
}

/// The URL asks TheAudioDB for the subject: its parameters decode to the names.
pub open spec fn asks_for(subject: Subject, key: Seq<char>, url: Seq<char>) -> bool {
    let base = "https://www.theaudiodb.com/api/v1/json/"@ + key;
    match subject {
        Subject::Mbid(mbid) => url == base + "/artist-mb.php?i="@ + mbid,
        Subject::ArtistName(name) => exists|s: Seq<char>|
            url == base + "/search.php?s="@ + s && #[trigger] encodes(s, name),
        Subject::AlbumsBy(artist) => exists|s: Seq<char>|
            url == base + "/searchalbum.php?s="@ + s && #[trigger] encodes(s, artist),
        Subject::Album(artist, album) => exists|s: Seq<char>, a: Seq<char>|
            url == base + "/searchalbum.php?s="@ + s + "&a="@ + a && #[trigger] encodes(s, artist)
                && #[trigger] encodes(a, album),
    }
}

proof fn lemma_asks_for(subject: Subject, key: Seq<char>)
    ensures
        asks_for(subject, key, subject.url(key)),
{
    match subject {
        Subject::Mbid(_) => {},
        Subject::ArtistName(name) => {
            lemma_encodes(name);
        },
        Subject::AlbumsBy(artist) => {
            lemma_encodes(artist);
        },
        Subject::Album(artist, album) => {
            lemma_encodes(artist);
            lemma_encodes(album);
        },
    }
}

proof fn lemma_same_tail(front: Seq<char>, a: Seq<char>, b: Seq<char>)
    requires
        front + a == front + b,
    ensures
        a == b,
{
    let n = front.len() as int;
    assert((front + a).skip(n) =~= a);
    assert((front + b).skip(n) =~= b);
}

proof fn lemma_same_parameters(s: Seq<char>, a: Seq<char>, t: Seq<char>, b: Seq<char>)
    requires
        !s.contains('&'),
        !t.contains('&'),
        s + "&a="@ + a == t + "&a="@ + b,
    ensures
        s == t,
        a == b,
{
    reveal_strlit("&a=");
    let x = s + "&a="@ + a;
    let y = t + "&a="@ + b;
    assert(x[s.len() as int] == '&');
    assert(y[t.len() as int] == '&');
    if s.len() < t.len() {
        assert(t[s.len() as int] == '&');
    }
    if t.len() < s.len() {
        assert(s[t.len() as int] == '&');
    }
    assert(x.take(s.len() as int) =~= s);
    assert(y.take(t.len() as int) =~= t);
    lemma_same_tail(s + "&a="@, a, b);
}

/// No URL asks for two names, two artists' albums, two albums or two identifiers.
pub proof fn law_url_asks_for_one(a: Subject, b: Subject, key: Seq<char>, url: Seq<char>)
    requires
        asks_for(a, key, url),
        asks_for(b, key, url),
    ensures
        a is Mbid && b is Mbid ==> a == b,
        a is ArtistName && b is ArtistName ==> a == b,
        a is AlbumsBy && b is AlbumsBy ==> a == b,
        a is Album && b is Album ==> a == b,
{
    let base = "https://www.theaudiodb.com/api/v1/json/"@ + key;
    match (a, b) {
        (Subject::Mbid(x), Subject::Mbid(y)) => {
            lemma_same_tail(base + "/artist-mb.php?i="@, x, y);
        },
        (Subject::ArtistName(x), Subject::ArtistName(y)) => {
            let front = base + "/search.php?s="@;
            let s = choose|s: Seq<char>| url == front + s && #[trigger] encodes(s, x);
            let t = choose|t: Seq<char>| url == front + t && #[trigger] encodes(t, y);
            lemma_same_tail(front, s, t);
            lemma_utf8_tells_apart(x, y);
        },
        (Subject::AlbumsBy(x), Subject::AlbumsBy(y)) => {
            let front = base + "/searchalbum.php?s="@;
            let s = choose|s: Seq<char>| url == front + s && #[trigger] encodes(s, x);
            let t = choose|t: Seq<char>| url == front + t && #[trigger] encodes(t, y);
            lemma_same_tail(front, s, t);
            lemma_utf8_tells_apart(x, y);
        },
        (Subject::Album(x, v), Subject::Album(y, w)) => {
            let front = base + "/searchalbum.php?s="@;
            let (s, p) = choose|s: Seq<char>, p: Seq<char>|
                url == front + s + "&a="@ + p && #[trigger] encodes(s, x) && #[trigger] encodes(p, v);
            let (t, q) = choose|t: Seq<char>, q: Seq<char>|
                url == front + t + "&a="@ + q && #[trigger] encodes(t, y) && #[trigger] encodes(q, w);
            assert(front + s + "&a="@ + p =~= front + (s + "&a="@ + p));
            assert(front + t + "&a="@ + q =~= front + (t + "&a="@ + q));
            lemma_same_tail(front, s + "&a="@ + p, t + "&a="@ + q);
            lemma_same_parameters(s, p, t, q);
            lemma_utf8_tells_apart(x, y);
            lemma_utf8_tells_apart(v, w);
        },
        _ => {},
    }
}

/// The key of the attribute cache under which a document is kept.
pub open spec fn document_key(subject: Subject) -> Seq<char> {
    match subject {
        Subject::Mbid(mbid) => "theaudiodb::mbid::"@ + mbid,
        Subject::ArtistName(name) => "theaudiodb::artist_name::"@ + name,
        Subject::AlbumsBy(artist) => "theaudiodb::albums_by_artist::"@ + artist,
        Subject::Album(artist, album) => "theaudiodb::album::"@ + artist + "::"@ + album,
    }
}

/// The key of the attribute cache under which it is kept that there is nothing.
pub open spec fn nothing_key(subject: Subject) -> Seq<char> {
    match subject {
        Subject::Mbid(mbid) => "theaudiodb::not_found::"@ + mbid,
        Subject::ArtistName(name) => "theaudiodb::artist_not_found::"@ + name,
        Subject::AlbumsBy(artist) => "theaudiodb::albums_not_found::"@ + artist,
        Subject::Album(artist, album) => "theaudiodb::album_not_found::"@ + artist + "::"@ + album,
    }
}

/// The message that there is nothing; it names what was looked for.
pub open spec fn nothing_message(subject: Subject) -> Seq<char> {
    match subject {
        Subject::Mbid(mbid) => "No artist found with MBID "@ + mbid,
        Subject::ArtistName(name) => "No artist found with name '"@ + name + "'"@,
        Subject::AlbumsBy(artist) => "No albums found for artist '"@ + artist + "'"@,
        Subject::Album(artist, album) => "No album '"@ + album + "' found for artist '"@ + artist
            + "'"@,
    }
}

/// The member of a page that the answer stands in.
pub open spec fn answer_member(subject: Subject) -> Seq<char> {
    match subject {
        Subject::Mbid(_) | Subject::ArtistName(_) => "artists"@,
        Subject::AlbumsBy(_) | Subject::Album(_, _) => "album"@,
    }
}

/// The attribute cache stays as it is, and exactly one request went out, for this URL.
pub open spec fn asked_only(before: World, after: World, url: Seq<char>) -> bool {
    &&& after.sent == before.sent.push(Asking::Fetch(Service::TheAudioDb, url))
    &&& after.entries == before.entries
}

/// One request went out, for this URL, and the attribute cache has one entry more.
pub open spec fn asked_and_kept(
    before: World,
    after: World,
    url: Seq<char>,
    key: Seq<char>,
    entry: Entry,
) -> bool {
    &&& after.sent == before.sent.push(Asking::Fetch(Service::TheAudioDb, url))
    &&& after.entries == before.entries.insert(key, entry)
}

/// What comes of the page of a URL. The answer is the only artist with an identifier, and
/// otherwise the page, and is kept; that there is nothing is kept too; a page that is out
/// of order is not.
pub open spec fn answered_by_page(
    subject: Subject,
    before: World,
    url: Seq<char>,
    outcome: Result<Json, Seq<char>>,
    after: World,
) -> bool {
    match (before.pages)(Service::TheAudioDb, url) {
        Err(reason) => {
            &&& outcome == Err::<Json, Seq<char>>(
                "Failed to send request to TheAudioDB: "@ + reason,
            )
            &&& asked_only(before, after, url)
        },
        Ok(text) => match json_parsed(text) {
            Err(reason) => {
                &&& outcome == Err::<Json, Seq<char>>(
                    "Failed to parse TheAudioDB response: "@ + reason,
                )
                &&& asked_only(before, after, url)
            },
            Ok(page) => {
                let member = answer_member(subject);
                &&& holds(page, member, Json::Null) || holds_array(page, member, Seq::empty()) ==> {
                    &&& outcome == Err::<Json, Seq<char>>(nothing_message(subject))
                    &&& asked_and_kept(before, after, url, nothing_key(subject), Entry::Flag(true))
                }
                &&& forall|items: Seq<Json>| #[trigger]
                    holds_array(page, member, items) && items.len() > 0 ==> {
                        let answer = if subject is Mbid {
                            items[0]
                        } else {
                            page
                        };
                        if subject is Mbid && items.len() > 1 {
                            outcome is Err && asked_only(before, after, url)
                        } else {
                            &&& outcome == Ok::<Json, Seq<char>>(answer)
                            &&& asked_and_kept(
                                before,
                                after,
                                url,
                                document_key(subject),
                                Entry::Value(answer),
                            )
                        }
                    }
                &&& !holds(page, member, Json::Null) && (forall|items: Seq<Json>|
                    !holds_array(page, member, items)) ==> outcome is Err && asked_only(
                    before,
                    after,
                    url,
                )
            },
        },
    }
}

proof fn lemma_answered_by_page(subject: Subject, before: World, url: Seq<char>)
    ensures
        ({
            let asked = Asking::Fetch(Service::TheAudioDb, url);
            let (outcome, keep) = subject.judged((before.pages)(Service::TheAudioDb, url));
            let sent = before.having_sent(asked);
            answered_by_page(
                subject,
                before,
                url,
                outcome,
                if keep is Some {
                    sent.after(keep->0)
                } else {
                    sent
                },
            )
        }),
{
    if let Ok(text) = (before.pages)(Service::TheAudioDb, url) {
        if let Ok(page) = json_parsed(text) {
            let member = answer_member(subject);
            law_members(page, member);
            if let Some(v) = page.field(member) {
                assert(holds(page, member, v));
                if let Json::Array(items) = v {
                    assert(holds_array(page, member, items));
                    if items.len() == 0 {
                        assert(items =~= Seq::empty());
                    }
                }
            }
        }
    }
}

/// What a lookup comes to. While lookups are disabled it fails and asks nobody. What the
/// attribute cache has comes next, be it a document or that there is nothing, and again
/// nobody is asked. Then a key is needed, and one page is asked for, whose URL decodes to
/// the very names that are looked up.
pub open spec fn looked_up(
    config: TheAudioDBConfig,
    subject: Subject,
    world: World,
    outcome: (Result<Json, Seq<char>>, World),
) -> bool {
    let known = world.entry(document_key(subject));
    let nothing = world.entry(nothing_key(subject));
    if !config.enabled {
        outcome == (Err::<Json, Seq<char>>("TheAudioDB lookups are disabled"@), world)
    } else if known is Some && known->0 is Value {
        outcome == (Ok::<Json, Seq<char>>(known->0->Value_0), world)
    } else if nothing == Some(Entry::Flag(true)) {
        &&& outcome.1 == world
        &&& outcome.0 == Err::<Json, Seq<char>>(
            if subject is ArtistName {
                nothing_message(subject)
            } else {
                nothing_message(subject) + " (from cache)"@
            },
        )
    } else if !has_key(config) {
        outcome == (Err::<Json, Seq<char>>("No API key configured for TheAudioDB"@), world)
    } else {
        exists|url: Seq<char>| #[trigger]
            asks_for(subject, key_in_use(config), url) && answered_by_page(
                subject,
                world,
                url,
                outcome.0,
                outcome.1,
            )
    }
}

proof fn lemma_looked_up(config: TheAudioDBConfig, subject: Subject, world: World)
    ensures
        looked_up(config, subject, world, lookup_in(config, subject, world)),
{
    if config.enabled && world.value(subject.found_key()) is None && !world.flagged(
        subject.missing_key(),
    ) && has_key(config) {
        let key = key_in_use(config);
        assert(config.usable_key() == Some(key));
        lemma_asks_for(subject, key);
        lemma_answered_by_page(subject, world, subject.url(key));
    }
}

proof fn lemma_lookup_outcome(
    config: TheAudioDBConfig,
    subject: Subject,
    world: World,
    outcome: (Result<Json, Seq<char>>, World),
)
    requires
        comes_to(lookups(config), lookup_start(config, subject), world, outcome),
    ensures
        outcome == lookup_in(config, subject, world),
        looked_up(config, subject, world, outcome),
{
    law_lookup(config, subject, world);
    law_outcome_is_unique(
        lookups(config),
        lookup_start(config, subject),
        world,
        lookup_in(config, subject, world),
        outcome,
    );
    lemma_looked_up(config, subject, world);
}

/// A lookup of an artist by name asks for that name.
pub proof fn law_artist_lookup(
    config: TheAudioDBConfig,
    name: &str,
    first: Step<Lookup, Result<JsonValue, String>>,
    world: World,
    outcome: (Result<Json, Seq<char>>, World),
)
    requires
        call_ensures(lookup_theaudiodb_by_artist_name, (&config, name), first),
        comes_to(lookups(config), first.model(), world, outcome),
    ensures
        looked_up(config, Subject::ArtistName(name@), world, outcome),
{
    lemma_lookup_outcome(config, Subject::ArtistName(name@), world, outcome);
}

/// A lookup of an artist by identifier asks for that identifier.
pub proof fn law_mbid_lookup(
    config: TheAudioDBConfig,
    mbid: &str,
    first: Step<Lookup, Result<JsonValue, String>>,
    world: World,
    outcome: (Result<Json, Seq<char>>, World),
)
    requires
        call_ensures(lookup_theaudiodb_by_mbid, (&config, mbid), first),
        comes_to(lookups(config), first.model(), world, outcome),
    ensures
        looked_up(config, Subject::Mbid(mbid@), world, outcome),
{
    lemma_lookup_outcome(config, Subject::Mbid(mbid@), world, outcome);
}

/// A lookup of the albums of an artist asks for that artist.
pub proof fn law_albums_lookup(
    config: TheAudioDBConfig,
    artist: &str,
    first: Step<Lookup, Result<JsonValue, String>>,
    world: World,
    outcome: (Result<Json, Seq<char>>, World),
)
    requires
        call_ensures(lookup_theaudiodb_albums_by_artist, (&config, artist), first),
        comes_to(lookups(config), first.model(), world, outcome),
    ensures
        looked_up(config, Subject::AlbumsBy(artist@), world, outcome),
{
    lemma_lookup_outcome(config, Subject::AlbumsBy(artist@), world, outcome);
}

/// A lookup of an album asks for that album by that artist.
pub proof fn law_album_lookup(
    config: TheAudioDBConfig,
    artist: &str,
    album: &str,
    first: Step<Lookup, Result<JsonValue, String>>,
    world: World,
    outcome: (Result<Json, Seq<char>>, World),
)
    requires
        call_ensures(lookup_theaudiodb_album_by_name, (&config, artist, album), first),
        comes_to(lookups(config), first.model(), world, outcome),
    ensures
        looked_up(config, Subject::Album(artist@, album@), world, outcome),
{
    lemma_lookup_outcome(config, Subject::Album(artist@, album@), world, outcome);
}

/// A lookup that needs a page asks for that page and nothing else.
proof fn lemma_asked_once(
    subject: Subject,
    before: World,
    url: Seq<char>,
    outcome: Result<Json, Seq<char>>,
    after: World,
)
    requires
        answered_by_page(subject, before, url, outcome, after),
    ensures
        after.sent == before.sent.push(Asking::Fetch(Service::TheAudioDb, url)),
{
    if let Ok(text) = (before.pages)(Service::TheAudioDb, url) {
        if let Ok(page) = json_parsed(text) {
            let member = answer_member(subject);
            if exists|items: Seq<Json>| holds_array(page, member, items) {
                let items = choose|items: Seq<Json>| holds_array(page, member, items);
                if items.len() == 0 {
                    assert(items =~= Seq::empty());
                }
            }
        }
    }
}

/// Lookups of two names never ask for the same page.
pub proof fn law_names_are_asked_apart(
    config: TheAudioDBConfig,
    a: &str,
    b: &str,
    first: Step<Lookup, Result<JsonValue, String>>,
    second: Step<Lookup, Result<JsonValue, String>>,
    world: World,
    of_a: (Result<Json, Seq<char>>, World),
    of_b: (Result<Json, Seq<char>>, World),
)
    requires
        call_ensures(lookup_theaudiodb_by_artist_name, (&config, a), first),
        call_ensures(lookup_theaudiodb_by_artist_name, (&config, b), second),
        comes_to(lookups(config), first.model(), world, of_a),
        comes_to(lookups(config), second.model(), world, of_b),
        of_a.1.sent.len() > world.sent.len(),
        of_a.1.sent == of_b.1.sent,
    ensures
        a@ == b@,
{
    law_artist_lookup(config, a, first, world, of_a);
    law_artist_lookup(config, b, second, world, of_b);
    let key = key_in_use(config);
    let x = Subject::ArtistName(a@);
    let y = Subject::ArtistName(b@);
    let url = choose|url: Seq<char>| #[trigger]
        asks_for(x, key, url) && answered_by_page(x, world, url, of_a.0, of_a.1);
    let other = choose|url: Seq<char>| #[trigger]
        asks_for(y, key, url) && answered_by_page(y, world, url, of_b.0, of_b.1);
    lemma_asked_once(x, world, url, of_a.0, of_a.1);
    lemma_asked_once(y, world, other, of_b.0, of_b.1);
    assert(of_a.1.sent.last() == Asking::Fetch(Service::TheAudioDb, url));
    assert(of_b.1.sent.last() == Asking::Fetch(Service::TheAudioDb, other));
    law_url_asks_for_one(x, y, key, url);
}

/// The URLs that a search for an album's cover hands out are the covers in what the lookup
/// of the album comes to or, where it has none, the cover of the first album of the artist
/// whose title fits. Either way each is the non-empty text `strAlbumThumb` of an album.
pub open spec fn album_covers(
    config: TheAudioDBConfig,
    artist: Seq<char>,
    album: Seq<char>,
    world: World,
    urls: Seq<Seq<char>>,
    after: World,
) -> bool {
    exists|told: Result<Json, Seq<char>>, between: World|
        {
            &&& #[trigger] looked_up(
                config,
                Subject::Album(artist, album),
                world,
                (told, between),
            )
            &&& album_covers_after(config, artist, album, told, between, urls, after)
        }
}

/// What the search hands out after the lookup of the album.
pub open spec fn album_covers_after(
    config: TheAudioDBConfig,
    artist: Seq<char>,
    album: Seq<char>,
    told: Result<Json, Seq<char>>,
    between: World,
    urls: Seq<Seq<char>>,
    after: World,
) -> bool {
    if some_cover(told) {
        &&& after == between
        &&& exists|albums: Seq<Json>, from: Seq<int>|
            holds_array(told->Ok_0, "album"@, albums) && #[trigger] covers_of(albums, urls, from)
    } else {
        exists|others: Result<Json, Seq<char>>|
            {
                &&& #[trigger] looked_up(
                    config,
                    Subject::AlbumsBy(artist),
                    between,
                    (others, after),
                )
                &&& fallback_covers(others, album, urls)
            }
    }
}

/// The document lists an album that has a cover.
pub open spec fn some_cover(outcome: Result<Json, Seq<char>>) -> bool {
    outcome matches Ok(found) && exists|albums: Seq<Json>, i: int, url: Seq<char>|
        #![trigger holds_array(found, "album"@, albums), holds_text(albums[i], "strAlbumThumb"@, url)]
        holds_array(found, "album"@, albums) && 0 <= i < albums.len() && url.len() > 0
            && holds_text(albums[i], "strAlbumThumb"@, url)
}

/// The URLs are those of the first fitting album of the document, and none where there is
/// no document.
pub open spec fn fallback_covers(
    outcome: Result<Json, Seq<char>>,
    album: Seq<char>,
    urls: Seq<Seq<char>>,
) -> bool {
    &&& urls.len() <= 1
    &&& urls.len() == 1 ==> (outcome matches Ok(found) && exists|albums: Seq<Json>|
        holds_array(found, "album"@, albums))
    &&& outcome matches Ok(found) ==> forall|albums: Seq<Json>|
        holds_array(found, "album"@, albums) ==> cover_of_first_fit(albums, album, urls)
}

proof fn lemma_fallback_covers(outcome: Result<Json, Seq<char>>, album: Seq<char>)
    ensures
        fallback_covers(outcome, album, fallback_urls(outcome, album)),
{
    if let Ok(found) = outcome {
        law_members(found, "album"@);
        if let Some(albums) = found.field_items("album"@) {
            assert(holds_array(found, "album"@, albums));
            lemma_cover_of_first_fit(albums, album);
        }
    }
}

proof fn lemma_some_cover(outcome: Result<Json, Seq<char>>)
    ensures
        some_cover(outcome) <==> album_urls(outcome).len() > 0,
        some_cover(outcome) ==> exists|albums: Seq<Json>, from: Seq<int>|
            holds_array(outcome->Ok_0, "album"@, albums) && #[trigger] covers_of(
                albums,
                album_urls(outcome),
                from,
            ),
{
    if let Ok(found) = outcome {
        law_members(found, "album"@);
        if let Some(albums) = found.field_items("album"@) {
            assert(holds_array(found, "album"@, albums));
            lemma_covers_of(albums);
            let urls = album_urls(outcome);
            let from = choose|from: Seq<int>| #[trigger] covers_of(albums, urls, from);
            if urls.len() > 0 {
                assert(0 <= from[0] < albums.len());
                assert(holds_text(albums[from[0]], "strAlbumThumb"@, urls[0]));
            }
            if some_cover(outcome) {
                let (list, i, url) = choose|list: Seq<Json>, i: int, url: Seq<char>|
                    #![trigger holds_array(found, "album"@, list), holds_text(list[i], "strAlbumThumb"@, url)]
                    holds_array(found, "album"@, list) && 0 <= i < list.len() && url.len() > 0
                        && holds_text(list[i], "strAlbumThumb"@, url);
                assert(list == albums);
                assert(from.contains(i));
            }
        }
    }
}

/// Searching for an album's cover hands out covers of that album only.
pub proof fn law_album_cover_search(
    config: TheAudioDBConfig,
    album: &str,
    artist: &str,
    year: Option<i32>,
    first: Step<AlbumCoverart, Vec<String>>,
    world: World,
    outcome: (Seq<Seq<char>>, World),
)
    requires
        call_ensures(get_album_coverart, (&config, album, artist, year), first),
        comes_to(album_arts(config), first.model(), world, outcome),
    ensures
        album_covers(config, artist@, album@, world, outcome.0, outcome.1),
{
    law_album_coverart(config, artist@, album@, world);
    law_outcome_is_unique(
        album_arts(config),
        first.model(),
        world,
        album_art_in(config, artist@, album@, world),
        outcome,
    );
    let one = Subject::Album(artist@, album@);
    let all = Subject::AlbumsBy(artist@);
    let (told, between) = lookup_in(config, one, world);
    lemma_looked_up(config, one, world);
    lemma_some_cover(told);
    assert(looked_up(config, one, world, (told, between)));
    if !some_cover(told) {
        let (others, after) = lookup_in(config, all, between);
        lemma_looked_up(config, all, between);
        lemma_fallback_covers(others, album@);
        assert(looked_up(config, all, between, (others, after)));
    }
}

/// The document is what the lookup of the album came to, or that of all albums of the
/// artist after it.
pub open spec fn searched_document(
    config: TheAudioDBConfig,
    artist: Seq<char>,
    album: Seq<char>,
    world: World,
    found: Json,
) -> bool {
    exists|told: Result<Json, Seq<char>>, between: World|
        {
            &&& #[trigger] looked_up(config, Subject::Album(artist, album), world, (told, between))
            &&& told == Ok::<Json, Seq<char>>(found) || exists|after: World| #[trigger]
                looked_up(
                    config,
                    Subject::AlbumsBy(artist),
                    between,
                    (Ok::<Json, Seq<char>>(found), after),
                )
        }
}

/// The URL is the cover of an album that the document lists: its non-empty text
/// `strAlbumThumb`.
pub open spec fn is_cover_in(found: Json, url: Seq<char>) -> bool {
    url.len() > 0 && exists|albums: Seq<Json>, i: int|
        #![trigger holds_array(found, "album"@, albums), albums[i]]
        holds_array(found, "album"@, albums) && 0 <= i < albums.len() && holds_text(
            albums[i],
            "strAlbumThumb"@,
            url,
        )
}

/// Every URL that a search for an album's cover hands out is the cover of an album that
/// TheAudioDB lists for the album or for its artist.
pub proof fn law_every_url_is_a_cover(
    config: TheAudioDBConfig,
    album: &str,
    artist: &str,
    year: Option<i32>,
    first: Step<AlbumCoverart, Vec<String>>,
    world: World,
    outcome: (Seq<Seq<char>>, World),
)
    requires
        call_ensures(get_album_coverart, (&config, album, artist, year), first),
        comes_to(album_arts(config), first.model(), world, outcome),
    ensures
        outcome.0.len() > 0 ==> exists|found: Json|
            {
                &&& #[trigger] searched_document(config, artist@, album@, world, found)
                &&& forall|k: int|
                    0 <= k < outcome.0.len() ==> is_cover_in(found, #[trigger] outcome.0[k])
            },
{
    law_album_cover_search(config, album, artist, year, first, world, outcome);
    let urls = outcome.0;
    if urls.len() > 0 {
        let (told, between) = choose|told: Result<Json, Seq<char>>, between: World|
            {
                &&& #[trigger] looked_up(
                    config,
                    Subject::Album(artist@, album@),
                    world,
                    (told, between),
                )
                &&& album_covers_after(
                    config,
                    artist@,
                    album@,
                    told,
                    between,
                    urls,
                    outcome.1,
                )
            };
        if some_cover(told) {
            let found = told->Ok_0;
            let (albums, from) = choose|albums: Seq<Json>, from: Seq<int>|
                holds_array(found, "album"@, albums) && #[trigger] covers_of(albums, urls, from);
            assert forall|k: int| 0 <= k < urls.len() implies is_cover_in(
                found,
                #[trigger] urls[k],
            ) by {
                assert(0 <= from[k] < albums.len());
                assert(holds_text(albums[from[k]], "strAlbumThumb"@, urls[k]));
            }
            assert(searched_document(config, artist@, album@, world, found));
        } else {
            let others = choose|others: Result<Json, Seq<char>>|
                {
                    &&& #[trigger] looked_up(
                        config,
                        Subject::AlbumsBy(artist@),
                        between,
                        (others, outcome.1),
                    )
                    &&& fallback_covers(others, album@, urls)
                };
            let found = others->Ok_0;
            let albums = choose|albums: Seq<Json>| holds_array(found, "album"@, albums);
            assert(cover_of_first_fit(albums, album@, urls));
            let i = choose|i: int|
                first_fit(albums, album@, i) && #[trigger] holds_text(
                    albums[i],
                    "strAlbumThumb"@,
                    urls[0],
                );
            assert(is_cover_in(found, urls[0])) by {
                let album_entry = albums[i];
            }
            assert(looked_up(
                config,
                Subject::AlbumsBy(artist@),
                between,
                (Ok::<Json, Seq<char>>(found), outcome.1),
            ));
            assert(searched_document(config, artist@, album@, world, found));
        }
    }
}

/// Searching for an artist's images hands out the images of the artists in what the lookup
/// by name comes to, and none where it comes to nothing.
pub proof fn law_artist_image_search(
    config: TheAudioDBConfig,
    artist: &str,
    first: Step<ArtistCoverart, Vec<String>>,
    world: World,
    outcome: (Seq<Seq<char>>, World),
)
    requires
        call_ensures(get_artist_coverart, (&config, artist), first),
        comes_to(artist_arts(config), first.model(), world, outcome),
    ensures
        exists|told: Result<Json, Seq<char>>|
            {
                &&& #[trigger] looked_up(
                    config,
                    Subject::ArtistName(artist@),
                    world,
                    (told, outcome.1),
                )
                &&& told is Err ==> outcome.0.len() == 0
                &&& told matches Ok(found) ==> {
                    &&& outcome.0.len() > 0 ==> exists|artists: Seq<Json>|
                        holds_array(found, "artists"@, artists)
                    &&& forall|artists: Seq<Json>|
                        holds_array(found, "artists"@, artists) ==> exists|from: Seq<(int, int)>| #[trigger]
                            images_of(artists, outcome.0, from)
                }
            },
{
    let subject = Subject::ArtistName(artist@);
    let (told, after) = lookup_in(config, subject, world);
    law_artist_coverart(config, artist@, world);
    law_outcome_is_unique(
        artist_arts(config),
        first.model(),
        world,
        (artist_urls(told), after),
        outcome,
    );
    lemma_looked_up(config, subject, world);
    assert(looked_up(config, subject, world, (told, outcome.1)));
    if let Ok(found) = told {
        law_members(found, "artists"@);
        assert forall|artists: Seq<Json>| holds_array(found, "artists"@, artists) implies exists|
            from: Seq<(int, int)>,
        | #[trigger] images_of(artists, outcome.0, from) by {
            assert(found.field_items("artists"@) == Some(artists));
            assert(outcome.0 == all_artist_pictures(artists));
            lemma_images_of(artists);
        }
        if outcome.0.len() > 0 {
            assert(holds_array(found, "artists"@, found.field_items("artists"@)->0));
        }
    }
}

/// What TheAudioDB has nothing on is kept for good, and under the key of that subject only;
/// a document is kept under its key.
pub proof fn law_kept_entries(
    config: TheAudioDBConfig,
    state: LookupState,
    answer: Answer,
    asking: Asking,
)
    requires
        lookup_next(config, state, answer) matches Move::Ask(_, asked) && asked == asking,
    ensures
        asking matches Asking::StoreFlag(key, lifetime) ==> key == nothing_key(state.subject)
            && lifetime is None,
        asking matches Asking::StoreValue(key, _) ==> key == document_key(state.subject),
        asking !is StoreText,
        asking !is StoreList,
        asking !is SearchArtists,
        asking !is SearchRecordings,
{
}

/// The document gives the artist this text: it is not empty.
pub open spec fn gives(data: Json, member: Seq<char>, text: Seq<char>) -> bool {
    holds_text(data, member, text) && text.len() > 0
}

proof fn lemma_gives(data: Json, member: Seq<char>)
    ensures
        forall|text: Seq<char>| #[trigger]
            gives(data, member, text) <==> filled(data, member) == Some(text),
{
    law_members(data, member);
}

/// The list has the text in it and otherwise what it had, in its order: the text was put at
/// the end unless it was there.
pub open spec fn has_been_added(
    before: Seq<Seq<char>>,
    text: Seq<char>,
    after: Seq<Seq<char>>,
) -> bool {
    if before.contains(text) {
        after == before
    } else {
        after == before.push(text)
    }
}

/// What an artist becomes by a document: the thumbnail is among the thumbnails, the
/// biography is that of the document, with TheAudioDB as its source, and the genres are
/// joined by the cleaned up ones. What the document does not give stays, and so do the
/// artist's identity and identifiers.
pub open spec fn updated_by(
    artist: ArtistRecord,
    data: Json,
    cleaned: spec_fn(Seq<Seq<char>>) -> Seq<Seq<char>>,
    after: ArtistRecord,
) -> bool {
    &&& after.id == artist.id
    &&& after.name == artist.name
    &&& after.is_multi == artist.is_multi
    &&& artist.metadata is None ==> after.metadata is None
    &&& artist.metadata matches Some(old_profile) ==> {
        &&& after.metadata is Some
        &&& profile_updated(old_profile, data, cleaned, after.metadata->0)
    }
}

/// What the metadata become by a document.
pub open spec fn profile_updated(
    before: Profile,
    data: Json,
    cleaned: spec_fn(Seq<Seq<char>>) -> Seq<Seq<char>>,
    after: Profile,
) -> bool {
    &&& after.mbid == before.mbid
    &&& forall|url: Seq<char>| #[trigger]
        gives(data, "strArtistThumb"@, url) ==> has_been_added(
            before.thumb_url,
            url,
            after.thumb_url,
        )
    &&& (forall|url: Seq<char>| !#[trigger] gives(data, "strArtistThumb"@, url)) ==> after.thumb_url
        == before.thumb_url
    &&& forall|text: Seq<char>| #[trigger]
        gives(data, "strBiographyEN"@, text) ==> after.biography == Some(text)
            && after.biography_source == Some("TheAudioDB"@)
    &&& (forall|text: Seq<char>| !#[trigger] gives(data, "strBiographyEN"@, text))
        ==> after.biography == before.biography && after.biography_source
        == before.biography_source
    &&& forall|genre: Seq<char>| #[trigger]
        gives(data, "strGenre"@, genre) ==> genres_added(
            before.genres,
            cleaned(seq![genre]),
            after.genres,
        )
    &&& (forall|genre: Seq<char>| !#[trigger] gives(data, "strGenre"@, genre)) ==> after.genres
        == before.genres
}

/// The genres are those that were there, in front and in their order, and behind them those
/// of the other list that were not, in theirs and each of them once: `from` says where in
/// the other list they stood first.
pub open spec fn genres_taken(
    before: Seq<Seq<char>>,
    more: Seq<Seq<char>>,
    after: Seq<Seq<char>>,
    from: Seq<int>,
) -> bool {
    &&& after.len() == before.len() + from.len()
    &&& forall|k: int| 0 <= k < before.len() ==> #[trigger] after[k] == before[k]
    &&& forall|k: int|
        0 <= k < from.len() ==> {
            &&& 0 <= #[trigger] from[k] < more.len()
            &&& after[before.len() + k] == more[from[k]]
        }
    &&& forall|i: int, j: int| 0 <= i < j < from.len() ==> #[trigger] from[i] < #[trigger] from[j]
    &&& forall|i: int|
        0 <= i < more.len() ==> (from.contains(i) <==> !before.contains(#[trigger] more[i]) && forall|
            j: int,
        |
            0 <= j < i ==> #[trigger] more[j] != more[i])
}

/// Genres were added to others.
pub open spec fn genres_added(
    before: Seq<Seq<char>>,
    more: Seq<Seq<char>>,
    after: Seq<Seq<char>>,
) -> bool {
    exists|from: Seq<int>| #[trigger] genres_taken(before, more, after, from)
}

proof fn lemma_genres_added(before: Seq<Seq<char>>, more: Seq<Seq<char>>)
    ensures
        genres_added(before, more, genres_joined(before, more)),
    decreases more.len(),
{
    let after = genres_joined(before, more);
    if more.len() == 0 {
        assert(genres_taken(before, more, after, Seq::empty()));
    } else {
        let earlier = more.drop_last();
        let n = more.len() - 1;
        let so_far = genres_joined(before, earlier);
        lemma_genres_added(before, earlier);
        law_genres_joined(before, earlier);
        let old_from = choose|from: Seq<int>| #[trigger]
            genres_taken(before, earlier, so_far, from);
        let fresh = !so_far.contains(more[n]);
        let from = if fresh {
            old_from.push(n)
        } else {
            old_from
        };
        assert forall|i: int| 0 <= i < more.len() implies (from.contains(i) <==> !before.contains(
            #[trigger] more[i],
        ) && forall|j: int| 0 <= j < i ==> #[trigger] more[j] != more[i]) by {
            if i < n {
                assert(earlier[i] == more[i]);
                assert(forall|j: int| 0 <= j < i ==> #[trigger] earlier[j] == more[j]);
                if old_from.contains(i) {
                    let k = choose|k: int| 0 <= k < old_from.len() && old_from[k] == i;
                    assert(from[k] == i);
                }
                if from.contains(i) {
                    let k = choose|k: int| 0 <= k < from.len() && from[k] == i;
                    assert(old_from[k] == i);
                }
                if forall|j: int| 0 <= j < i ==> #[trigger] more[j] != more[i] {
                    assert forall|j: int| 0 <= j < i implies #[trigger] earlier[j] != earlier[i] by {
                        assert(more[j] != more[i]);
                    }
                }
                if forall|j: int| 0 <= j < i ==> #[trigger] earlier[j] != earlier[i] {
                    assert forall|j: int| 0 <= j < i implies #[trigger] more[j] != more[i] by {
                        assert(earlier[j] != earlier[i]);
                    }
                }
            } else {
                if fresh {
                    assert(from[old_from.len() as int] == n);
                    assert forall|j: int| 0 <= j < n implies #[trigger] more[j] != more[n] by {
                        assert(earlier[j] == more[j]);
                        assert(earlier.contains(more[j]));
                    }
                } else {
                    if from.contains(n) {
                        let k = choose|k: int| 0 <= k < old_from.len() && old_from[k] == n;
                        assert(0 <= old_from[k] < earlier.len());
                    }
                    if !before.contains(more[n]) {
                        assert(earlier.contains(more[n]));
                        let j = choose|j: int| 0 <= j < earlier.len() && earlier[j] == more[n];
                        assert(more[j] == more[n]);
                    }
                }
            }
        }
        assert forall|k: int| 0 <= k < from.len() implies {
            &&& 0 <= #[trigger] from[k] < more.len()
            &&& after[before.len() + k] == more[from[k]]
        } by {
            if k < old_from.len() {
                assert(old_from[k] == from[k]);
                assert(after[before.len() + k] == so_far[before.len() + k]);
            }
        }
        assert forall|k: int| 0 <= k < before.len() implies #[trigger] after[k] == before[k] by {
            assert(so_far[k] == before[k]);
        }
        assert(genres_taken(before, more, after, from));
    }
}

proof fn lemma_profile_updated(artist: ArtistRecord, data: Json, world: World)
    ensures
        ({
            let told = with_biography(with_thumbnail(artist, data), data);
            let after = match filled(data, "strGenre"@) {
                Some(genre) => with_genres(told, (world.cleaned)(seq![genre])),
                None => told,
            };
            updated_by(artist, data, world.cleaned, after)
        }),
{
    lemma_gives(data, "strArtistThumb"@);
    lemma_gives(data, "strBiographyEN"@);
    lemma_gives(data, "strGenre"@);
    if let Some(url) = filled(data, "strArtistThumb"@) {
        assert(gives(data, "strArtistThumb"@, url));
    }
    if let Some(text) = filled(data, "strBiographyEN"@) {
        assert(gives(data, "strBiographyEN"@, text));
    }
    if let Some(genre) = filled(data, "strGenre"@) {
        assert(gives(data, "strGenre"@, genre));
        if let Some(profile) = artist.metadata {
            lemma_genres_added(profile.genres, (world.cleaned)(seq![genre]));
        }
    }
}

/// An update looks the artist up by the first identifier and takes over what that brings.
/// While lookups are disabled, without an identifier, and where the lookup brings nothing,
/// the artist stays as it is.
pub proof fn law_updated_artist(
    updater: TheAudioDbUpdater,
    config: TheAudioDBConfig,
    artist: Artist,
    first: Step<ArtistUpdate, Artist>,
    world: World,
    outcome: (ArtistRecord, World),
)
    requires
        call_ensures(TheAudioDbUpdater::update_artist, (&updater, &config, artist), first),
        comes_to(updates(config), first.model(), world, outcome),
    ensures
        ({
            let known = artist.metadata is Some && artist.metadata->0.mbid@.len() > 0;
            &&& !config.enabled || !known ==> outcome == (artist.model(), world)
            &&& config.enabled && known ==> exists|told: Result<Json, Seq<char>>|
                {
                    &&& #[trigger] looked_up(
                        config,
                        Subject::Mbid(artist.metadata->0.mbid@[0]@),
                        world,
                        (told, outcome.1),
                    )
                    &&& told is Err ==> outcome.0 == artist.model()
                    &&& told matches Ok(data) ==> updated_by(
                        artist.model(),
                        data,
                        world.cleaned,
                        outcome.0,
                    )
                }
        }),
{
    let record = artist.model();
    let known = artist.metadata is Some && artist.metadata->0.mbid@.len() > 0;
    law_update(config, record, world);
    law_outcome_is_unique(
        updates(config),
        update_start(config, record),
        world,
        update_in(config, record, world),
        outcome,
    );
    if known {
        let mbid = artist.metadata->0.mbid@[0]@;
        assert(texts(artist.metadata->0.mbid@)[0] == mbid);
        assert(first_mbid(record) == Some(mbid));
        let (told, after) = lookup_in(config, Subject::Mbid(mbid), world);
        lemma_looked_up(config, Subject::Mbid(mbid), world);
        assert(looked_up(config, Subject::Mbid(mbid), world, (told, outcome.1)));
        if let Ok(data) = told {
            lemma_profile_updated(record, data, world);
        }
    } else {
        assert(first_mbid(record) is None);
    }
}

/// TheAudioDB is disabled at first, with no key but the one the program was built with, and
/// without a section in the configuration. A section enables it unless it says otherwise,
/// and may bring a key. The rate limit is that of the section, and half a second where it
/// has none.
pub proof fn law_configuration(
    config: &mut TheAudioDBConfig,
    section: Option<&JsonValue>,
    r: u64,
    default_key: String,
    fresh: TheAudioDBConfig,
)
    requires
        call_ensures(TheAudioDBConfig::new, (default_key,), fresh),
        call_ensures(initialize_from_config, (config, section), r),
    ensures
        !fresh.enabled,
        fresh.api_key@.len() == 0,
        fresh.default_key@ == default_key@,
        final(config).default_key@ == old(config).default_key@,
        section is None ==> !final(config).enabled && final(config).api_key@ == old(config).api_key@
            && r == 500,
        section matches Some(s) ==> {
            &&& final(config).enabled <==> !holds(s.says(), "enable"@, Json::Bool(false))
            &&& forall|key: Seq<char>| #[trigger]
                holds_text(s.says(), "api_key"@, key) ==> final(config).api_key@ == key
            &&& (forall|key: Seq<char>| !#[trigger] holds_text(s.says(), "api_key"@, key))
                ==> final(config).api_key@ == old(config).api_key@
            &&& forall|n: u64| #[trigger]
                holds(s.says(), "rate_limit_ms"@, Json::Number(JsonNumber::Unsigned(n))) ==> r == n
            &&& (forall|n: u64|
                !#[trigger] holds(
                    s.says(),
                    "rate_limit_ms"@,
                    Json::Number(JsonNumber::Unsigned(n)),
                )) ==> r == 500
        },
{
    if let Some(s) = section {
        law_members(s.says(), "enable"@);
        law_members(s.says(), "api_key"@);
        law_members(s.says(), "rate_limit_ms"@);
        if let Some(b) = s.says().field_truth("enable"@) {
            assert(holds(s.says(), "enable"@, Json::Bool(b)));
        }
        if let Some(key) = s.says().field_string("api_key"@) {
            assert(holds_text(s.says(), "api_key"@, key));
        }
        if let Some(n) = s.says().field_natural("rate_limit_ms"@) {
            assert(holds(s.says(), "rate_limit_ms"@, Json::Number(JsonNumber::Unsigned(n))));
        }
    }
}

/// Adding a thumbnail adds it to the thumbnails and touches nothing else.
pub proof fn law_adding_thumbnail(meta: &mut ArtistMeta, data: JsonValue, done: ())
    requires
        call_ensures(add_thumbnail, (meta, &data), done),
    ensures
        forall|url: Seq<char>| #[trigger]
            gives(data.says(), "strArtistThumb"@, url) ==> has_been_added(
                texts(old(meta).thumb_url@),
                url,
                texts(final(meta).thumb_url@),
            ),
        (forall|url: Seq<char>| !#[trigger] gives(data.says(), "strArtistThumb"@, url))
            ==> texts(final(meta).thumb_url@) == texts(old(meta).thumb_url@),
        texts(final(meta).mbid@) == texts(old(meta).mbid@),
        texts(final(meta).genres@) == texts(old(meta).genres@),
        final(meta).biography.model() == old(meta).biography.model(),
        final(meta).biography_source.model() == old(meta).biography_source.model(),
{
    lemma_gives(data.says(), "strArtistThumb"@);
    let before = old(meta).model();
    let after = final(meta).model();
    if let Some(url) = filled(data.says(), "strArtistThumb"@) {
        assert(gives(data.says(), "strArtistThumb"@, url));
    }
    assert(after.mbid == before.mbid);
    assert(after.genres == before.genres);
    assert(after.biography == before.biography);
    assert(after.biography_source == before.biography_source);
}

/// Adding a biography sets it and its source and touches nothing else.
pub proof fn law_adding_biography(meta: &mut ArtistMeta, data: JsonValue, done: ())
    requires
        call_ensures(add_biography, (meta, &data), done),
    ensures
        forall|text: Seq<char>| #[trigger]
            gives(data.says(), "strBiographyEN"@, text) ==> {
                &&& final(meta).biography.model() == Some(text)
                &&& final(meta).biography_source.model() == Some("TheAudioDB"@)
            },
        (forall|text: Seq<char>| !#[trigger] gives(data.says(), "strBiographyEN"@, text)) ==> {
            &&& final(meta).biography.model() == old(meta).biography.model()
            &&& final(meta).biography_source.model() == old(meta).biography_source.model()
        },
        texts(final(meta).mbid@) == texts(old(meta).mbid@),
        texts(final(meta).genres@) == texts(old(meta).genres@),
        texts(final(meta).thumb_url@) == texts(old(meta).thumb_url@),
{
    lemma_gives(data.says(), "strBiographyEN"@);
    let before = old(meta).model();
    let after = final(meta).model();
    if let Some(text) = filled(data.says(), "strBiographyEN"@) {
        assert(gives(data.says(), "strBiographyEN"@, text));
    }
    assert(after.mbid == before.mbid);
    assert(after.genres == before.genres);
    assert(after.thumb_url == before.thumb_url);
    assert(after.biography == final(meta).biography.model());
    assert(after.biography_source == final(meta).biography_source.model());
}

/// Adding genres adds those that are missing and touches nothing else.
pub proof fn law_adding_genres(meta: &mut ArtistMeta, more: Vec<String>, done: ())
    requires
        call_ensures(add_genres, (meta, more), done),
    ensures
        genres_added(texts(old(meta).genres@), texts(more@), texts(final(meta).genres@)),
        texts(final(meta).mbid@) == texts(old(meta).mbid@),
        texts(final(meta).thumb_url@) == texts(old(meta).thumb_url@),
        final(meta).biography.model() == old(meta).biography.model(),
        final(meta).biography_source.model() == old(meta).biography_source.model(),
{
    let before = old(meta).model();
    let after = final(meta).model();
    lemma_genres_added(before.genres, texts(more@));
    assert(after.mbid == before.mbid);
    assert(after.thumb_url == before.thumb_url);
    assert(after.biography == before.biography);
    assert(after.biography_source == before.biography_source);
}

/// TheAudioDB is a provider of images of artists and of covers of albums, and of nothing
/// else.
pub proof fn law_provider(
    provider: TheAudioDbCoverartProvider,
    name: &'static str,
    display_name: &'static str,
    methods: CoverartMethods,
    method: CoverartMethod,
)
    requires
        call_ensures(TheAudioDbCoverartProvider::name, (&provider,), name),
        call_ensures(TheAudioDbCoverartProvider::display_name, (&provider,), display_name),
        call_ensures(TheAudioDbCoverartProvider::supported_methods, (&provider,), methods),
    ensures
        name@ == "theaudiodb"@,
        display_name@ == "TheAudioDB"@,
        methods@.contains(method) <==> method == CoverartMethod::Artist || method
            == CoverartMethod::Album,
{
}

/// What a lookup found does not depend on whether the attribute cache takes it.
pub proof fn law_storing_changes_no_result(
    config: TheAudioDBConfig,
    subject: Subject,
    outcome: Result<Json, Seq<char>>,
    answer: Answer,
)
    ensures
        lookup_next(
            config,
            (LookupState { subject, stage: LookupStage::Stored(outcome) }),
            answer,
        ) == Move::<LookupState, Result<Json, Seq<char>>>::Done(outcome),
{
}

/// What a page comes to: the answer and the entry for it, that there is nothing and the
/// flag for that, or a failure of which nothing is kept.
pub open spec fn page_judged(
    subject: Subject,
    page: Json,
    outcome: Result<Json, Seq<char>>,
    keep: Option<Asking>,
) -> bool {
    let member = answer_member(subject);
    &&& holds(page, member, Json::Null) || holds_array(page, member, Seq::empty()) ==> {
        &&& outcome == Err::<Json, Seq<char>>(nothing_message(subject))
        &&& keep == Some(Asking::StoreFlag(nothing_key(subject), None))
    }
    &&& forall|items: Seq<Json>| #[trigger]
        holds_array(page, member, items) && items.len() > 0 && subject !is Mbid ==> {
            &&& outcome == Ok::<Json, Seq<char>>(page)
            &&& keep == Some(Asking::StoreValue(document_key(subject), page))
        }
    &&& forall|items: Seq<Json>| #[trigger]
        holds_array(page, member, items) && items.len() == 1 && subject is Mbid ==> {
            &&& outcome == Ok::<Json, Seq<char>>(items[0])
            &&& keep == Some(Asking::StoreValue(document_key(subject), items[0]))
        }
    &&& forall|items: Seq<Json>| #[trigger]
        holds_array(page, member, items) && items.len() > 1 && subject is Mbid ==> {
            &&& outcome == Err::<Json, Seq<char>>(
                "Found "@ + decimal(items.len()) + " artists for MBID "@ + subject->Mbid_0
                    + ", expected exactly 1"@,
            )
            &&& keep is None
        }
    &&& (forall|v: Json| !#[trigger] holds(page, member, v)) ==> {
        &&& outcome == Err::<Json, Seq<char>>(
            "Invalid response format from TheAudioDB (no "@ + member + " field)"@,
        )
        &&& keep is None
    }
    &&& forall|v: Json| #[trigger]
        holds(page, member, v) && v !is Null && v !is Array ==> {
            &&& outcome == Err::<Json, Seq<char>>(
                "Invalid response format from TheAudioDB ("@ + member + " is not an array)"@,
            )
            &&& keep is None
        }
}

/// A page is judged by the member that the answer stands in. Where there is no page, or it
/// is no JSON, the lookup fails and nothing is kept.
pub proof fn law_judged(
    target: Target,
    page: Result<String, String>,
    json: JsonValue,
    of_page: (Result<JsonValue, String>, Option<Request>),
    of_json: (Result<JsonValue, String>, Option<Request>),
)
    requires
        call_ensures(Target::judge, (&target, page), of_page),
        call_ensures(Target::judge_json, (&target, json), of_json),
    ensures
        page_judged(target.model(), json.says(), of_json.0.model(), asked_of(of_json.1)),
        ({
            let parsed = json_parsed(page->Ok_0@);
            &&& page is Err || parsed is Err ==> of_page.0 is Err && of_page.1 is None
            &&& page is Ok && parsed is Ok ==> page_judged(
                target.model(),
                parsed->Ok_0,
                of_page.0.model(),
                asked_of(of_page.1),
            )
        }),
{
    let subject = target.model();
    lemma_page_judged(subject, json.says());
    assert(of_json.0.model() == match subject.verdict(json.says()) {
        Verdict::Found(v) => Ok::<Json, Seq<char>>(v),
        Verdict::Missing => Err(subject.missing_message()),
        Verdict::Unusable(message) => Err(message),
    });
    assert(of_page.0.model() == subject.judged(page.model()).0);
    if let Ok(text) = page {
        if let Ok(parsed) = json_parsed(text@) {
            lemma_page_judged(subject, parsed);
        }
    }
}

/// What a request asks for, if there is one.
pub open spec fn asked_of(request: Option<Request>) -> Option<Asking> {
    match request {
        Some(request) => Some(request.model()),
        None => None,
    }
}

proof fn lemma_page_judged(subject: Subject, page: Json)
    ensures
        ({
            let (outcome, keep) = match subject.verdict(page) {
                Verdict::Found(v) => (
                    Ok::<Json, Seq<char>>(v),
                    Some(Asking::StoreValue(subject.found_key(), v)),
                ),
                Verdict::Missing => (
                    Err(subject.missing_message()),
                    Some(Asking::StoreFlag(subject.missing_key(), None)),
                ),
                Verdict::Unusable(message) => (Err(message), None),
            };
            page_judged(subject, page, outcome, keep)
        }),
{
    let member = answer_member(subject);
    law_members(page, member);
    if let Some(v) = page.field(member) {
        assert(holds(page, member, v));
        if let Json::Array(items) = v {
            assert(holds_array(page, member, items));
            if items.len() == 0 {
                assert(items =~= Seq::empty());
            }
        }
    }
}

/// The provider searches as the functions of TheAudioDB do: for that artist, and for that
/// album by that artist.
pub proof fn law_provider_searches(
    provider: TheAudioDbCoverartProvider,
    config: TheAudioDBConfig,
    album: &str,
    artist: &str,
    year: Option<i32>,
    artist_search: Step<ArtistCoverart, Vec<String>>,
    artist_images: Step<ArtistCoverart, Vec<String>>,
    album_search: Step<AlbumCoverart, Vec<String>>,
    album_images: Step<AlbumCoverart, Vec<String>>,
)
    requires
        call_ensures(
            TheAudioDbCoverartProvider::get_artist_coverart_impl,
            (&provider, &config, artist),
            artist_search,
        ),
        call_ensures(get_artist_coverart, (&config, artist), artist_images),
        call_ensures(
            TheAudioDbCoverartProvider::get_album_coverart_impl,
            (&provider, &config, album, artist, year),
            album_search,
        ),
        call_ensures(get_album_coverart, (&config, album, artist, year), album_images),
    ensures
        artist_search.model() == artist_images.model(),
        album_search.model() == album_images.model(),
{
}

} // verus!
