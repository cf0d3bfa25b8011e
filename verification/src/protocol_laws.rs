//! What is read out of replies.

use vstd::prelude::*;
use crate::json::JsonValue;
use crate::musicbrainz::{ArtistReply, Artists, Findings, MusicBrainzSearchResult};
use crate::protocol::{Asking, Modelled, Reply, Request, Service};
use crate::text::texts;

verus! {

/// Every page of MusicBrainz and of TheAudioDB waits for the rate limit of its service.
/// FanArt.tv is not waited for, nor is the attribute cache or a helper.
pub proof fn law_throttled_requests(request: Request, r: Option<Service>)
    requires
        call_ensures(Request::throttle, (&request,), r),
    ensures
        match request {
            Request::Fetch(Service::FanartTv, _) => r is None,
            Request::Fetch(Service::MusicBrainz, _) => r == Some(Service::MusicBrainz),
            Request::Fetch(Service::TheAudioDb, _) => r == Some(Service::TheAudioDb),
            Request::SearchArtists(_) => r == Some(Service::MusicBrainz),
            Request::SearchRecordings(_) => r == Some(Service::MusicBrainz),
            _ => r is None,
        },
{
}

/// What was read from the attribute cache comes out of the reply as it is, and a reply of
/// another kind brings nothing.
pub proof fn law_replies_of_the_cache(
    reply: Reply,
    text: Option<String>,
    list: Option<Vec<String>>,
    flagged: bool,
    value: Option<JsonValue>,
    stored: bool,
)
    requires
        call_ensures(Reply::text, (reply,), text),
        call_ensures(Reply::list, (reply,), list),
        call_ensures(Reply::flagged, (&reply,), flagged),
        call_ensures(Reply::value, (reply,), value),
        call_ensures(Reply::stored, (&reply,), stored),
    ensures
        match reply {
            Reply::Text(Some(given)) => text is Some && text->0@ == given@,
            _ => text is None,
        },
        match reply {
            Reply::List(Some(given)) => list is Some && texts(list->0@) == texts(given@),
            _ => list is None,
        },
        flagged <==> reply == Reply::Flag(Some(true)),
        match reply {
            Reply::Value(Some(given)) => value is Some && value->0.says() == given.says(),
            _ => value is None,
        },
        stored <==> reply == Reply::Stored(true),
{
    assert(text.model() == reply.model().text());
}

/// What web services and helpers sent comes out of the reply as it is, and a reply of
/// another kind counts as one that failed.
pub proof fn law_replies_of_services(
    reply: Reply,
    page: Result<String, String>,
    artists: ArtistReply,
    names: Vec<String>,
)
    requires
        call_ensures(Reply::page, (reply,), page),
        call_ensures(Reply::artists, (reply,), artists),
        call_ensures(Reply::names, (reply,), names),
    ensures
        match reply {
            Reply::Page(Ok(text)) => page is Ok && page->Ok_0@ == text@,
            Reply::Page(Err(reason)) => page is Err && page->Err_0@ == reason@,
            _ => page is Err,
        },
        match reply {
            Reply::Artists(given) => artists.model() == given.model(),
            _ => artists is Failed,
        },
        match reply {
            Reply::Names(given) => texts(names@) == texts(given@),
            _ => names@.len() == 0,
        },
{
    assert(page.model() == reply.model().page());
    assert(artists.model() == reply.model().artists());
    assert(texts(names@).len() == names@.len());
}

/// A request asks for what it holds: the keys, texts, lists, lifetimes, documents, services
/// and URLs in it, each in its place.
pub proof fn law_requests(request: Request)
    ensures
        match request {
            Request::ReadText(key) => request.model() == Asking::ReadText(key@),
            Request::ReadList(key) => request.model() == Asking::ReadList(key@),
            Request::ReadFlag(key) => request.model() == Asking::ReadFlag(key@),
            Request::ReadValue(key) => request.model() == Asking::ReadValue(key@),
            Request::StoreText(key, text) => request.model() == Asking::StoreText(key@, text@),
            Request::StoreList(key, list) => request.model() == Asking::StoreList(
                key@,
                texts(list@),
            ),
            Request::StoreFlag(key, lifetime) => request.model() == Asking::StoreFlag(
                key@,
                lifetime,
            ),
            Request::StoreValue(key, value) => request.model() == Asking::StoreValue(
                key@,
                value.says(),
            ),
            Request::Fetch(service, url) => request.model() == Asking::Fetch(service, url@),
            Request::SearchArtists(url) => request.model() == Asking::SearchArtists(url@),
            Request::SearchRecordings(url) => request.model() == Asking::SearchRecordings(url@),
            Request::SplitArtist(name) => request.model() == Asking::SplitArtist(name@),
            Request::SplitNames(name, cache_only, separators) => {
                &&& request.model() matches Asking::SplitNames(asked, only, list)
                &&& asked == name@
                &&& only == cache_only
                &&& list is Some <==> separators is Some
                &&& separators is Some ==> list->0 == texts(separators->0@)
            },
            Request::CleanGenres(genres) => request.model() == Asking::CleanGenres(texts(genres@)),
        },
{
}

/// A result says which identifiers were found, whether they are all, and whether they were
/// cached; a page of artists says which artists it lists, under which names.
pub proof fn law_results_and_pages(result: MusicBrainzSearchResult, page: ArtistReply, i: int, k: int)
    ensures
        match result {
            MusicBrainzSearchResult::Found(ids, cached) => result.model() == Findings::Found(
                texts(ids@),
                cached,
            ),
            MusicBrainzSearchResult::FoundPartial(ids, cached) => result.model()
                == Findings::FoundPartial(texts(ids@), cached),
            MusicBrainzSearchResult::NotFound => result.model() is NotFound,
            MusicBrainzSearchResult::Error(message) => result.model() == Findings::Error(message@),
        },
        match page {
            ArtistReply::Failed(reason) => page.model() == Artists::Failed(reason@),
            ArtistReply::Malformed(length, reason) => page.model() == Artists::Malformed(
                length as nat,
                reason@,
            ),
            ArtistReply::Found(list) => {
                &&& page.model() is Found
                &&& page.model()->Found_0.len() == list.artists@.len()
                &&& 0 <= i < list.artists@.len() ==> {
                    let artist = list.artists@[i];
                    let entry = page.model()->Found_0[i];
                    &&& entry.id == artist.id@
                    &&& entry.name == artist.name@
                    &&& entry.aliases.len() == artist.aliases@.len()
                    &&& 0 <= k < artist.aliases@.len() ==> entry.aliases[k]
                        == artist.aliases@[k].name@
                }
            },
        },
{
}

} // verus!
