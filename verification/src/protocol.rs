//! How the library asks for what lies outside of it.
//!
//! A search that needs the attribute cache, a web service or another helper does
//! not reach for it: it hands out a [`Request`] and goes on with the [`Reply`].

use vstd::prelude::*;
use crate::json::{Json, JsonValue};
use crate::musicbrainz::{ArtistReply, Artists, RecordingPage, RecordingReply};
use crate::text::{no_texts, texts};

verus! {

/// A value that stands for a mathematical one.
pub trait Modelled {
    type M;

    /// What the value stands for.
    spec fn model(&self) -> Self::M;
}

impl Modelled for Vec<String> {
    type M = Seq<Seq<char>>;

    open spec fn model(&self) -> Seq<Seq<char>> {
        texts(self@)
    }
}

impl Modelled for Option<String> {
    type M = Option<Seq<char>>;

    open spec fn model(&self) -> Option<Seq<char>> {
        match self {
            Some(s) => Some(s@),
            None => None,
        }
    }
}

impl Modelled for Result<JsonValue, String> {
    type M = Result<Json, Seq<char>>;

    open spec fn model(&self) -> Result<Json, Seq<char>> {
        match self {
            Ok(v) => Ok(v.says()),
            Err(message) => Err(message@),
        }
    }
}

impl Modelled for Result<String, String> {
    type M = Result<Seq<char>, Seq<char>>;

    open spec fn model(&self) -> Result<Seq<char>, Seq<char>> {
        match self {
            Ok(s) => Ok(s@),
            Err(message) => Err(message@),
        }
    }
}

/// The web services that are asked.
#[derive(Debug, Clone, Copy, PartialEq, Eq, Structural)]
pub enum Service {
    FanartTv,
    MusicBrainz,
    TheAudioDb,
}

/// Something that the caller has to do before a search can go on.
#[derive(Debug)]
pub enum Request {
    /// Read a string from the attribute cache.
    ReadText(String),
    /// Read a list of strings from the attribute cache.
    ReadList(String),
    /// Read a flag from the attribute cache.
    ReadFlag(String),
    /// Read a JSON document from the attribute cache.
    ReadValue(String),
    /// Put a string into the attribute cache.
    StoreText(String, String),
    /// Put a list of strings into the attribute cache.
    StoreList(String, Vec<String>),
    /// Put the flag `true` into the attribute cache, for a number of seconds or
    /// for good.
    StoreFlag(String, Option<i64>),
    /// Put a JSON document into the attribute cache.
    StoreValue(String, JsonValue),
    /// Get a page from a web service.
    Fetch(Service, String),
    /// Get a page of artists from MusicBrainz.
    SearchArtists(String),
    /// Get a page of recordings from MusicBrainz.
    SearchRecordings(String),
    /// Split a name that might hold several artists.
    SplitArtist(String),
    /// Split a name that holds several artists with identifiers of their own, with
    /// only the attribute cache or with web services, and at some separators or at
    /// the usual ones.
    SplitNames(String, bool, Option<Vec<String>>),
    /// Clean up a list of genres.
    CleanGenres(Vec<String>),
}

/// What a [`Request`] asks for.
#[verifier::ext_equal]
pub enum Asking {
    ReadText(Seq<char>),
    ReadList(Seq<char>),
    ReadFlag(Seq<char>),
    ReadValue(Seq<char>),
    StoreText(Seq<char>, Seq<char>),
    StoreList(Seq<char>, Seq<Seq<char>>),
    StoreFlag(Seq<char>, Option<i64>),
    StoreValue(Seq<char>, Json),
    Fetch(Service, Seq<char>),
    SearchArtists(Seq<char>),
    SearchRecordings(Seq<char>),
    SplitArtist(Seq<char>),
    SplitNames(Seq<char>, bool, Option<Seq<Seq<char>>>),
    CleanGenres(Seq<Seq<char>>),
}

impl Modelled for Request {
    type M = Asking;

    open spec fn model(&self) -> Asking {
        match self {
            Request::ReadText(key) => Asking::ReadText(key@),
            Request::ReadList(key) => Asking::ReadList(key@),
            Request::ReadFlag(key) => Asking::ReadFlag(key@),
            Request::ReadValue(key) => Asking::ReadValue(key@),
            Request::StoreText(key, text) => Asking::StoreText(key@, text@),
            Request::StoreList(key, list) => Asking::StoreList(key@, texts(list@)),
            Request::StoreFlag(key, lifetime) => Asking::StoreFlag(key@, *lifetime),
            Request::StoreValue(key, value) => Asking::StoreValue(key@, value.says()),
            Request::Fetch(service, url) => Asking::Fetch(*service, url@),
            Request::SearchArtists(url) => Asking::SearchArtists(url@),
            Request::SearchRecordings(url) => Asking::SearchRecordings(url@),
            Request::SplitArtist(name) => Asking::SplitArtist(name@),
            Request::SplitNames(name, cache_only, separators) => Asking::SplitNames(
                name@,
                *cache_only,
                match separators {
                    Some(list) => Some(texts(list@)),
                    None => None,
                },
            ),
            Request::CleanGenres(genres) => Asking::CleanGenres(texts(genres@)),
        }
    }
}

impl Asking {
    /// The web service that the request goes to.
    pub open spec fn service(self) -> Option<Service> {
        match self {
            Asking::Fetch(service, _) => Some(service),
            Asking::SearchArtists(_) => Some(Service::MusicBrainz),
            Asking::SearchRecordings(_) => Some(Service::MusicBrainz),
            _ => None,
        }
    }

    /// The web service whose rate limit the request has to wait for. FanArt.tv has
    /// none.
    pub open spec fn throttled_by(self) -> Option<Service> {
        match self.service() {
            Some(Service::FanartTv) => None,
            other => other,
        }
    }
}

/// Every request to MusicBrainz or TheAudioDB waits for the rate limit of that
/// service, and no other request waits.
pub proof fn law_rate_limits(asking: Asking)
    ensures
        asking.service() == Some(Service::MusicBrainz) <==> asking.throttled_by() == Some(
            Service::MusicBrainz,
        ),
        asking.service() == Some(Service::TheAudioDb) <==> asking.throttled_by() == Some(
            Service::TheAudioDb,
        ),
        asking.throttled_by() != Some(Service::FanartTv),
{
}

impl Request {
    /// The web service whose rate limit has to be waited for first.
    pub fn throttle(&self) -> (r: Option<Service>)
        ensures
            r == self.model().throttled_by(),
    {
        match self {
            Request::Fetch(Service::FanartTv, _) => None,
            Request::Fetch(service, _) => Some(*service),
            Request::SearchArtists(_) => Some(Service::MusicBrainz),
            Request::SearchRecordings(_) => Some(Service::MusicBrainz),
            _ => None,
        }
    }
}

/// What came of a [`Request`]. A search that gets a reply of another kind than it
/// asked for takes it as one that brought nothing.
#[derive(Debug)]
pub enum Reply {
    /// The string that was read.
    Text(Option<String>),
    /// The list that was read.
    List(Option<Vec<String>>),
    /// The flag that was read.
    Flag(Option<bool>),
    /// The document that was read.
    Value(Option<JsonValue>),
    /// Whether the attribute cache took the entry.
    Stored(bool),
    /// The page, or the reason why there is none.
    Page(Result<String, String>),
    /// What MusicBrainz has on an artist.
    Artists(ArtistReply),
    /// What MusicBrainz has on a recording.
    Recordings(RecordingReply),
    /// A list of names or genres.
    Names(Vec<String>),
}

/// What a [`Reply`] brings.
#[verifier::ext_equal]
pub enum Answer {
    Text(Option<Seq<char>>),
    List(Option<Seq<Seq<char>>>),
    Flag(Option<bool>),
    Value(Option<Json>),
    Stored(bool),
    Page(Result<Seq<char>, Seq<char>>),
    Artists(Artists),
    Recordings(Option<RecordingPage>),
    Names(Seq<Seq<char>>),
}

impl Modelled for Reply {
    type M = Answer;

    open spec fn model(&self) -> Answer {
        match self {
            Reply::Text(text) => Answer::Text(text.model()),
            Reply::List(list) => Answer::List(
                match list {
                    Some(l) => Some(texts(l@)),
                    None => None,
                },
            ),
            Reply::Flag(flag) => Answer::Flag(*flag),
            Reply::Value(value) => Answer::Value(
                match value {
                    Some(v) => Some(v.says()),
                    None => None,
                },
            ),
            Reply::Stored(ok) => Answer::Stored(*ok),
            Reply::Page(page) => Answer::Page(page.model()),
            Reply::Artists(artists) => Answer::Artists(artists.model()),
            Reply::Recordings(recordings) => Answer::Recordings(recordings.model()),
            Reply::Names(names) => Answer::Names(texts(names@)),
        }
    }
}

impl Answer {
    /// The string, if the answer brings one.
    pub open spec fn text(self) -> Option<Seq<char>> {
        match self {
            Answer::Text(text) => text,
            _ => None,
        }
    }

    /// The list, if the answer brings one.
    pub open spec fn list(self) -> Option<Seq<Seq<char>>> {
        match self {
            Answer::List(list) => list,
            _ => None,
        }
    }

    /// The answer brings the flag, and it is set.
    pub open spec fn flagged(self) -> bool {
        self == Answer::Flag(Some(true))
    }

    /// The document, if the answer brings one.
    pub open spec fn value(self) -> Option<Json> {
        match self {
            Answer::Value(value) => value,
            _ => None,
        }
    }

    /// The attribute cache took the entry.
    pub open spec fn stored(self) -> bool {
        self == Answer::Stored(true)
    }

    /// The page, or the reason why there is none.
    pub open spec fn page(self) -> Result<Seq<char>, Seq<char>> {
        match self {
            Answer::Page(page) => page,
            _ => Err(Seq::empty()),
        }
    }

    /// What MusicBrainz has on an artist.
    pub open spec fn artists(self) -> Artists {
        match self {
            Answer::Artists(artists) => artists,
            _ => Artists::Failed(Seq::empty()),
        }
    }

    /// The page of recordings, if the answer brings one.
    pub open spec fn recordings(self) -> Option<RecordingPage> {
        match self {
            Answer::Recordings(page) => page,
            _ => None,
        }
    }

    /// The names.
    pub open spec fn names(self) -> Seq<Seq<char>> {
        match self {
            Answer::Names(names) => names,
            _ => Seq::empty(),
        }
    }
}

impl Reply {
    /// The string, if the reply brings one.
    pub fn text(self) -> (r: Option<String>)
        ensures
            r.model() == self.model().text(),
    {
        match self {
            Reply::Text(text) => text,
            _ => None,
        }
    }

    /// The list, if the reply brings one.
    pub fn list(self) -> (r: Option<Vec<String>>)
        ensures
            match r {
                Some(l) => self.model().list() == Some(texts(l@)),
                None => self.model().list() is None,
            },
    {
        match self {
            Reply::List(list) => list,
            _ => None,
        }
    }

    /// Whether the reply brings a flag that is set.
    pub fn flagged(&self) -> (r: bool)
        ensures
            r == self.model().flagged(),
    {
        match self {
            Reply::Flag(Some(b)) => *b,
            _ => false,
        }
    }

    /// The document, if the reply brings one.
    pub fn value(self) -> (r: Option<JsonValue>)
        ensures
            match r {
                Some(v) => self.model().value() == Some(v.says()),
                None => self.model().value() is None,
            },
    {
        match self {
            Reply::Value(value) => value,
            _ => None,
        }
    }

    /// Whether the attribute cache took the entry.
    pub fn stored(&self) -> (r: bool)
        ensures
            r == self.model().stored(),
    {
        match self {
            Reply::Stored(ok) => *ok,
            _ => false,
        }
    }

    /// The page, or the reason why there is none.
    pub fn page(self) -> (r: Result<String, String>)
        ensures
            r.model() == self.model().page(),
    {
        match self {
            Reply::Page(page) => page,
            _ => Err(String::new()),
        }
    }

    /// What MusicBrainz has on an artist.
    pub fn artists(self) -> (r: ArtistReply)
        ensures
            r.model() == self.model().artists(),
    {
        match self {
            Reply::Artists(artists) => artists,
            _ => ArtistReply::Failed(String::new()),
        }
    }

    /// The names.
    pub fn names(self) -> (r: Vec<String>)
        ensures
            texts(r@) == self.model().names(),
    {
        match self {
            Reply::Names(names) => names,
            _ => no_texts(),
        }
    }
}

/// Where a search stands: it waits for the reply to a request, or it is done.
#[derive(Debug)]
pub enum Step<S, T> {
    Ask(S, Request),
    Done(T),
}

/// What a [`Step`] stands for.
#[verifier::ext_equal]
pub enum Move<S, T> {
    Ask(S, Asking),
    Done(T),
}

impl<S: Modelled, T: Modelled> Modelled for Step<S, T> {
    type M = Move<S::M, T::M>;

    open spec fn model(&self) -> Move<S::M, T::M> {
        match self {
            Step::Ask(state, request) => Move::Ask(state.model(), request.model()),
            Step::Done(result) => Move::Done(result.model()),
        }
    }
}

} // verus!
