//! Artists and what is known of them.

use vstd::prelude::*;
use crate::protocol::Modelled;
use crate::text::texts;

verus! {

/// What identifies an artist in the library of the player.
#[derive(Debug, Clone)]
pub enum Identifier {
    String(String),
}

/// What is known of an artist.
#[derive(Debug, Clone)]
pub struct ArtistMeta {
    pub mbid: Vec<String>,
    pub thumb_url: Vec<String>,
    pub biography: Option<String>,
    pub biography_source: Option<String>,
    pub genres: Vec<String>,
}

/// An artist.
#[derive(Debug, Clone)]
pub struct Artist {
    pub id: Identifier,
    pub name: String,
    pub is_multi: bool,
    pub metadata: Option<ArtistMeta>,
}

/// What the metadata of an artist say.
#[verifier::ext_equal]
pub struct Profile {
    pub mbid: Seq<Seq<char>>,
    pub thumb_url: Seq<Seq<char>>,
    pub biography: Option<Seq<char>>,
    pub biography_source: Option<Seq<char>>,
    pub genres: Seq<Seq<char>>,
}

/// What is said of an artist.
#[verifier::ext_equal]
pub struct ArtistRecord {
    pub id: Seq<char>,
    pub name: Seq<char>,
    pub is_multi: bool,
    pub metadata: Option<Profile>,
}

impl Modelled for ArtistMeta {
    type M = Profile;

    open spec fn model(&self) -> Profile {
        Profile {
            mbid: texts(self.mbid@),
            thumb_url: texts(self.thumb_url@),
            biography: self.biography.model(),
            biography_source: self.biography_source.model(),
            genres: texts(self.genres@),
        }
    }
}

impl Modelled for Artist {
    type M = ArtistRecord;

    open spec fn model(&self) -> ArtistRecord {
        ArtistRecord {
            id: match self.id {
                Identifier::String(s) => s@,
            },
            name: self.name@,
            is_multi: self.is_multi,
            metadata: match self.metadata {
                Some(meta) => Some(meta.model()),
                None => None,
            },
        }
    }
}

/// Metadata that say nothing.
pub open spec fn blank_profile() -> Profile {
    Profile {
        mbid: Seq::empty(),
        thumb_url: Seq::empty(),
        biography: None,
        biography_source: None,
        genres: Seq::empty(),
    }
}

impl Artist {
    /// Gives the artist metadata, if there are none yet
    pub fn ensure_metadata(&mut self)
        ensures
            final(self).model() == (ArtistRecord {
                metadata: match old(self).model().metadata {
                    Some(profile) => Some(profile),
                    None => Some(blank_profile()),
                },
                ..old(self).model()
            }),
    {
        if self.metadata.is_none() {
            let meta = ArtistMeta {
                mbid: Vec::new(),
                thumb_url: Vec::new(),
                biography: None,
                biography_source: None,
                genres: Vec::new(),
            };
            assert(meta.model() =~= blank_profile()) by {
                assert(texts(meta.mbid@) =~= Seq::empty());
                assert(texts(meta.thumb_url@) =~= Seq::empty());
                assert(texts(meta.genres@) =~= Seq::empty());
            }
            self.metadata = Some(meta);
        }
    }
}

/// An artist without metadata gets some that say nothing; metadata that are there stay, and
/// so does who the artist is.
pub proof fn law_metadata_ensured(artist: &mut Artist, done: ())
    requires
        call_ensures(Artist::ensure_metadata, (artist,), done),
    ensures
        final(artist).metadata is Some,
        final(artist).name@ == old(artist).name@,
        final(artist).is_multi == old(artist).is_multi,
        final(artist).model().id == old(artist).model().id,
        old(artist).metadata is Some ==> final(artist).model() == old(artist).model(),
        old(artist).metadata is None ==> ({
            let meta = final(artist).metadata->0;
            &&& meta.mbid@.len() == 0
            &&& meta.thumb_url@.len() == 0
            &&& meta.genres@.len() == 0
            &&& meta.biography is None
            &&& meta.biography_source is None
        }),
{
    let after = final(artist).model();
    assert(after.metadata is Some);
    let meta = final(artist).metadata->0;
    assert(after.name == final(artist).name@);
    assert(after.is_multi == final(artist).is_multi);
    assert(after.metadata->0 == meta.model());
    assert(texts(meta.mbid@).len() == meta.mbid@.len());
    assert(texts(meta.thumb_url@).len() == meta.thumb_url@.len());
    assert(texts(meta.genres@).len() == meta.genres@.len());
}

} // verus!
