//! Cover art lookup for a music player.
//!
//! [`coverart`] collects cover art from several providers, grades it and puts it in
//! order. [`fanarttv`] and [`theaudiodb`] are such providers; [`musicbrainz`] finds
//! the identifiers that they need, by names that [`naming`] compares.
//!
//! A search does not reach for the attribute cache or the web itself: it hands out
//! requests and goes on with the replies, as [`protocol`] describes. What whole
//! searches come to in a [`world`] of caches and services is stated and proved in
//! [`fanarttv_laws`], [`musicbrainz_laws`] and [`theaudiodb_laws`]; which URLs they ask
//! for, and where on a page or in the cache each part of a result comes from, in
//! [`fanarttv_outcomes`], [`musicbrainz_outcomes`] and [`theaudiodb_outcomes`]. The laws
//! of the other modules stand beside them, as in [`coverart_laws`] and [`naming_laws`].

pub mod artist;
pub mod coverart;
pub mod coverart_laws;
pub mod fanarttv;
pub mod fanarttv_laws;
pub mod fanarttv_outcomes;
pub mod json;
pub mod json_laws;
pub mod musicbrainz;
pub mod musicbrainz_laws;
pub mod musicbrainz_outcomes;
pub mod naming;
pub mod naming_laws;
pub mod protocol;
pub mod protocol_laws;
pub mod ranking;
pub mod text;
pub mod text_laws;
pub mod theaudiodb;
pub mod theaudiodb_laws;
pub mod theaudiodb_outcomes;
pub mod world;
