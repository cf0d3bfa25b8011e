//! What searches on MusicBrainz come to as a whole.

use vstd::prelude::*;
use crate::musicbrainz::{
    artist_url, failed, gathered, genres_found, genres_next, genres_of, genres_url, group_found,
    group_next, group_start, group_url, judged, keeps_part, mbid_key, mbids_next, mbids_start, missing_key,
    part_of, partial_key, parts_left, remember_missing, single_next, single_start,
    whole_of, Findings, GenreSearch, GroupSearch, MbidStage, MbidState, SingleStage, SingleState,
    Terms, ARTIST_MBID_CACHE_PREFIX, ARTIST_MBID_PARTIAL_CACHE_PREFIX,
    ARTIST_NOT_FOUND_CACHE_PREFIX,
};
use crate::protocol::{Answer, Asking, Move, Service};
use crate::world::{
    comes_to, driven, lemma_ask, lemma_done, lemma_driven, lemma_within, Entry, World,
};

verus! {

/// The steps of a search for one artist.
pub open spec fn singles() -> spec_fn(SingleState, Answer) -> Move<SingleState, Findings> {
    |state: SingleState, answer: Answer| single_next(state, answer)
}

/// What a search for one artist comes to in a world, and the world after it.
pub open spec fn single_in(
    artist: Seq<char>,
    cache_only: bool,
    keep_failure: bool,
    world: World,
) -> (Findings, World) {
    match world.text(mbid_key(artist)) {
        Some(mbid) => (Findings::Found(seq![mbid], true), world),
        None => if cache_only || world.flagged(missing_key(artist)) {
            (Findings::NotFound, world)
        } else {
            let asked = world.having_sent(Asking::SearchArtists(artist_url(artist)));
            let (result, keep) = judged(artist, (world.artists)(artist_url(artist)));
            if result is Found || keep_failure {
                (result, asked.after(keep))
            } else {
                (result, asked)
            }
        },
    }
}

/// A search for one artist looks into the attribute cache first, asks MusicBrainz
/// only where that says nothing, and leaves what comes of it there, a failure only if
/// that is to be kept.
pub proof fn law_single_search(
    artist: Seq<char>,
    cache_only: bool,
    keep_failure: bool,
    world: World,
)
    ensures
        comes_to(
            singles(),
            single_start(true, artist, cache_only, keep_failure),
            world,
            single_in(artist, cache_only, keep_failure, world),
        ),
{
    let next = singles();
    let outcome = single_in(artist, cache_only, keep_failure, world);
    let cached = SingleState { artist, cache_only, keep_failure, stage: SingleStage::Cached };
    let missing = SingleState { stage: SingleStage::Missing, ..cached };
    let page = SingleState { stage: SingleStage::Page, ..cached };
    lemma_done(next, outcome.0, outcome.1);
    if world.text(mbid_key(artist)) is None && !cache_only {
        if !world.flagged(missing_key(artist)) {
            let asked = Asking::SearchArtists(artist_url(artist));
            let (result, keep) = judged(artist, (world.artists)(artist_url(artist)));
            if result is Found || keep_failure {
                let stored = SingleState { stage: SingleStage::Stored(result), ..cached };
                lemma_ask(next, stored, keep, world.having_sent(asked), outcome);
            }
            lemma_ask(next, page, asked, world, outcome);
        }
        lemma_ask(next, missing, Asking::ReadFlag(missing_key(artist)), world, outcome);
    }
    lemma_ask(next, cached, Asking::ReadText(mbid_key(artist)), world, outcome);
}

/// The letters by which the keys differ.
proof fn lemma_key_letters(a: Seq<char>)
    ensures
        mbid_key(a).len() >= 14,
        mbid_key(a)[12] == ':',
        partial_key(a).len() >= 14,
        partial_key(a)[12] == '_',
        partial_key(a)[13] == 'p',
        missing_key(a).len() >= 14,
        missing_key(a)[12] == '_',
        missing_key(a)[13] == 'n',
{
    reveal_strlit("artist::mbid::");
    reveal_strlit("artist::mbid_partial::");
    reveal_strlit("artist::mbid_not_found::");
}

/// The three entries that the attribute cache may have on an artist never mix, and
/// no two artists share one.
pub proof fn law_keys_apart(a: Seq<char>, b: Seq<char>)
    ensures
        mbid_key(a) != partial_key(b),
        mbid_key(a) != missing_key(b),
        partial_key(a) != missing_key(b),
        mbid_key(a) == mbid_key(b) ==> a == b,
        partial_key(a) == partial_key(b) ==> a == b,
        missing_key(a) == missing_key(b) ==> a == b,
{
    lemma_key_letters(a);
    lemma_key_letters(b);
    let n = ARTIST_MBID_CACHE_PREFIX@.len() as int;
    assert(mbid_key(a).skip(n) =~= a && mbid_key(b).skip(n) =~= b);
    let n = ARTIST_MBID_PARTIAL_CACHE_PREFIX@.len() as int;
    assert(partial_key(a).skip(n) =~= a && partial_key(b).skip(n) =~= b);
    let n = ARTIST_NOT_FOUND_CACHE_PREFIX@.len() as int;
    assert(missing_key(a).skip(n) =~= a && missing_key(b).skip(n) =~= b);
}

/// A search for one artist whose failure is kept and that is repeated asks nobody the second time: what was
/// found comes from the attribute cache, and a search that found nothing or failed
/// comes back as not found.
pub proof fn law_single_repeats(artist: Seq<char>, world: World)
    ensures
        ({
            let (first, after) = single_in(artist, false, true, world);
            single_in(artist, false, true, after) == (
                match first {
                    Findings::Found(mbids, _) => Findings::Found(mbids, true),
                    _ => Findings::NotFound,
                },
                after,
            )
        }),
{
    law_keys_apart(artist, artist);
}

/// The result of a search that failed, and the world after that.
pub open spec fn failed_in(terms: Terms, result: Findings, world: World) -> (Findings, World) {
    (
        result,
        if terms.cache_failures {
            world.with(missing_key(terms.artist), Entry::Flag(true))
        } else {
            world
        },
    )
}

/// What the search for the parts of a name that are left comes to in a world, and
/// the world after it.
pub open spec fn parts_in(
    terms: Terms,
    rest: Seq<Seq<char>>,
    mbids: Seq<Seq<char>>,
    all: bool,
    cached: bool,
    world: World,
) -> (Findings, World)
    decreases rest.len(),
{
    if rest.len() > 0 {
        let (result, after) = single_in(
            rest[0],
            terms.cache_only,
            keeps_part(terms, rest[0]),
            world,
        );
        match result {
            Findings::Found(more, known) => parts_in(
                terms,
                rest.drop_first(),
                mbids + more,
                all,
                cached && known,
                after,
            ),
            _ => parts_in(terms, rest.drop_first(), mbids, false, cached, after),
        }
    } else if mbids.len() > 0 {
        let kept = world.with(mbid_key(terms.artist), Entry::List(mbids));
        (
            gathered(mbids, all, cached),
            if all {
                kept
            } else {
                kept.with(partial_key(terms.artist), Entry::Flag(true))
            },
        )
    } else {
        failed_in(terms, Findings::NotFound, world)
    }
}

/// What a search for the identifiers of an artist comes to in a world, and the world
/// after it.
pub open spec fn mbids_in(enabled: bool, terms: Terms, world: World) -> (Findings, World) {
    if !enabled || (terms.cache_failures && world.flagged(missing_key(terms.artist))) {
        (Findings::NotFound, world)
    } else {
        match world.list(mbid_key(terms.artist)) {
            Some(mbids) => (
                if world.flagged(partial_key(terms.artist)) {
                    Findings::FoundPartial(mbids, true)
                } else {
                    Findings::Found(mbids, true)
                },
                world,
            ),
            None => {
                let (result, after) = single_in(terms.artist, terms.cache_only, false, world);
                let names = (world.splits)(terms.artist);
                match result {
                    Findings::NotFound => if terms.allow_multiple && names.len() > 1 {
                        parts_in(terms, names, Seq::empty(), true, true, after)
                    } else {
                        failed_in(terms, result, after)
                    },
                    Findings::Error(_) => failed_in(terms, result, after),
                    _ => (result, after),
                }
            },
        }
    }
}

/// The steps of a search for the identifiers of an artist while lookups stay enabled.
pub open spec fn mbid_searches() -> spec_fn(MbidState, Answer) -> Move<MbidState, Findings> {
    |state: MbidState, answer: Answer| mbids_next(true, state, answer)
}

/// The steps of a search for the identifiers of an artist while lookups may be enabled
/// and disabled at any time.
pub open spec fn switched_searches() -> spec_fn(MbidState, (bool, Answer)) -> Move<
    MbidState,
    Findings,
> {
    |state: MbidState, given: (bool, Answer)| mbids_next(given.0, state, given.1)
}

proof fn lemma_failed(terms: Terms, result: Findings, world: World)
    ensures
        comes_to(mbid_searches(), failed(terms, result), world, failed_in(terms, result, world)),
{
    let next = mbid_searches();
    let outcome = failed_in(terms, result, world);
    lemma_done(next, outcome.0, outcome.1);
    if terms.cache_failures {
        let state = MbidState { terms, stage: MbidStage::FailureStored(result) };
        lemma_ask(next, state, remember_missing(terms.artist), world, outcome);
    }
}

proof fn lemma_parts(
    terms: Terms,
    rest: Seq<Seq<char>>,
    mbids: Seq<Seq<char>>,
    all: bool,
    cached: bool,
    world: World,
)
    ensures
        comes_to(
            mbid_searches(),
            parts_left(true, terms, rest, mbids, all, cached),
            world,
            parts_in(terms, rest, mbids, all, cached, world),
        ),
    decreases rest.len(),
{
    let next = mbid_searches();
    let outcome = parts_in(terms, rest, mbids, all, cached, world);
    if rest.len() > 0 {
        let left = rest.drop_first();
        let keep = keeps_part(terms, rest[0]);
        let between = single_in(rest[0], terms.cache_only, keep, world);
        law_single_search(rest[0], terms.cache_only, keep, world);
        match between.0 {
            Findings::Found(more, known) => {
                lemma_parts(terms, left, mbids + more, all, cached && known, between.1);
            },
            _ => {
                lemma_parts(terms, left, mbids, false, cached, between.1);
            },
        }
        lemma_within(
            singles(),
            next,
            |step: Move<SingleState, Findings>|
                match step {
                    Move::Ask(single, asking) => part_of(
                        terms,
                        left,
                        mbids,
                        all,
                        cached,
                        single,
                        asking,
                    ),
                    Move::Done(Findings::Found(more, known)) => parts_left(
                        true,
                        terms,
                        left,
                        mbids + more,
                        all,
                        cached && known,
                    ),
                    Move::Done(_) => parts_left(true, terms, left, mbids, false, cached),
                },
            |single: SingleState|
                MbidState { terms, stage: MbidStage::Part(left, mbids, all, cached, single) },
            single_start(true, rest[0], terms.cache_only, keep),
            world,
            between,
            outcome,
        );
    } else if mbids.len() > 0 {
        let list = MbidState { terms, stage: MbidStage::ListStored(mbids, all, cached) };
        let keep = Asking::StoreList(mbid_key(terms.artist), mbids);
        lemma_done(next, outcome.0, outcome.1);
        if !all {
            let partial = MbidState { terms, stage: MbidStage::PartialStored(mbids, cached) };
            let flag = Asking::StoreFlag(partial_key(terms.artist), None);
            lemma_ask(next, partial, flag, world.after(keep), outcome);
        }
        lemma_ask(next, list, keep, world, outcome);
    } else {
        lemma_failed(terms, Findings::NotFound, world);
    }
}

/// A search for the identifiers of an artist looks into the attribute cache, then
/// for the whole name, and where that is not found and may hold several artists, for
/// each of them.
pub proof fn law_mbid_search(enabled: bool, terms: Terms, world: World)
    ensures
        comes_to(
            mbid_searches(),
            mbids_start(enabled, terms),
            world,
            mbids_in(enabled, terms, world),
        ),
{
    let next = mbid_searches();
    let artist = terms.artist;
    let outcome = mbids_in(enabled, terms, world);
    let missing = MbidState { terms, stage: MbidStage::Missing };
    let cached = MbidState { terms, stage: MbidStage::Cached };
    lemma_done(next, outcome.0, outcome.1);
    if enabled {
        if !(terms.cache_failures && world.flagged(missing_key(artist))) {
            match world.list(mbid_key(artist)) {
                Some(mbids) => {
                    let partial = MbidState { terms, stage: MbidStage::Partial(mbids) };
                    lemma_ask(next, partial, Asking::ReadFlag(partial_key(artist)), world, outcome);
                },
                None => {
                    let between = single_in(artist, terms.cache_only, false, world);
                    law_single_search(artist, terms.cache_only, false, world);
                    if between.0 is NotFound {
                        let names = (world.splits)(artist);
                        if terms.allow_multiple {
                            if names.len() > 1 {
                                lemma_parts(terms, names, Seq::empty(), true, true, between.1);
                            } else {
                                lemma_failed(terms, between.0, between.1);
                            }
                            let split = MbidState { terms, stage: MbidStage::Split };
                            lemma_ask(
                                next,
                                split,
                                Asking::SplitArtist(artist),
                                between.1,
                                outcome,
                            );
                        } else {
                            lemma_failed(terms, between.0, between.1);
                        }
                    } else if between.0 is Error {
                        lemma_failed(terms, between.0, between.1);
                    }
                    lemma_within(
                        singles(),
                        next,
                        |step: Move<SingleState, Findings>| whole_of(terms, step),
                        |single: SingleState| MbidState { terms, stage: MbidStage::Whole(single) },
                        single_start(true, artist, terms.cache_only, false),
                        world,
                        between,
                        outcome,
                    );
                },
            }
            lemma_ask(next, cached, Asking::ReadList(mbid_key(artist)), world, outcome);
        }
        if terms.cache_failures {
            lemma_ask(next, missing, Asking::ReadFlag(missing_key(artist)), world, outcome);
        }
    }
}

/// A search for the whole name or a part of it leaves what the attribute cache has on
/// whether the whole name was not found or is known in part.
proof fn lemma_single_leaves(terms: Terms, part: Seq<char>, keep: bool, world: World)
    requires
        keep ==> part != terms.artist,
    ensures
        ({
            let (result, after) = single_in(part, terms.cache_only, keep, world);
            let artist = terms.artist;
            &&& after.flagged(partial_key(artist)) == world.flagged(partial_key(artist))
            &&& after.flagged(missing_key(artist)) == world.flagged(missing_key(artist))
            &&& result !is FoundPartial
            &&& result matches Findings::Found(mbids, _) ==> mbids.len() == 1
        }),
{
    law_keys_apart(terms.artist, part);
    law_keys_apart(part, terms.artist);
}

proof fn lemma_parts_kept(
    terms: Terms,
    rest: Seq<Seq<char>>,
    mbids: Seq<Seq<char>>,
    all: bool,
    cached: bool,
    world: World,
)
    ensures
        ({
            let (result, after) = parts_in(terms, rest, mbids, all, cached, world);
            let artist = terms.artist;
            match result {
                Findings::Found(list, _) => {
                    &&& after.list(mbid_key(artist)) == Some(list)
                    &&& after.flagged(partial_key(artist)) == world.flagged(partial_key(artist))
                    &&& after.flagged(missing_key(artist)) == world.flagged(missing_key(artist))
                },
                Findings::FoundPartial(list, _) => {
                    &&& after.list(mbid_key(artist)) == Some(list)
                    &&& after.flagged(partial_key(artist))
                    &&& after.flagged(missing_key(artist)) == world.flagged(missing_key(artist))
                },
                Findings::NotFound => terms.cache_failures ==> after.flagged(missing_key(artist)),
                Findings::Error(_) => false,
            }
        }),
    decreases rest.len(),
{
    law_keys_apart(terms.artist, terms.artist);
    if rest.len() > 0 {
        let keep = keeps_part(terms, rest[0]);
        let (result, after) = single_in(rest[0], terms.cache_only, keep, world);
        lemma_single_leaves(terms, rest[0], keep, world);
        match result {
            Findings::Found(more, known) => {
                lemma_parts_kept(
                    terms,
                    rest.drop_first(),
                    mbids + more,
                    all,
                    cached && known,
                    after,
                );
            },
            _ => {
                lemma_parts_kept(terms, rest.drop_first(), mbids, false, cached, after);
            },
        }
    }
}

/// Identifiers that were found come from the attribute cache the next time, as all
/// or only some, and nobody is asked for them again. This leaves out a world in
/// which an old flag that the identifiers are only some stands beside a list of all.
pub proof fn law_found_again(terms: Terms, world: World)
    requires
        mbids_in(true, terms, world).0 is Found && mbids_in(true, terms, world).1.list(
            mbid_key(terms.artist),
        ) is Some ==> !mbids_in(true, terms, world).1.flagged(partial_key(terms.artist)),
    ensures
        ({
            let (first, after) = mbids_in(true, terms, world);
            match first {
                Findings::Found(mbids, _) => mbids_in(true, terms, after) == (
                    Findings::Found(mbids, true),
                    after,
                ),
                Findings::FoundPartial(mbids, _) => mbids_in(true, terms, after) == (
                    Findings::FoundPartial(mbids, true),
                    after,
                ),
                _ => true,
            }
        }),
{
    let artist = terms.artist;
    law_keys_apart(artist, artist);
    if world.list(mbid_key(artist)) is None && !(terms.cache_failures && world.flagged(
        missing_key(artist),
    )) {
        let (result, after) = single_in(artist, terms.cache_only, false, world);
        lemma_single_leaves(terms, artist, false, world);
        if result is NotFound {
            let names = (world.splits)(artist);
            if terms.allow_multiple && names.len() > 1 {
                lemma_parts_kept(terms, names, Seq::empty(), true, true, after);
            }
        }
    }
}

/// Where failures are kept, an artist that was not found, or for whom the search
/// failed, is not searched for again: the next search that goes by such failures, for
/// several artists or for one, with web services or without, finds nothing and asks
/// nobody.
pub proof fn law_not_found_again(enabled: bool, terms: Terms, again: Terms, world: World)
    requires
        terms.cache_failures,
        again.cache_failures,
        again.artist == terms.artist,
        mbids_in(enabled, terms, world).0 is NotFound || mbids_in(
            enabled,
            terms,
            world,
        ).0 is Error,
    ensures
        ({
            let after = mbids_in(enabled, terms, world).1;
            mbids_in(enabled, again, after) == (Findings::NotFound, after)
        }),
{
    if enabled && !world.flagged(missing_key(terms.artist)) && world.list(
        mbid_key(terms.artist),
    ) is None {
        let (result, after) = single_in(terms.artist, terms.cache_only, false, world);
        let names = (world.splits)(terms.artist);
        if result is NotFound && terms.allow_multiple && names.len() > 1 {
            lemma_parts_kept(terms, names, Seq::empty(), true, true, after);
        }
    }
}

/// A search stands where it keeps no failure.
spec fn keeps_no_failure(step: Move<MbidState, Findings>) -> bool {
    match step {
        Move::Ask(state, asking) => {
            &&& !state.terms.cache_failures
            &&& asking matches Asking::StoreFlag(_, lifetime) ==> lifetime is None
            &&& match state.stage {
                MbidStage::Whole(single) => !single.keep_failure,
                MbidStage::Part(_, _, _, _, single) => !single.keep_failure,
                _ => true,
            }
        },
        Move::Done(_) => true,
    }
}

proof fn lemma_keeps_no_failure(s: MbidState, asking: Asking, enabled: bool, answer: Answer)
    requires
        keeps_no_failure(Move::Ask(s, asking)),
    ensures
        keeps_no_failure(mbids_next(enabled, s, answer)),
{
}

/// Where failures are not to be kept, no search for an artist, whole or in parts, is
/// kept as one that failed, whatever the answers are and whenever lookups are enabled or
/// disabled: the only flag that is stored is
/// the one, for good, that the identifiers are only some.
pub proof fn law_failures_not_kept(enabled: bool, terms: Terms, answers: Seq<(bool, Answer)>)
    requires
        !terms.cache_failures,
    ensures
        driven(switched_searches(), mbids_start(enabled, terms), answers) matches Move::Ask(
            _,
            asking,
        ) ==> forall|artist: Seq<char>| asking != #[trigger] remember_missing(artist),
{
    let holds = |step: Move<MbidState, Findings>| keeps_no_failure(step);
    let next = switched_searches();
    assert forall|s: MbidState, asking: Asking, given: (bool, Answer)| #[trigger]
        holds(Move::Ask(s, asking)) implies holds(#[trigger] next(s, given)) by {
        lemma_keeps_no_failure(s, asking, given.0, given.1);
    }
    lemma_driven(next, mbids_start(enabled, terms), answers, holds);
    assert(holds(driven(next, mbids_start(enabled, terms), answers)));
}

/// A result says of its identifiers that they were cached.
pub open spec fn says_cached(result: Findings) -> bool {
    match result {
        Findings::Found(_, cached) => cached,
        Findings::FoundPartial(_, cached) => cached,
        _ => true,
    }
}

proof fn lemma_parts_cached(
    terms: Terms,
    rest: Seq<Seq<char>>,
    mbids: Seq<Seq<char>>,
    all: bool,
    cached: bool,
    world: World,
)
    ensures
        ({
            let (result, after) = parts_in(terms, rest, mbids, all, cached, world);
            &&& after.sent.len() >= world.sent.len()
            &&& cached && !says_cached(result) ==> !terms.cache_only && after.sent.len()
                > world.sent.len()
        }),
    decreases rest.len(),
{
    if rest.len() > 0 {
        let keep = keeps_part(terms, rest[0]);
        let (result, after) = single_in(rest[0], terms.cache_only, keep, world);
        match result {
            Findings::Found(more, known) => {
                lemma_parts_cached(
                    terms,
                    rest.drop_first(),
                    mbids + more,
                    all,
                    cached && known,
                    after,
                );
            },
            _ => {
                lemma_parts_cached(terms, rest.drop_first(), mbids, false, cached, after);
            },
        }
    }
}

/// Identifiers that do not count as cached come from MusicBrainz: it was asked in this
/// search. A search that may only look into the attribute cache finds cached
/// identifiers only.
pub proof fn law_cached_results(enabled: bool, terms: Terms, world: World)
    ensures
        ({
            let (result, after) = mbids_in(enabled, terms, world);
            !says_cached(result) ==> !terms.cache_only && after.sent.len() > world.sent.len()
        }),
{
    let (result, after) = single_in(terms.artist, terms.cache_only, false, world);
    lemma_parts_cached(terms, (world.splits)(terms.artist), Seq::empty(), true, true, after);
}

/// While MusicBrainz is disabled, nothing is asked and nothing is found.
pub proof fn law_disabled_asks_nothing(
    terms: Terms,
    artist: Seq<char>,
    album: Seq<char>,
    cache_only: bool,
)
    ensures
        single_start(false, artist, cache_only, true) == Move::<SingleState, Findings>::Done(
            Findings::NotFound,
        ),
        mbids_start(false, terms) == Move::<MbidState, Findings>::Done(Findings::NotFound),
        group_start(false, artist, album) == Move::<GroupSearch, Option<Seq<char>>>::Done(None),
        genres_of(group_start(false, artist, album)) == Move::<GenreSearch, Seq<Seq<char>>>::Done(
            Seq::empty(),
        ),
{
}

/// While lookups are disabled, no search for an artist starts: a search that is under way
/// asks a web service only for the artist that it is at.
pub proof fn law_disabled_starts_nothing(state: MbidState, answer: Answer)
    ensures
        mbids_next(false, state, answer) matches Move::Ask(next, asking) ==> {
            ||| asking.service() is None
            ||| match (state.stage, next.stage) {
                (MbidStage::Whole(before), MbidStage::Whole(after)) => before.artist
                    == after.artist,
                (
                    MbidStage::Part(left, _, _, _, before),
                    MbidStage::Part(still, _, _, _, after),
                ) => before.artist == after.artist && left == still,
                _ => false,
            }
        },
{
}

/// A search for one artist in the attribute cache alone stands at its first question.
spec fn at_cache(single: SingleState) -> bool {
    single.cache_only && single.stage is Cached
}

/// A search in the attribute cache alone stands where it asks no web service.
spec fn asks_cache(step: Move<MbidState, Findings>) -> bool {
    match step {
        Move::Ask(state, asking) => {
            &&& state.terms.cache_only
            &&& asking.service() is None
            &&& match state.stage {
                MbidStage::Whole(single) => at_cache(single),
                MbidStage::Part(_, _, _, _, single) => at_cache(single),
                _ => true,
            }
        },
        Move::Done(_) => true,
    }
}

/// A search that may only look into the attribute cache asks no web service, whatever
/// the answers are and whenever lookups are enabled or disabled.
pub proof fn law_cache_only(enabled: bool, terms: Terms, answers: Seq<(bool, Answer)>)
    requires
        terms.cache_only,
    ensures
        driven(switched_searches(), mbids_start(enabled, terms), answers) matches Move::Ask(
            _,
            asking,
        ) ==> asking.service() is None,
{
    let holds = |step: Move<MbidState, Findings>| asks_cache(step);
    let next = switched_searches();
    assert forall|s: MbidState, asking: Asking, given: (bool, Answer)| #[trigger]
        holds(Move::Ask(s, asking)) implies holds(#[trigger] next(s, given)) by {
        lemma_asks_cache(s, asking, given.0, given.1);
    }
    lemma_driven(next, mbids_start(enabled, terms), answers, holds);
    assert(holds(driven(next, mbids_start(enabled, terms), answers)));
}

proof fn lemma_asks_cache(s: MbidState, asking: Asking, enabled: bool, answer: Answer)
    requires
        asks_cache(Move::Ask(s, asking)),
    ensures
        asks_cache(mbids_next(enabled, s, answer)),
{
}

/// A search stands where it does not split the name.
spec fn splits_nothing(step: Move<MbidState, Findings>) -> bool {
    match step {
        Move::Ask(state, asking) => {
            &&& !state.terms.allow_multiple
            &&& asking !is SplitArtist
            &&& state.stage !is Split
        },
        Move::Done(_) => true,
    }
}

/// A search that may not take a name for several artists never splits it, whatever
/// the answers are and whenever lookups are enabled or disabled.
pub proof fn law_single_name(enabled: bool, terms: Terms, answers: Seq<(bool, Answer)>)
    requires
        !terms.allow_multiple,
    ensures
        driven(switched_searches(), mbids_start(enabled, terms), answers) matches Move::Ask(
            _,
            asking,
        ) ==> asking !is SplitArtist,
{
    let holds = |step: Move<MbidState, Findings>| splits_nothing(step);
    let next = switched_searches();
    assert forall|s: MbidState, asking: Asking, given: (bool, Answer)| #[trigger]
        holds(Move::Ask(s, asking)) implies holds(#[trigger] next(s, given)) by {
        lemma_splits_nothing(s, asking, given.0, given.1);
    }
    lemma_driven(next, mbids_start(enabled, terms), answers, holds);
    assert(holds(driven(next, mbids_start(enabled, terms), answers)));
}

proof fn lemma_splits_nothing(s: MbidState, asking: Asking, enabled: bool, answer: Answer)
    requires
        splits_nothing(Move::Ask(s, asking)),
    ensures
        splits_nothing(mbids_next(enabled, s, answer)),
{
}

/// The steps of a search for a release group.
pub open spec fn group_searches() -> spec_fn(GroupSearch, Answer) -> Move<
    GroupSearch,
    Option<Seq<char>>,
> {
    |state: GroupSearch, answer: Answer| group_next(state, answer)
}

/// What a search for a release group comes to in a world, and the world after it.
pub open spec fn group_in(enabled: bool, artist: Seq<char>, album: Seq<char>, world: World) -> (
    Option<Seq<char>>,
    World,
) {
    if enabled {
        let url = group_url(artist, album);
        (
            group_found((world.pages)(Service::MusicBrainz, url)),
            world.having_sent(Asking::Fetch(Service::MusicBrainz, url)),
        )
    } else {
        (None, world)
    }
}

/// A search for a release group asks MusicBrainz once.
pub proof fn law_group_search(enabled: bool, artist: Seq<char>, album: Seq<char>, world: World)
    ensures
        comes_to(
            group_searches(),
            group_start(enabled, artist, album),
            world,
            group_in(enabled, artist, album, world),
        ),
{
    let next = group_searches();
    let outcome = group_in(enabled, artist, album, world);
    lemma_done(next, outcome.0, outcome.1);
    if enabled {
        let asked = Asking::Fetch(Service::MusicBrainz, group_url(artist, album));
        lemma_ask(next, GroupSearch, asked, world, outcome);
    }
}

/// The steps of a search for the genres of a release group.
pub open spec fn genre_searches() -> spec_fn(GenreSearch, Answer) -> Move<
    GenreSearch,
    Seq<Seq<char>>,
> {
    |state: GenreSearch, answer: Answer| genres_next(state, answer)
}

/// What a search for the genres of a release group comes to in a world, and the world
/// after it.
pub open spec fn genres_in(enabled: bool, artist: Seq<char>, album: Seq<char>, world: World) -> (
    Seq<Seq<char>>,
    World,
) {
    let (group, after) = group_in(enabled, artist, album, world);
    match group {
        Some(mbid) => {
            let url = genres_url(mbid);
            (
                genres_found((world.pages)(Service::MusicBrainz, url)),
                after.having_sent(Asking::Fetch(Service::MusicBrainz, url)),
            )
        },
        None => (Seq::empty(), after),
    }
}

/// The genres of an album are those of the release group that the search for it
/// finds.
pub proof fn law_genre_search(enabled: bool, artist: Seq<char>, album: Seq<char>, world: World)
    ensures
        comes_to(
            genre_searches(),
            genres_of(group_start(enabled, artist, album)),
            world,
            genres_in(enabled, artist, album, world),
        ),
{
    let next = genre_searches();
    let between = group_in(enabled, artist, album, world);
    let outcome = genres_in(enabled, artist, album, world);
    lemma_done(next, outcome.0, outcome.1);
    if between.0 is Some {
        let asked = Asking::Fetch(Service::MusicBrainz, genres_url(between.0->0));
        lemma_ask(next, GenreSearch::Genres, asked, between.1, outcome);
    }
    law_group_search(enabled, artist, album, world);
    lemma_within(
        group_searches(),
        next,
        |step: Move<GroupSearch, Option<Seq<char>>>| genres_of(step),
        |group: GroupSearch| GenreSearch::Group(group),
        group_start(enabled, artist, album),
        world,
        between,
        outcome,
    );
}

} // verus!
